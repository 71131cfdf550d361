use maidono::actions::action::{Action, ActionEntry};
use maidono::actions::commands::Commands;
use maidono::actions::refs::ActionRefs;
use maidono::state::actions::Actions;
use maidono::utils::action_path::ActionPath;

fn action(trigger: &str, before: &[&str], after: &[&str], commands: &[&str]) -> Action {
    let refs = |names: &[&str]| {
        if names.is_empty() {
            None
        } else {
            Some(ActionRefs::Multiple(
                names.iter().map(|name| String::from(*name)).collect(),
            ))
        }
    };
    let entry = ActionEntry::new(
        String::from("unnamed"),
        String::from(trigger),
        None,
        None,
        refs(before),
        refs(after),
        Commands::new(commands.iter().map(|c| String::from(*c)).collect()),
    );
    Action::from_deserialized(entry).unwrap().1
}

fn registry(entries: Vec<(&str, Action)>) -> Actions {
    Actions::build(
        entries
            .into_iter()
            .map(|(path, action)| (ActionPath::parse(path).unwrap(), action))
            .collect(),
    )
    .unwrap()
}

fn plan_of(actions: &Actions, path: &str) -> Vec<(String, Vec<String>)> {
    let context = actions.resolve(&ActionPath::parse(path).unwrap()).unwrap();
    context
        .actions()
        .iter()
        .map(|step| {
            let commands = step.commands();
            (
                step.path().to_string(),
                (0..commands.len())
                    .map(|i| String::from(commands.get(i)))
                    .collect(),
            )
        })
        .collect()
}

fn names(plan: &[(String, Vec<String>)]) -> Vec<&str> {
    plan.iter().map(|(path, _)| path.as_str()).collect()
}

#[test]
fn build_refuses_shared_path() {
    let result = Actions::build(vec![
        (ActionPath::from_parts("g", "a"), action("POST /a", &[], &[], &["one"])),
        (ActionPath::from_parts("g", "b"), action("POST /b", &[], &[], &["two"])),
        (ActionPath::from_parts("g", "a"), action("POST /c", &[], &[], &["three"])),
    ]);
    assert_eq!(
        result.unwrap_err().to_detailed_string(),
        " Duplicate action 'g/a'\n"
    );
}

#[test]
fn build_keeps_every_action() {
    let actions = registry(vec![
        ("g/b", action("POST /b", &[], &[], &["two"])),
        ("g/a", action("POST /a", &[], &[], &["one"])),
        ("f/z", action("POST /z", &[], &[], &["three"])),
    ]);
    assert_eq!(actions.len(), 3);
    let found = actions.find(&ActionPath::from_parts("g", "a")).unwrap();
    assert_eq!(found.action.trigger(), "POST /a");
    assert_eq!(found.path.to_string(), "g/a");
    assert!(actions.find(&ActionPath::from_parts("g", "c")).is_none());
    assert_eq!(Actions::new().len(), 0);
}

#[test]
fn lookup_is_exact_and_method_sensitive() {
    let actions = registry(vec![("g/x", action("POST /x", &[], &[], &["run"]))]);
    assert!(actions.lookup_by_trigger("GET", "/x").is_none());
    assert!(actions.lookup_by_trigger("POST", "/x/").is_none());
    assert!(actions.lookup_by_trigger("POST", "x").is_none());
    assert!(actions.lookup_by_trigger("post", "/x").is_none());
    assert!(actions.lookup_by_trigger("POST ", "/x").is_none());
    let found = actions.lookup_by_trigger("POST", "/x").unwrap();
    assert_eq!(found.path.to_string(), "g/x");
    assert_eq!(found.action.trigger(), "POST /x");
}

#[test]
fn lookup_prefers_the_smaller_path() {
    let actions = registry(vec![
        ("zeta/first", action("POST /same", &[], &[], &["z"])),
        ("alpha/second", action("POST /same", &[], &[], &["a2"])),
        ("alpha/first", action("POST /same", &[], &[], &["a1"])),
        ("Alpha/other", action("POST /other", &[], &[], &["o"])),
    ]);
    let found = actions.lookup_by_trigger("POST", "/same").unwrap();
    assert_eq!(found.path.to_string(), "alpha/first");
    assert_eq!(found.action.action().get(0), "a1");
}

#[test]
fn lookup_without_actions_finds_nothing() {
    assert!(Actions::new().lookup_by_trigger("POST", "/x").is_none());
}

#[test]
fn resolve_alone_yields_the_action_itself() {
    let actions = registry(vec![("g/p", action("POST /p", &[], &[], &["make", "make install"]))]);
    let plan = plan_of(&actions, "g/p");
    assert_eq!(
        plan,
        vec![(
            String::from("g/p"),
            vec![String::from("make"), String::from("make install")]
        )]
    );
}

#[test]
fn resolve_puts_before_and_after_around_the_action() {
    let actions = registry(vec![
        ("g/a", action("POST /a", &["g/b"], &["g/c"], &["a"])),
        ("g/b", action("POST /b", &["g/d"], &[], &["b"])),
        ("g/c", action("POST /c", &[], &["g/d"], &["c"])),
        ("g/d", action("POST /d", &[], &[], &["d"])),
    ]);
    let b = plan_of(&actions, "g/b");
    let c = plan_of(&actions, "g/c");
    let a = plan_of(&actions, "g/a");
    assert_eq!(names(&b), vec!["g/d", "g/b"]);
    assert_eq!(names(&c), vec!["g/c", "g/d"]);
    let mut expected = b.clone();
    expected.push((String::from("g/a"), vec![String::from("a")]));
    expected.extend(c.clone());
    assert_eq!(a, expected);
    assert_eq!(names(&a), vec!["g/d", "g/b", "g/a", "g/c", "g/d"]);
}

#[test]
fn resolve_keeps_declaration_order_and_repeats() {
    let actions = registry(vec![
        ("g/a", action("POST /a", &["g/y", "g/x", "g/y"], &["g/x"], &["a"])),
        ("g/x", action("POST /x", &[], &[], &["x"])),
        ("g/y", action("POST /y", &[], &[], &["y"])),
    ]);
    assert_eq!(
        names(&plan_of(&actions, "g/a")),
        vec!["g/y", "g/x", "g/y", "g/a", "g/x"]
    );
}

#[test]
fn resolve_fails_on_missing_reference() {
    let actions = registry(vec![
        ("g/a", action("POST /a", &["g/b", "g/nowhere"], &[], &["a"])),
        ("g/b", action("POST /b", &[], &[], &["b"])),
        ("g/c", action("POST /c", &[], &["other/gone"], &["c"])),
        ("g/d", action("POST /d", &["g/c"], &[], &["d"])),
    ]);
    let before = actions.resolve(&ActionPath::from_parts("g", "a"));
    assert_eq!(
        before.unwrap_err().to_detailed_string(),
        " action 'g/nowhere' not found\n"
    );
    let after = actions.resolve(&ActionPath::from_parts("g", "c"));
    assert_eq!(
        after.unwrap_err().to_detailed_string(),
        " action 'other/gone' not found\n"
    );
    let nested = actions.resolve(&ActionPath::from_parts("g", "d"));
    assert_eq!(
        nested.unwrap_err().to_detailed_string(),
        " action 'other/gone' not found\n"
    );
}

#[test]
fn resolve_fails_on_reference_that_names_no_path() {
    let actions = registry(vec![("g/a", action("POST /a", &["lonely"], &[], &["a"]))]);
    let result = actions.resolve(&ActionPath::from_parts("g", "a"));
    assert_eq!(
        result.unwrap_err().to_detailed_string(),
        " action 'lonely' not found\n"
    );
}

#[test]
fn resolve_fails_on_unknown_path() {
    let actions = registry(vec![("g/a", action("POST /a", &[], &[], &["a"]))]);
    let result = actions.resolve(&ActionPath::from_parts("g", "b"));
    assert_eq!(
        result.unwrap_err().to_detailed_string(),
        " action 'g/b' not found\n"
    );
}

#[test]
fn load_context_for_a_looked_up_action() {
    let actions = registry(vec![
        ("g/a", action("POST /a", &["g/b"], &[], &["a"])),
        ("g/b", action("POST /b", &[], &[], &["b"])),
    ]);
    let found = actions.lookup_by_trigger("POST", "/a").unwrap();
    let context = actions.load_context_for(found).unwrap();
    assert_eq!(context.actions().len(), 2);
    assert_eq!(context.actions()[0].path().to_string(), "g/b");
    assert_eq!(context.actions()[1].path().to_string(), "g/a");
}

#[test]
fn resolve_within_reaches_as_far_as_allowed() {
    let actions = registry(vec![
        ("g/a", action("POST /a", &["g/b"], &[], &["a"])),
        ("g/b", action("POST /b", &["g/c"], &[], &["b"])),
        ("g/c", action("POST /c", &[], &[], &["c"])),
        ("g/m", action("POST /m", &["g/c", "g/gone"], &[], &["m"])),
    ]);
    let a = ActionPath::from_parts("g", "a");
    assert!(actions.resolve_within(&a, 0).is_none());
    assert!(actions.resolve_within(&a, 1).is_none());
    assert!(actions.resolve_within(&a, 2).is_none());
    for depth in [3, 4, usize::MAX] {
        let context = actions.resolve_within(&a, depth).unwrap().unwrap();
        let steps: Vec<String> = context
            .actions()
            .iter()
            .map(|step| step.path().to_string())
            .collect();
        assert_eq!(steps, vec!["g/c", "g/b", "g/a"]);
    }
    let c = ActionPath::from_parts("g", "c");
    assert!(actions.resolve_within(&c, 0).is_none());
    assert!(actions.resolve_within(&c, 1).unwrap().is_ok());
    // an action that is not there is missing at any depth
    let gone = ActionPath::from_parts("g", "gone");
    for depth in [0, 1, 7] {
        assert_eq!(
            actions
                .resolve_within(&gone, depth)
                .unwrap()
                .unwrap_err()
                .to_detailed_string(),
            " action 'g/gone' not found\n"
        );
    }
    let m = ActionPath::from_parts("g", "m");
    assert!(actions.resolve_within(&m, 1).is_none());
    assert_eq!(
        actions
            .resolve_within(&m, 2)
            .unwrap()
            .unwrap_err()
            .to_detailed_string(),
        " action 'g/gone' not found\n"
    );
}

#[test]
fn references_in_a_circle_are_too_deep_for_any_depth() {
    let actions = registry(vec![
        ("g/self", action("POST /self", &["g/self"], &[], &["s"])),
        ("g/ping", action("POST /ping", &[], &["g/pong"], &["p"])),
        ("g/pong", action("POST /pong", &["g/ping"], &[], &["q"])),
    ]);
    for depth in [0, 1, 2, 9, 64] {
        assert!(actions
            .resolve_within(&ActionPath::from_parts("g", "self"), depth)
            .is_none());
        assert!(actions
            .resolve_within(&ActionPath::from_parts("g", "ping"), depth)
            .is_none());
    }
    let found = actions.lookup_by_trigger("POST", "/pong").unwrap();
    assert!(actions.load_context_within(found, 16).is_none());
}

#[test]
fn insert_keeps_what_is_there() {
    let mut actions = Actions::new();
    assert!(actions
        .insert(ActionPath::from_parts("g", "b"), action("POST /b", &[], &[], &["b"]))
        .is_none());
    assert!(actions
        .insert(ActionPath::from_parts("g", "a"), action("POST /a", &[], &[], &["a"]))
        .is_none());
    let back = actions.insert(
        ActionPath::from_parts("g", "b"),
        action("POST /other", &[], &[], &["other"]),
    );
    let (path, refused) = back.unwrap();
    assert_eq!(path, ActionPath::from_parts("g", "b"));
    assert_eq!(refused.trigger(), "POST /other");
    assert_eq!(actions.len(), 2);
    let kept = actions.find(&ActionPath::from_parts("g", "b")).unwrap();
    assert_eq!(kept.action.trigger(), "POST /b");
    assert!(actions.lookup_by_trigger("POST", "/other").is_none());
}
