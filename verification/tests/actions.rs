use maidono::actions::action::{Action, ActionEntry};
use maidono::actions::commands::Commands;
use maidono::actions::group::{Group, GroupActions};
use maidono::actions::host::HostRef;
use maidono::actions::refs::{flatten_optional_refs, ActionRefs};
use maidono::actions::{
    available_actions, group_not_found, parse_failure, read_all_groups, try_read_all_groups,
};
use maidono::commands::{NoTestPayload, StringTestPayload};
use maidono::state::actions::load_initial_actions;
use maidono::utils::action_path::ActionPath;
use maidono::utils::error::Error;

fn make_test_action_entry(name: &str) -> ActionEntry {
    ActionEntry::new(
        name.to_owned(),
        String::from("POST /test/action"),
        None,
        None,
        None,
        None,
        Commands::new(vec![String::from("some-command")]),
    )
}

fn group(names: &[&str]) -> Group {
    Group::from_deserialized(GroupActions::new(
        names.iter().map(|name| make_test_action_entry(name)).collect(),
    ))
    .unwrap()
}

fn lines_of(commands: &Commands) -> Vec<String> {
    (0..commands.len())
        .map(|i| String::from(commands.get(i)))
        .collect()
}

#[test]
fn deserialize_github() {
    assert_eq!(HostRef::from_name("gh"), HostRef::GitHub);
    assert_eq!(HostRef::from_name("github"), HostRef::GitHub);
}

#[test]
fn deserialize_any() {
    assert_eq!(HostRef::from_name("*"), HostRef::Any);
}

#[test]
fn deserialize_custom() {
    assert_eq!(
        HostRef::from_name("my-self-hosted-config"),
        HostRef::Custom(String::from("my-self-hosted-config"))
    );
}

#[test]
fn host_names_are_taken_literally() {
    assert_eq!(
        HostRef::from_name("GitHub"),
        HostRef::Custom(String::from("GitHub"))
    );
    assert_eq!(HostRef::from_name("gh "), HostRef::Custom(String::from("gh ")));
    assert_eq!(HostRef::from_name(""), HostRef::Custom(String::new()));
    assert_ne!(HostRef::from_name("*"), HostRef::GitHub);
    assert_ne!(
        HostRef::Custom(String::from("a")),
        HostRef::Custom(String::from("b"))
    );
}

#[test]
fn host_is_shown_by_name() {
    assert_eq!(HostRef::GitHub.to_string(), "GitHub");
    assert_eq!(HostRef::Any.to_string(), "any");
    assert_eq!(HostRef::Custom(String::from("forge")).to_string(), "'forge'");
}

#[test]
fn commands_deserialize_string() {
    let cmds = Commands::new(vec![String::from("sudo something")]);

    let parsed = Commands::from(String::from("sudo something"));
    assert_eq!(lines_of(&cmds), lines_of(&parsed));
    assert!(!parsed.has_multiple_commmands());
}

#[test]
fn yaml_single_command() {
    let expected = Commands::new(vec![String::from("sudo something")]);

    let parsed = serde_yaml::from_str::<String>("sudo something").map(Commands::from);

    assert_eq!(lines_of(&expected), lines_of(&parsed.unwrap()));

    let parsed = serde_yaml::from_str::<String>("'sudo something'").map(Commands::from);

    assert_eq!(lines_of(&expected), lines_of(&parsed.unwrap()));

    let parsed = serde_yaml::from_str::<String>("\"sudo something\"").map(Commands::from);

    assert_eq!(lines_of(&expected), lines_of(&parsed.unwrap()));
}

#[test]
fn yaml_multiple_commands() {
    let expected = Commands::new(vec![
        String::from("npm ci"),
        String::from("npm test"),
        String::from("npm build"),
    ]);

    let parsed = serde_yaml::from_str::<String>("|\n  npm ci\n\n  npm test\n  npm build")
        .map(Commands::from);

    assert_eq!(lines_of(&expected), lines_of(&parsed.unwrap()));
}

#[test]
fn commands_from_block_skip_empty_lines() {
    let commands = Commands::from(String::from("npm ci\n\nnpm test\nnpm build"));
    assert_eq!(lines_of(&commands), vec!["npm ci", "npm test", "npm build"]);
    assert!(commands.has_multiple_commmands());
    assert_eq!(commands.to_string(), "npm ci\nnpm test\nnpm build\n");
}

#[test]
fn commands_from_text_with_line_endings() {
    assert!(lines_of(&Commands::from(String::new())).is_empty());
    assert!(lines_of(&Commands::from(String::from("\n\n"))).is_empty());
    assert_eq!(
        lines_of(&Commands::from(String::from("a\r\nb\n\r\nc\r"))),
        vec!["a", "b", "c\r"]
    );
    assert_eq!(
        lines_of(&Commands::from(String::from("  indented\n \nlast\n"))),
        vec!["  indented", " ", "last"]
    );
    assert_eq!(Commands::new(Vec::new()).to_string(), "");
}

#[test]
fn optional_refs_are_flattened() {
    assert!(flatten_optional_refs(None).is_empty());
    assert_eq!(
        flatten_optional_refs(Some(ActionRefs::Single(String::from("some-action")))),
        vec!["some-action"]
    );
    assert_eq!(
        flatten_optional_refs(Some(ActionRefs::Multiple(vec![
            String::from("action-1"),
            String::from("action-2"),
        ]))),
        vec!["action-1", "action-2"]
    );
    assert!(flatten_optional_refs(Some(ActionRefs::Multiple(Vec::new()))).is_empty());
}

#[test]
fn action_from_entry_keeps_every_field() {
    let entry = ActionEntry::new(
        String::from("my-action"),
        String::from("POST /my/action"),
        Some(HostRef::Any),
        Some(String::from("my_secret_key")),
        Some(ActionRefs::Single(String::from("other-action"))),
        Some(ActionRefs::Multiple(vec![
            String::from("something-else"),
            String::from("other-group/action"),
        ])),
        Commands::new(vec![String::from("some-command")]),
    );
    let (name, action) = Action::from_deserialized(entry).unwrap();
    assert_eq!(name, "my-action");
    assert_eq!(action.trigger(), "POST /my/action");
    assert!(matches!(action.origin(), Some(HostRef::Any)));
    assert_eq!(action.secret(), Some("my_secret_key"));
    assert_eq!(action.before(), &vec![String::from("other-action")]);
    assert_eq!(
        action.after(),
        &vec![
            String::from("something-else"),
            String::from("other-group/action")
        ]
    );
    assert_eq!(lines_of(action.action()), vec!["some-command"]);
    let (_, minimal) = Action::from_deserialized(make_test_action_entry("minimal")).unwrap();
    assert!(minimal.origin().is_none());
    assert!(minimal.secret().is_none());
    assert!(minimal.before().is_empty());
    assert!(minimal.after().is_empty());
}

#[test]
fn group_keeps_actions_in_order() {
    let group = group(&["action1", "action2", "action3"]);
    assert_eq!(group.action_count(), 3);
    assert_eq!(
        group.enumerate_action_names(),
        vec!["action1", "action2", "action3"]
    );
    assert_eq!(group.enumerate_actions()[1].0, "action2");
    assert_eq!(group.enumerate_actions()[1].1.trigger(), "POST /test/action");
    let empty = Group::from_deserialized(GroupActions::new(Vec::new())).unwrap();
    assert_eq!(empty.action_count(), 0);
}

#[test]
fn yaml_duplicate() {
    let parsed: Result<GroupActions, Error> = Ok(GroupActions::new(vec![
        make_test_action_entry("action1"),
        make_test_action_entry("action1"),
    ]));

    assert!(parsed.is_ok());
    assert!(Group::from_deserialized(parsed.unwrap()).is_err())
}

#[test]
fn group_names_each_duplicate() {
    let result = Group::from_deserialized(GroupActions::new(vec![
        make_test_action_entry("action1"),
        make_test_action_entry("action1"),
    ]));
    assert_eq!(
        result.unwrap_err().to_detailed_string(),
        " Duplicate action named 'action1'\n"
    );
    let several = Group::from_deserialized(GroupActions::new(vec![
        make_test_action_entry("a"),
        make_test_action_entry("b"),
        make_test_action_entry("a"),
        make_test_action_entry("b"),
        make_test_action_entry("a"),
    ]));
    assert_eq!(
        several.unwrap_err().to_detailed_string(),
        " Duplicate action named 'a'\n Duplicate action named 'b'\n Duplicate action named 'a'\n"
    );
}

#[test]
fn repeated_group_names_become_errors() {
    let found = vec![
        (String::from("site"), Ok(group(&["deploy"]))),
        (String::from("docs"), Err(Error::StaticMessage("unreadable"))),
        (String::from("site"), Ok(group(&["other"]))),
        (String::from("docs"), Ok(group(&["build"]))),
    ];
    let checked = try_read_all_groups(found);
    assert_eq!(checked.len(), 4);
    assert_eq!(checked[0].0, "site");
    assert!(matches!(&checked[0].1, Ok(group) if group.action_count() == 1));
    assert!(matches!(&checked[1].1, Err(Error::StaticMessage("unreadable"))));
    assert_eq!(checked[2].0, "site");
    assert!(matches!(&checked[2].1, Err(Error::StaticMessage("Duplicate group."))));
    assert!(matches!(&checked[3].1, Err(Error::StaticMessage("Duplicate group."))));
}

#[test]
fn all_groups_need_every_group() {
    let good = read_all_groups(vec![
        (String::from("site"), Ok(group(&["deploy", "check"]))),
        (String::from("docs"), Ok(group(&["build"]))),
    ])
    .unwrap();
    let groups = good.into_groups();
    assert_eq!(groups.len(), 2);
    assert_eq!(groups[0].0, "site");
    assert_eq!(groups[1].1.enumerate_action_names(), vec!["build"]);
    let failed = read_all_groups(vec![
        (String::from("site"), Ok(group(&["deploy"]))),
        (String::from("docs"), Err(Error::StaticMessage("unreadable"))),
        (String::from("more"), Err(Error::StaticMessage("later"))),
    ]);
    assert!(matches!(failed, Err(Error::StaticMessage("unreadable"))));
    let repeated = read_all_groups(vec![
        (String::from("site"), Ok(group(&["deploy"]))),
        (String::from("site"), Ok(group(&["deploy"]))),
    ]);
    assert!(matches!(repeated, Err(Error::StaticMessage("Duplicate group."))));
}

#[test]
fn initial_actions_are_keyed_by_group_and_name() {
    let groups = read_all_groups(vec![
        (String::from("site"), Ok(group(&["deploy", "check"]))),
        (String::from("docs"), Ok(group(&["deploy"]))),
    ])
    .unwrap();
    let actions = load_initial_actions(groups).unwrap();
    assert_eq!(actions.len(), 3);
    assert!(actions.find(&ActionPath::from_parts("site", "deploy")).is_some());
    assert!(actions.find(&ActionPath::from_parts("site", "check")).is_some());
    assert!(actions.find(&ActionPath::from_parts("docs", "deploy")).is_some());
    assert!(actions.find(&ActionPath::from_parts("docs", "check")).is_none());
    let found = actions.lookup_by_trigger("POST", "/test/action").unwrap();
    assert_eq!(found.path.to_string(), "docs/deploy");
}

#[test]
fn parse_failure_names_file_cause_and_place() {
    let placed = parse_failure("/etc/a.yml", "bad indentation", Some((4, 2)));
    assert_eq!(
        placed.to_detailed_string(),
        " unable to parse file /etc/a.yml\n due to the following error(s) :\n   bad indentation\n     in file /etc/a.yml, line 4, column 2\n"
    );
    let unplaced = parse_failure("/etc/a.yml", "unexpected end", None);
    assert_eq!(
        unplaced.to_detailed_string(),
        " unable to parse file /etc/a.yml\n due to the following error(s) :\n   unexpected end\n"
    );
    assert_eq!(
        group_not_found("site").to_detailed_string(),
        " Group 'site' not found.\n"
    );
}

#[test]
fn trying_an_action_sends_nothing_yet() {
    maidono::commands::test(String::from("site/deploy"), NoTestPayload());
    maidono::commands::test(
        String::from("http://localhost:4471/deploy"),
        StringTestPayload(String::from("{}")),
    );
}

#[test]
fn available_actions_are_those_of_groups_that_were_read() {
    let found = vec![
        (String::from("site"), Ok(group(&["deploy", "check"]))),
        (String::from("bad"), Err(Error::StaticMessage("unreadable"))),
        (String::from("empty"), Ok(group(&[]))),
        (String::from("docs"), Ok(group(&["build"]))),
    ];
    assert_eq!(
        available_actions(&found),
        vec![
            ActionPath::from_parts("site", "deploy"),
            ActionPath::from_parts("site", "check"),
            ActionPath::from_parts("docs", "build"),
        ]
    );
    assert!(available_actions(&Vec::new()).is_empty());
}

#[test]
fn service_manager_failures_are_reported() {
    assert_eq!(maidono::commands::systemctl(true, Some(0)), None);
    assert_eq!(maidono::commands::systemctl(true, None), None);
    assert_eq!(
        maidono::commands::systemctl(false, Some(3)),
        Some(String::from("systemctl exited with status code 3"))
    );
    assert_eq!(
        maidono::commands::systemctl(false, Some(0)),
        Some(String::from("systemctl exited with status code 0"))
    );
    assert_eq!(
        maidono::commands::systemctl(false, Some(-17)),
        Some(String::from("systemctl exited with status code -17"))
    );
    assert_eq!(
        maidono::commands::systemctl(false, Some(i32::MIN)),
        Some(format!("systemctl exited with status code {}", i32::MIN))
    );
    assert_eq!(
        maidono::commands::systemctl(false, Some(i32::MAX)),
        Some(format!("systemctl exited with status code {}", i32::MAX))
    );
    assert_eq!(
        maidono::commands::systemctl(false, None),
        Some(String::from("systemctl was terminated by a signal"))
    );
}
