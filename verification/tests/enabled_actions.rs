use maidono::enabled_actions::dump::{
    write_enabled_action_comment, write_enabled_action_entry, write_enabled_actions_file,
};
use maidono::enabled_actions::load::{parse_enabled_action_entry, parse_enabled_actions_file};
use maidono::enabled_actions::{action_status, ActionStatus, Change, EnabledEntry, EnabledList};
use maidono::utils::action_path::{ActionPath, ActionPathPattern};

#[test]
fn dump_action_entry() {
    let mut output = String::new();
    write_enabled_action_entry(
        &mut output,
        &EnabledEntry::Action(ActionPath::from_parts("my_group", "my_action_♥")),
    );

    assert!(!output.is_empty());

    assert_eq!(output, "action:my_group/my_action_♥\n");
}

#[test]
fn dump_comment_line() {
    let mut output = String::new();
    write_enabled_action_comment(&mut output, "check this out");

    assert!(!output.is_empty());

    assert_eq!(output, "#: check this out\n");
}

#[test]
fn write_whole_file() {
    let mut output = String::new();
    write_enabled_actions_file(
        &mut output,
        &EnabledList::new(vec![EnabledEntry::Action(ActionPath::from_parts(
            "hoshi", "mi",
        ))]),
    );

    assert!(!output.is_empty());

    assert_eq!(
        output,
        "#: This file is managed by maidono\n#: please do not modify it manually\naction:hoshi/mi\n"
    );
}

#[test]
fn load_action_entry() {
    let result = parse_enabled_action_entry("action:my_group/my_action");
    assert!(result.is_ok());

    assert!(
        matches!(result.unwrap(), Some(EnabledEntry::Action(a)) if a == ActionPath::from_parts("my_group", "my_action"))
    )
}

#[test]
fn load_comment_line() {
    let result = parse_enabled_action_entry("#: check this out");
    assert!(result.is_ok());

    assert!(matches!(result.unwrap(), None))
}

#[test]
fn invalid_line() {
    let result = parse_enabled_action_entry("what:is:this");
    assert!(result.is_err());
}

#[test]
fn read_whole_file() {
    let result = parse_enabled_actions_file(String::from(
        "#: misaka\naction:hoshi/mi\naction:miko/to\n",
    ));
    assert!(result.is_ok());

    let ena = result.unwrap();
    assert_eq!(ena.entries().len(), 2);
    assert!(
        matches!(&ena.entries()[0], EnabledEntry::Action(a) if *a == ActionPath::from_parts("hoshi", "mi"))
    );
    assert!(
        matches!(&ena.entries()[1], EnabledEntry::Action(a) if *a == ActionPath::from_parts("miko", "to"))
    );
}

#[test]
fn are_actions_enabled() {
    let ena = EnabledList::new(vec![EnabledEntry::Action(ActionPath::from_parts(
        "hoshi", "mi",
    ))]);

    assert!(ena.is_action_enabled("hoshi", "mi"));
    assert!(!ena.is_action_enabled("hoshi", "no"));
    assert!(!ena.is_action_enabled("noe", "mi"));
    assert!(!ena.is_action_enabled("miko", "to"));
}

#[test]
fn status_from_flags() {
    assert_eq!(ActionStatus::from_flags(true, false), Some(ActionStatus::Enabled));
    assert_eq!(ActionStatus::from_flags(false, true), Some(ActionStatus::Disabled));
    assert_eq!(ActionStatus::from_flags(true, true), None);
    assert_eq!(ActionStatus::from_flags(false, false), None);
}

#[test]
fn entry_errors_name_what_is_wrong() {
    let scope = parse_enabled_action_entry("what:is:this").unwrap_err();
    assert_eq!(scope.to_detailed_string(), " invalid scope 'what'\n");
    let entry = parse_enabled_action_entry("nothing here").unwrap_err();
    assert_eq!(entry.to_detailed_string(), " invalid entry 'nothing here'\n");
    let bare = parse_enabled_action_entry("action").unwrap_err();
    assert_eq!(bare.to_detailed_string(), " invalid entry 'action'\n");
    let path = parse_enabled_action_entry("action:lonely").unwrap_err();
    assert_eq!(
        path.to_detailed_string(),
        " Missing action part in path 'lonely'\n"
    );
    assert!(matches!(parse_enabled_action_entry("#"), Ok(None)));
    assert!(parse_enabled_action_entry("").is_err());
}

#[test]
fn file_stops_at_first_bad_line() {
    let result = parse_enabled_actions_file(String::from(
        "action:a/b\nbad line\nother:x\n",
    ));
    assert_eq!(
        result.unwrap_err().to_detailed_string(),
        " invalid entry 'bad line'\n"
    );
}

#[test]
fn file_lines_may_end_with_carriage_return() {
    let list = parse_enabled_actions_file(String::from("#: x\r\naction:a/b\r\naction:c/d")).unwrap();
    assert_eq!(list.entries().len(), 2);
    assert!(list.is_action_enabled("a", "b"));
    assert!(list.is_action_enabled("c", "d"));
}

#[test]
fn written_file_reads_back() {
    let mut list = EnabledList::new(Vec::new());
    assert!(list.enable_path(ActionPath::from_parts("a", "b")));
    assert!(list.enable_path(ActionPath::from_parts("c", "d")));
    let mut text = String::new();
    write_enabled_actions_file(&mut text, &list);
    let back = parse_enabled_actions_file(text).unwrap();
    assert_eq!(back.entries().len(), 2);
    assert!(back.is_path_enabled(&ActionPath::from_parts("a", "b")));
    assert!(back.is_path_enabled(&ActionPath::from_parts("c", "d")));
}

#[test]
fn enable_and_disable_paths() {
    let mut list = EnabledList::new(Vec::new());
    assert!(list.enable_path(ActionPath::from_parts("a", "b")));
    assert!(!list.enable_path(ActionPath::from_parts("a", "b")));
    assert_eq!(list.entries().len(), 1);
    assert!(list.is_path_enabled(&ActionPath::from_parts("a", "b")));
    assert!(list.disable_path(ActionPath::from_parts("a", "b")));
    assert!(!list.disable_path(ActionPath::from_parts("a", "b")));
    assert_eq!(list.entries().len(), 0);
}

#[test]
fn disable_removes_every_occurrence() {
    let mut list = EnabledList::new(vec![
        EnabledEntry::Action(ActionPath::from_parts("a", "b")),
        EnabledEntry::Action(ActionPath::from_parts("c", "d")),
        EnabledEntry::Action(ActionPath::from_parts("a", "b")),
    ]);
    assert!(list.disable_path(ActionPath::from_parts("a", "b")));
    assert_eq!(list.entries().len(), 1);
    assert!(list.is_action_enabled("c", "d"));
}

#[test]
fn patterns_switch_groups_on_and_off() {
    let available = vec![
        ActionPath::from_parts("deploy", "site"),
        ActionPath::from_parts("build", "site"),
        ActionPath::from_parts("deploy", "docs"),
    ];
    let mut list = EnabledList::new(vec![EnabledEntry::Action(ActionPath::from_parts(
        "deploy", "docs",
    ))]);
    let group = ActionPathPattern::parse("deploy").unwrap();
    let changes = list.enable_pattern(&available, &group);
    assert_eq!(
        changes,
        vec![
            Change { index: 0, changed: true },
            Change { index: 2, changed: false }
        ]
    );
    assert!(list.is_action_enabled("deploy", "site"));
    assert!(!list.is_action_enabled("build", "site"));
    let nothing = list.enable_pattern(&available, &ActionPathPattern::parse("nowhere").unwrap());
    assert!(nothing.is_empty());
    let single = ActionPathPattern::parse("deploy/site").unwrap();
    let off = list.disable_pattern(&available, &single);
    assert_eq!(off, vec![Change { index: 0, changed: true }]);
    let again = list.disable_pattern(&available, &single);
    assert_eq!(again, vec![Change { index: 0, changed: false }]);
    assert!(list.is_action_enabled("deploy", "docs"));
}

#[test]
fn status_of_an_action_follows_the_list() {
    let list = EnabledList::new(vec![EnabledEntry::Action(ActionPath::from_parts(
        "hoshi", "mi",
    ))]);
    assert_eq!(
        action_status(Some(&list), "hoshi", "mi"),
        Some(ActionStatus::Enabled)
    );
    assert_eq!(
        action_status(Some(&list), "hoshi", "no"),
        Some(ActionStatus::Disabled)
    );
    assert_eq!(action_status(None, "hoshi", "mi"), None);
}
