use maidono::utils::action_path::{ActionPath, ActionPathPattern};

#[test]
fn parse_action_path() {
    let result = ActionPath::parse("my_group/my_action");
    assert!(result.is_ok());

    let (group_part, action_part) = result.unwrap().into_parts();
    assert_eq!(group_part, "my_group");
    assert_eq!(action_part, "my_action");
}

#[test]
fn parse_fixed_group_pattern() {
    let result = ActionPathPattern::parse("my_group");
    assert!(result.is_ok());

    assert_eq!(result.as_ref().unwrap().group_part(), "my_group");
    assert_eq!(result.as_ref().unwrap().action_part(), None);
}

#[test]
fn parse_fixed_action_pattern() {
    let result = ActionPathPattern::parse("my_group/my_action");
    assert!(result.is_ok());

    assert_eq!(result.as_ref().unwrap().group_part(), "my_group");
    assert_eq!(result.as_ref().unwrap().action_part(), Some("my_action"));
}

#[test]
fn parse_path_without_separator_fails() {
    let result = ActionPath::parse("my_group");
    assert!(result.is_err());
    assert_eq!(
        result.unwrap_err().to_detailed_string(),
        " Missing action part in path 'my_group'\n"
    );
}

#[test]
fn path_splits_at_first_separator() {
    let path = ActionPath::parse("a/b/c").unwrap();
    assert_eq!(path, ActionPath::from_parts("a", "b/c"));
    assert_eq!(path.to_string(), "a/b/c");
}

#[test]
fn written_path_reads_back() {
    let path = ActionPath::from_parts("deploy", "site");
    assert_eq!(path.to_string(), "deploy/site");
    assert_eq!(ActionPath::parse(&path.to_string()).unwrap(), path);
    let empty_action = ActionPath::from_parts("deploy", "");
    assert_eq!(ActionPath::parse(&empty_action.to_string()).unwrap(), empty_action);
}

#[test]
fn pattern_selects_group_or_action() {
    let site = ActionPath::from_parts("deploy", "site");
    let docs = ActionPath::from_parts("deploy", "docs");
    let other = ActionPath::from_parts("build", "site");
    let group = ActionPathPattern::parse("deploy").unwrap();
    let single = ActionPathPattern::parse("deploy/site").unwrap();
    assert!(site.matches(&group));
    assert!(docs.matches(&group));
    assert!(!other.matches(&group));
    assert!(site.matches(&single));
    assert!(!docs.matches(&single));
    assert!(!other.matches(&single));
    assert_eq!(group.to_string(), "deploy");
    assert_eq!(single.to_string(), "deploy/site");
}

#[test]
fn paths_are_ordered_by_group_then_action() {
    let a = ActionPath::from_parts("a", "z");
    let b = ActionPath::from_parts("b", "a");
    let b2 = ActionPath::from_parts("b", "ab");
    assert!(a.precedes(&b));
    assert!(!b.precedes(&a));
    assert!(b.precedes(&b2));
    assert!(!b2.precedes(&b));
    assert!(!a.precedes(&a));
    let upper = ActionPath::from_parts("B", "a");
    assert!(upper.precedes(&a));
}
