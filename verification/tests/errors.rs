use maidono::utils::error::{Error, ErrorPrinter, MinimalErrorMessageBuilder};
use maidono::utils::location::Location;
use maidono::utils::report::Report;

fn text(error: &Error) -> String {
    error.to_detailed_string()
}

#[test]
fn report_without_errors_wraps_the_value() {
    let report = Report::new();
    assert_eq!(report.wrap(7).unwrap(), 7);
}

#[test]
fn report_with_one_error_gives_it_unwrapped() {
    let mut report = Report::new();
    report.add(Error::StaticMessage("only"));
    assert!(matches!(report.wrap(7), Err(Error::StaticMessage("only"))));
}

#[test]
fn report_with_several_errors_keeps_their_order() {
    let mut report = Report::new();
    report.add(Error::StaticMessage("first"));
    report.add(Error::message("second"));
    report.add(Error::StaticMessage("third"));
    match report.wrap(()) {
        Err(Error::Multiple(errors)) => {
            assert_eq!(errors.len(), 3);
            assert!(matches!(errors[0], Error::StaticMessage("first")));
            assert!(matches!(&errors[1], Error::DynamicMessage(m) if m == "second"));
            assert!(matches!(errors[2], Error::StaticMessage("third")));
        }
        _ => panic!("several errors are an aggregate"),
    }
}

#[test]
fn and_collects_side_by_side() {
    let two = Error::StaticMessage("a").and(Error::StaticMessage("b"));
    assert!(matches!(&two, Error::Multiple(errors) if errors.len() == 2));
    let three = two.and(Error::StaticMessage("c"));
    match &three {
        Error::Multiple(errors) => {
            assert_eq!(errors.len(), 3);
            assert!(matches!(errors[2], Error::StaticMessage("c")));
        }
        _ => panic!("an aggregate stays one"),
    }
    assert_eq!(text(&three), " a\n b\n c\n");
    let nested = Error::StaticMessage("x").and(Error::Multiple(vec![Error::StaticMessage("y")]));
    assert!(matches!(&nested, Error::Multiple(errors) if errors.len() == 2));
}

#[test]
fn detailed_form_indents_causes_and_locations() {
    let error = Error::StaticMessage("unable to parse file a.yml").because(
        Error::message("did not find expected key").at(Location::new(
            String::from("a.yml"),
            3,
            14,
        )),
    );
    assert_eq!(
        text(&error),
        " unable to parse file a.yml\n due to the following error(s) :\n   did not find expected key\n     in file a.yml, line 3, column 14\n"
    );
}

#[test]
fn detailed_form_of_nested_causes() {
    let error = Error::StaticMessage("top")
        .because(Error::StaticMessage("middle").because(Error::StaticMessage("bottom")));
    assert_eq!(
        text(&error),
        " top\n due to the following error(s) :\n   middle\n   due to the following error(s) :\n     bottom\n"
    );
    let aggregate = Error::StaticMessage("top").because(
        Error::StaticMessage("one").and(Error::StaticMessage("two").in_file(
            String::from("f"),
            0,
            120,
        )),
    );
    assert_eq!(
        text(&aggregate),
        " top\n due to the following error(s) :\n   one\n   two\n     in file f, line 0, column 120\n"
    );
    assert_eq!(text(&Error::Multiple(Vec::new())), "");
}

#[test]
fn compact_form_counts_errors() {
    let mut builder = MinimalErrorMessageBuilder::new();
    Error::StaticMessage("plain").display_very_compact(&mut builder);
    Error::message("dynamic").display_very_compact(&mut builder);
    Error::StaticMessage("a")
        .because(Error::StaticMessage("b"))
        .display_very_compact(&mut builder);
    Error::StaticMessage("a")
        .at(Location::new(String::from("f"), 1, 2))
        .display_very_compact(&mut builder);
    Error::Multiple(vec![
        Error::StaticMessage("a"),
        Error::StaticMessage("b"),
        Error::StaticMessage("c"),
    ])
    .display_very_compact(&mut builder);
    Error::Multiple(
        (0..12).map(|_| Error::StaticMessage("x")).collect(),
    )
    .display_very_compact(&mut builder);
    assert_eq!(
        builder.into_string(),
        " plain dynamic 1 error 1 error 3 errors 12 errors"
    );
}

#[test]
fn builder_pads_only_at_line_start() {
    let mut builder = MinimalErrorMessageBuilder::new();
    assert_eq!(builder.pad(), "");
    builder.indent();
    builder.indent();
    assert_eq!(builder.pad(), "    ");
    builder.print_error_inline("a");
    assert_eq!(builder.pad(), "");
    builder.print_error_inline("b");
    builder.print_error("c");
    assert_eq!(builder.pad(), "    ");
    builder.unindent();
    builder.print_error("d");
    builder.unindent();
    builder.print_error("e");
    assert_eq!(builder.into_string(), "     a b c\n   d\n e\n");
}

#[test]
fn location_is_written_in_full() {
    assert_eq!(
        Location::new(String::from("/etc/maidono/actions/site.yml"), 12, 7).to_string(),
        "in file /etc/maidono/actions/site.yml, line 12, column 7"
    );
    assert_eq!(
        Location::new(String::new(), 0, 1000).to_string(),
        "in file , line 0, column 1000"
    );
    assert_eq!(
        Location::new(String::from("f"), usize::MAX, 10).to_string(),
        format!("in file f, line {}, column 10", usize::MAX)
    );
}

#[test]
fn nesting_counts_levels_of_indentation() {
    let plain = Error::StaticMessage("plain");
    assert!(plain.nests_within(0));
    let placed = Error::StaticMessage("a").at(Location::new(String::from("f"), 1, 1));
    assert!(!placed.nests_within(0));
    assert!(placed.nests_within(1));
    let caused = Error::StaticMessage("top")
        .because(Error::StaticMessage("middle").because(Error::message("bottom")));
    assert!(!caused.nests_within(1));
    assert!(caused.nests_within(2));
    assert!(caused.nests_within(usize::MAX));
    let deep_first = Error::StaticMessage("a")
        .because(Error::StaticMessage("b"))
        .because(Error::StaticMessage("c"));
    assert!(!deep_first.nests_within(0));
    assert!(deep_first.nests_within(1));
    let several = Error::Multiple(vec![
        Error::StaticMessage("x"),
        Error::StaticMessage("y").because(Error::StaticMessage("z").in_file(
            String::from("f"),
            1,
            1,
        )),
        Error::StaticMessage("w"),
    ]);
    assert!(!several.nests_within(1));
    assert!(several.nests_within(2));
    assert!(Error::Multiple(Vec::new()).nests_within(0));
}
