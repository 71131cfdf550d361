use maidono::actions::action::{Action, ActionEntry};
use maidono::actions::commands::Commands;
use maidono::actions::host::HostRef;
use maidono::actions::refs::ActionRefs;
use maidono::handler::{
    body_size_limit, handle_action, handle_action_within, handle_webhook, handle_webhook_within,
    origin_of, Admission, Outcome, Rejection, Response, DEFAULT_BODY_SIZE_LIMIT,
};
use maidono::utils::error::Error;
use maidono::hosts::Request;
use maidono::state::actions::Actions;
use maidono::utils::action_path::ActionPath;

const SIGNATURE: &str =
    "sha256=5bdcc146bf60754e6a042426089575c75a003f089d2739839dec58b964ec3843";

const BODY: &[u8] = b"what do ya want for nothing?";

fn entry(
    trigger: &str,
    origin: Option<HostRef>,
    secret: Option<&str>,
    before: Option<&str>,
) -> Action {
    let entry = ActionEntry::new(
        String::from("unnamed"),
        String::from(trigger),
        origin,
        secret.map(String::from),
        before.map(|name| ActionRefs::Single(String::from(name))),
        None,
        Commands::new(vec![String::from("run")]),
    );
    Action::from_deserialized(entry).unwrap().1
}

fn actions() -> Actions {
    Actions::build(vec![
        (
            ActionPath::from_parts("hooks", "open"),
            entry("POST /open", None, None, Some("hooks/prepare")),
        ),
        (
            ActionPath::from_parts("hooks", "prepare"),
            entry("POST /prepare", Some(HostRef::Any), None, None),
        ),
        (
            ActionPath::from_parts("hooks", "github"),
            entry("POST /github", Some(HostRef::GitHub), Some("Jefe"), None),
        ),
        (
            ActionPath::from_parts("hooks", "unsigned"),
            entry("POST /unsigned", Some(HostRef::GitHub), None, None),
        ),
        (
            ActionPath::from_parts("hooks", "custom"),
            entry(
                "POST /custom",
                Some(HostRef::Custom(String::from("forge"))),
                Some("Jefe"),
                None,
            ),
        ),
        (
            ActionPath::from_parts("hooks", "broken"),
            entry("POST /broken", None, None, Some("hooks/gone")),
        ),
    ])
    .unwrap()
}

fn github(signature: Option<&str>) -> Request {
    Request::new(
        Some("GitHub-Hookshot/044aadd"),
        Some("72d3162e"),
        Some("push"),
        signature,
    )
}

fn steps(outcome: &Outcome) -> Vec<String> {
    match outcome {
        Outcome::Accepted { context, .. } => context
            .actions()
            .iter()
            .map(|step| step.path().to_string())
            .collect(),
        _ => panic!("the request was not accepted"),
    }
}

#[test]
fn unknown_trigger_is_forwarded() {
    let actions = actions();
    let nothing = Request::new(None, None, None, None);
    assert!(matches!(
        handle_webhook(&actions, "POST", "/nothing", &nothing, None),
        Admission::Done(Outcome::Forward)
    ));
    assert!(matches!(
        handle_webhook(&actions, "GET", "/open", &nothing, None),
        Admission::Done(Outcome::Forward)
    ));
}

#[test]
fn action_without_secret_is_accepted_on_headers_alone() {
    let actions = actions();
    let nothing = Request::new(None, None, None, None);
    match handle_webhook(&actions, "POST", "/open", &nothing, None) {
        Admission::Done(outcome) => {
            assert!(
                matches!(&outcome, Outcome::Accepted { path, .. } if *path == ActionPath::from_parts("hooks", "open"))
            );
            assert_eq!(steps(&outcome), vec!["hooks/prepare", "hooks/open"]);
        }
        Admission::ReadBody(_) => panic!("no body is needed"),
    }
    match handle_webhook(&actions, "POST", "/unsigned", &github(None), None) {
        Admission::Done(outcome) => assert_eq!(steps(&outcome), vec!["hooks/unsigned"]),
        Admission::ReadBody(_) => panic!("no body is needed"),
    }
}

#[test]
fn wrong_headers_are_rejected() {
    let actions = actions();
    let nothing = Request::new(None, None, None, Some(SIGNATURE));
    assert!(matches!(
        handle_webhook(&actions, "POST", "/github", &nothing, None),
        Admission::Done(Outcome::Rejected(Rejection::Headers))
    ));
    assert!(matches!(
        handle_webhook(&actions, "POST", "/unsigned", &nothing, None),
        Admission::Done(Outcome::Rejected(Rejection::Headers))
    ));
}

#[test]
fn secret_without_signature_is_rejected() {
    let actions = actions();
    assert!(matches!(
        handle_webhook(&actions, "POST", "/github", &github(None), None),
        Admission::Done(Outcome::Rejected(Rejection::Signature))
    ));
    assert!(matches!(
        handle_webhook(&actions, "POST", "/github", &github(Some("sha256=12")), None),
        Admission::Done(Outcome::Rejected(Rejection::Signature))
    ));
    // an origin without a signature scheme can never satisfy a secret
    assert!(matches!(
        handle_webhook(&actions, "POST", "/custom", &github(Some(SIGNATURE)), None),
        Admission::Done(Outcome::Rejected(Rejection::Signature))
    ));
}

#[test]
fn signed_request_is_accepted_after_its_body() {
    let actions = actions();
    let pending = match handle_webhook(&actions, "POST", "/github", &github(Some(SIGNATURE)), None) {
        Admission::ReadBody(pending) => pending,
        Admission::Done(_) => panic!("the body has to be read"),
    };
    let outcome = handle_action(pending, Some(BODY));
    assert_eq!(steps(&outcome), vec!["hooks/github"]);
}

#[test]
fn wrong_body_is_rejected() {
    let actions = actions();
    for body in [Some(&b"what do ya want for nothing!"[..]), Some(&b""[..]), None] {
        let pending = match handle_webhook(&actions, "POST", "/github", &github(Some(SIGNATURE)), None)
        {
            Admission::ReadBody(pending) => pending,
            Admission::Done(_) => panic!("the body has to be read"),
        };
        assert!(matches!(
            handle_action(pending, body),
            Outcome::Rejected(Rejection::Signature)
        ));
    }
}

#[test]
fn unresolvable_plan_is_a_failure() {
    let actions = actions();
    let nothing = Request::new(None, None, None, None);
    match handle_webhook(&actions, "POST", "/broken", &nothing, None) {
        Admission::Done(Outcome::Failed(error)) => assert_eq!(
            error.to_detailed_string(),
            " action 'hooks/gone' not found\n"
        ),
        _ => panic!("the plan cannot be made"),
    }
}

#[test]
fn body_limit_defaults_to_one_kibibyte() {
    assert_eq!(DEFAULT_BODY_SIZE_LIMIT, 1024);
    assert_eq!(body_size_limit(None), 1024);
    assert_eq!(body_size_limit(Some(0)), 0);
    assert_eq!(body_size_limit(Some(65536)), 65536);
}

#[test]
fn every_outcome_has_its_answer() {
    assert_eq!(Outcome::Forward.response(), Response::NotFound);
    assert_eq!(
        Outcome::Rejected(Rejection::Headers).response(),
        Response::BadRequest
    );
    assert_eq!(
        Outcome::Rejected(Rejection::Signature).response(),
        Response::BadRequest
    );
    assert_eq!(
        Outcome::Failed(Error::StaticMessage("no plan")).response(),
        Response::InternalServerError
    );
    let actions = actions();
    let nothing = Request::new(None, None, None, None);
    match handle_webhook(&actions, "POST", "/prepare", &nothing, None) {
        Admission::Done(outcome) => assert_eq!(outcome.response(), Response::Success),
        Admission::ReadBody(_) => panic!("no body is needed"),
    }
    assert_eq!(Response::Success.status(), 200);
    assert_eq!(Response::BadRequest.status(), 400);
    assert_eq!(Response::NotFound.status(), 404);
    assert_eq!(Response::InternalServerError.status(), 500);
}

#[test]
fn only_the_body_within_the_limit_counts() {
    let actions = actions();
    let pending = |limit: Option<u64>| match handle_webhook(
        &actions,
        "POST",
        "/github",
        &github(Some(SIGNATURE)),
        limit,
    ) {
        Admission::ReadBody(pending) => pending,
        Admission::Done(_) => panic!("the body has to be read"),
    };
    assert_eq!(pending(None).body_size_limit(), 1024);
    assert_eq!(pending(Some(12)).body_size_limit(), 12);
    // what lies beyond the limit is not part of the body
    let mut longer = BODY.to_vec();
    longer.extend_from_slice(b" and more");
    let limit = BODY.len() as u64;
    assert_eq!(
        handle_action(pending(Some(limit)), Some(&longer)).response(),
        Response::Success
    );
    assert_eq!(
        handle_action(pending(Some(limit + 1)), Some(&longer)).response(),
        Response::BadRequest
    );
    assert_eq!(
        handle_action(pending(Some(limit - 1)), Some(BODY)).response(),
        Response::BadRequest
    );
    assert_eq!(
        handle_action(pending(Some(limit)), Some(BODY)).response(),
        Response::Success
    );
}

#[test]
fn references_are_followed_as_deep_as_allowed() {
    let actions = actions();
    let nothing = Request::new(None, None, None, None);
    match handle_webhook_within(&actions, "POST", "/open", &nothing, None, 2) {
        Admission::Done(outcome) => {
            assert_eq!(steps(&outcome), vec!["hooks/prepare", "hooks/open"])
        }
        Admission::ReadBody(_) => panic!("no body is needed"),
    }
    match handle_webhook_within(&actions, "POST", "/open", &nothing, None, 1) {
        Admission::Done(Outcome::Failed(error)) => assert_eq!(
            error.to_detailed_string(),
            " references of action 'hooks/open' are nested too deeply\n"
        ),
        _ => panic!("one level is not enough"),
    }
    match handle_webhook_within(&actions, "POST", "/broken", &nothing, None, usize::MAX) {
        Admission::Done(Outcome::Failed(error)) => assert_eq!(
            error.to_detailed_string(),
            " action 'hooks/gone' not found\n"
        ),
        _ => panic!("the plan cannot be made"),
    }
    assert!(matches!(
        handle_webhook_within(&actions, "POST", "/nothing", &nothing, None, 0),
        Admission::Done(Outcome::Forward)
    ));
    let signed = github(Some(SIGNATURE));
    for (depth, answer) in [
        (0, Response::InternalServerError),
        (1, Response::Success),
        (usize::MAX, Response::Success),
    ] {
        let pending = match handle_webhook_within(&actions, "POST", "/github", &signed, None, depth)
        {
            Admission::ReadBody(pending) => pending,
            Admission::Done(_) => panic!("the body has to be read"),
        };
        assert_eq!(
            handle_action_within(pending, Some(BODY), depth).response(),
            answer
        );
    }
    let pending = match handle_webhook_within(&actions, "POST", "/github", &signed, None, 0) {
        Admission::ReadBody(pending) => pending,
        Admission::Done(_) => panic!("the body has to be read"),
    };
    assert_eq!(
        handle_action_within(pending, None, 0).response(),
        Response::BadRequest
    );
}

#[test]
fn action_without_origin_takes_requests_from_any() {
    assert_eq!(
        origin_of(&entry("POST /a", None, None, None)),
        HostRef::Any
    );
    assert_eq!(
        origin_of(&entry("POST /a", Some(HostRef::GitHub), None, None)),
        HostRef::GitHub
    );
    assert_eq!(
        origin_of(&entry(
            "POST /a",
            Some(HostRef::Custom(String::from("forge"))),
            None,
            None
        )),
        HostRef::Custom(String::from("forge"))
    );
}
