//! What becomes of a request.
//!
//! A request that triggers no action is passed on. One that triggers an
//! action must have the shape that the action's source gives it and, where
//! the action has a secret, carry a signature that fits its body: otherwise
//! it is refused. A request that passes sets off the plan of its action.
//! The body is read only when there is a signature to hold it against, so the
//! decision is taken in two steps, `handle_webhook` before the body is read
//! and `handle_action` after.
//!
//! Making the plan means following the references of the action, which
//! comes to an end only if they do not lead in a circle. `handle_webhook` and
//! `handle_action` follow them to the end and are for configurations of which
//! that is known. `handle_webhook_within` and `handle_action_within` follow
//! them through a given number of levels and take any configuration.

use crate::actions::action::{Action, ActionView};
use crate::actions::host::{HostRef, HostRefView};
use crate::execution::context::{Context, ContextActionView};
use crate::hosts::{
    checks_out, extract_signature, host_information_checks_out, signature_of, Request, RequestView,
};
use crate::security::{Signature, SignatureView};
use crate::state::actions::{
    expand, not_found_message, resolution, resolves, trigger_of, triggered, ActionRef, Actions,
};
use crate::utils::action_path::{ActionPath, ActionPathView};
use crate::utils::error::{Error, ErrorView};
use vstd::prelude::*;
use vstd::slice::slice_subrange;
use vstd::string::StringExecFns;
use vstd::string::StringSliceAdditionalSpecFns;

verus! {

/// How many bytes of a body are read where nothing else is configured.
pub const DEFAULT_BODY_SIZE_LIMIT: u64 = 1024;

/// How many bytes of a body are read: what is configured, else 1024.
pub fn body_size_limit(configured: Option<u64>) -> (limit: u64)
    ensures
        limit == (match configured {
            Some(bytes) => bytes,
            None => DEFAULT_BODY_SIZE_LIMIT,
        }),
{
    match configured {
        Some(bytes) => bytes,
        None => DEFAULT_BODY_SIZE_LIMIT,
    }
}

/// Why a request is refused.
#[derive(Debug, Clone, Copy, PartialEq, Eq, Structural)]
pub enum Rejection {
    /// Headers that the source of the action sends are missing or wrong.
    Headers,
    /// The signature is missing, malformed or not that of the body.
    Signature,
}

/// What becomes of a request, and with it the answer to its sender.
#[derive(Debug)]
pub enum Outcome {
    /// No action has the trigger: the request is passed on, and answered as
    /// not found where nothing else takes it.
    Forward,
    /// The request is refused as a bad request.
    Rejected(Rejection),
    /// The plan of the action could not be made: a server error, whose cause
    /// stays with the server.
    Failed(Error),
    /// The plan of the action at `path` is set off, and the request answered
    /// as accepted without waiting for the run.
    Accepted { path: ActionPath, context: Context },
}

/// The answer that the sender of a request gets.
#[derive(Debug, Clone, Copy, PartialEq, Eq, Structural)]
pub enum Response {
    /// The run was set off.
    Success,
    /// The request was refused.
    BadRequest,
    /// No action has the trigger.
    NotFound,
    /// The plan of the action could not be made.
    InternalServerError,
}

impl Response {
    /// The status code of the answer.
    pub fn status(&self) -> (code: u16)
        ensures
            code == (match self {
                Response::Success => 200u16,
                Response::BadRequest => 400u16,
                Response::NotFound => 404u16,
                Response::InternalServerError => 500u16,
            }),
    {
        match self {
            Response::Success => 200,
            Response::BadRequest => 400,
            Response::NotFound => 404,
            Response::InternalServerError => 500,
        }
    }
}

/// The answer that goes with an outcome. Why a request was refused, or why
/// a plan could not be made, is not part of the answer.
pub open spec fn response_to(outcome: OutcomeView) -> Response {
    match outcome {
        OutcomeView::Forward => Response::NotFound,
        OutcomeView::Rejected(_) => Response::BadRequest,
        OutcomeView::Failed(_) => Response::InternalServerError,
        OutcomeView::Accepted { .. } => Response::Success,
    }
}

impl Outcome {
    /// The answer to the sender of the request.
    pub fn response(&self) -> (response: Response)
        ensures
            response == response_to(self@),
    {
        match self {
            Outcome::Forward => Response::NotFound,
            Outcome::Rejected(_) => Response::BadRequest,
            Outcome::Failed(_) => Response::InternalServerError,
            Outcome::Accepted { .. } => Response::Success,
        }
    }
}

/// What an `Outcome` stands for.
pub enum OutcomeView {
    Forward,
    Rejected(Rejection),
    Failed(ErrorView),
    Accepted { path: ActionPathView, plan: Seq<ContextActionView> },
}

impl View for Outcome {
    type V = OutcomeView;

    open spec fn view(&self) -> OutcomeView {
        match self {
            Outcome::Forward => OutcomeView::Forward,
            Outcome::Rejected(rejection) => OutcomeView::Rejected(*rejection),
            Outcome::Failed(error) => OutcomeView::Failed(error@),
            Outcome::Accepted { path, context } => OutcomeView::Accepted {
                path: path@,
                plan: context@,
            },
        }
    }
}

/// An action whose request waits for its body to be held against its
/// signature.
pub struct Pending<'a> {
    actions: &'a Actions,
    action_ref: ActionRef<'a>,
    signature: Signature,
    limit: u64,
}

impl<'a> Pending<'a> {
    #[verifier::type_invariant]
    spec fn well_formed(self) -> bool {
        &&& self.actions@.dom().contains(self.action_ref.path@)
        &&& self.actions@[self.action_ref.path@] == self.action_ref.action@
        &&& self.action_ref.action@.secret is Some
    }

    /// The registry that holds the action.
    pub closed spec fn registry(&self) -> Map<ActionPathView, ActionView> {
        self.actions@
    }

    /// The path of the action.
    pub closed spec fn path(&self) -> ActionPathView {
        self.action_ref.path@
    }

    /// The action.
    pub closed spec fn action(&self) -> ActionView {
        self.action_ref.action@
    }

    /// The signature that the request carries.
    pub closed spec fn signature(&self) -> SignatureView {
        self.signature@
    }

    /// How many bytes of the body count.
    pub closed spec fn limit(&self) -> u64 {
        self.limit
    }

    /// How many bytes of the body are to be read at most.
    pub fn body_size_limit(&self) -> (limit: u64)
        ensures
            limit == self.limit(),
    {
        self.limit
    }

    /// What is pending: an action of `registry`, under its path.
    pub open spec fn belongs_to(&self, registry: Map<ActionPathView, ActionView>) -> bool {
        &&& self.registry() == registry
        &&& registry.dom().contains(self.path())
        &&& registry[self.path()] == self.action()
    }
}

/// Where a request stands after its headers have been looked at.
pub enum Admission<'a> {
    /// The request is settled.
    Done(Outcome),
    /// The body has to be read, up to the size limit of what is pending, and
    /// handed to `handle_action`.
    ReadBody(Pending<'a>),
}

/// What an `Admission` stands for.
pub enum AdmissionView {
    Done(OutcomeView),
    /// The body is to be read, up to `limit` bytes, and held against
    /// `signature`.
    ReadBody { path: ActionPathView, signature: SignatureView, limit: u64 },
}

impl<'a> View for Admission<'a> {
    type V = AdmissionView;

    open spec fn view(&self) -> AdmissionView {
        match self {
            Admission::Done(outcome) => AdmissionView::Done(outcome@),
            Admission::ReadBody(pending) => AdmissionView::ReadBody {
                path: pending.path(),
                signature: pending.signature(),
                limit: pending.limit(),
            },
        }
    }
}

/// The source that an action declares; an action that declares none takes
/// requests from any.
pub open spec fn declared_origin(action: ActionView) -> HostRefView {
    match action.origin {
        Some(host) => host,
        None => HostRefView::Any,
    }
}

/// The source that `action` declares, or any source if it declares none.
pub fn origin_of(action: &Action) -> (host: HostRef)
    ensures
        host@ == declared_origin(action@),
{
    match action.origin() {
        Some(host) => host.clone(),
        None => HostRef::Any,
    }
}

/// The message for an action whose references go deeper than was allowed.
pub open spec fn too_deep_message(path: Seq<char>) -> Seq<char> {
    "references of action '"@ + path + "' are nested too deeply"@
}

/// What becomes of a request that has passed authentication: the plan of
/// its action is set off, or the reference that could not be followed is
/// reported. References are followed to the end where `depth` is `None`,
/// else through at most that many levels, and it is a failure if those do
/// not reach the end.
pub open spec fn concluded(
    registry: Map<ActionPathView, ActionView>,
    path: ActionPathView,
    depth: Option<nat>,
) -> OutcomeView {
    match (
        match depth {
            Some(levels) => expand(registry, path, levels),
            None => Some(resolution(registry, path)),
        }
    ) {
        Some(Ok(plan)) => OutcomeView::Accepted { path, plan },
        Some(Err(missing)) => OutcomeView::Failed(ErrorView::Message(not_found_message(missing))),
        None => OutcomeView::Failed(ErrorView::Message(too_deep_message(path.text()))),
    }
}

/// The view of an optional depth.
pub open spec fn depth_view(depth: Option<usize>) -> Option<nat> {
    match depth {
        Some(levels) => Some(levels as nat),
        None => None,
    }
}

/// Where a request with the given trigger and headers stands before its
/// body is read. `limit` is the size up to which a body counts.
pub open spec fn admitted(
    registry: Map<ActionPathView, ActionView>,
    trigger: Seq<char>,
    request: RequestView,
    limit: u64,
    depth: Option<nat>,
) -> AdmissionView {
    match triggered(registry, trigger) {
        None => AdmissionView::Done(OutcomeView::Forward),
        Some(path) => {
            let action = registry[path];
            let origin = declared_origin(action);
            if !checks_out(origin, request) {
                AdmissionView::Done(OutcomeView::Rejected(Rejection::Headers))
            } else {
                match action.secret {
                    None => AdmissionView::Done(concluded(registry, path, depth)),
                    Some(_) => match signature_of(origin, request) {
                        None => AdmissionView::Done(OutcomeView::Rejected(Rejection::Signature)),
                        Some(signature) => AdmissionView::ReadBody { path, signature, limit },
                    },
                }
            }
        },
    }
}

/// What becomes of a request once its body has been read, or could not be
/// read: it passes if the signature is that of the body under the secret of
/// the action.
pub open spec fn verified(
    registry: Map<ActionPathView, ActionView>,
    path: ActionPathView,
    signature: SignatureView,
    body: Option<Seq<u8>>,
    depth: Option<nat>,
) -> OutcomeView {
    if body matches Some(bytes) && registry[path].secret matches Some(secret) && signature.signs(
        vstd::utf8::encode_utf8(secret),
        bytes,
    ) {
        concluded(registry, path, depth)
    } else {
        OutcomeView::Rejected(Rejection::Signature)
    }
}

/// The part of a body that counts: its first `limit` bytes.
pub open spec fn bounded(body: Seq<u8>, limit: u64) -> Seq<u8> {
    if body.len() > limit {
        body.subrange(0, limit as int)
    } else {
        body
    }
}

/// The part that counts of a body that was read, or `None` for a body that
/// could not be read.
pub open spec fn body_view(body: Option<&[u8]>, limit: u64) -> Option<Seq<u8>> {
    match body {
        Some(bytes) => Some(bounded(bytes@, limit)),
        None => None,
    }
}

/// The size limit that is configured, or the one that holds otherwise.
pub open spec fn limit_view(configured_limit: Option<u64>) -> u64 {
    match configured_limit {
        Some(bytes) => bytes,
        None => DEFAULT_BODY_SIZE_LIMIT,
    }
}

/// Takes a request as far as its headers allow. `configured_limit` is the
/// size limit for bodies, if one is configured. The references of the
/// action that is triggered must come to an end.
pub fn handle_webhook<'a>(
    actions: &'a Actions,
    method: &str,
    path: &str,
    request: &Request,
    configured_limit: Option<u64>,
) -> (admission: Admission<'a>)
    requires
        triggered(actions@, trigger_of(method@, path@)) matches Some(found) ==> resolves(
            actions@,
            found,
        ),
    ensures
        admission@ == admitted(
            actions@,
            trigger_of(method@, path@),
            request@,
            limit_view(configured_limit),
            None,
        ),
        admission matches Admission::ReadBody(pending) ==> pending.belongs_to(actions@),
{
    receive(actions, method, path, request, configured_limit, None)
}

/// Takes a request as far as its headers allow, following the references
/// of the action that is triggered through at most `depth` levels.
pub fn handle_webhook_within<'a>(
    actions: &'a Actions,
    method: &str,
    path: &str,
    request: &Request,
    configured_limit: Option<u64>,
    depth: usize,
) -> (admission: Admission<'a>)
    ensures
        admission@ == admitted(
            actions@,
            trigger_of(method@, path@),
            request@,
            limit_view(configured_limit),
            Some(depth as nat),
        ),
        admission matches Admission::ReadBody(pending) ==> pending.belongs_to(actions@),
{
    receive(actions, method, path, request, configured_limit, Some(depth))
}

fn receive<'a>(
    actions: &'a Actions,
    method: &str,
    path: &str,
    request: &Request,
    configured_limit: Option<u64>,
    depth: Option<usize>,
) -> (admission: Admission<'a>)
    requires
        depth is None ==> (triggered(actions@, trigger_of(method@, path@)) matches Some(found)
            ==> resolves(actions@, found)),
    ensures
        admission@ == admitted(
            actions@,
            trigger_of(method@, path@),
            request@,
            limit_view(configured_limit),
            depth_view(depth),
        ),
        admission matches Admission::ReadBody(pending) ==> pending.belongs_to(actions@),
{
    match actions.lookup_by_trigger(method, path) {
        None => Admission::Done(Outcome::Forward),
        Some(action_ref) => {
            let origin = origin_of(action_ref.action);
            let host_ref = &origin;
            if !host_information_checks_out(host_ref, request) {
                return Admission::Done(Outcome::Rejected(Rejection::Headers));
            }
            match action_ref.action.secret() {
                None => Admission::Done(conclude(actions, action_ref, depth)),
                Some(_) => match extract_signature(host_ref, request) {
                    None => Admission::Done(Outcome::Rejected(Rejection::Signature)),
                    Some(signature) => Admission::ReadBody(
                        Pending {
                            actions,
                            action_ref,
                            signature,
                            limit: body_size_limit(configured_limit),
                        },
                    ),
                },
            }
        },
    }
}

/// Settles a request whose body was to be read. `body` is what was read, or
/// `None` if reading failed. Of a body that is longer than the size limit
/// only the part within the limit counts. The references of the action must
/// come to an end.
pub fn handle_action<'a>(pending: Pending<'a>, body: Option<&[u8]>) -> (outcome: Outcome)
    requires
        resolves(pending.registry(), pending.path()),
    ensures
        outcome@ == verified(
            pending.registry(),
            pending.path(),
            pending.signature(),
            body_view(body, pending.limit()),
            None,
        ),
{
    settle(pending, body, None)
}

/// Settles a request whose body was to be read, following the references of
/// its action through at most `depth` levels.
pub fn handle_action_within<'a>(pending: Pending<'a>, body: Option<&[u8]>, depth: usize) -> (outcome:
    Outcome)
    ensures
        outcome@ == verified(
            pending.registry(),
            pending.path(),
            pending.signature(),
            body_view(body, pending.limit()),
            Some(depth as nat),
        ),
{
    settle(pending, body, Some(depth))
}

fn settle<'a>(pending: Pending<'a>, body: Option<&[u8]>, depth: Option<usize>) -> (outcome: Outcome)
    requires
        depth is None ==> resolves(pending.registry(), pending.path()),
    ensures
        outcome@ == verified(
            pending.registry(),
            pending.path(),
            pending.signature(),
            body_view(body, pending.limit()),
            depth_view(depth),
        ),
{
    proof {
        use_type_invariant(&pending);
    }
    let read = match body {
        Some(bytes) => Some(
            if bytes.len() as u64 > pending.limit {
                slice_subrange(bytes, 0, pending.limit as usize)
            } else {
                bytes
            },
        ),
        None => None,
    };
    let signature_is_valid = match pending.action_ref.action.secret() {
        Some(secret) => pending.signature.matches(secret, read),
        None => false,
    };
    if !signature_is_valid {
        return Outcome::Rejected(Rejection::Signature);
    }
    conclude(pending.actions, pending.action_ref, depth)
}

/// Sets off the plan of an action whose request has passed.
fn conclude<'a>(actions: &'a Actions, action_ref: ActionRef<'a>, depth: Option<usize>) -> (outcome:
    Outcome)
    requires
        actions@.dom().contains(action_ref.path@),
        actions@[action_ref.path@] == action_ref.action@,
        depth is None ==> resolves(actions@, action_ref.path@),
    ensures
        outcome@ == concluded(actions@, action_ref.path@, depth_view(depth)),
{
    let path = action_ref.path.clone();
    let resolved = match depth {
        Some(levels) => actions.load_context_within(action_ref, levels),
        None => Some(actions.load_context_for(action_ref)),
    };
    match resolved {
        Some(Ok(context)) => Outcome::Accepted { path, context },
        Some(Err(error)) => Outcome::Failed(error),
        None => {
            let mut message = String::from_str("references of action '");
            let text = path.to_string();
            message.append(text.as_str());
            message.append("' are nested too deeply");
            Outcome::Failed(Error::DynamicMessage(message))
        },
    }
}

} // verus!
