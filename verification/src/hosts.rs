//! What the declared source of a webhook asks of a request.

use crate::actions::host::{HostRef, HostRefView};
use crate::security::{Signature, SignatureView};
use crate::utils::text::starts_with;
use vstd::prelude::*;
use vstd::string::StrSliceExecFns;
use vstd::string::StringExecFns;

verus! {

/// The headers of a request that authentication reads.
#[derive(Debug)]
pub struct Request {
    user_agent: Option<String>,
    github_delivery: Option<String>,
    github_event: Option<String>,
    hub_signature_256: Option<String>,
}

/// What a `Request` stands for: the value of each header that is present.
pub struct RequestView {
    /// `User-Agent`
    pub user_agent: Option<Seq<char>>,
    /// `X-Github-Delivery`
    pub github_delivery: Option<Seq<char>>,
    /// `X-Github-Event`
    pub github_event: Option<Seq<char>>,
    /// `X-Hub-Signature-256`
    pub hub_signature_256: Option<Seq<char>>,
}

spec fn shown(header: Option<String>) -> Option<Seq<char>> {
    match header {
        Some(value) => Some(value@),
        None => None,
    }
}

impl View for Request {
    type V = RequestView;

    closed spec fn view(&self) -> RequestView {
        RequestView {
            user_agent: shown(self.user_agent),
            github_delivery: shown(self.github_delivery),
            github_event: shown(self.github_event),
            hub_signature_256: shown(self.hub_signature_256),
        }
    }
}

/// The view of an optional header value.
pub open spec fn header_view(header: Option<&str>) -> Option<Seq<char>> {
    match header {
        Some(value) => Some(value@),
        None => None,
    }
}

impl Request {
    /// A request with the given values of `User-Agent`, `X-Github-Delivery`,
    /// `X-Github-Event` and `X-Hub-Signature-256`; `None` for a header that
    /// the request does not carry.
    pub fn new(
        user_agent: Option<&str>,
        github_delivery: Option<&str>,
        github_event: Option<&str>,
        hub_signature_256: Option<&str>,
    ) -> (request: Request)
        ensures
            request@ == (RequestView {
                user_agent: header_view(user_agent),
                github_delivery: header_view(github_delivery),
                github_event: header_view(github_event),
                hub_signature_256: header_view(hub_signature_256),
            }),
    {
        Request {
            user_agent: owned(user_agent),
            github_delivery: owned(github_delivery),
            github_event: owned(github_event),
            hub_signature_256: owned(hub_signature_256),
        }
    }
}

fn owned(header: Option<&str>) -> (kept: Option<String>)
    ensures
        shown(kept) == header_view(header),
{
    match header {
        Some(value) => Some(String::from_str(value)),
        None => None,
    }
}

/// The start of the `User-Agent` of a request that GitHub sends.
pub open spec fn github_agent() -> Seq<char> {
    "GitHub-Hookshot"@
}

/// Whether a request has the shape that its declared source gives it.
/// GitHub sends a `User-Agent` that starts with `GitHub-Hookshot`, an
/// `X-Github-Delivery` and an `X-Github-Event`; nothing is asked of any
/// other source.
pub open spec fn checks_out(host: HostRefView, request: RequestView) -> bool {
    match host {
        HostRefView::GitHub => {
            &&& request.user_agent matches Some(agent) && github_agent().is_prefix_of(agent)
            &&& request.github_delivery is Some
            &&& request.github_event is Some
        },
        _ => true,
    }
}

/// A request that lacks `X-Github-Event` is not from GitHub, whatever its
/// other headers are.
pub proof fn lemma_github_needs_event(request: RequestView)
    requires
        request.github_event is None,
    ensures
        !checks_out(HostRefView::GitHub, request),
{
}

/// A request that is held to no particular source always checks out.
pub proof fn lemma_other_hosts_ask_nothing(host: HostRefView, request: RequestView)
    requires
        host != HostRefView::GitHub,
    ensures
        checks_out(host, request),
        signature_of(host, request) is None,
{
}

/// Whether the request has the shape that `host_ref` gives it.
pub fn host_information_checks_out(host_ref: &HostRef, request: &Request) -> (valid: bool)
    ensures
        valid == checks_out(host_ref@, request@),
{
    match host_ref {
        HostRef::GitHub => {
            let by_github = match &request.user_agent {
                Some(agent) => starts_with(agent.as_str(), "GitHub-Hookshot"),
                None => false,
            };
            by_github && request.github_delivery.is_some() && request.github_event.is_some()
        },
        _ => true,
    }
}

/// The start of the line that reports the delivery of a GitHub event.
pub open spec fn delivery_heading() -> Seq<char> {
    "  Github delivery ID: "@
}

/// The start of the line that reports the type of a GitHub event.
pub open spec fn event_heading() -> Seq<char> {
    "  Github event type: "@
}

/// What there is to report of the event behind a request: for GitHub the
/// delivery and the type of the event, each if the request names it; nothing
/// for any other source.
pub open spec fn event_info(host: HostRefView, request: RequestView) -> Seq<Seq<char>> {
    match host {
        HostRefView::GitHub => (match request.github_delivery {
            Some(delivery) => seq![delivery_heading() + delivery],
            None => Seq::empty(),
        }) + (match request.github_event {
            Some(event) => seq![event_heading() + event],
            None => Seq::empty(),
        }),
        _ => Seq::empty(),
    }
}

/// The lines that report the event behind a request.
pub fn display_event_info(host_ref: &HostRef, request: &Request) -> (lines: Vec<String>)
    ensures
        lines.len() == event_info(host_ref@, request@).len(),
        forall|i: int|
            0 <= i < lines.len() ==> lines[i]@ == #[trigger] event_info(host_ref@, request@)[i],
{
    let mut lines: Vec<String> = Vec::new();
    match host_ref {
        HostRef::GitHub => {
            match &request.github_delivery {
                Some(delivery) => {
                    let mut line = String::from_str("  Github delivery ID: ");
                    line.append(delivery.as_str());
                    lines.push(line);
                },
                None => {},
            }
            match &request.github_event {
                Some(event) => {
                    let mut line = String::from_str("  Github event type: ");
                    line.append(event.as_str());
                    lines.push(line);
                },
                None => {},
            }
        },
        _ => {},
    }
    lines
}

/// The value of a hexadecimal digit, in either case.
pub open spec fn hex_value(digit: char) -> Option<int> {
    let code = digit as u32;
    if 48 <= code <= 57 {
        Some(code - 48)
    } else if 65 <= code <= 70 {
        Some(code - 55)
    } else if 97 <= code <= 102 {
        Some(code - 87)
    } else {
        None
    }
}

/// The bytes that an even number of hexadecimal digits write, two digits to
/// a byte, the high half first.
pub open spec fn hex_decoded(digits: Seq<char>) -> Option<Seq<u8>> {
    if digits.len() % 2 == 0 && forall|i: int|
        0 <= i < digits.len() ==> hex_value(#[trigger] digits[i]) is Some {
        Some(
            Seq::new(
                digits.len() / 2,
                |i: int| (16 * hex_value(digits[2 * i])->0 + hex_value(digits[2 * i + 1])->0) as u8,
            ),
        )
    } else {
        None
    }
}

/// The digest that the value of `X-Hub-Signature-256` carries: the value is
/// `sha256=` followed by 64 hexadecimal digits, 71 characters in all. A value
/// of any other shape carries none.
pub open spec fn hub256_digest(header: Seq<char>) -> Option<Seq<u8>> {
    if header.len() == 71 && "sha256="@.is_prefix_of(header) {
        hex_decoded(header.subrange(7, 71))
    } else {
        None
    }
}

/// The signature that a request carries under the scheme of its declared
/// source. GitHub signs in `X-Hub-Signature-256`; no other source has a
/// scheme.
pub open spec fn signature_of(host: HostRefView, request: RequestView) -> Option<SignatureView> {
    match host {
        HostRefView::GitHub => match request.hub_signature_256 {
            Some(header) => match hub256_digest(header) {
                Some(digest) => Some(SignatureView::HS256Hex(digest)),
                None => None,
            },
            None => None,
        },
        _ => None,
    }
}

/// The view of an optional signature.
pub open spec fn signature_view(signature: Option<Signature>) -> Option<SignatureView> {
    match signature {
        Some(signature) => Some(signature@),
        None => None,
    }
}

/// The signature that the request carries under the scheme of `host_ref`.
pub fn extract_signature(host_ref: &HostRef, request: &Request) -> (signature: Option<Signature>)
    ensures
        signature_view(signature) == signature_of(host_ref@, request@),
{
    match host_ref {
        HostRef::GitHub => match &request.hub_signature_256 {
            Some(header) => decode_hub256_signature(header.as_str()),
            None => None,
        },
        _ => None,
    }
}

/// Decodes 64 hexadecimal digits into 32 bytes with `hex::decode_to_slice`.
/// The call succeeds exactly on 64 digits, upper or lower case, and then
/// leaves in each byte the value of two digits, the high half first.
#[verifier::external_body]
fn hex_decode_digest(digits: &str) -> (bytes: Option<[u8; 32]>)
    ensures
        match bytes {
            Some(decoded) => digits@.len() == 64 && hex_decoded(digits@) == Some(decoded@),
            None => digits@.len() != 64 || hex_decoded(digits@) is None,
        },
{
    let mut decoded = [0u8; 32];
    match hex::decode_to_slice(digits, &mut decoded) {
        Ok(()) => Some(decoded),
        Err(_) => None,
    }
}

/// The signature that a value of `X-Hub-Signature-256` carries.
pub fn decode_hub256_signature(signature: &str) -> (decoded: Option<Signature>)
    ensures
        match decoded {
            Some(found) => hub256_digest(signature@) == Some(found@->HS256Hex_0),
            None => hub256_digest(signature@) is None,
        },
{
    // 7 characters for the prefix and 64 for the digest
    if starts_with(signature, "sha256=") && signature.unicode_len() == 71 {
        match hex_decode_digest(signature.substring_char(7, 71)) {
            Some(signature_bytes) => Some(Signature::HS256Hex(signature_bytes)),
            None => None,
        }
    } else {
        None
    }
}

} // verus!
