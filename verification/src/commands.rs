//! What the management tool does besides editing the configuration.

use crate::utils::text::{decimal, push_decimal};
use vstd::prelude::*;
use vstd::string::StringExecFns;

verus! {

/// What is sent as the body of the request.
pub trait TestPayload {

}

/// No body at all.
pub struct NoTestPayload();

impl TestPayload for NoTestPayload {

}

/// A body given as text.
pub struct StringTestPayload(pub String);

impl TestPayload for StringTestPayload {

}

/// A status code as it is written: in base ten, with a minus sign before a
/// negative one.
pub open spec fn code_text(code: int) -> Seq<char> {
    if code < 0 {
        "-"@ + decimal((-code) as nat)
    } else {
        decimal(code as nat)
    }
}

/// What there is to say of the way the service manager ended: nothing if it
/// succeeded, else the status code it exited with, or that a signal ended it
/// if it has none.
pub open spec fn systemctl_failure(success: bool, code: Option<i32>) -> Option<Seq<char>> {
    if success {
        None
    } else {
        match code {
            Some(code) => Some("systemctl exited with status code "@ + code_text(code as int)),
            None => Some("systemctl was terminated by a signal"@),
        }
    }
}

/// The complaint about the way the service manager ended, if there is one
/// to make.
pub fn systemctl(success: bool, code: Option<i32>) -> (complaint: Option<String>)
    ensures
        match complaint {
            Some(text) => systemctl_failure(success, code) == Some(text@),
            None => systemctl_failure(success, code) is None,
        },
{
    match (success, code) {
        (false, Some(code)) => {
            let mut text = String::from_str("systemctl exited with status code ");
            if code < 0 {
                text.append("-");
                // the magnitude of the least code is one more than that of the greatest
                let magnitude: u32 = if code == i32::MIN {
                    2147483648u32
                } else {
                    (-code) as u32
                };
                push_decimal(&mut text, magnitude as usize);
            } else {
                push_decimal(&mut text, code as usize);
            }
            Some(text)
        },
        (false, None) => Some(String::from_str("systemctl was terminated by a signal")),
        (true, _) => None,
    }
}

/// Triggers the action that `_name_or_url` names. Nothing is sent yet.
pub fn test<P: TestPayload>(_name_or_url: String, _payload: P) {
}

} // verus!
