//! Who is expected to send the request that triggers an action.

use crate::utils::text::same_text;
use vstd::prelude::*;
use vstd::string::StringExecFns;

verus! {

/// The declared source of a webhook.
#[derive(Debug)]
pub enum HostRef {
    GitHub,
    Any,
    Custom(String),
}

/// What a `HostRef` stands for.
pub enum HostRefView {
    GitHub,
    Any,
    Custom(Seq<char>),
}

/// The source that a configured name stands for: `gh` and `github` are
/// GitHub, `*` is any source, every other name a source of its own.
pub open spec fn host_named(name: Seq<char>) -> HostRefView {
    if name == "gh"@ || name == "github"@ {
        HostRefView::GitHub
    } else if name == "*"@ {
        HostRefView::Any
    } else {
        HostRefView::Custom(name)
    }
}

impl HostRefView {
    /// The source as it is shown to a reader.
    pub open spec fn text(self) -> Seq<char> {
        match self {
            HostRefView::GitHub => "GitHub"@,
            HostRefView::Any => "any"@,
            HostRefView::Custom(name) => "'"@ + name + "'"@,
        }
    }
}

impl View for HostRef {
    type V = HostRefView;

    open spec fn view(&self) -> HostRefView {
        match self {
            HostRef::GitHub => HostRefView::GitHub,
            HostRef::Any => HostRefView::Any,
            HostRef::Custom(name) => HostRefView::Custom(name@),
        }
    }
}

impl Clone for HostRef {
    fn clone(&self) -> (copy: HostRef)
        ensures
            copy@ == self@,
    {
        match self {
            HostRef::GitHub => HostRef::GitHub,
            HostRef::Any => HostRef::Any,
            HostRef::Custom(name) => HostRef::Custom(name.clone()),
        }
    }
}

impl PartialEq for HostRef {
    fn eq(&self, other: &HostRef) -> (same: bool) {
        match (self, other) {
            (HostRef::GitHub, HostRef::GitHub) => true,
            (HostRef::Any, HostRef::Any) => true,
            (HostRef::Custom(name), HostRef::Custom(other_name)) => *name == *other_name,
            _ => false,
        }
    }
}

impl vstd::std_specs::cmp::PartialEqSpecImpl for HostRef {
    open spec fn obeys_eq_spec() -> bool {
        true
    }

    open spec fn eq_spec(&self, other: &HostRef) -> bool {
        self@ == other@
    }
}

impl HostRef {
    /// The source that a configured name stands for.
    pub fn from_name(name: &str) -> (host: HostRef)
        ensures
            host@ == host_named(name@),
    {
        if same_text(name, "gh") || same_text(name, "github") {
            HostRef::GitHub
        } else if same_text(name, "*") {
            HostRef::Any
        } else {
            HostRef::Custom(String::from_str(name))
        }
    }

    /// The source as it is shown to a reader.
    pub fn to_string(&self) -> (text: String)
        ensures
            text@ == self@.text(),
    {
        match self {
            HostRef::GitHub => String::from_str("GitHub"),
            HostRef::Any => String::from_str("any"),
            HostRef::Custom(name) => {
                let mut text = String::from_str("'");
                text.append(name.as_str());
                text.append("'");
                text
            },
        }
    }
}

} // verus!
