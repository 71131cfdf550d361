//! Names of actions: a group and an action within it.

use crate::utils::error::{Error, ErrorView};
use crate::utils::text::{
    head_before, lemma_first_index_of, lemma_first_index_of_unique, split_in_two, tail_after,
    text_lt, text_precedes,
};
use vstd::prelude::*;
use vstd::string::StringExecFns;

verus! {

/// The name of one action, written `group/action`.
#[derive(Debug)]
pub struct ActionPath {
    group_part: String,
    action_part: String,
}

/// What an `ActionPath` stands for.
pub struct ActionPathView {
    pub group: Seq<char>,
    pub action: Seq<char>,
}

impl ActionPathView {
    /// The written form: the group, a slash, the action.
    pub open spec fn text(self) -> Seq<char> {
        self.group + "/"@ + self.action
    }

    /// Whether `self` stands before `other`: by group first, then by action,
    /// each in the order of texts.
    pub open spec fn precedes(self, other: ActionPathView) -> bool {
        text_lt(self.group, other.group) || (self.group == other.group && text_lt(
            self.action,
            other.action,
        ))
    }
}

/// The path that `text` names: what stands before the first slash is the
/// group, what follows it the action. A text without a slash names none.
pub open spec fn parsed(text: Seq<char>) -> Option<ActionPathView> {
    match tail_after(text, '/') {
        Some(action) => Some(ActionPathView { group: head_before(text, '/'), action }),
        None => None,
    }
}

/// The message for a text that names no path.
pub open spec fn missing_action_message(text: Seq<char>) -> Seq<char> {
    "Missing action part in path '"@ + text + "'"@
}

impl View for ActionPath {
    type V = ActionPathView;

    closed spec fn view(&self) -> ActionPathView {
        ActionPathView { group: self.group_part@, action: self.action_part@ }
    }
}

impl Clone for ActionPath {
    fn clone(&self) -> (copy: ActionPath)
        ensures
            copy@ == self@,
    {
        ActionPath { group_part: self.group_part.clone(), action_part: self.action_part.clone() }
    }
}

impl PartialEq for ActionPath {
    fn eq(&self, other: &ActionPath) -> (same: bool) {
        self.group_part == other.group_part && self.action_part == other.action_part
    }
}

impl vstd::std_specs::cmp::PartialEqSpecImpl for ActionPath {
    open spec fn obeys_eq_spec() -> bool {
        true
    }

    open spec fn eq_spec(&self, other: &ActionPath) -> bool {
        self@ == other@
    }
}

impl ActionPath {
    /// Reads a path from its written form.
    pub fn parse(path: &str) -> (result: Result<ActionPath, Error>)
        ensures
            match result {
                Ok(found) => parsed(path@) == Some(found@),
                Err(error) => parsed(path@) is None && error@ == ErrorView::Message(
                    missing_action_message(path@),
                ),
            },
    {
        match split_in_two(path, '/') {
            (_, None) => {
                let mut message = String::from_str("Missing action part in path '");
                message.append(path);
                message.append("'");
                Err(Error::DynamicMessage(message))
            },
            (group, Some(action)) => Ok(
                ActionPath {
                    group_part: String::from_str(group),
                    action_part: String::from_str(action),
                },
            ),
        }
    }

    /// The written form of the path.
    pub fn to_string(&self) -> (text: String)
        ensures
            text@ == self@.text(),
    {
        let mut text = String::from_str(self.group_part.as_str());
        text.append("/");
        text.append(self.action_part.as_str());
        text
    }

    /// The path of the action `action_part` in the group `group_part`.
    pub fn from_parts(group_part: &str, action_part: &str) -> (path: ActionPath)
        ensures
            path@ == (ActionPathView { group: group_part@, action: action_part@ }),
    {
        ActionPath {
            group_part: String::from_str(group_part),
            action_part: String::from_str(action_part),
        }
    }

    /// The group and the action of the path.
    pub fn into_parts(self) -> (parts: (String, String))
        ensures
            parts.0@ == self@.group,
            parts.1@ == self@.action,
    {
        (self.group_part, self.action_part)
    }

    /// Whether `pattern` selects this path.
    pub fn matches(&self, pattern: &ActionPathPattern) -> (selected: bool)
        ensures
            selected == pattern@.selects(self@),
    {
        pattern.test(self)
    }

    /// Whether this path stands before `other` in the order of paths.
    pub fn precedes(&self, other: &ActionPath) -> (before: bool)
        ensures
            before == self@.precedes(other@),
    {
        if text_precedes(self.group_part.as_str(), other.group_part.as_str()) {
            true
        } else if self.group_part == other.group_part {
            text_precedes(self.action_part.as_str(), other.action_part.as_str())
        } else {
            false
        }
    }
}

/// Reading back the written form of a path gives the path, as long as its
/// group holds no slash.
pub proof fn lemma_parse_to_string(path: ActionPathView)
    requires
        !path.group.contains('/'),
    ensures
        parsed(path.text()) == Some(path),
{
    let text = path.text();
    let at = path.group.len() as int;
    reveal_strlit("/");
    assert(text[at] == '/');
    assert forall|j: int| 0 <= j < at implies text[j] != '/' by {
        assert(text[j] == path.group[j]);
        if path.group[j] == '/' {
            assert(path.group.contains('/'));
        }
    }
    lemma_first_index_of_unique(text, '/', at);
    assert(text.subrange(0, at) =~= path.group);
    assert(text.subrange(at + 1, text.len() as int) =~= path.action);
}

/// The written form of a path that was read from a text is that text.
pub proof fn lemma_to_string_parse(text: Seq<char>)
    requires
        parsed(text) is Some,
    ensures
        parsed(text)->0.text() == text,
{
    reveal_strlit("/");
    lemma_first_index_of(text, '/');
    assert(parsed(text)->0.text() =~= text);
}

/// Selects the actions of a group: all of them, or one by name.
#[derive(Debug)]
pub struct ActionPathPattern {
    group_part: String,
    action_part: Option<String>,
}

/// What an `ActionPathPattern` stands for.
pub struct ActionPathPatternView {
    pub group: Seq<char>,
    pub action: Option<Seq<char>>,
}

impl ActionPathPatternView {
    /// A path is selected if it lies in the group of the pattern and, where
    /// the pattern names an action, bears that name.
    pub open spec fn selects(self, path: ActionPathView) -> bool {
        self.group == path.group && match self.action {
            None => true,
            Some(action) => action == path.action,
        }
    }

    /// The written form: the group, and the action after a slash if there is
    /// one.
    pub open spec fn text(self) -> Seq<char> {
        match self.action {
            None => self.group,
            Some(action) => self.group + "/"@ + action,
        }
    }
}

/// The pattern that `text` names: what stands before the first slash is the
/// group, what follows it, if there is a slash, the action.
pub open spec fn parsed_pattern(text: Seq<char>) -> ActionPathPatternView {
    ActionPathPatternView { group: head_before(text, '/'), action: tail_after(text, '/') }
}

impl View for ActionPathPattern {
    type V = ActionPathPatternView;

    closed spec fn view(&self) -> ActionPathPatternView {
        ActionPathPatternView {
            group: self.group_part@,
            action: match self.action_part {
                Some(action) => Some(action@),
                None => None,
            },
        }
    }
}

impl ActionPathPattern {
    /// Reads a pattern from its written form. Every text names a pattern.
    pub fn parse(path: &str) -> (result: Result<ActionPathPattern, Error>)
        ensures
            result matches Ok(pattern) && pattern@ == parsed_pattern(path@),
    {
        match split_in_two(path, '/') {
            (group, None) => Ok(
                ActionPathPattern { group_part: String::from_str(group), action_part: None },
            ),
            (group, Some(action)) => Ok(
                ActionPathPattern {
                    group_part: String::from_str(group),
                    action_part: Some(String::from_str(action)),
                },
            ),
        }
    }

    /// Whether the pattern selects `path`.
    pub fn test(&self, path: &ActionPath) -> (selected: bool)
        ensures
            selected == self@.selects(path@),
    {
        self.group_part == path.group_part && match &self.action_part {
            None => true,
            Some(action_pattern) => *action_pattern == path.action_part,
        }
    }

    /// The written form of the pattern.
    pub fn to_string(&self) -> (text: String)
        ensures
            text@ == self@.text(),
    {
        let mut text = String::from_str(self.group_part.as_str());
        match &self.action_part {
            None => {},
            Some(action) => {
                text.append("/");
                text.append(action.as_str());
            },
        }
        text
    }

    /// The group the pattern selects from.
    pub fn group_part(&self) -> (group: &str)
        ensures
            group@ == self@.group,
    {
        self.group_part.as_str()
    }

    /// The action the pattern names, if it names one.
    pub fn action_part(&self) -> (action: Option<&str>)
        ensures
            match action {
                Some(name) => self@.action == Some(name@),
                None => self@.action is None,
            },
    {
        match &self.action_part {
            Some(name) => Some(name.as_str()),
            None => None,
        }
    }
}

} // verus!
