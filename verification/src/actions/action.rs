//! One configured action.

use crate::actions::commands::{texts_of, Commands};
use crate::actions::host::{HostRef, HostRefView};
use crate::actions::refs::{flatten_optional_refs, flattened, ActionRefs};
use crate::utils::error::Error;
use vstd::prelude::*;

verus! {

/// An action as it is written in a configuration file.
#[derive(Debug)]
pub struct ActionEntry {
    name: String,
    trigger: String,
    origin: Option<HostRef>,
    secret: Option<String>,
    before: Option<ActionRefs>,
    after: Option<ActionRefs>,
    action: Commands,
}

/// An action as the server holds it.
#[derive(Debug)]
pub struct Action {
    trigger: String,
    origin: Option<HostRef>,
    secret: Option<String>,
    before: Vec<String>,
    after: Vec<String>,
    action: Commands,
}

/// What an `Action` stands for.
pub struct ActionView {
    /// The request that triggers the action, written `METHOD /path`.
    pub trigger: Seq<char>,
    pub origin: Option<HostRefView>,
    pub secret: Option<Seq<char>>,
    /// The actions to run before this one, as they are written.
    pub before: Seq<Seq<char>>,
    /// The actions to run after this one, as they are written.
    pub after: Seq<Seq<char>>,
    /// The command lines of the action.
    pub pipeline: Seq<Seq<char>>,
}

/// The view of an optional source.
pub open spec fn origin_view(origin: Option<HostRef>) -> Option<HostRefView> {
    match origin {
        Some(host) => Some(host@),
        None => None,
    }
}

/// The view of an optional text.
pub open spec fn text_view(text: Option<String>) -> Option<Seq<char>> {
    match text {
        Some(text) => Some(text@),
        None => None,
    }
}

impl ActionEntry {
    /// The entry with the given fields.
    pub fn new(
        name: String,
        trigger: String,
        origin: Option<HostRef>,
        secret: Option<String>,
        before: Option<ActionRefs>,
        after: Option<ActionRefs>,
        action: Commands,
    ) -> (entry: ActionEntry)
        ensures
            entry.name() == name@,
            entry.configured() == (ActionView {
                trigger: trigger@,
                origin: origin_view(origin),
                secret: text_view(secret),
                before: flattened(before),
                after: flattened(after),
                pipeline: action@,
            }),
    {
        ActionEntry { name, trigger, origin, secret, before, after, action }
    }

    /// The name of the action within its group.
    pub closed spec fn name(&self) -> Seq<char> {
        self.name@
    }

    /// The action that the entry configures.
    pub closed spec fn configured(&self) -> ActionView {
        ActionView {
            trigger: self.trigger@,
            origin: origin_view(self.origin),
            secret: text_view(self.secret),
            before: flattened(self.before),
            after: flattened(self.after),
            pipeline: self.action@,
        }
    }
}

impl View for Action {
    type V = ActionView;

    closed spec fn view(&self) -> ActionView {
        ActionView {
            trigger: self.trigger@,
            origin: origin_view(self.origin),
            secret: text_view(self.secret),
            before: texts_of(self.before@),
            after: texts_of(self.after@),
            pipeline: self.action@,
        }
    }
}

impl Action {
    /// The name and the action that an entry configures.
    pub fn from_deserialized(deserialized_action: ActionEntry) -> (result: Result<
        (String, Action),
        Error,
    >)
        ensures
            result matches Ok(named) && named.0@ == deserialized_action.name() && named.1@
                == deserialized_action.configured(),
    {
        Ok(
            (
                deserialized_action.name,
                Action {
                    trigger: deserialized_action.trigger,
                    origin: deserialized_action.origin,
                    secret: deserialized_action.secret,
                    before: flatten_optional_refs(deserialized_action.before),
                    after: flatten_optional_refs(deserialized_action.after),
                    action: deserialized_action.action,
                },
            ),
        )
    }

    /// The request that triggers the action, written `METHOD /path`.
    pub fn trigger(&self) -> (trigger: &str)
        ensures
            trigger@ == self@.trigger,
    {
        self.trigger.as_str()
    }

    /// The source that the action declares, if it declares one.
    pub fn origin(&self) -> (origin: Option<&HostRef>)
        ensures
            match origin {
                Some(host) => self@.origin == Some(host@),
                None => self@.origin is None,
            },
    {
        self.origin.as_ref()
    }

    /// The secret that requests are signed with, if there is one.
    pub fn secret(&self) -> (secret: Option<&str>)
        ensures
            match secret {
                Some(text) => self@.secret == Some(text@),
                None => self@.secret is None,
            },
    {
        match &self.secret {
            Some(text) => Some(text.as_str()),
            None => None,
        }
    }

    /// The actions to run before this one, as they are written.
    pub fn before(&self) -> (before: &Vec<String>)
        ensures
            texts_of(before@) == self@.before,
    {
        &self.before
    }

    /// The actions to run after this one, as they are written.
    pub fn after(&self) -> (after: &Vec<String>)
        ensures
            texts_of(after@) == self@.after,
    {
        &self.after
    }

    /// The command lines of the action.
    pub fn action(&self) -> (action: &Commands)
        ensures
            action@ == self@.pipeline,
    {
        &self.action
    }
}

} // verus!
