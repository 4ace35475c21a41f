//! Domain events.
//!
//! An event describes one state transition of an entity and carries the
//! entity's full state after it. Its `event` field names the transition; a
//! name other than the three below is carried along and changes nothing.

use crate::text::same_text;
use vstd::prelude::*;
use vstd::string::*;

verus! {

/// One event as it travels on the bus.
#[derive(Debug, PartialEq, Eq)]
pub struct ProductEvent {
    pub id: String,
    pub name: String,
    pub kind: String,
    pub version: String,
    pub event: String,
}

/// The mathematical content of a [`ProductEvent`].
pub ghost struct ProductEventView {
    pub id: Seq<char>,
    pub name: Seq<char>,
    pub kind: Seq<char>,
    pub version: Seq<char>,
    pub event: Seq<char>,
}

impl View for ProductEvent {
    type V = ProductEventView;

    open spec fn view(&self) -> ProductEventView {
        ProductEventView {
            id: self.id@,
            name: self.name@,
            kind: self.kind@,
            version: self.version@,
            event: self.event@,
        }
    }
}

impl Clone for ProductEvent {
    fn clone(&self) -> (res: Self)
        ensures
            res == *self,
    {
        ProductEvent {
            id: self.id.clone(),
            name: self.name.clone(),
            kind: self.kind.clone(),
            version: self.version.clone(),
            event: self.event.clone(),
        }
    }
}

/// The transitions that the store knows.
#[derive(Debug, Clone, Copy, PartialEq, Eq, Structural)]
pub enum Action {
    Created,
    Updated,
    Deleted,
}

/// The transition that the text `name` names, if it names one.
pub open spec fn action_named(name: Seq<char>) -> Option<Action> {
    if name == "CREATED"@ {
        Some(Action::Created)
    } else if name == "UPDATED"@ {
        Some(Action::Updated)
    } else if name == "DELETED"@ {
        Some(Action::Deleted)
    } else {
        None
    }
}

impl Action {
    /// The name of this transition on the wire.
    pub open spec fn spec_name(self) -> Seq<char> {
        match self {
            Action::Created => "CREATED"@,
            Action::Updated => "UPDATED"@,
            Action::Deleted => "DELETED"@,
        }
    }

    /// The name of this transition on the wire.
    pub fn name(self) -> (res: &'static str)
        ensures
            res@ == self.spec_name(),
    {
        match self {
            Action::Created => "CREATED",
            Action::Updated => "UPDATED",
            Action::Deleted => "DELETED",
        }
    }

    /// Reads the name of a transition.
    pub fn parse(name: &str) -> (res: Option<Action>)
        ensures
            res == action_named(name@),
    {
        if same_text(name, "CREATED") {
            Some(Action::Created)
        } else if same_text(name, "UPDATED") {
            Some(Action::Updated)
        } else if same_text(name, "DELETED") {
            Some(Action::Deleted)
        } else {
            None
        }
    }
}

/// Every transition is read back from its own name.
pub proof fn lemma_action_name_round_trip(action: Action)
    ensures
        action_named(action.spec_name()) == Some(action),
{
    reveal_strlit("CREATED");
    reveal_strlit("UPDATED");
    reveal_strlit("DELETED");
    assert("CREATED"@[0] == 'C');
    assert("UPDATED"@[0] == 'U');
    assert("DELETED"@[0] == 'D');
}

} // verus!
