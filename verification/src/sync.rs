//! Keeping the fields of an editor and its text view in step.
//!
//! A change on one side is carried over to the other once. While that is
//! under way the controller is `Propagating`, and the change that the update
//! itself raises on the other side is dropped instead of being carried back.

use crate::entry::{DesktopEntry, EntryView};
use crate::parse::{parse_desktop_source, parsed};
use crate::serialize::serialized;
use vstd::prelude::*;

verus! {

/// Whether an update is under way.
#[derive(Debug, Clone, Copy, PartialEq, Eq, Structural)]
pub enum SyncState {
    /// No update is under way: the next change is carried over.
    Idle,
    /// An update is under way: changes are dropped.
    Propagating,
}

/// A change on one of the two sides.
pub enum Change {
    /// The fields now hold this entry.
    Fields(EntryView),
    /// The text view now holds this text.
    Text(Seq<char>),
}

/// What is to be done to the other side.
pub enum Update {
    /// Nothing.
    Nothing,
    /// The text view gets this text.
    Text(Seq<char>),
    /// The fields get this entry, every one of them.
    Fields(EntryView),
}

/// The state after a change, and the update that the change calls for.
///
/// While an update is under way nothing happens. Otherwise a change of the
/// fields puts their text into the text view, whether or not the entry is
/// valid, and a change of the text puts what it stands for into the fields.
pub open spec fn react(state: SyncState, change: Change) -> (SyncState, Update) {
    match state {
        SyncState::Propagating => (SyncState::Propagating, Update::Nothing),
        SyncState::Idle => match change {
            Change::Fields(e) => (SyncState::Propagating, Update::Text(serialized(e))),
            Change::Text(t) => (SyncState::Propagating, Update::Fields(parsed(t))),
        },
    }
}

/// The update that an optional text stands for.
pub open spec fn text_update(text: Option<String>) -> Update {
    match text {
        Some(t) => Update::Text(t@),
        None => Update::Nothing,
    }
}

/// The update that an optional entry stands for.
pub open spec fn fields_update(entry: Option<DesktopEntry>) -> Update {
    match entry {
        Some(e) => Update::Fields(e@),
        None => Update::Nothing,
    }
}

/// The guard between the fields and the text view of one editor.
#[derive(Debug)]
pub struct SyncController {
    state: SyncState,
}

impl View for SyncController {
    type V = SyncState;

    closed spec fn view(&self) -> SyncState {
        self.state
    }
}

impl SyncController {
    /// A controller with no update under way.
    pub fn new() -> (c: SyncController)
        ensures
            c@ == SyncState::Idle,
    {
        SyncController { state: SyncState::Idle }
    }

    /// A controller for an editor that opens on `entry`, and the text that
    /// the text view starts with. The update is under way until
    /// [`SyncController::finish`] is called.
    pub fn start(entry: &DesktopEntry) -> (r: (SyncController, String))
        ensures
            (r.0@, Update::Text(r.1@)) == react(SyncState::Idle, Change::Fields(entry@)),
    {
        (SyncController { state: SyncState::Propagating }, entry.to_ini_string())
    }

    /// Whether an update is under way.
    pub fn state(&self) -> (s: SyncState)
        ensures
            s == self@,
    {
        self.state
    }

    /// The fields have changed and now hold `entry`. Returns the text for the
    /// text view, or nothing while an update is under way.
    pub fn fields_changed(&mut self, entry: &DesktopEntry) -> (text: Option<String>)
        ensures
            (final(self)@, text_update(text)) == react(old(self)@, Change::Fields(entry@)),
    {
        match self.state {
            SyncState::Propagating => None,
            SyncState::Idle => {
                self.state = SyncState::Propagating;
                Some(entry.to_ini_string())
            },
        }
    }

    /// The text view has changed and now holds `text`. Returns the entry for
    /// the fields, or nothing while an update is under way.
    pub fn text_changed(&mut self, text: &str) -> (entry: Option<DesktopEntry>)
        ensures
            (final(self)@, fields_update(entry)) == react(old(self)@, Change::Text(text@)),
    {
        match self.state {
            SyncState::Propagating => None,
            SyncState::Idle => {
                self.state = SyncState::Propagating;
                Some(parse_desktop_source(text))
            },
        }
    }

    /// The update has been carried out.
    pub fn finish(&mut self)
        ensures
            final(self)@ == SyncState::Idle,
    {
        self.state = SyncState::Idle;
    }
}

/// No feedback: the change that an update raises on the other side, or any
/// other change that arrives while the update is under way, calls for no
/// update and leaves the update under way.
pub proof fn lemma_no_feedback(first: Change, second: Change)
    ensures
        react(SyncState::Idle, first).0 == SyncState::Propagating,
        react(react(SyncState::Idle, first).0, second) == (
            SyncState::Propagating,
            Update::Nothing,
        ),
{
}

/// While an update is under way every change is dropped.
pub proof fn lemma_guard_holds(change: Change)
    ensures
        react(SyncState::Propagating, change) == (SyncState::Propagating, Update::Nothing),
{
}

/// A change that arrives while no update is under way is always carried
/// over: fields to text for any entry, valid or not, and text to fields for
/// any text.
pub proof fn lemma_idle_propagates(change: Change)
    ensures
        react(SyncState::Idle, change).1 == match change {
            Change::Fields(e) => Update::Text(serialized(e)),
            Change::Text(t) => Update::Fields(parsed(t)),
        },
{
}

} // verus!
