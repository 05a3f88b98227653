//! Reversible state management: apply, undo and redo user-defined commands
//! against an owned receiver value.
//!
//! * [`Record`] is a linear history: a stack of commands with a movable
//!   cursor, an optional bound on its length, saved-state tracking and
//!   command merging.
//! * [`Stack`] is the simpler engine without redo: popping a command undoes
//!   it and hands it back.
//! * [`Group`] holds several engines under user-chosen keys and forwards
//!   operations to the active one.
//! * [`Format`] renders history listings as plain or colored text.
//!
//! Commands implement the [`Command`] trait; observers implement [`Slot`]
//! and receive [`Signal`] values whenever an observable property of a
//! record changes.

use vstd::prelude::*;

pub mod format;
pub mod group;
pub mod record;
pub mod stack;

pub use format::{color_of_level, Color, Format};
pub use group::{Group, GroupView};
pub use record::{Record, RecordBuilder, RecordBuilderView, RecordView};
pub use stack::{Stack, StackView};

verus! {

/// Base functionality for all commands.
///
/// The user must uphold the reversibility contract: `undo` immediately
/// after a successful `apply` returns the receiver to its prior observable
/// state, and `redo` (or `apply`) immediately after `undo` does the same
/// in the other direction. The engines rely on this contract for the
/// receiver; everything they themselves maintain (cursor, length, bound,
/// saved marker, signals) is stated in their own contracts.
pub trait Command<R>: Sized {
    /// The error type.
    type Error;

    /// Applies the command on the receiver, moving it forward by one step.
    fn apply(&mut self, receiver: &mut R) -> Result<(), Self::Error>;

    /// Reverses the most recent apply of this command.
    fn undo(&mut self, receiver: &mut R) -> Result<(), Self::Error>;

    /// Reapplies the command on the receiver.
    ///
    /// The default implementation forwards to [`Command::apply`]. Override
    /// it when the forward replay is cheaper than the original apply.
    fn redo(&mut self, receiver: &mut R) -> Result<(), Self::Error> {
        self.apply(receiver)
    }

    /// Lets this command, sitting on top of the stack, absorb the next one.
    ///
    /// The default implementation merges nothing and returns the other
    /// command unchanged.
    fn merge(&mut self, command: Self) -> Merge<Self> {
        Merge::No(command)
    }
}

/// The result of merging two commands.
#[derive(Copy, Clone, Debug, Hash, Ord, PartialOrd, Eq, PartialEq)]
pub enum Merge<C> {
    /// The commands have been merged into the first one.
    Yes,
    /// The commands have not been merged.
    No(C),
    /// The two commands cancel each other out; both are removed.
    Annul,
}

/// The signal sent when an observable property of a record changes.
#[derive(Copy, Clone, Debug, Hash, Ord, PartialOrd, Eq, PartialEq, Structural)]
pub enum Signal {
    /// Says if the record can undo.
    ///
    /// Emitted when the record's ability to undo changes.
    Undo(bool),
    /// Says if the record can redo.
    ///
    /// Emitted when the record's ability to redo changes.
    Redo(bool),
    /// Says if the receiver is in a saved state.
    ///
    /// Emitted when the record enters or leaves the saved state.
    Saved(bool),
    /// Says that the cursor has moved.
    ///
    /// Emitted after every successful apply, even when the cursor value is
    /// unchanged because two commands were merged.
    Cursor {
        /// The cursor before the operation.
        prev: usize,
        /// The cursor after the operation.
        next: usize,
    },
    /// Says that the active branch has changed.
    Root {
        /// The branch before the operation.
        prev: usize,
        /// The branch after the operation.
        next: usize,
    },
}

/// A position in a history tree: a branch id and a cursor within it.
#[derive(Copy, Clone, Debug, Default, Hash, Ord, PartialOrd, Eq, PartialEq, Structural)]
pub struct At {
    /// The branch id.
    pub branch: usize,
    /// The cursor within the branch.
    pub cursor: usize,
}

/// An observer of [`Signal`] values.
///
/// A record carries at most one slot and calls [`Slot::emit`] synchronously
/// during the operation that causes the change, after its own state has
/// been updated and before the operation returns. The slot must not
/// re-enter the engine.
pub trait Slot: Sized {
    /// The signals received so far, oldest first.
    spec fn log(&self) -> Seq<Signal>;

    /// Receives one signal.
    fn emit(&mut self, signal: Signal)
        ensures
            final(self).log() == old(self).log().push(signal),
    ;
}

/// A [`Slot`] that keeps every signal it receives, oldest first.
pub struct SignalLog {
    /// The received signals.
    pub entries: Vec<Signal>,
}

impl SignalLog {
    /// Returns an empty log.
    pub fn new() -> (r: SignalLog)
        ensures
            r.log() == Seq::<Signal>::empty(),
    {
        SignalLog { entries: Vec::new() }
    }
}

impl Slot for SignalLog {
    open spec fn log(&self) -> Seq<Signal> {
        self.entries@
    }

    fn emit(&mut self, signal: Signal) {
        self.entries.push(signal);
    }
}

/// The failure returned when applying a command fails: the rejected command
/// together with the error it reported, so the caller may recover and retry
/// without reconstructing the command.
pub struct Error<R, C: Command<R>>(pub C, pub C::Error);

/// Gives a command a text rendering, used by the listing helpers.
pub trait Text {
    /// The text of the command, as the listing helpers state it. The
    /// default leaves the text unspecified; an implementation overrides it
    /// so that [`Text::text`]'s contract, and through it the listing
    /// helpers', can say which text comes back.
    open spec fn text_spec(&self) -> Seq<char> {
        arbitrary()
    }

    /// Returns the text of the command.
    fn text(&self) -> (r: String)
        ensures
            r@ == self.text_spec(),
    ;
}

/// Relies on chrono's `Utc::now` for the wall-clock reading, reduced to
/// whole seconds since the Unix epoch. The clock decides the value, so
/// nothing is promised of it.
#[verifier::external_body]
fn now_seconds() -> i64 {
    chrono::Utc::now().timestamp()
}

/// Pairs a command with the wall-clock instant of its construction.
///
/// The timestamp is set at construction and never mutated; it is for
/// observation only and never establishes logical order.
#[derive(Clone, Debug)]
pub struct Meta<C> {
    /// The wrapped command.
    pub command: C,
    /// Whole seconds since the Unix epoch at construction time.
    pub timestamp: i64,
}

impl<C> Meta<C> {
    /// Wraps a command, stamping it with the current time.
    pub fn from(command: C) -> (r: Meta<C>)
        ensures
            r.command == command,
    {
        Meta { command, timestamp: now_seconds() }
    }
}

impl<R, C: Command<R>> Command<R> for Meta<C> {
    type Error = C::Error;

    fn apply(&mut self, receiver: &mut R) -> (r: Result<(), C::Error>)
        ensures
            final(self).timestamp == old(self).timestamp,
    {
        self.command.apply(receiver)
    }

    fn undo(&mut self, receiver: &mut R) -> (r: Result<(), C::Error>)
        ensures
            final(self).timestamp == old(self).timestamp,
    {
        self.command.undo(receiver)
    }

    fn redo(&mut self, receiver: &mut R) -> (r: Result<(), C::Error>)
        ensures
            final(self).timestamp == old(self).timestamp,
    {
        self.command.redo(receiver)
    }

    fn merge(&mut self, command: Self) -> (r: Merge<Self>)
        ensures
            final(self).timestamp == old(self).timestamp,
    {
        match self.command.merge(command.command) {
            Merge::Yes => Merge::Yes,
            Merge::No(command) => Merge::No(Meta::from(command)),
            Merge::Annul => Merge::Annul,
        }
    }
}

impl<C: Text> Text for Meta<C> {
    open spec fn text_spec(&self) -> Seq<char> {
        self.command.text_spec()
    }

    fn text(&self) -> (r: String) {
        self.command.text()
    }
}

} // verus!
