//! The linear history engine: a stack of commands with a movable cursor,
//! an optional bound on its length, saved-state tracking, command merging
//! and change signals.

use vstd::prelude::*;

use crate::{Command, Error, Merge, Signal, Slot, Text};
use core::marker::PhantomData;
use std::collections::vec_deque::VecDeque;

verus! {

/// The mathematical model of a [`Record`].
pub struct RecordView<R, C> {
    /// The stored commands, oldest first.
    pub commands: Seq<C>,
    /// The receiver the commands act on.
    pub receiver: R,
    /// How many of the stored commands are currently applied: the commands
    /// at positions `[0, cursor)` have been applied, the rest are undone.
    pub cursor: int,
    /// The bound on the number of stored commands; `0` means unbounded.
    pub limit: int,
    /// The cursor at which the receiver counts as saved, if one is reachable.
    pub saved: Option<int>,
    /// The signals received by the slot so far, when a slot is connected.
    pub sigs: Option<Seq<Signal>>,
}

impl<R, C> RecordView<R, C> {
    /// The number of stored commands.
    pub open spec fn len(self) -> int {
        self.commands.len() as int
    }

    /// Whether a command is available to undo.
    pub open spec fn can_undo(self) -> bool {
        self.cursor > 0
    }

    /// Whether a command is available to redo.
    pub open spec fn can_redo(self) -> bool {
        self.cursor < self.len()
    }

    /// Whether the receiver is in the saved state.
    pub open spec fn is_saved(self) -> bool {
        self.saved == Some(self.cursor)
    }

    /// The record's invariant: the cursor lies in `[0, len]`, a positive
    /// limit bounds the length, and the saved marker lies in `[0, len]`.
    pub open spec fn wf(self) -> bool {
        &&& 0 <= self.cursor <= self.len()
        &&& 0 <= self.limit
        &&& (self.limit > 0 ==> self.len() <= self.limit)
        &&& match self.saved {
            Some(s) => 0 <= s <= self.len(),
            None => true,
        }
    }

    /// The saved marker after the tail above the cursor is discarded:
    /// a marker inside the tail is lost.
    pub open spec fn saved_after_truncate(self) -> Option<int> {
        match self.saved {
            Some(s) => if s > self.cursor { None } else { Some(s) },
            None => None,
        }
    }
}

/// The saved marker after the oldest command is dropped from the front:
/// every position shifts down by one, and position zero is lost.
pub open spec fn saved_dec(saved: Option<int>) -> Option<int> {
    match saved {
        Some(s) => if s >= 1 { Some(s - 1) } else { None },
        None => None,
    }
}

/// The slot log after the given signals are emitted, when a slot is
/// connected; no slot, no log.
pub open spec fn log_after(sigs: Option<Seq<Signal>>, emitted: Seq<Signal>) -> Option<Seq<Signal>> {
    match sigs {
        Some(l) => Some(l + emitted),
        None => None,
    }
}

/// Whether an apply on the given state attempts a merge: there must be a
/// previous top command, and the record must not be in a saved state
/// (merging across the saved point would make it unreachable by undo).
pub open spec fn merge_attempted<R, C>(o: RecordView<R, C>) -> bool {
    o.cursor >= 1 && !o.is_saved()
}

/// The signals a successful apply emits, in order: the cursor move always,
/// `Redo(false)` if redo was available, `Undo(true)` if undo was not,
/// `Saved(false)` if the state was saved.
pub open spec fn apply_emits<R, C>(o: RecordView<R, C>, new_cursor: int) -> Seq<Signal> {
    let l0 = seq![Signal::Cursor { prev: o.cursor as usize, next: new_cursor as usize }];
    let l1 = if o.can_redo() { l0.push(Signal::Redo(false)) } else { l0 };
    let l2 = if !o.can_undo() { l1.push(Signal::Undo(true)) } else { l1 };
    if o.is_saved() { l2.push(Signal::Saved(false)) } else { l2 }
}

/// The signals a successful undo emits, in order: the cursor move always,
/// `Redo(true)` if the undone command was the last applied one,
/// `Undo(false)` if it was the only applied one, and the saved flag when
/// it toggles.
pub open spec fn undo_emits<R, C>(o: RecordView<R, C>) -> Seq<Signal> {
    let saved_now = o.saved == Some(o.cursor - 1);
    let l0 = seq![Signal::Cursor { prev: o.cursor as usize, next: (o.cursor - 1) as usize }];
    let l1 = if o.cursor == o.len() { l0.push(Signal::Redo(true)) } else { l0 };
    let l2 = if o.cursor == 1 { l1.push(Signal::Undo(false)) } else { l1 };
    if o.is_saved() != saved_now { l2.push(Signal::Saved(saved_now)) } else { l2 }
}

/// The signals a successful redo emits, in order: the cursor move always,
/// `Redo(false)` if the redone command was the last undone one,
/// `Undo(true)` if nothing had been applied, and the saved flag when it
/// toggles.
pub open spec fn redo_emits<R, C>(o: RecordView<R, C>) -> Seq<Signal> {
    let saved_now = o.saved == Some(o.cursor + 1);
    let l0 = seq![Signal::Cursor { prev: o.cursor as usize, next: (o.cursor + 1) as usize }];
    let l1 = if o.cursor == o.len() - 1 { l0.push(Signal::Redo(false)) } else { l0 };
    let l2 = if o.cursor == 0 { l1.push(Signal::Undo(true)) } else { l1 };
    if o.is_saved() != saved_now { l2.push(Signal::Saved(saved_now)) } else { l2 }
}

/// The signals a clear emits, in order: the cursor move if the cursor was
/// not zero, `Undo(false)` and `Redo(false)` where they were available,
/// and `Saved(true)` if the state was not saved.
pub open spec fn clear_emits<R, C>(o: RecordView<R, C>) -> Seq<Signal> {
    let l0 = if o.cursor != 0 {
        seq![Signal::Cursor { prev: o.cursor as usize, next: 0 }]
    } else {
        Seq::<Signal>::empty()
    };
    let l1 = if o.can_undo() { l0.push(Signal::Undo(false)) } else { l0 };
    let l2 = if o.can_redo() { l1.push(Signal::Redo(false)) } else { l1 };
    if !o.is_saved() { l2.push(Signal::Saved(true)) } else { l2 }
}

/// A failed apply changes no bookkeeping: commands, cursor, limit, saved
/// marker and signal log are untouched. Only the receiver may have been
/// touched by the failing command, which promises not to do so observably.
pub open spec fn apply_err_post<R, C>(o: RecordView<R, C>, n: RecordView<R, C>) -> bool {
    &&& n.commands == o.commands
    &&& n.cursor == o.cursor
    &&& n.limit == o.limit
    &&& n.saved == o.saved
    &&& n.sigs == o.sigs
}

/// A successful apply that pushed the command: the tail above the cursor is
/// gone, and the command sits at the back. When the record was at a
/// positive limit, the oldest command was dropped from the front and the
/// saved marker shifted down; otherwise the cursor advanced by one. The
/// prefix below the previous top is preserved; the previous top itself is
/// preserved only when no merge was attempted, since a rejecting merge may
/// still mutate it.
pub open spec fn apply_pushed<R, C>(o: RecordView<R, C>, n: RecordView<R, C>) -> bool {
    let k = o.cursor;
    let p = if merge_attempted(o) { k - 1 } else { k };
    if o.limit != 0 && o.limit == k {
        &&& n.cursor == k
        &&& n.commands.len() == k
        &&& (forall|i: int| 0 <= i < p - 1 ==> n.commands[i] == o.commands[i + 1])
        &&& n.saved == saved_dec(o.saved_after_truncate())
    } else {
        &&& n.cursor == k + 1
        &&& n.commands.len() == k + 1
        &&& (forall|i: int| 0 <= i < p ==> n.commands[i] == o.commands[i])
        &&& n.saved == o.saved_after_truncate()
    }
}

/// A successful apply whose command was absorbed by the previous top: the
/// tail above the cursor is gone, cursor and length are unchanged, and only
/// the top command differs.
pub open spec fn apply_merged<R, C>(o: RecordView<R, C>, n: RecordView<R, C>) -> bool {
    let k = o.cursor;
    &&& merge_attempted(o)
    &&& n.cursor == k
    &&& n.commands.len() == k
    &&& (forall|i: int| 0 <= i < k - 1 ==> n.commands[i] == o.commands[i])
    &&& n.saved == o.saved_after_truncate()
}

/// A successful apply whose command annulled the previous top: the tail
/// above the cursor is gone and so is the top; cursor and length shrink
/// by one.
pub open spec fn apply_annulled<R, C>(o: RecordView<R, C>, n: RecordView<R, C>) -> bool {
    let k = o.cursor;
    &&& merge_attempted(o)
    &&& n.cursor == k - 1
    &&& n.commands == o.commands.subrange(0, k - 1)
    &&& n.saved == o.saved_after_truncate()
}

/// What a successful apply does: exactly one of push, merge or annul, with
/// the limit unchanged and the signals of the operation appended to the log.
pub open spec fn apply_ok_post<R, C>(o: RecordView<R, C>, n: RecordView<R, C>) -> bool {
    &&& (apply_pushed(o, n) || apply_merged(o, n) || apply_annulled(o, n))
    &&& n.limit == o.limit
    &&& n.sigs == log_after(o.sigs, apply_emits(o, n.cursor))
}

/// What an apply does: on success the removed tail is returned and
/// [`apply_ok_post`] relates the states; on failure nothing but the
/// receiver was touched.
pub open spec fn apply_post<R, C: Command<R>>(
    o: RecordView<R, C>,
    n: RecordView<R, C>,
    r: Result<Vec<C>, Error<R, C>>,
) -> bool {
    match r {
        Ok(tail) => {
            &&& tail@ == o.commands.subrange(o.cursor, o.commands.len() as int)
            &&& apply_ok_post(o, n)
        },
        Err(_) => apply_err_post(o, n),
    }
}

/// What an undo does. With no applied command it returns `None` and changes
/// nothing. Otherwise the top applied command's `undo` ran on the receiver
/// and may have mutated both; on success the cursor steps back and the
/// operation's signals are appended to the log, on failure the bookkeeping
/// is unchanged.
pub open spec fn undo_post<R, C: Command<R>>(
    o: RecordView<R, C>,
    n: RecordView<R, C>,
    r: Option<Result<(), C::Error>>,
) -> bool {
    if !o.can_undo() {
        &&& r is None
        &&& n == o
    } else {
        &&& n.limit == o.limit
        &&& n.saved == o.saved
        &&& n.commands.len() == o.commands.len()
        &&& (forall|i: int| 0 <= i < o.commands.len() && i != o.cursor - 1 ==> n.commands[i]
            == o.commands[i])
        &&& match r {
            Some(res) => match res {
                Ok(_) => {
                    &&& n.cursor == o.cursor - 1
                    &&& n.sigs == log_after(o.sigs, undo_emits(o))
                },
                Err(_) => {
                    &&& n.cursor == o.cursor
                    &&& n.sigs == o.sigs
                },
            },
            None => false,
        }
    }
}

/// What a redo does, symmetric to undo: with no undone command it returns
/// `None` and changes nothing; otherwise the next command's `redo` ran, and
/// on success the cursor steps forward.
pub open spec fn redo_post<R, C: Command<R>>(
    o: RecordView<R, C>,
    n: RecordView<R, C>,
    r: Option<Result<(), C::Error>>,
) -> bool {
    if !o.can_redo() {
        &&& r is None
        &&& n == o
    } else {
        &&& n.limit == o.limit
        &&& n.saved == o.saved
        &&& n.commands.len() == o.commands.len()
        &&& (forall|i: int| 0 <= i < o.commands.len() && i != o.cursor ==> n.commands[i]
            == o.commands[i])
        &&& match r {
            Some(res) => match res {
                Ok(_) => {
                    &&& n.cursor == o.cursor + 1
                    &&& n.sigs == log_after(o.sigs, redo_emits(o))
                },
                Err(_) => {
                    &&& n.cursor == o.cursor
                    &&& n.sigs == o.sigs
                },
            },
            None => false,
        }
    }
}

/// Relies on VecDeque::capacity: a deque holds at least its current
/// elements without reallocating, so the reported capacity is at least the
/// length.
#[verifier::external_body]
fn deque_capacity<C>(v: &VecDeque<C>) -> (r: usize)
    ensures
        r as int >= v@.len(),
{
    v.capacity()
}

/// A record of commands: the linear undo-redo engine.
///
/// The record stores the commands it has applied instead of discarding them
/// on undo, so it can roll the receiver's state backwards and forwards. It
/// can notify an observer about changes through [`Signal`]s; connect one
/// with [`RecordBuilder::signals`].
#[derive(Debug)]
pub struct Record<R, C: Command<R>, S: Slot> {
    commands: VecDeque<C>,
    receiver: R,
    cursor: usize,
    limit: usize,
    saved: Option<usize>,
    signals: Option<S>,
}

impl<R, C: Command<R>, S: Slot> View for Record<R, C, S> {
    type V = RecordView<R, C>;

    closed spec fn view(&self) -> RecordView<R, C> {
        RecordView {
            commands: self.commands@,
            receiver: self.receiver,
            cursor: self.cursor as int,
            limit: self.limit as int,
            saved: match self.saved {
                Some(s) => Some(s as int),
                None => None,
            },
            sigs: match self.signals {
                Some(s) => Some(s.log()),
                None => None,
            },
        }
    }
}

impl<R, C: Command<R>, S: Slot> Record<R, C, S> {
    /// The record's invariant; every constructor establishes it and every
    /// operation preserves it.
    pub open spec fn wf(&self) -> bool {
        self@.wf()
    }

    /// Returns a new record owning the given receiver: empty, unbounded,
    /// in the saved state, with no observer connected.
    pub fn new(receiver: R) -> (r: Record<R, C, S>)
        ensures
            r@.commands == Seq::<C>::empty(),
            r@.receiver == receiver,
            r@.cursor == 0,
            r@.limit == 0,
            r@.saved == Some(0int),
            r@.sigs == None::<Seq<Signal>>,
            r.wf(),
    {
        Record {
            commands: VecDeque::new(),
            receiver,
            cursor: 0,
            limit: 0,
            saved: Some(0),
            signals: None,
        }
    }

    /// Returns a builder for a record.
    pub fn builder() -> (r: RecordBuilder<R, C, S>)
        ensures
            r@.capacity == 0,
            r@.limit == 0,
            r@.sigs == None::<Seq<Signal>>,
    {
        RecordBuilder {
            commands: PhantomData,
            receiver: PhantomData,
            capacity: 0,
            limit: 0,
            signals: None,
        }
    }

    /// Returns the capacity of the record, which is at least its length.
    pub fn capacity(&self) -> (r: usize)
        ensures
            r as int >= self@.commands.len(),
    {
        deque_capacity(&self.commands)
    }

    /// Returns the number of commands in the record.
    pub fn len(&self) -> (r: usize)
        ensures
            r as int == self@.commands.len(),
    {
        self.commands.len()
    }

    /// Returns `true` if the record holds no commands.
    pub fn is_empty(&self) -> (r: bool)
        ensures
            r == (self@.commands.len() == 0),
    {
        self.commands.len() == 0
    }

    /// Returns the limit of the record, or `None` if it has no limit.
    pub fn limit(&self) -> (r: Option<usize>)
        ensures
            r == if self@.limit == 0 {
                None::<usize>
            } else {
                Some(self@.limit as usize)
            },
            r matches Some(v) ==> v >= 1,
    {
        if self.limit == 0 {
            None
        } else {
            Some(self.limit)
        }
    }

    /// Returns `true` if the record can undo.
    pub fn can_undo(&self) -> (r: bool)
        ensures
            r == self@.can_undo(),
    {
        self.cursor > 0
    }

    /// Returns `true` if the record can redo.
    pub fn can_redo(&self) -> (r: bool)
        ensures
            r == self@.can_redo(),
    {
        self.cursor < self.commands.len()
    }

    /// Returns `true` if the receiver is in a saved state.
    pub fn is_saved(&self) -> (r: bool)
        ensures
            r == self@.is_saved(),
    {
        match self.saved {
            Some(s) => s == self.cursor,
            None => false,
        }
    }

    /// Marks the receiver as currently being in a saved state: the saved
    /// marker snaps to the cursor, and `Saved(true)` is emitted if the
    /// state was not saved before.
    pub fn set_saved(&mut self)
        ensures
            final(self)@ == (RecordView {
                saved: Some(old(self)@.cursor),
                sigs: log_after(
                    old(self)@.sigs,
                    if !old(self)@.is_saved() {
                        seq![Signal::Saved(true)]
                    } else {
                        Seq::<Signal>::empty()
                    },
                ),
                ..old(self)@
            }),
            old(self).wf() ==> final(self).wf(),
    {
        let was_saved = self.is_saved();
        self.saved = Some(self.cursor);
        match &mut self.signals {
            Some(f) => {
                if !was_saved {
                    f.emit(Signal::Saved(true));
                }
            },
            None => {},
        }
        proof {
            let o = old(self)@;
            let emitted = if !o.is_saved() {
                seq![Signal::Saved(true)]
            } else {
                Seq::<Signal>::empty()
            };
            if o.sigs is Some {
                assert(self@.sigs->0 =~= o.sigs->0 + emitted);
            }
        }
    }

    /// Marks the receiver as no longer being in a saved state: the saved
    /// marker is cleared, and `Saved(false)` is emitted if the state was
    /// saved before.
    pub fn set_unsaved(&mut self)
        ensures
            final(self)@ == (RecordView {
                saved: None::<int>,
                sigs: log_after(
                    old(self)@.sigs,
                    if old(self)@.is_saved() {
                        seq![Signal::Saved(false)]
                    } else {
                        Seq::<Signal>::empty()
                    },
                ),
                ..old(self)@
            }),
            old(self).wf() ==> final(self).wf(),
    {
        let was_saved = self.is_saved();
        self.saved = None;
        match &mut self.signals {
            Some(f) => {
                if was_saved {
                    f.emit(Signal::Saved(false));
                }
            },
            None => {},
        }
        proof {
            let o = old(self)@;
            let emitted = if o.is_saved() {
                seq![Signal::Saved(false)]
            } else {
                Seq::<Signal>::empty()
            };
            if o.sigs is Some {
                assert(self@.sigs->0 =~= o.sigs->0 + emitted);
            }
        }
    }

    /// Removes all commands from the record without undoing them: the
    /// cursor returns to zero and the state counts as saved, while the
    /// receiver is left untouched.
    pub fn clear(&mut self)
        ensures
            final(self)@ == (RecordView {
                commands: Seq::<C>::empty(),
                cursor: 0int,
                saved: Some(0int),
                sigs: log_after(old(self)@.sigs, clear_emits(old(self)@)),
                ..old(self)@
            }),
            final(self).wf(),
    {
        let could_undo = self.can_undo();
        let could_redo = self.can_redo();
        let was_saved = self.is_saved();
        let old_cursor = self.cursor;

        self.commands.clear();
        self.cursor = 0;
        self.saved = Some(0);

        match &mut self.signals {
            Some(f) => {
                if old_cursor != 0 {
                    f.emit(Signal::Cursor { prev: old_cursor, next: 0 });
                }
                if could_undo {
                    f.emit(Signal::Undo(false));
                }
                if could_redo {
                    f.emit(Signal::Redo(false));
                }
                if !was_saved {
                    f.emit(Signal::Saved(true));
                }
            },
            None => {},
        }
        proof {
            let o = old(self)@;
            if o.sigs is Some {
                assert(self@.sigs->0 =~= o.sigs->0 + clear_emits(o));
            }
        }
    }

    /// Pushes the command on top of the record after running its `apply`
    /// on the receiver.
    ///
    /// On success, the commands above the cursor are removed from the
    /// record and returned, oldest first, so the caller may reuse them;
    /// the new command is merged with the previous top when the top's
    /// `merge` accepts or annuls it, and otherwise pushed, dropping the
    /// oldest command when a positive limit has been reached.
    ///
    /// On failure the rejected command is returned together with its error
    /// and nothing changes.
    pub fn apply(&mut self, cmd: C) -> (r: Result<Vec<C>, Error<R, C>>)
        requires
            old(self).wf(),
        ensures
            final(self).wf(),
            apply_post(old(self)@, final(self)@, r),
    {
        let mut cmd = cmd;
        match cmd.apply(&mut self.receiver) {
            Err(e) => Err(Error(cmd, e)),
            Ok(_) => {
                let ghost o = old(self)@;
                let ghost mut outcome: int = 0;
                let old_cursor = self.cursor;
                let could_undo = self.cursor > 0;
                let could_redo = self.cursor < self.commands.len();
                let was_saved = self.is_saved();

                // Discard the tail above the cursor, keeping it for the
                // caller.
                let tail = self.commands.split_off(self.cursor);
                let mut tail_vec: Vec<C> = Vec::new();
                let mut tail = tail;
                let ghost tail0 = tail@;
                while tail.len() > 0
                    invariant
                        tail_vec@ + tail@ == tail0,
                    decreases tail@.len(),
                {
                    let c = tail.pop_front().unwrap();
                    tail_vec.push(c);
                    proof {
                        assert(tail_vec@ + tail@ =~= tail0);
                    }
                }
                proof {
                    assert(tail_vec@ =~= tail0);
                }

                // A saved marker that sat in the discarded tail is lost.
                match self.saved {
                    Some(s) => if s > old_cursor {
                        self.saved = None;
                    },
                    None => {},
                }

                // Let the previous top absorb the command, unless the
                // record was in a saved state.
                let mut to_push: Option<C> = Some(cmd);
                if old_cursor >= 1 && !was_saved {
                    let mut top = self.commands.pop_back().unwrap();
                    let c = to_push.take().unwrap();
                    match top.merge(c) {
                        Merge::Yes => {
                            self.commands.push_back(top);
                            proof {
                                outcome = 1;
                            }
                        },
                        Merge::No(c2) => {
                            self.commands.push_back(top);
                            to_push = Some(c2);
                        },
                        Merge::Annul => {
                            self.cursor = self.cursor - 1;
                            proof {
                                outcome = 2;
                            }
                        },
                    }
                }

                // Push, dropping the oldest command at a positive limit.
                match to_push {
                    Some(c) => {
                        if self.limit != 0 && self.limit == self.cursor {
                            self.commands.pop_front();
                            self.saved = match self.saved {
                                Some(s) => if s >= 1 {
                                    Some(s - 1)
                                } else {
                                    None
                                },
                                None => None,
                            };
                            self.commands.push_back(c);
                        } else {
                            self.commands.push_back(c);
                        }
                        self.cursor = self.commands.len();
                    },
                    None => {},
                }

                proof {
                    let n = self@;
                    let k = o.cursor;
                    if outcome == 1 {
                        assert(apply_merged(o, n));
                    } else if outcome == 2 {
                        assert(n.commands =~= o.commands.subrange(0, k - 1));
                        assert(apply_annulled(o, n));
                    } else {
                        assert(apply_pushed(o, n));
                    }
                }
                let new_cursor = self.cursor;
                match &mut self.signals {
                    Some(f) => {
                        f.emit(Signal::Cursor { prev: old_cursor, next: new_cursor });
                        if could_redo {
                            f.emit(Signal::Redo(false));
                        }
                        if !could_undo {
                            f.emit(Signal::Undo(true));
                        }
                        if was_saved {
                            f.emit(Signal::Saved(false));
                        }
                    },
                    None => {},
                }
                proof {
                    if o.sigs is Some {
                        assert(self@.sigs->0 =~= o.sigs->0 + apply_emits(o, self@.cursor));
                    }
                }

                Ok(tail_vec)
            },
        }
    }

    /// Undoes the top applied command and steps the cursor back.
    ///
    /// Returns `None` when nothing is applied. On an error from the
    /// command's `undo`, the error is returned and the bookkeeping is left
    /// unchanged.
    pub fn undo(&mut self) -> (r: Option<Result<(), C::Error>>)
        requires
            old(self).wf(),
        ensures
            final(self).wf(),
            undo_post(old(self)@, final(self)@, r),
    {
        if self.cursor == 0 {
            return None;
        }
        let i = self.cursor - 1;
        let mut c = self.commands.remove(i).unwrap();
        let res = c.undo(&mut self.receiver);
        self.commands.insert(i, c);
        proof {
            let o = old(self)@;
            assert(self@.commands.len() == o.commands.len());
            assert(forall|j: int|
                0 <= j < o.commands.len() && j != o.cursor - 1 ==> self@.commands[j]
                    == o.commands[j]);
        }
        match res {
            Ok(_) => {
                let was_saved = self.is_saved();
                let old_cursor = self.cursor;
                self.cursor = i;
                let is_saved_now = self.is_saved();
                match &mut self.signals {
                    Some(f) => {
                        f.emit(Signal::Cursor { prev: old_cursor, next: i });
                        if old_cursor == self.commands.len() {
                            f.emit(Signal::Redo(true));
                        }
                        if old_cursor == 1 {
                            f.emit(Signal::Undo(false));
                        }
                        if was_saved != is_saved_now {
                            f.emit(Signal::Saved(is_saved_now));
                        }
                    },
                    None => {},
                }
                proof {
                    let o = old(self)@;
                    if o.sigs is Some {
                        assert(self@.sigs->0 =~= o.sigs->0 + undo_emits(o));
                    }
                }
                Some(Ok(()))
            },
            Err(e) => Some(Err(e)),
        }
    }

    /// Redoes the next undone command and steps the cursor forward, calling
    /// the command's `redo` to honour a user-defined fast replay.
    ///
    /// Returns `None` when nothing is undone. On an error from the
    /// command's `redo`, the error is returned and the bookkeeping is left
    /// unchanged.
    pub fn redo(&mut self) -> (r: Option<Result<(), C::Error>>)
        requires
            old(self).wf(),
        ensures
            final(self).wf(),
            redo_post(old(self)@, final(self)@, r),
    {
        if self.cursor >= self.commands.len() {
            return None;
        }
        let i = self.cursor;
        let mut c = self.commands.remove(i).unwrap();
        let res = c.redo(&mut self.receiver);
        self.commands.insert(i, c);
        proof {
            let o = old(self)@;
            assert(self@.commands.len() == o.commands.len());
            assert(forall|j: int|
                0 <= j < o.commands.len() && j != o.cursor ==> self@.commands[j]
                    == o.commands[j]);
        }
        match res {
            Ok(_) => {
                let was_saved = self.is_saved();
                let old_cursor = self.cursor;
                self.cursor = i + 1;
                let is_saved_now = self.is_saved();
                match &mut self.signals {
                    Some(f) => {
                        f.emit(Signal::Cursor { prev: old_cursor, next: old_cursor + 1 });
                        if old_cursor == self.commands.len() - 1 {
                            f.emit(Signal::Redo(false));
                        }
                        if old_cursor == 0 {
                            f.emit(Signal::Undo(true));
                        }
                        if was_saved != is_saved_now {
                            f.emit(Signal::Saved(is_saved_now));
                        }
                    },
                    None => {},
                }
                proof {
                    let o = old(self)@;
                    if o.sigs is Some {
                        assert(self@.sigs->0 =~= o.sigs->0 + redo_emits(o));
                    }
                }
                Some(Ok(()))
            },
            Err(e) => Some(Err(e)),
        }
    }

    /// Returns a reference to the receiver.
    pub fn as_receiver(&self) -> (r: &R)
        ensures
            *r == self@.receiver,
    {
        &self.receiver
    }

    /// Consumes the record, returning the receiver.
    pub fn into_receiver(self) -> (r: R)
        ensures
            r == self@.receiver,
    {
        self.receiver
    }

    /// Returns the stored commands in application order.
    pub fn commands(&self) -> (r: &VecDeque<C>)
        ensures
            r@ == self@.commands,
    {
        &self.commands
    }

    /// Returns the connected observer, if any.
    pub fn slot(&self) -> (r: Option<&S>)
        ensures
            match r {
                Some(s) => self@.sigs == Some(s.log()),
                None => self@.sigs is None,
            },
    {
        match &self.signals {
            Some(s) => Some(s),
            None => None,
        }
    }
}

impl<R, C: Command<R> + Text, S: Slot> Record<R, C, S> {
    /// Returns the text of the command that the next undo would reverse.
    pub fn to_undo_string(&self) -> (r: Option<String>)
        requires
            self.wf(),
        ensures
            r is Some <==> self@.can_undo(),
            r matches Some(s) ==> s@ == self@.commands[self@.cursor - 1].text_spec(),
    {
        if self.cursor > 0 {
            Some(self.commands[self.cursor - 1].text())
        } else {
            None
        }
    }

    /// Returns the text of the command that the next redo would reapply.
    pub fn to_redo_string(&self) -> (r: Option<String>)
        requires
            self.wf(),
        ensures
            r is Some <==> self@.can_redo(),
            r matches Some(s) ==> s@ == self@.commands[self@.cursor].text_spec(),
    {
        if self.cursor < self.commands.len() {
            Some(self.commands[self.cursor].text())
        } else {
            None
        }
    }
}

/// The mathematical model of a [`RecordBuilder`].
pub struct RecordBuilderView {
    /// The configured initial storage hint.
    pub capacity: int,
    /// The configured bound on the record's length; `0` means unbounded.
    pub limit: int,
    /// The log of the connected observer, if one was given.
    pub sigs: Option<Seq<Signal>>,
}

/// Builder for a record: gathers capacity, limit and observer before the
/// receiver is supplied.
#[derive(Debug)]
pub struct RecordBuilder<R, C: Command<R>, S: Slot> {
    commands: PhantomData<C>,
    receiver: PhantomData<R>,
    capacity: usize,
    limit: usize,
    signals: Option<S>,
}

impl<R, C: Command<R>, S: Slot> View for RecordBuilder<R, C, S> {
    type V = RecordBuilderView;

    closed spec fn view(&self) -> RecordBuilderView {
        RecordBuilderView {
            capacity: self.capacity as int,
            limit: self.limit as int,
            sigs: match self.signals {
                Some(s) => Some(s.log()),
                None => None,
            },
        }
    }
}

impl<R, C: Command<R>, S: Slot> RecordBuilder<R, C, S> {
    /// Sets the initial storage hint for the record.
    pub fn capacity(self, capacity: usize) -> (r: RecordBuilder<R, C, S>)
        ensures
            r@ == (RecordBuilderView { capacity: capacity as int, ..self@ }),
    {
        let mut this = self;
        this.capacity = capacity;
        this
    }

    /// Sets the limit for the record.
    ///
    /// When the limit is reached, the oldest command is dropped from the
    /// front on each further push. No limit is set by default, which means
    /// the record may grow indefinitely; `0` also means unbounded.
    pub fn limit(self, limit: usize) -> (r: RecordBuilder<R, C, S>)
        ensures
            r@ == (RecordBuilderView { limit: limit as int, ..self@ }),
    {
        let mut this = self;
        this.limit = limit;
        this
    }

    /// Connects the observer that receives the record's signals. By default
    /// the record notifies nobody.
    pub fn signals(self, slot: S) -> (r: RecordBuilder<R, C, S>)
        ensures
            r@ == (RecordBuilderView { sigs: Some(slot.log()), ..self@ }),
    {
        let mut this = self;
        this.signals = Some(slot);
        this
    }

    /// Creates the record around the given receiver.
    pub fn build(self, receiver: R) -> (r: Record<R, C, S>)
        ensures
            r@.commands == Seq::<C>::empty(),
            r@.receiver == receiver,
            r@.cursor == 0,
            r@.limit == self@.limit,
            r@.saved == Some(0int),
            r@.sigs == self@.sigs,
            r.wf(),
    {
        Record {
            commands: VecDeque::with_capacity(self.capacity),
            receiver,
            cursor: 0,
            limit: self.limit,
            saved: Some(0),
            signals: self.signals,
        }
    }
}

impl<R: Default, C: Command<R>, S: Slot> Default for Record<R, C, S> {
    /// A fresh, unbounded record around the receiver type's default value.
    fn default() -> (r: Record<R, C, S>)
        ensures
            r@.commands == Seq::<C>::empty(),
            r@.cursor == 0,
            r@.limit == 0,
            r@.saved == Some(0int),
            r@.sigs == None::<Seq<Signal>>,
            r.wf(),
    {
        Record::new(R::default())
    }
}

impl<R, C: Command<R>, S: Slot> From<R> for Record<R, C, S> {
    /// Same as [`Record::new`].
    fn from(receiver: R) -> (r: Record<R, C, S>)
        ensures
            r@.commands == Seq::<C>::empty(),
            r@.receiver == receiver,
            r@.cursor == 0,
            r@.limit == 0,
            r@.saved == Some(0int),
            r@.sigs == None::<Seq<Signal>>,
            r.wf(),
    {
        Record::new(receiver)
    }
}

impl<R, C: Command<R>, S: Slot> vstd::std_specs::convert::FromSpecImpl<R> for Record<R, C, S> {
    open spec fn obeys_from_spec() -> bool {
        false
    }

    open spec fn from_spec(receiver: R) -> Self {
        arbitrary()
    }
}

impl<R: Default, C: Command<R>, S: Slot> RecordBuilder<R, C, S> {
    /// Creates the record with a receiver made by the receiver type's
    /// `Default`.
    pub fn default(self) -> (r: Record<R, C, S>)
        ensures
            r@.commands == Seq::<C>::empty(),
            r@.cursor == 0,
            r@.limit == self@.limit,
            r@.saved == Some(0int),
            r@.sigs == self@.sigs,
            r.wf(),
    {
        let receiver = R::default();
        self.build(receiver)
    }
}

// ---------------------------------------------------------------------
// Laws: the properties the record keeps across operations, stated over
// the views that the operations' contracts use.
// ---------------------------------------------------------------------

/// Law: at every point the cursor lies in `[0, len]` and a positive limit
/// bounds the length. Every constructor establishes `wf` and every
/// operation preserves it, so this holds of every reachable record.
pub proof fn lemma_invariant_bounds<R, C>(o: RecordView<R, C>)
    requires
        o.wf(),
    ensures
        0 <= o.cursor <= o.commands.len(),
        o.limit > 0 ==> o.commands.len() <= o.limit,
{
}

/// Law: a successful apply that pushed its command below the limit,
/// followed by a successful undo, returns the cursor to its prior value.
/// At the limit the oldest command is dropped and the cursor ends one
/// lower; a merge or an annulment moves it elsewhere as their own laws
/// state.
pub proof fn lemma_apply_then_undo_cursor<R, C: Command<R>>(
    o: RecordView<R, C>,
    m: RecordView<R, C>,
    n: RecordView<R, C>,
    r: Option<Result<(), C::Error>>,
)
    requires
        o.wf(),
        !(o.limit != 0 && o.limit == o.cursor),
        apply_pushed(o, m),
        undo_post(m, n, r),
        r matches Some(res) && res is Ok,
    ensures
        n.cursor == o.cursor,
{
}

/// Law (round trip, one step): a successful undo followed by a successful
/// redo returns cursor, length and saved marker to their prior values; by
/// the command contract the receiver makes the same round trip. Undoing a
/// prefix of several commands and redoing it repeats this step.
pub proof fn lemma_undo_then_redo<R, C: Command<R>>(
    o: RecordView<R, C>,
    m: RecordView<R, C>,
    n: RecordView<R, C>,
    r1: Option<Result<(), C::Error>>,
    r2: Option<Result<(), C::Error>>,
)
    requires
        o.wf(),
        o.can_undo(),
        undo_post(o, m, r1),
        r1 matches Some(res1) && res1 is Ok,
        redo_post(m, n, r2),
        r2 matches Some(res2) && res2 is Ok,
    ensures
        n.cursor == o.cursor,
        n.commands.len() == o.commands.len(),
        n.saved == o.saved,
{
}

/// Law (merge idempotence): after a push below the limit and a second
/// apply that merged into the pushed command, a single undo returns the
/// cursor to its value before the first apply, and a single redo
/// re-reaches the merged state's cursor.
pub proof fn lemma_merge_idempotence<R, C: Command<R>>(
    o: RecordView<R, C>,
    m1: RecordView<R, C>,
    m2: RecordView<R, C>,
    u: RecordView<R, C>,
    d: RecordView<R, C>,
    r_undo: Option<Result<(), C::Error>>,
    r_redo: Option<Result<(), C::Error>>,
)
    requires
        o.wf(),
        !(o.limit != 0 && o.limit == o.cursor),
        apply_pushed(o, m1),
        apply_merged(m1, m2),
        undo_post(m2, u, r_undo),
        r_undo matches Some(ru) && ru is Ok,
        redo_post(u, d, r_redo),
        r_redo matches Some(rd) && rd is Ok,
    ensures
        u.cursor == o.cursor,
        d.cursor == m2.cursor,
{
}

/// Law (annulment): from a state with no undone tail and room below the
/// limit, a push followed by an apply whose command annulled it returns
/// both the length and the cursor to their values before the first apply.
pub proof fn lemma_annulment<R, C>(o: RecordView<R, C>, m: RecordView<R, C>, n: RecordView<R, C>)
    requires
        o.wf(),
        !o.can_redo(),
        !(o.limit != 0 && o.limit == o.cursor),
        apply_pushed(o, m),
        apply_annulled(m, n),
    ensures
        n.commands.len() == o.commands.len(),
        n.cursor == o.cursor,
{
}

/// Law (bounded growth): pushing at the tip grows the record by one until
/// a positive limit is reached; at the limit the length stays there, the
/// oldest command having been dropped from the front.
pub proof fn lemma_bounded_growth<R, C>(o: RecordView<R, C>, n: RecordView<R, C>)
    requires
        o.wf(),
        o.limit > 0,
        o.cursor == o.commands.len(),
        apply_pushed(o, n),
    ensures
        n.commands.len() == if o.commands.len() < o.limit {
            o.commands.len() + 1
        } else {
            o.limit as nat
        },
        n.commands.len() <= o.limit,
{
}

/// Law (saved reachability): while the saved marker holds a position, the
/// record is saved exactly when the cursor stands on it; `set_saved` puts
/// the marker on the cursor, so right after it the record is saved.
pub proof fn lemma_saved_reachability<R, C>(o: RecordView<R, C>)
    requires
        o.saved is Some,
    ensures
        o.is_saved() <==> o.cursor == o.saved->0,
{
}

proof fn lemma_singleton_contains(x: Signal, y: Signal)
    ensures
        seq![x].contains(y) <==> x == y,
{
    if seq![x].contains(y) {
        let i = choose|i: int| 0 <= i < seq![x].len() && seq![x][i] == y;
        assert(x == y);
    }
    if x == y {
        assert(seq![x][0] == y);
    }
}

proof fn lemma_push_contains(l: Seq<Signal>, x: Signal, y: Signal)
    ensures
        l.push(x).contains(y) <==> (l.contains(y) || x == y),
{
    if l.push(x).contains(y) {
        let i = choose|i: int| 0 <= i < l.push(x).len() && l.push(x)[i] == y;
        if i < l.len() {
            assert(l[i] == y);
        } else {
            assert(x == y);
        }
    }
    if l.contains(y) {
        let i = choose|i: int| 0 <= i < l.len() && l[i] == y;
        assert(l.push(x)[i] == y);
    }
    if x == y {
        assert(l.push(x)[l.len() as int] == y);
    }
}

/// Which signals a successful apply emits, element by element.
pub proof fn lemma_apply_emits_elems<R, C>(o: RecordView<R, C>, nc: int, y: Signal)
    ensures
        apply_emits(o, nc).contains(y) <==> {
            ||| y == (Signal::Cursor { prev: o.cursor as usize, next: nc as usize })
            ||| (o.can_redo() && y == Signal::Redo(false))
            ||| (!o.can_undo() && y == Signal::Undo(true))
            ||| (o.is_saved() && y == Signal::Saved(false))
        },
{
    let c = Signal::Cursor { prev: o.cursor as usize, next: nc as usize };
    let l0 = seq![c];
    let l1 = if o.can_redo() { l0.push(Signal::Redo(false)) } else { l0 };
    let l2 = if !o.can_undo() { l1.push(Signal::Undo(true)) } else { l1 };
    lemma_singleton_contains(c, y);
    if o.can_redo() {
        lemma_push_contains(l0, Signal::Redo(false), y);
    }
    if !o.can_undo() {
        lemma_push_contains(l1, Signal::Undo(true), y);
    }
    if o.is_saved() {
        lemma_push_contains(l2, Signal::Saved(false), y);
    }
}

/// Which signals a successful undo emits, element by element.
pub proof fn lemma_undo_emits_elems<R, C>(o: RecordView<R, C>, y: Signal)
    ensures
        undo_emits(o).contains(y) <==> {
            let saved_now = o.saved == Some(o.cursor - 1);
            ||| y == (Signal::Cursor { prev: o.cursor as usize, next: (o.cursor - 1) as usize })
            ||| (o.cursor == o.len() && y == Signal::Redo(true))
            ||| (o.cursor == 1 && y == Signal::Undo(false))
            ||| (o.is_saved() != saved_now && y == Signal::Saved(saved_now))
        },
{
    let saved_now = o.saved == Some(o.cursor - 1);
    let c = Signal::Cursor { prev: o.cursor as usize, next: (o.cursor - 1) as usize };
    let l0 = seq![c];
    let l1 = if o.cursor == o.len() { l0.push(Signal::Redo(true)) } else { l0 };
    let l2 = if o.cursor == 1 { l1.push(Signal::Undo(false)) } else { l1 };
    lemma_singleton_contains(c, y);
    if o.cursor == o.len() {
        lemma_push_contains(l0, Signal::Redo(true), y);
    }
    if o.cursor == 1 {
        lemma_push_contains(l1, Signal::Undo(false), y);
    }
    if o.is_saved() != saved_now {
        lemma_push_contains(l2, Signal::Saved(saved_now), y);
    }
}

/// Which signals a successful redo emits, element by element.
pub proof fn lemma_redo_emits_elems<R, C>(o: RecordView<R, C>, y: Signal)
    ensures
        redo_emits(o).contains(y) <==> {
            let saved_now = o.saved == Some(o.cursor + 1);
            ||| y == (Signal::Cursor { prev: o.cursor as usize, next: (o.cursor + 1) as usize })
            ||| (o.cursor == o.len() - 1 && y == Signal::Redo(false))
            ||| (o.cursor == 0 && y == Signal::Undo(true))
            ||| (o.is_saved() != saved_now && y == Signal::Saved(saved_now))
        },
{
    let saved_now = o.saved == Some(o.cursor + 1);
    let c = Signal::Cursor { prev: o.cursor as usize, next: (o.cursor + 1) as usize };
    let l0 = seq![c];
    let l1 = if o.cursor == o.len() - 1 { l0.push(Signal::Redo(false)) } else { l0 };
    let l2 = if o.cursor == 0 { l1.push(Signal::Undo(true)) } else { l1 };
    lemma_singleton_contains(c, y);
    if o.cursor == o.len() - 1 {
        lemma_push_contains(l0, Signal::Redo(false), y);
    }
    if o.cursor == 0 {
        lemma_push_contains(l1, Signal::Undo(true), y);
    }
    if o.is_saved() != saved_now {
        lemma_push_contains(l2, Signal::Saved(saved_now), y);
    }
}

/// Law (edge-triggered signals, saved notice): a successful apply from a
/// saved state always emits `Saved(false)`.
pub proof fn lemma_apply_from_saved_emits<R, C>(o: RecordView<R, C>, nc: int)
    requires
        o.is_saved(),
    ensures
        apply_emits(o, nc).contains(Signal::Saved(false)),
{
    lemma_apply_emits_elems(o, nc, Signal::Saved(false));
}

/// Law (edge-triggered signals, undo): among the signals of a successful
/// undo, `Undo(b)`, `Redo(b)` and `Saved(b)` each appear exactly when the
/// corresponding observable flag changes to `b` across the operation.
pub proof fn lemma_undo_signal_edges<R, C: Command<R>>(
    o: RecordView<R, C>,
    n: RecordView<R, C>,
    r: Option<Result<(), C::Error>>,
)
    requires
        o.wf(),
        o.can_undo(),
        undo_post(o, n, r),
        r matches Some(res) && res is Ok,
    ensures
        undo_emits(o).contains(Signal::Undo(false)) <==> (o.can_undo() && !n.can_undo()),
        !undo_emits(o).contains(Signal::Undo(true)),
        undo_emits(o).contains(Signal::Redo(true)) <==> (!o.can_redo() && n.can_redo()),
        !undo_emits(o).contains(Signal::Redo(false)),
        undo_emits(o).contains(Signal::Saved(true)) <==> (!o.is_saved() && n.is_saved()),
        undo_emits(o).contains(Signal::Saved(false)) <==> (o.is_saved() && !n.is_saved()),
{
    lemma_undo_emits_elems(o, Signal::Undo(false));
    lemma_undo_emits_elems(o, Signal::Undo(true));
    lemma_undo_emits_elems(o, Signal::Redo(true));
    lemma_undo_emits_elems(o, Signal::Redo(false));
    lemma_undo_emits_elems(o, Signal::Saved(true));
    lemma_undo_emits_elems(o, Signal::Saved(false));
}

/// Law (edge-triggered signals, redo): among the signals of a successful
/// redo, `Undo(b)`, `Redo(b)` and `Saved(b)` each appear exactly when the
/// corresponding observable flag changes to `b` across the operation.
pub proof fn lemma_redo_signal_edges<R, C: Command<R>>(
    o: RecordView<R, C>,
    n: RecordView<R, C>,
    r: Option<Result<(), C::Error>>,
)
    requires
        o.wf(),
        o.can_redo(),
        redo_post(o, n, r),
        r matches Some(res) && res is Ok,
    ensures
        redo_emits(o).contains(Signal::Undo(true)) <==> (!o.can_undo() && n.can_undo()),
        !redo_emits(o).contains(Signal::Undo(false)),
        redo_emits(o).contains(Signal::Redo(false)) <==> (o.can_redo() && !n.can_redo()),
        !redo_emits(o).contains(Signal::Redo(true)),
        redo_emits(o).contains(Signal::Saved(true)) <==> (!o.is_saved() && n.is_saved()),
        redo_emits(o).contains(Signal::Saved(false)) <==> (o.is_saved() && !n.is_saved()),
{
    lemma_redo_emits_elems(o, Signal::Undo(true));
    lemma_redo_emits_elems(o, Signal::Undo(false));
    lemma_redo_emits_elems(o, Signal::Redo(false));
    lemma_redo_emits_elems(o, Signal::Redo(true));
    lemma_redo_emits_elems(o, Signal::Saved(true));
    lemma_redo_emits_elems(o, Signal::Saved(false));
}

/// Law (edge-triggered signals, apply): for a successful apply that pushed
/// or merged its command, `Undo(b)`, `Redo(b)` and `Saved(b)` each appear
/// exactly when the corresponding observable flag changes to `b`. An apply
/// whose command annulled the top is the one exception: it can take the
/// ability to undo away, or reach the saved marker, without a signal.
pub proof fn lemma_apply_signal_edges<R, C>(o: RecordView<R, C>, n: RecordView<R, C>)
    requires
        o.wf(),
        apply_pushed(o, n) || apply_merged(o, n),
    ensures
        apply_emits(o, n.cursor).contains(Signal::Undo(true)) <==> (!o.can_undo()
            && n.can_undo()),
        !apply_emits(o, n.cursor).contains(Signal::Undo(false)),
        apply_emits(o, n.cursor).contains(Signal::Redo(false)) <==> (o.can_redo()
            && !n.can_redo()),
        !apply_emits(o, n.cursor).contains(Signal::Redo(true)),
        apply_emits(o, n.cursor).contains(Signal::Saved(false)) <==> (o.is_saved()
            && !n.is_saved()),
        !apply_emits(o, n.cursor).contains(Signal::Saved(true)),
        !n.is_saved() || o.is_saved(),
{
    lemma_apply_emits_elems(o, n.cursor, Signal::Undo(true));
    lemma_apply_emits_elems(o, n.cursor, Signal::Undo(false));
    lemma_apply_emits_elems(o, n.cursor, Signal::Redo(false));
    lemma_apply_emits_elems(o, n.cursor, Signal::Redo(true));
    lemma_apply_emits_elems(o, n.cursor, Signal::Saved(false));
    lemma_apply_emits_elems(o, n.cursor, Signal::Saved(true));
}

/// Law (edge-triggered signals, clear): among the signals of a clear,
/// `Undo(b)`, `Redo(b)` and `Saved(b)` each appear exactly when the
/// corresponding observable flag changes to `b`: both abilities end
/// false and the state ends saved.
pub proof fn lemma_clear_signal_edges<R, C>(o: RecordView<R, C>, n: RecordView<R, C>)
    requires
        o.wf(),
        n.commands.len() == 0,
        n.cursor == 0,
        n.saved == Some(0int),
    ensures
        clear_emits(o).contains(Signal::Undo(false)) <==> (o.can_undo() && !n.can_undo()),
        !clear_emits(o).contains(Signal::Undo(true)),
        clear_emits(o).contains(Signal::Redo(false)) <==> (o.can_redo() && !n.can_redo()),
        !clear_emits(o).contains(Signal::Redo(true)),
        clear_emits(o).contains(Signal::Saved(true)) <==> (!o.is_saved() && n.is_saved()),
        !clear_emits(o).contains(Signal::Saved(false)),
{
    let l0 = if o.cursor != 0 {
        seq![Signal::Cursor { prev: o.cursor as usize, next: 0 }]
    } else {
        Seq::<Signal>::empty()
    };
    let l1 = if o.can_undo() { l0.push(Signal::Undo(false)) } else { l0 };
    let l2 = if o.can_redo() { l1.push(Signal::Redo(false)) } else { l1 };
    if o.cursor != 0 {
        lemma_singleton_contains(Signal::Cursor { prev: o.cursor as usize, next: 0 }, Signal::Undo(false));
        lemma_singleton_contains(Signal::Cursor { prev: o.cursor as usize, next: 0 }, Signal::Undo(true));
        lemma_singleton_contains(Signal::Cursor { prev: o.cursor as usize, next: 0 }, Signal::Redo(false));
        lemma_singleton_contains(Signal::Cursor { prev: o.cursor as usize, next: 0 }, Signal::Redo(true));
        lemma_singleton_contains(Signal::Cursor { prev: o.cursor as usize, next: 0 }, Signal::Saved(true));
        lemma_singleton_contains(Signal::Cursor { prev: o.cursor as usize, next: 0 }, Signal::Saved(false));
    }
    assert forall|y: Signal| !(#[trigger] l0.contains(y)) || (o.cursor != 0 && y
        == (Signal::Cursor { prev: o.cursor as usize, next: 0 })) by {
        if l0.contains(y) {
            let i = choose|i: int| 0 <= i < l0.len() && l0[i] == y;
        }
    }
    if o.can_undo() {
        lemma_push_contains(l0, Signal::Undo(false), Signal::Undo(false));
        lemma_push_contains(l0, Signal::Undo(false), Signal::Undo(true));
        lemma_push_contains(l0, Signal::Undo(false), Signal::Redo(false));
        lemma_push_contains(l0, Signal::Undo(false), Signal::Redo(true));
        lemma_push_contains(l0, Signal::Undo(false), Signal::Saved(true));
        lemma_push_contains(l0, Signal::Undo(false), Signal::Saved(false));
    }
    if o.can_redo() {
        lemma_push_contains(l1, Signal::Redo(false), Signal::Undo(false));
        lemma_push_contains(l1, Signal::Redo(false), Signal::Undo(true));
        lemma_push_contains(l1, Signal::Redo(false), Signal::Redo(false));
        lemma_push_contains(l1, Signal::Redo(false), Signal::Redo(true));
        lemma_push_contains(l1, Signal::Redo(false), Signal::Saved(true));
        lemma_push_contains(l1, Signal::Redo(false), Signal::Saved(false));
    }
    if !o.is_saved() {
        lemma_push_contains(l2, Signal::Saved(true), Signal::Undo(false));
        lemma_push_contains(l2, Signal::Saved(true), Signal::Undo(true));
        lemma_push_contains(l2, Signal::Saved(true), Signal::Redo(false));
        lemma_push_contains(l2, Signal::Saved(true), Signal::Redo(true));
        lemma_push_contains(l2, Signal::Saved(true), Signal::Saved(true));
        lemma_push_contains(l2, Signal::Saved(true), Signal::Saved(false));
    }
}


/// The cursor after a chain of successful undos: each step takes one off,
/// while length and saved marker stay.
pub proof fn lemma_undo_chain<R, C: Command<R>>(states: Seq<RecordView<R, C>>, p: int)
    requires
        0 <= p,
        states.len() == p + 1,
        forall|i: int|
            0 <= i < p ==> undo_post(
                #[trigger] states[i],
                states[i + 1],
                Some(Result::<(), C::Error>::Ok(())),
            ),
    ensures
        states[p].cursor == states[0].cursor - p,
        states[p].commands.len() == states[0].commands.len(),
        states[p].saved == states[0].saved,
    decreases p,
{
    if p > 0 {
        let front = states.drop_last();
        assert(forall|i: int|
            0 <= i < p - 1 ==> undo_post(
                #[trigger] front[i],
                front[i + 1],
                Some(Result::<(), C::Error>::Ok(())),
            ));
        lemma_undo_chain(front, p - 1);
        assert(undo_post(states[p - 1], states[p], Some(Result::<(), C::Error>::Ok(()))));
    }
}

/// The cursor after a chain of successful redos: each step adds one, while
/// length and saved marker stay.
pub proof fn lemma_redo_chain<R, C: Command<R>>(states: Seq<RecordView<R, C>>, p: int)
    requires
        0 <= p,
        states.len() == p + 1,
        forall|i: int|
            0 <= i < p ==> redo_post(
                #[trigger] states[i],
                states[i + 1],
                Some(Result::<(), C::Error>::Ok(())),
            ),
    ensures
        states[p].cursor == states[0].cursor + p,
        states[p].commands.len() == states[0].commands.len(),
        states[p].saved == states[0].saved,
    decreases p,
{
    if p > 0 {
        let front = states.drop_last();
        assert(forall|i: int|
            0 <= i < p - 1 ==> redo_post(
                #[trigger] front[i],
                front[i + 1],
                Some(Result::<(), C::Error>::Ok(())),
            ));
        lemma_redo_chain(front, p - 1);
        assert(redo_post(states[p - 1], states[p], Some(Result::<(), C::Error>::Ok(()))));
    }
}

/// Law (round trip): undoing `p` steps and then redoing `p` steps returns
/// cursor, length and saved marker to their starting values; by the
/// command contract the receiver makes the same round trip.
pub proof fn lemma_roundtrip<R, C: Command<R>>(
    down: Seq<RecordView<R, C>>,
    up: Seq<RecordView<R, C>>,
    p: int,
)
    requires
        0 <= p,
        down.len() == p + 1,
        up.len() == p + 1,
        up[0] == down[p],
        forall|i: int|
            0 <= i < p ==> undo_post(
                #[trigger] down[i],
                down[i + 1],
                Some(Result::<(), C::Error>::Ok(())),
            ),
        forall|i: int|
            0 <= i < p ==> redo_post(
                #[trigger] up[i],
                up[i + 1],
                Some(Result::<(), C::Error>::Ok(())),
            ),
    ensures
        up[p].cursor == down[0].cursor,
        up[p].commands.len() == down[0].commands.len(),
        up[p].saved == down[0].saved,
{
    lemma_undo_chain(down, p);
    lemma_redo_chain(up, p);
}

/// Law (bounded growth, full chain): starting from an empty record with a
/// positive limit, a run of applies that all push leaves exactly
/// `min(count, limit)` commands: growth stops at the limit.
pub proof fn lemma_bounded_growth_chain<R, C>(states: Seq<RecordView<R, C>>, p: int)
    requires
        0 <= p,
        states.len() == p + 1,
        states[0].commands.len() == 0,
        states[0].cursor == 0,
        states[0].limit > 0,
        forall|i: int| 0 <= i < p ==> apply_pushed(#[trigger] states[i], states[i + 1]),
        forall|i: int| 0 <= i < p ==> states[i + 1].limit == #[trigger] states[i].limit,
    ensures
        states[p].limit == states[0].limit,
        states[p].commands.len() == if p <= states[0].limit {
            p
        } else {
            states[0].limit
        },
        states[p].cursor == states[p].commands.len(),
        states[p].commands.len() <= states[0].limit,
    decreases p,
{
    if p > 0 {
        let front = states.drop_last();
        assert(forall|i: int| 0 <= i < p - 1 ==> apply_pushed(#[trigger] front[i], front[i + 1]));
        assert(forall|i: int|
            0 <= i < p - 1 ==> front[i + 1].limit == #[trigger] front[i].limit);
        lemma_bounded_growth_chain(front, p - 1);
        assert(apply_pushed(states[p - 1], states[p]));
    }
}

} // verus!
