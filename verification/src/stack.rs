//! The simple undo engine: a stack of applied commands without redo.
//! Popping a command undoes it on the receiver and hands it back.

use vstd::prelude::*;

use crate::{Command, Error};

verus! {

/// The mathematical model of a [`Stack`].
pub struct StackView<R, C> {
    /// The applied commands, oldest first.
    pub commands: Seq<C>,
    /// The receiver the commands act on.
    pub receiver: R,
}

/// What a successful push does: the command was applied to the receiver
/// and now sits on top; the commands below it are untouched. On failure
/// nothing is stored and the rejected command travels back in the error.
pub open spec fn stack_push_post<R, C: Command<R>>(
    o: StackView<R, C>,
    n: StackView<R, C>,
    r: Result<(), Error<R, C>>,
) -> bool {
    match r {
        Ok(_) => {
            &&& n.commands.len() == o.commands.len() + 1
            &&& (forall|i: int| 0 <= i < o.commands.len() ==> n.commands[i] == o.commands[i])
        },
        Err(_) => n.commands == o.commands,
    }
}

/// What a pop does: `None` on an empty stack, with nothing changed.
/// Otherwise the top command was undone on the receiver and removed; it is
/// handed back directly on success, or inside the error when its `undo`
/// failed.
pub open spec fn stack_pop_post<R, C: Command<R>>(
    o: StackView<R, C>,
    n: StackView<R, C>,
    r: Option<Result<C, Error<R, C>>>,
) -> bool {
    if o.commands.len() == 0 {
        &&& r is None
        &&& n == o
    } else {
        &&& r is Some
        &&& n.commands == o.commands.subrange(0, o.commands.len() - 1)
    }
}

/// A stack of commands: the undo-only engine.
///
/// Unlike a [`Record`](crate::Record), the stack returns a command when it
/// is undone instead of keeping it for redo.
#[derive(Debug)]
pub struct Stack<R, C: Command<R>> {
    commands: Vec<C>,
    receiver: R,
}

impl<R, C: Command<R>> View for Stack<R, C> {
    type V = StackView<R, C>;

    closed spec fn view(&self) -> StackView<R, C> {
        StackView { commands: self.commands@, receiver: self.receiver }
    }
}

impl<R, C: Command<R>> Stack<R, C> {
    /// Returns a new stack owning the given receiver.
    pub fn new(receiver: R) -> (r: Stack<R, C>)
        ensures
            r@.commands == Seq::<C>::empty(),
            r@.receiver == receiver,
    {
        Stack { commands: Vec::new(), receiver }
    }

    /// Returns the number of commands on the stack.
    pub fn len(&self) -> (r: usize)
        ensures
            r as int == self@.commands.len(),
    {
        self.commands.len()
    }

    /// Returns `true` if the stack holds no commands.
    pub fn is_empty(&self) -> (r: bool)
        ensures
            r == (self@.commands.len() == 0),
    {
        self.commands.len() == 0
    }

    /// Applies the command on the receiver and pushes it on the stack.
    ///
    /// On failure the rejected command is returned together with its error
    /// and nothing is stored.
    pub fn push(&mut self, cmd: C) -> (r: Result<(), Error<R, C>>)
        ensures
            stack_push_post(old(self)@, final(self)@, r),
    {
        let mut cmd = cmd;
        match cmd.apply(&mut self.receiver) {
            Ok(_) => {
                self.commands.push(cmd);
                Ok(())
            },
            Err(e) => Err(Error(cmd, e)),
        }
    }

    /// Undoes the top command on the receiver, removes it from the stack
    /// and returns it.
    ///
    /// Returns `None` on an empty stack. When the command's `undo` fails,
    /// the command is still removed and travels back inside the error.
    pub fn pop(&mut self) -> (r: Option<Result<C, Error<R, C>>>)
        ensures
            stack_pop_post(old(self)@, final(self)@, r),
    {
        match self.commands.pop() {
            None => None,
            Some(mut cmd) => match cmd.undo(&mut self.receiver) {
                Ok(_) => Some(Ok(cmd)),
                Err(e) => Some(Err(Error(cmd, e))),
            },
        }
    }

    /// Returns a reference to the receiver.
    pub fn as_receiver(&self) -> (r: &R)
        ensures
            *r == self@.receiver,
    {
        &self.receiver
    }

    /// Consumes the stack, returning the receiver.
    pub fn into_receiver(self) -> (r: R)
        ensures
            r == self@.receiver,
    {
        self.receiver
    }
}

} // verus!
