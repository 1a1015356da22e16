//! A closure that runs commands, with a record of the commands it was handed.

use crate::remote_commands::{RemoteCommand, RemoteCommandAction};
use vstd::prelude::*;

verus! {

/// Runs commands one at a time. The fields are private, so a closure that was put in here is
/// called only by `call`, which adds to the record.
pub struct CommandRunner<F: FnMut(RemoteCommand) -> RemoteCommandAction> {
    run: F,
    log: Ghost<Seq<RemoteCommand>>,
}

impl<F: FnMut(RemoteCommand) -> RemoteCommandAction> CommandRunner<F> {
    /// The commands that were run, in order.
    pub closed spec fn ran(self) -> Seq<RemoteCommand> {
        self.log@
    }

    /// The closure that runs them.
    pub closed spec fn closure(self) -> F {
        self.run
    }

    /// A runner that has run nothing yet.
    pub fn new(run: F) -> (r: Self)
        ensures
            r.ran() == Seq::<RemoteCommand>::empty(),
            r.closure() == run,
    {
        CommandRunner { run, log: Ghost(Seq::empty()) }
    }

    /// Runs one command. The contract of a closure does not count its calls: that there is one
    /// call for each entry of the record is seen from this body alone.
    pub fn call(self, command: RemoteCommand) -> (r: (Self, RemoteCommandAction))
        requires
            call_requires(self.closure(), (command,)),
        ensures
            call_ensures(self.closure(), (command,), r.1),
            r.0.closure() == self.closure(),
            r.0.ran() == self.ran().push(command),
    {
        let CommandRunner { run, log } = self;
        let mut run = run;
        let ghost longer = log@.push(command);
        let action = run(command);
        (CommandRunner { run, log: Ghost(longer) }, action)
    }
}

} // verus!
