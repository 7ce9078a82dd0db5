use vstd::prelude::*;
use crate::guard::SetupGuard;
use crate::printer::{Printer, Sink, SinkError};

verus! {

/// One call of the one-time setup on a configuration that has (`ran`) or has
/// not run it, and has run the install sequence `installs` times: the new
/// state of both.
pub open spec fn init_step(ran: bool, installs: nat) -> (bool, nat) {
    if ran {
        (true, installs)
    } else {
        (true, installs + 1)
    }
}

/// The state after `n` calls of the one-time setup from (`ran`, `installs`).
pub open spec fn init_calls(ran: bool, installs: nat, n: nat) -> (bool, nat)
    decreases n,
{
    if n == 0 {
        (ran, installs)
    } else {
        let s = init_calls(ran, installs, (n - 1) as nat);
        init_step(s.0, s.1)
    }
}

/// However many times the one-time setup is called on a fresh configuration,
/// the install sequence runs once if it is called at all, and never again.
pub proof fn lemma_setup_runs_once(n: nat)
    ensures
        init_calls(false, 0, n) == (if n == 0 {
            (false, 0nat)
        } else {
            (true, 1nat)
        }),
    decreases n,
{
    if n > 0 {
        lemma_setup_runs_once((n - 1) as nat);
    }
}

/// The output configuration of a program: a writer for the output channel
/// (`O`, info level), one for the error channel (`E`, warning level), and
/// whether the failure hook is installed.
pub struct Streams<O: Sink, E: Sink> {
    stdout: Option<Printer<O>>,
    stderr: Option<Printer<E>>,
    panic_hook: bool,
    guard: SetupGuard,
    stdout_sets: Ghost<nat>,
    stderr_sets: Ghost<nat>,
    hook_sets: Ghost<nat>,
    installs: Ghost<nat>,
}

impl<O: Sink, E: Sink> Streams<O, E> {
    /// The writer of the output channel, if one is installed.
    pub closed spec fn stdout_spec(&self) -> Option<Printer<O>> {
        self.stdout
    }

    /// The writer of the error channel, if one is installed.
    pub closed spec fn stderr_spec(&self) -> Option<Printer<E>> {
        self.stderr
    }

    /// Whether the failure hook is installed.
    pub closed spec fn hook_installed(&self) -> bool {
        self.panic_hook
    }

    /// Whether the one-time setup has run.
    pub closed spec fn setup_done(&self) -> bool {
        self.guard.has_run()
    }

    /// How many times each channel, and the failure hook, were installed.
    pub closed spec fn counts(&self) -> (nat, nat, nat) {
        (self.stdout_sets@, self.stderr_sets@, self.hook_sets@)
    }

    /// How many times the one-time setup ran the install sequence.
    pub closed spec fn installs(&self) -> nat {
        self.installs@
    }

    /// A fresh writer installed over `sink`.
    pub open spec fn fresh<S: Sink>(p: Option<Printer<S>>, sink: S, buffered: bool) -> bool {
        &&& p is Some
        &&& p->0.wf()
        &&& p->0.sink_spec() == sink
        &&& p->0.buffered() == buffered
        &&& p->0.pending().len() == 0
        &&& p->0.received().len() == 0
        &&& p->0.log().len() == 0
    }

    /// Nothing installed, and the one-time setup not run.
    pub fn new() -> (r: Self)
        ensures
            r.stdout_spec() is None,
            r.stderr_spec() is None,
            !r.hook_installed(),
            !r.setup_done(),
            r.counts() == (0nat, 0nat, 0nat),
            r.installs() == 0,
    {
        Streams {
            stdout: None,
            stderr: None,
            panic_hook: false,
            guard: SetupGuard::new(),
            stdout_sets: Ghost(0),
            stderr_sets: Ghost(0),
            hook_sets: Ghost(0),
            installs: Ghost(0),
        }
    }

    fn install_stdout(&mut self, sink: O, buffered: bool)
        ensures
            Self::fresh(final(self).stdout_spec(), sink, buffered),
            final(self).stderr_spec() == old(self).stderr_spec(),
            final(self).hook_installed() == old(self).hook_installed(),
            final(self).setup_done() == old(self).setup_done(),
            final(self).installs() == old(self).installs(),
            final(self).counts() == (old(self).counts().0 + 1, old(self).counts().1, old(
                self,
            ).counts().2),
    {
        self.stdout = Some(Printer::new(sink, buffered));
        self.stdout_sets = Ghost(self.stdout_sets@ + 1);
    }

    fn install_stderr(&mut self, sink: E, buffered: bool)
        ensures
            Self::fresh(final(self).stderr_spec(), sink, buffered),
            final(self).stdout_spec() == old(self).stdout_spec(),
            final(self).hook_installed() == old(self).hook_installed(),
            final(self).setup_done() == old(self).setup_done(),
            final(self).installs() == old(self).installs(),
            final(self).counts() == (old(self).counts().0, old(self).counts().1 + 1, old(
                self,
            ).counts().2),
    {
        self.stderr = Some(Printer::new(sink, buffered));
        self.stderr_sets = Ghost(self.stderr_sets@ + 1);
    }

    /// Installs a fresh line-buffered writer over `sink` as the output
    /// channel, replacing the one before.
    pub fn set_stdout(&mut self, sink: O)
        ensures
            Self::fresh(final(self).stdout_spec(), sink, true),
            final(self).stderr_spec() == old(self).stderr_spec(),
            final(self).hook_installed() == old(self).hook_installed(),
            final(self).setup_done() == old(self).setup_done(),
            final(self).installs() == old(self).installs(),
            final(self).counts() == (old(self).counts().0 + 1, old(self).counts().1, old(
                self,
            ).counts().2),
    {
        self.install_stdout(sink, true);
    }

    /// Installs a fresh unbuffered writer over `sink` as the output channel,
    /// replacing the one before.
    pub fn set_stdout_unbuffered(&mut self, sink: O)
        ensures
            Self::fresh(final(self).stdout_spec(), sink, false),
            final(self).stderr_spec() == old(self).stderr_spec(),
            final(self).hook_installed() == old(self).hook_installed(),
            final(self).setup_done() == old(self).setup_done(),
            final(self).installs() == old(self).installs(),
            final(self).counts() == (old(self).counts().0 + 1, old(self).counts().1, old(
                self,
            ).counts().2),
    {
        self.install_stdout(sink, false);
    }

    /// Installs a fresh line-buffered writer over `sink` as the error
    /// channel, replacing the one before.
    pub fn set_stderr(&mut self, sink: E)
        ensures
            Self::fresh(final(self).stderr_spec(), sink, true),
            final(self).stdout_spec() == old(self).stdout_spec(),
            final(self).hook_installed() == old(self).hook_installed(),
            final(self).setup_done() == old(self).setup_done(),
            final(self).installs() == old(self).installs(),
            final(self).counts() == (old(self).counts().0, old(self).counts().1 + 1, old(
                self,
            ).counts().2),
    {
        self.install_stderr(sink, true);
    }

    /// Installs a fresh unbuffered writer over `sink` as the error channel,
    /// replacing the one before.
    pub fn set_stderr_unbuffered(&mut self, sink: E)
        ensures
            Self::fresh(final(self).stderr_spec(), sink, false),
            final(self).stdout_spec() == old(self).stdout_spec(),
            final(self).hook_installed() == old(self).hook_installed(),
            final(self).setup_done() == old(self).setup_done(),
            final(self).installs() == old(self).installs(),
            final(self).counts() == (old(self).counts().0, old(self).counts().1 + 1, old(
                self,
            ).counts().2),
    {
        self.install_stderr(sink, false);
    }

    /// Records the failure hook as installed.
    pub fn set_panic_hook(&mut self)
        ensures
            final(self).hook_installed(),
            final(self).stdout_spec() == old(self).stdout_spec(),
            final(self).stderr_spec() == old(self).stderr_spec(),
            final(self).setup_done() == old(self).setup_done(),
            final(self).installs() == old(self).installs(),
            final(self).counts() == (old(self).counts().0, old(self).counts().1, old(
                self,
            ).counts().2 + 1),
    {
        self.panic_hook = true;
        self.hook_sets = Ghost(self.hook_sets@ + 1);
    }

    /// Installs both channels line-buffered, then the failure hook.
    pub fn hook(&mut self, out: O, err: E)
        ensures
            Self::fresh(final(self).stdout_spec(), out, true),
            Self::fresh(final(self).stderr_spec(), err, true),
            final(self).hook_installed(),
            final(self).setup_done() == old(self).setup_done(),
            final(self).installs() == old(self).installs(),
            final(self).counts() == (old(self).counts().0 + 1, old(self).counts().1 + 1, old(
                self,
            ).counts().2 + 1),
    {
        self.set_stdout(out);
        self.set_stderr(err);
        self.set_panic_hook();
    }

    /// The same as `hook` on the first call; every later call changes
    /// nothing. Returns whether this call ran the install sequence.
    pub fn init(&mut self, out: O, err: E) -> (ran: bool)
        ensures
            ran == !old(self).setup_done(),
            (final(self).setup_done(), final(self).installs()) == init_step(
                old(self).setup_done(),
                old(self).installs(),
            ),
            ran ==> {
                &&& Self::fresh(final(self).stdout_spec(), out, true)
                &&& Self::fresh(final(self).stderr_spec(), err, true)
                &&& final(self).hook_installed()
                &&& final(self).counts() == (old(self).counts().0 + 1, old(self).counts().1
                    + 1, old(self).counts().2 + 1)
            },
            !ran ==> *final(self) == *old(self),
    {
        if self.guard.claim() {
            self.hook(out, err);
            self.installs = Ghost(self.installs@ + 1);
            true
        } else {
            false
        }
    }
    /// Every installed writer is well formed.
    pub open spec fn wf(&self) -> bool {
        &&& (self.stdout_spec() is Some ==> self.stdout_spec()->0.wf())
        &&& (self.stderr_spec() is Some ==> self.stderr_spec()->0.wf())
    }

    /// Everything but the writers is as it was.
    pub open spec fn same_setup(pre: Self, post: Self) -> bool {
        &&& post.hook_installed() == pre.hook_installed()
        &&& post.setup_done() == pre.setup_done()
        &&& post.installs() == pre.installs()
        &&& post.counts() == pre.counts()
    }

    /// The writer of the output channel, if one is installed.
    pub fn stdout(&self) -> (r: Option<&Printer<O>>)
        ensures
            match self.stdout_spec() {
                Some(p) => r == Some(&p),
                None => r is None,
            },
    {
        match &self.stdout {
            Some(p) => Some(p),
            None => None,
        }
    }

    /// The writer of the error channel, if one is installed.
    pub fn stderr(&self) -> (r: Option<&Printer<E>>)
        ensures
            match self.stderr_spec() {
                Some(p) => r == Some(&p),
                None => r is None,
            },
    {
        match &self.stderr {
            Some(p) => Some(p),
            None => None,
        }
    }

    /// Writes `buf` to the output channel's writer; `None` when there is none.
    pub fn write_stdout(&mut self, buf: &[u8]) -> (r: Option<Result<usize, SinkError>>)
        requires
            old(self).wf(),
        ensures
            final(self).wf(),
            Self::same_setup(*old(self), *final(self)),
            final(self).stderr_spec() == old(self).stderr_spec(),
            match old(self).stdout_spec() {
                Some(p) => r is Some && final(self).stdout_spec() is Some && Printer::wrote(
                    p,
                    final(self).stdout_spec()->0,
                    buf@,
                    r->0,
                ),
                None => r is None && final(self).stdout_spec() is None,
            },
    {
        match &mut self.stdout {
            Some(p) => Some(p.write(buf)),
            None => None,
        }
    }

    /// Flushes the output channel's writer; `None` when there is none.
    pub fn flush_stdout(&mut self) -> (r: Option<Result<(), SinkError>>)
        requires
            old(self).wf(),
        ensures
            final(self).wf(),
            Self::same_setup(*old(self), *final(self)),
            final(self).stderr_spec() == old(self).stderr_spec(),
            match old(self).stdout_spec() {
                Some(p) => r is Some && final(self).stdout_spec() is Some && Printer::flushed(
                    p,
                    final(self).stdout_spec()->0,
                    r->0,
                ),
                None => r is None && final(self).stdout_spec() is None,
            },
    {
        match &mut self.stdout {
            Some(p) => Some(p.flush()),
            None => None,
        }
    }

    /// Writes `buf` to the error channel's writer; `None` when there is none.
    pub fn write_stderr(&mut self, buf: &[u8]) -> (r: Option<Result<usize, SinkError>>)
        requires
            old(self).wf(),
        ensures
            final(self).wf(),
            Self::same_setup(*old(self), *final(self)),
            final(self).stdout_spec() == old(self).stdout_spec(),
            match old(self).stderr_spec() {
                Some(p) => r is Some && final(self).stderr_spec() is Some && Printer::wrote(
                    p,
                    final(self).stderr_spec()->0,
                    buf@,
                    r->0,
                ),
                None => r is None && final(self).stderr_spec() is None,
            },
    {
        match &mut self.stderr {
            Some(p) => Some(p.write(buf)),
            None => None,
        }
    }

    /// Flushes the error channel's writer; `None` when there is none.
    pub fn flush_stderr(&mut self) -> (r: Option<Result<(), SinkError>>)
        requires
            old(self).wf(),
        ensures
            final(self).wf(),
            Self::same_setup(*old(self), *final(self)),
            final(self).stdout_spec() == old(self).stdout_spec(),
            match old(self).stderr_spec() {
                Some(p) => r is Some && final(self).stderr_spec() is Some && Printer::flushed(
                    p,
                    final(self).stderr_spec()->0,
                    r->0,
                ),
                None => r is None && final(self).stderr_spec() is None,
            },
    {
        match &mut self.stderr {
            Some(p) => Some(p.flush()),
            None => None,
        }
    }
}

} // verus!
