//! Quit requests and the one-time restoration of the terminal.
use vstd::prelude::*;

verus! {

/// A key press, reduced to what decides quitting.
#[derive(Clone, Copy, PartialEq, Eq, Structural)]
pub enum Key {
    Char(char),
    Esc,
    Other,
}

/// Whether a key press asks to quit: `q`, `Q`, Escape, or Ctrl+C.
pub open spec fn quit_key(key: Key, ctrl: bool) -> bool {
    match key {
        Key::Char(c) => c == 'q' || c == 'Q' || (c == 'c' && ctrl),
        Key::Esc => true,
        Key::Other => false,
    }
}

/// Whether the key `key`, pressed with Control held when `ctrl`, asks to
/// quit.
pub fn is_quit_key(key: Key, ctrl: bool) -> (r: bool)
    ensures
        r == quit_key(key, ctrl),
{
    match key {
        Key::Char(c) => c == 'q' || c == 'Q' || (c == 'c' && ctrl),
        Key::Esc => true,
        Key::Other => false,
    }
}

/// The run's state: the animation runs until the first quit request.
#[derive(Clone, Copy, PartialEq, Eq, Structural)]
pub enum Lifecycle {
    Running,
    Terminated,
}

/// A quit request (a quit key or an interrupt) in state `s`: the next
/// state, and whether the terminal is to be restored now.
pub open spec fn quit_step(s: Lifecycle) -> (Lifecycle, bool) {
    match s {
        Lifecycle::Running => (Lifecycle::Terminated, true),
        Lifecycle::Terminated => (Lifecycle::Terminated, false),
    }
}

/// `n` quit requests in a row from `s`: the final state and how many of
/// them restored the terminal.
pub open spec fn quit_run(s: Lifecycle, n: nat) -> (Lifecycle, nat)
    decreases n,
{
    if n == 0 {
        (s, 0)
    } else {
        let (s1, restore) = quit_step(s);
        let (s2, count) = quit_run(s1, (n - 1) as nat);
        (s2, count + if restore {
            1nat
        } else {
            0nat
        })
    }
}

/// Tracks whether the terminal was already handed back.
pub struct Teardown {
    pub state: Lifecycle,
}

impl Teardown {
    /// A running animation.
    pub fn new() -> (r: Teardown)
        ensures
            r.state == Lifecycle::Running,
    {
        Teardown { state: Lifecycle::Running }
    }

    /// Records a quit request, from a key or an interrupt; true when this
    /// caller is to restore the terminal and exit, that is on the first.
    pub fn request_quit(&mut self) -> (restore: bool)
        ensures
            (final(self).state, restore) == quit_step(old(self).state),
    {
        match self.state {
            Lifecycle::Running => {
                self.state = Lifecycle::Terminated;
                true
            },
            Lifecycle::Terminated => false,
        }
    }
}

/// However many quit requests arrive, one or more, the terminal is restored
/// exactly once and the run ends terminated.
pub proof fn lemma_restored_once(n: nat)
    requires
        n >= 1,
    ensures
        quit_run(Lifecycle::Running, n) == (Lifecycle::Terminated, 1nat),
{
    lemma_terminated_stays((n - 1) as nat);
}

/// Once terminated, further quit requests restore nothing.
pub proof fn lemma_terminated_stays(n: nat)
    ensures
        quit_run(Lifecycle::Terminated, n) == (Lifecycle::Terminated, 0nat),
    decreases n,
{
    if n > 0 {
        lemma_terminated_stays((n - 1) as nat);
    }
}

} // verus!
