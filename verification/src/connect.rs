//! Choosing a daemon and waiting for it.
use crate::config::{host_views, Host};
use crate::keys::{down, is_down, is_up, up, Key, KeyAction};
use crate::text::{cat3, decimal, decimal_of, same};
use vstd::prelude::*;

verus! {

/// The daemon of this machine.
pub const LOCAL_ADDR: &'static str = "wss://127.0.0.1:9090";

/// How long is waited between two attempts to connect.
pub const CONNECT_RETRY_MS: u64 = 500;

/// How long a remote daemon is waited for.
pub const CONNECT_TIMEOUT_S: u64 = 30;

/// How many attempts that makes.
pub const CONNECT_RETRIES: u64 = 60;

/// The daemons to choose from: this machine's first, then the known ones.
pub fn host_choices(known: &Vec<Host>) -> (r: Vec<Host>)
    ensures
        host_views(r@) == crate::sender::hosts_known(LOCAL_ADDR@, host_views(known@)),
        r@.len() == known@.len() + 1,
{
    let r: Vec<Host> = crate::sender::all_hosts(LOCAL_ADDR, known);
    assert(r@.len() == host_views(r@).len());
    r
}

/// What follows a key while a daemon is chosen.
#[derive(Clone, Copy, Debug, PartialEq, Eq, Structural)]
pub enum PickMove {
    /// The choice is at this place now.
    At(usize),
    /// The daemon at this place is taken.
    Take(usize),
    Quit,
}

/// What follows a key while a daemon is chosen among `count`.
pub open spec fn picked(sel: usize, count: int, k: Key) -> PickMove {
    if k == Key::Char('q') {
        PickMove::Quit
    } else if is_up(k) {
        PickMove::At(
            if sel > 0 {
                (sel - 1) as usize
            } else {
                0
            },
        )
    } else if is_down(k) {
        PickMove::At(
            if sel + 1 < count {
                (sel + 1) as usize
            } else {
                sel
            },
        )
    } else if k == Key::Enter {
        PickMove::Take(sel)
    } else {
        PickMove::At(sel)
    }
}

/// What follows a key while a daemon is chosen.
pub fn resolve_daemon_addr(sel: usize, count: usize, k: Key) -> (r: PickMove)
    requires
        sel < count,
    ensures
        r == picked(sel, count as int, k),
        r matches PickMove::At(i) ==> i < count,
        r matches PickMove::Take(i) ==> i < count,
{
    if k == Key::Char('q') {
        PickMove::Quit
    } else if up(k) {
        PickMove::At(
            if sel > 0 {
                sel - 1
            } else {
                0
            },
        )
    } else if down(k) {
        PickMove::At(
            if count - sel > 1 {
                sel + 1
            } else {
                sel
            },
        )
    } else if k == Key::Enter {
        PickMove::Take(sel)
    } else {
        PickMove::At(sel)
    }
}

/// How many seconds are left at an attempt.
pub open spec fn remaining(attempt: int) -> int {
    CONNECT_TIMEOUT_S - attempt * CONNECT_RETRY_MS / 1000
}

/// What is said while a remote daemon is waited for.
pub fn waiting_text(addr: &str, attempt: u64) -> (r: String)
    requires
        attempt < CONNECT_RETRIES,
    ensures
        r@ == "Waiting for "@ + addr@ + " ("@ + decimal(remaining(attempt as int)) + "s)..."@,
{
    let left: u64 = CONNECT_TIMEOUT_S - attempt * CONNECT_RETRY_MS / 1000;
    let mut s: String = cat3("Waiting for ", addr, " (");
    s.append(decimal_of(left as usize).as_str());
    s.append("s)...");
    s
}

/// What is said while the daemon of this machine is waited for.
pub fn local_text(spawned: bool) -> (r: &'static str)
    ensures
        r@ == (if spawned {
            "Starting daemon... [q] to cancel"@
        } else {
            "Waiting for daemon... [q] to cancel"@
        }),
{
    if spawned {
        "Starting daemon... [q] to cancel"
    } else {
        "Waiting for daemon... [q] to cancel"
    }
}

/// What is said when a remote daemon did not answer.
pub fn timeout_text(addr: &str) -> (r: String)
    ensures
        r@ == "Could not connect to "@ + addr@ + " after "@ + decimal(CONNECT_TIMEOUT_S as int) + "s"@,
{
    let mut s: String = cat3("Could not connect to ", addr, " after ");
    s.append(decimal_of(CONNECT_TIMEOUT_S as usize).as_str());
    s.append("s");
    s
}

/// Whether an address is another machine's.
pub fn is_remote(addr: &str) -> (r: bool)
    ensures
        r == (addr@ != LOCAL_ADDR@),
{
    !same(addr, LOCAL_ADDR)
}

// ---------------------------------------------------------------------------
// Connecting
// ---------------------------------------------------------------------------

/// How far a connection has come.
#[derive(Clone, Copy, Debug, PartialEq, Eq, Structural)]
pub enum Attempt {
    /// Nothing was tried before.
    First,
    /// This machine's daemon is waited for; whether it was started for this.
    Local { spawned: bool },
    /// Another machine's daemon is waited for, by how many attempts so far.
    Remote { attempt: u64 },
}

/// Whether a daemon is to be started after the first attempt failed: only on this
/// machine, and on Linux only where it does not run as a service.
pub fn may_spawn(addr: &str, linux: bool, service_active: bool) -> (r: bool)
    ensures
        r == (addr@ == LOCAL_ADDR@ && !(linux && service_active)),
{
    !is_remote(addr) && !(linux && service_active)
}

/// What follows an attempt that failed: this machine's daemon is waited for without
/// end, another's only as long as there are attempts left. `spawned` says whether the
/// daemon could be started after the first attempt.
pub open spec fn attempt_after(local: bool, a: Attempt, spawned: bool) -> Option<Attempt> {
    match a {
        Attempt::First => Some(
            if local {
                Attempt::Local { spawned }
            } else {
                Attempt::Remote { attempt: 0 }
            },
        ),
        Attempt::Local { spawned: s } => Some(Attempt::Local { spawned: s }),
        Attempt::Remote { attempt } => if attempt + 1 < CONNECT_RETRIES {
            Some(Attempt::Remote { attempt: (attempt + 1) as u64 })
        } else {
            None
        },
    }
}

/// What follows an attempt that failed; nothing where no more are made.
pub fn connect_ws(addr: &str, a: Attempt, spawned: bool) -> (r: Option<Attempt>)
    ensures
        r == attempt_after(addr@ == LOCAL_ADDR@, a, spawned),
{
    match a {
        Attempt::First => Some(
            if is_remote(addr) {
                Attempt::Remote { attempt: 0 }
            } else {
                Attempt::Local { spawned }
            },
        ),
        Attempt::Local { spawned: s } => Some(Attempt::Local { spawned: s }),
        Attempt::Remote { attempt } => if attempt < CONNECT_RETRIES - 1 {
            Some(Attempt::Remote { attempt: attempt + 1 })
        } else {
            None
        },
    }
}

/// What is said during an attempt.
pub open spec fn attempt_text(addr: Seq<char>, a: Attempt) -> Seq<char> {
    match a {
        Attempt::First => "Connecting to "@ + addr + "..."@,
        Attempt::Local { spawned } => if spawned {
            "Starting daemon... [q] to cancel"@
        } else {
            "Waiting for daemon... [q] to cancel"@
        },
        Attempt::Remote { attempt } => "Waiting for "@ + addr + " ("@ + decimal(
            remaining(attempt as int),
        ) + "s)..."@,
    }
}

/// What is said during an attempt.
pub fn status_text(addr: &str, a: Attempt) -> (r: String)
    requires
        a matches Attempt::Remote { attempt } ==> attempt < CONNECT_RETRIES,
    ensures
        r@ == attempt_text(addr@, a),
{
    match a {
        Attempt::First => cat3("Connecting to ", addr, "..."),
        Attempt::Local { spawned } => local_text(spawned).to_owned(),
        Attempt::Remote { attempt } => waiting_text(addr, attempt),
    }
}

// ---------------------------------------------------------------------------
// A session
// ---------------------------------------------------------------------------

/// What happens while a daemon is connected.
#[derive(Clone, Copy, Debug, PartialEq, Eq, Structural)]
pub enum Happening {
    /// The daemon said that it goes down.
    NodeDown,
    /// The connection ended.
    Closed,
    /// A key asked for this.
    Asked(KeyAction),
    /// No more keys will come.
    KeysEnded,
}

/// What is done then.
#[derive(Clone, Copy, Debug, PartialEq, Eq, Structural)]
pub enum Then {
    Stay,
    /// Draw the screen.
    Draw,
    /// Connect to the same daemon again, after a while.
    Reconnect { ms: u64 },
    /// Choose a daemon again.
    Choose,
    /// End; a daemon that was started for this is told to go down first.
    End { shutdown: bool },
}

pub open spec fn then_of(owns_daemon: bool, h: Happening) -> Then {
    match h {
        Happening::NodeDown => Then::Reconnect { ms: 2000 },
        Happening::Closed => Then::Reconnect { ms: 1000 },
        Happening::Asked(KeyAction::Quit) => Then::End { shutdown: owns_daemon },
        Happening::Asked(KeyAction::Reconnect) => Then::Choose,
        Happening::Asked(KeyAction::Render) => Then::Draw,
        Happening::Asked(KeyAction::RenderDetails) => Then::Draw,
        Happening::Asked(KeyAction::Nothing) => Then::Stay,
        Happening::KeysEnded => Then::End { shutdown: false },
    }
}

/// What is done when something happens while a daemon is connected.
pub fn run(owns_daemon: bool, h: Happening) -> (r: Then)
    ensures
        r == then_of(owns_daemon, h),
{
    match h {
        Happening::NodeDown => Then::Reconnect { ms: 2000 },
        Happening::Closed => Then::Reconnect { ms: 1000 },
        Happening::Asked(a) => match a {
            KeyAction::Quit => Then::End { shutdown: owns_daemon },
            KeyAction::Reconnect => Then::Choose,
            KeyAction::Render => Then::Draw,
            KeyAction::RenderDetails => Then::Draw,
            KeyAction::Nothing => Then::Stay,
        },
        Happening::KeysEnded => Then::End { shutdown: false },
    }
}

// ---------------------------------------------------------------------------
// Laws
// ---------------------------------------------------------------------------

/// After so many failed attempts.
pub open spec fn attempts_after(local: bool, spawned: bool, n: nat) -> Option<Attempt>
    decreases n,
{
    if n == 0 {
        Some(Attempt::First)
    } else {
        match attempts_after(local, spawned, (n - 1) as nat) {
            Some(a) => attempt_after(local, a, spawned),
            None => None,
        }
    }
}

/// Another machine's daemon is tried once, and then as often as the time allows; this
/// machine's is never given up.
pub proof fn attempts_are_bounded(spawned: bool, n: nat)
    ensures
        attempts_after(true, spawned, n) == Some(
            if n == 0 {
                Attempt::First
            } else {
                Attempt::Local { spawned }
            },
        ),
        attempts_after(false, spawned, n) is Some <==> n <= CONNECT_RETRIES,
        0 < n <= CONNECT_RETRIES ==> attempts_after(false, spawned, n) == Some(
            Attempt::Remote { attempt: (n - 1) as u64 },
        ),
    decreases n,
{
    if n > 0 {
        attempts_are_bounded(spawned, (n - 1) as nat);
    }
}

/// A daemon that was not started for the session is never told to go down.
pub proof fn only_own_daemons_are_shut_down(owns_daemon: bool, h: Happening)
    ensures
        then_of(owns_daemon, h) == (Then::End { shutdown: true }) ==> owns_daemon,
{
}

/// The attempts fill the time that a remote daemon is waited for, and the seconds
/// that are left never grow and never reach zero before the last attempt.
pub proof fn countdown_fits_the_attempts(a: int, b: int)
    requires
        0 <= a <= b < CONNECT_RETRIES,
    ensures
        remaining(0) == CONNECT_TIMEOUT_S,
        remaining(b) <= remaining(a),
        0 < remaining(b),
        CONNECT_RETRIES * CONNECT_RETRY_MS == CONNECT_TIMEOUT_S * 1000,
{
}

} // verus!
