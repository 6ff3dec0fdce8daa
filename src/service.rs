use vstd::prelude::*;

verus! {

/// Least time between two multicast broadcasts, in milliseconds.
pub const BROADCAST_INTERVAL_MS: u64 = 1000;

/// What the server does on a tick with no request.
#[derive(Clone, Copy, Debug, PartialEq, Eq, Structural)]
pub enum BroadcastAction {
    /// A broadcast went out less than the interval ago: pause and go on.
    Wait,
    /// Announce the server to every device on the multicast group.
    Send,
}

/// What the server does with a request.
#[derive(Clone, Copy, Debug, PartialEq, Eq, Structural)]
pub enum RequestAction {
    /// A press: scream, then answer the request with content `ok`.
    Scream,
    /// Not a press: leave the request to the rest of the server.
    Continue,
}

/// When the server last broadcast, in milliseconds on its own clock.
pub struct Broadcaster {
    last_ms: Option<u64>,
}

/// Whether a broadcast is due at `now`, the last one having gone out at `last`.
pub open spec fn broadcast_due(last: Option<u64>, now: u64) -> bool {
    match last {
        None => true,
        Some(t) => t + BROADCAST_INTERVAL_MS <= now,
    }
}

impl Broadcaster {
    pub closed spec fn last_spec(&self) -> Option<u64> {
        self.last_ms
    }

    /// A server that has not broadcast yet.
    pub fn new() -> (r: Broadcaster)
        ensures
            r.last_spec() is None,
    {
        Broadcaster { last_ms: None }
    }

    /// When the last broadcast went out.
    pub fn last(&self) -> (r: Option<u64>)
        ensures
            r == self.last_spec(),
    {
        self.last_ms
    }
}

/// Decides the broadcast of a server tick at time `now_ms`: one goes out
/// when none has, or the last is at least the interval old, and its time is
/// then recorded; else the server waits.
pub fn send_multicast_broadcast(state: &mut Broadcaster, now_ms: u64) -> (r: BroadcastAction)
    ensures
        r == (if broadcast_due(old(state).last_spec(), now_ms) {
            BroadcastAction::Send
        } else {
            BroadcastAction::Wait
        }),
        final(state).last_spec() == (if broadcast_due(old(state).last_spec(), now_ms) {
            Some(now_ms)
        } else {
            old(state).last_spec()
        }),
{
    let due = match state.last_ms {
        None => true,
        Some(t) => t <= now_ms && now_ms - t >= BROADCAST_INTERVAL_MS,
    };
    if due {
        state.last_ms = Some(now_ms);
        BroadcastAction::Send
    } else {
        BroadcastAction::Wait
    }
}

fn str_equal(a: &str, b: &str) -> (r: bool)
    ensures
        r == (a@ == b@),
{
    let n = a.unicode_len();
    if n != b.unicode_len() {
        return false;
    }
    let mut i: usize = 0;
    while i < n
        invariant
            n == a@.len(),
            n == b@.len(),
            i <= n,
            forall|j: int| 0 <= j < i ==> a@[j] == b@[j],
        decreases n - i,
    {
        if a.get_char(i) != b.get_char(i) {
            return false;
        }
        i = i + 1;
    }
    assert(a@ =~= b@);
    true
}

/// Routes a request: a `POST` to the path `pressed` is a press.
pub fn post_pressed(is_post: bool, path: &str) -> (r: RequestAction)
    ensures
        r == (if is_post && path@ == "pressed"@ {
            RequestAction::Scream
        } else {
            RequestAction::Continue
        }),
{
    if is_post && str_equal(path, "pressed") {
        RequestAction::Scream
    } else {
        RequestAction::Continue
    }
}

} // verus!
