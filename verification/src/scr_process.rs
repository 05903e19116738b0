//! The process/port watcher's decision logic: given what one poll of the
//! OS process table and socket table observed, decide the service-level
//! event. The polling itself (and the OS queries) live in the outer
//! shell; this module fixes what each tick reports.

use vstd::prelude::*;
use crate::scr_events::ScrEvent;
use crate::scr_events::ScrEventModel;

verus! {

/// One row of the observed socket table, reduced to what the decision
/// reads: protocol, state, owning process ids, and the local port.
#[derive(Debug)]
pub struct SocketRecord {
    pub is_tcp: bool,
    pub is_listen: bool,
    pub pids: Vec<u32>,
    pub local_port: u16,
}

/// The socket is a listening TCP socket owned by `pid`.
pub open spec fn socket_matches(s: SocketRecord, pid: u32) -> bool {
    s.is_tcp && s.is_listen && s.pids@.contains(pid)
}

/// The local port of the first matching socket in enumeration order, if
/// any. Which port this is when several match is decided by the order
/// the OS enumerates sockets in; this tie-break is deliberate, not a
/// canonical choice.
pub open spec fn first_listen_port(socks: Seq<SocketRecord>, pid: u32) -> Option<u16>
    decreases socks.len(),
{
    if socks.len() == 0 {
        None
    } else if socket_matches(socks[0], pid) {
        Some(socks[0].local_port)
    } else {
        first_listen_port(socks.drop_first(), pid)
    }
}

/// What one poll tick reports: the first listening port of the found
/// process, or service-down when the process or such a socket is
/// missing. Enumeration failures are handed in as an absent process or
/// an empty socket table, so they also report service-down, never an
/// error.
pub open spec fn poll_event_spec(pid: Option<u32>, socks: Seq<SocketRecord>) -> ScrEventModel {
    match pid {
        Some(p) => match first_listen_port(socks, p) {
            Some(port) => ScrEventModel::WebServerRunning { port },
            None => ScrEventModel::WebServerDown,
        },
        None => ScrEventModel::WebServerDown,
    }
}

/// Is `x` one of the values in `v`?
fn contains_u32(v: &Vec<u32>, x: u32) -> (r: bool)
    ensures
        r == v@.contains(x),
{
    let n = v.len();
    for i in 0..n
        invariant
            n == v@.len(),
            forall|j: int| 0 <= j < i ==> v@[j] != x,
    {
        if v[i] == x {
            return true;
        }
    }
    false
}

/// The local port of the first listening TCP socket owned by `pid`, in
/// enumeration order.
pub fn find_starcraft_api_port(pid: u32, sockets: &Vec<SocketRecord>) -> (r: Option<u16>)
    ensures
        r == first_listen_port(sockets@, pid),
{
    let n = sockets.len();
    proof {
        assert(sockets@.skip(0) =~= sockets@);
    }
    for i in 0..n
        invariant
            n == sockets@.len(),
            first_listen_port(sockets@, pid) == first_listen_port(sockets@.skip(i as int), pid),
    {
        proof {
            assert(sockets@.skip(i as int).drop_first() =~= sockets@.skip(i + 1));
            assert(sockets@.skip(i as int)[0] == sockets@[i as int]);
        }
        if sockets[i].is_tcp && sockets[i].is_listen && contains_u32(&sockets[i].pids, pid) {
            return Some(sockets[i].local_port);
        }
    }
    proof {
        assert(sockets@.skip(n as int) =~= Seq::<SocketRecord>::empty());
    }
    None
}

/// Decide what one poll tick emits. The poll is level-triggered: it
/// reports on every tick whether or not anything changed.
pub fn poll_event(pid: Option<u32>, sockets: &Vec<SocketRecord>) -> (ev: ScrEvent)
    ensures
        ev@ == poll_event_spec(pid, sockets@),
{
    match pid {
        Some(p) => match find_starcraft_api_port(p, sockets) {
            Some(port) => ScrEvent::WebServerRunning { port },
            None => ScrEvent::WebServerDown,
        },
        None => ScrEvent::WebServerDown,
    }
}

} // verus!
