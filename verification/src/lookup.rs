use vstd::prelude::*;
use crate::addr::{SockAddr, SockAddrV4, SockAddrV6};

verus! {

/// One resolved IP address handed back by the DNS engine's host lookup.
#[derive(Clone, Copy, PartialEq, Eq, Debug)]
pub enum IpRepr {
    V4([u8; 4]),
    V6([u8; 16]),
}

/// The outcome of the DNS engine's host lookup, as the resolution task
/// sees it: a list of addresses in answer order, or a resolution failure.
#[derive(PartialEq, Eq, Debug)]
pub enum LookupOutcome {
    Resolved(Vec<IpRepr>),
    Failed,
}

/// The socket address written into one result slot for a resolved IP: the
/// looked-up port in both families, with the reserved IPv6 fields zeroed.
pub open spec fn sockaddr_of(ip: IpRepr, port: u16) -> SockAddr {
    match ip {
        IpRepr::V4(octets) => SockAddr::V4(SockAddrV4 { ip: octets, port }),
        IpRepr::V6(octets) => SockAddr::V6(
            SockAddrV6 { ip: octets, port, flowinfo: 0, scope_id: 0 },
        ),
    }
}

/// What one resolution task does to its result slot: the socket addresses
/// written, in order, and the number of completion notifications issued.
#[derive(PartialEq, Eq, Debug)]
pub struct LookupPlan {
    pub writes: Vec<SockAddr>,
    pub done_signals: usize,
}

/// The socket address for one granted result slot.
pub fn plan_write(ip: &IpRepr, port: u16) -> (r: SockAddr)
    ensures
        r == sockaddr_of(*ip, port),
{
    match ip {
        IpRepr::V4(octets) => SockAddr::V4(SockAddrV4 { ip: *octets, port }),
        IpRepr::V6(octets) => SockAddr::V6(
            SockAddrV6 { ip: *octets, port, flowinfo: 0, scope_id: 0 },
        ),
    }
}

/// The whole write plan of one resolution task, given how many slots the
/// host will grant before reporting its buffer full: on success one write
/// per address until the grant runs out; on failure no writes; in every
/// case exactly one completion notification.
pub fn plan_lookup_writes(outcome: &LookupOutcome, port: u16, capacity: usize) -> (r: LookupPlan)
    ensures
        r.done_signals == 1,
        outcome is Failed ==> r.writes@.len() == 0,
        outcome matches LookupOutcome::Resolved(ips) ==> {
            &&& r.writes@.len() == if ips@.len() <= capacity { ips@.len() as int } else { capacity as int }
            &&& forall|i: int| 0 <= i < r.writes@.len() ==> r.writes@[i] == sockaddr_of(ips@[i], port)
        },
{
    let mut writes: Vec<SockAddr> = Vec::new();
    match outcome {
        LookupOutcome::Resolved(ips) => {
            let n = ips.len();
            let bound = if n <= capacity { n } else { capacity };
            let mut i: usize = 0;
            while i < bound
                invariant
                    i <= bound,
                    bound <= ips@.len(),
                    writes@.len() == i,
                    forall|j: int| 0 <= j < i ==> writes@[j] == sockaddr_of(ips@[j], port),
                decreases bound - i,
            {
                let w = plan_write(&ips[i], port);
                writes.push(w);
                i = i + 1;
            }
        }
        LookupOutcome::Failed => {}
    }
    LookupPlan { writes, done_signals: 1 }
}

/// The IPv4 members among the first `n` addresses, in order.
pub open spec fn filter_v4_upto(ips: Seq<IpRepr>, n: int) -> Seq<IpRepr>
    decreases n,
{
    if n <= 0 {
        Seq::empty()
    } else {
        filter_v4_upto(ips, n - 1) + if ips[n - 1] is V4 {
            seq![ips[n - 1]]
        } else {
            Seq::empty()
        }
    }
}

/// The answers a v4-then-v6 strategy takes from a hosts match: the IPv4
/// addresses when there are any — the address-family query they answer
/// comes first — and the whole match only when none is IPv4.
pub open spec fn spec_ipv4_then_ipv6(ips: Seq<IpRepr>) -> Seq<IpRepr> {
    let v4 = filter_v4_upto(ips, ips.len() as int);
    if v4.len() > 0 {
        v4
    } else {
        ips
    }
}

/// Applies the engine's default v4-then-v6 strategy to a hosts match.
pub fn ipv4_then_ipv6(ips: &Vec<IpRepr>) -> (r: Vec<IpRepr>)
    ensures
        r@ == spec_ipv4_then_ipv6(ips@),
{
    let ghost all = ips@;
    let mut v4: Vec<IpRepr> = Vec::new();
    let mut i: usize = 0;
    proof {
        assert(v4@ =~= filter_v4_upto(all, 0));
    }
    while i < ips.len()
        invariant
            i <= ips@.len(),
            all == ips@,
            v4@ == filter_v4_upto(all, i as int),
        decreases ips@.len() - i,
    {
        let ghost v0 = v4@;
        match ips[i] {
            IpRepr::V4(_) => {
                v4.push(ips[i]);
                proof {
                    assert(v4@ =~= v0 + seq![all[i as int]]);
                }
            }
            IpRepr::V6(_) => {
                proof {
                    assert(v0 + Seq::<IpRepr>::empty() =~= v0);
                }
            }
        }
        i = i + 1;
    }
    if v4.len() > 0 {
        v4
    } else {
        let mut r: Vec<IpRepr> = Vec::new();
        let mut k: usize = 0;
        while k < ips.len()
            invariant
                k <= ips@.len(),
                all == ips@,
                r@ == all.take(k as int),
            decreases ips@.len() - k,
        {
            r.push(ips[k]);
            proof {
                assert(r@ =~= all.take(k as int + 1));
            }
            k = k + 1;
        }
        proof {
            assert(all.take(all.len() as int) =~= all);
        }
        r
    }
}

/// Completion state of one started resolution task: its single done
/// notification has either not yet been issued, or been issued.
pub struct ResolveTicket {
    pub done_called: bool,
}

/// Whether the task may still issue its done notification.
pub open spec fn may_signal(t: ResolveTicket) -> bool {
    !t.done_called
}

impl ResolveTicket {
    /// A fresh ticket for a task that has just been started.
    pub fn new() -> (r: Self)
        ensures
            may_signal(r),
    {
        Self { done_called: false }
    }

    /// Issues the task's one completion notification. The precondition
    /// forbids a second notification for the same result slot.
    pub fn signal_done(&mut self)
        requires
            may_signal(*old(self)),
        ensures
            final(self).done_called,
    {
        self.done_called = true;
    }
}

/// A started task notifies completion exactly once: once the notification
/// is issued, issuing it again is impossible.
pub proof fn lemma_done_exactly_once(t: ResolveTicket)
    requires
        t.done_called,
    ensures
        !may_signal(t),
{
}

} // verus!
