use vstd::prelude::*;
use crate::addr::{AddrError, SockAddr, spec_encode, valid_encoding, bytes_to_socket_addr};

verus! {

/// The result of one host send attempt, under the bridge convention: a
/// positive return is the number of bytes written; zero or a negative
/// value means the attempt is pending and the host keeps the wake token.
#[derive(Clone, Copy, PartialEq, Eq, Debug)]
pub enum SendPoll {
    Ready(usize),
    Pending,
}

/// The result of one host receive attempt: bytes received with the peer's
/// decoded source address; an invalid-input error for a foreign address
/// family; or pending.
#[derive(Clone, Copy, PartialEq, Eq, Debug)]
pub enum RecvPoll {
    Ready(usize, SockAddr),
    Invalid,
    Pending,
}

/// Classifies the host's return from a send attempt.
pub fn classify_send(n: i32) -> (r: SendPoll)
    ensures
        n > 0 ==> r == SendPoll::Ready(n as usize),
        n <= 0 ==> r == SendPoll::Pending,
{
    if n > 0 {
        SendPoll::Ready(n as usize)
    } else {
        SendPoll::Pending
    }
}

/// Classifies the host's return from a receive attempt, decoding the
/// slot-resident source address on success. A source address whose family
/// the bridge does not know is reported as invalid input.
pub fn classify_recv(n: i32, addr_bytes: &[u8]) -> (r: RecvPoll)
    ensures
        n <= 0 ==> r == RecvPoll::Pending,
        n > 0 && valid_encoding(addr_bytes@) ==> (r matches RecvPoll::Ready(len, a)
            && len == n as usize && spec_encode(a) == addr_bytes@),
        n > 0 && !valid_encoding(addr_bytes@) ==> r == RecvPoll::Invalid,
{
    if n <= 0 {
        return RecvPoll::Pending;
    }
    match bytes_to_socket_addr(addr_bytes) {
        Ok(a) => RecvPoll::Ready(n as usize, a),
        Err(AddrError::InvalidInput) => RecvPoll::Invalid,
    }
}

/// Classifies the host's return from the bind call: a non-negative value
/// is the bound socket's descriptor; a negative value is the host's
/// failure report, and no action slot may then be allocated.
pub fn classify_bind(fd: i32) -> (r: Option<i32>)
    ensures
        fd >= 0 ==> r == Some(fd),
        fd < 0 ==> r is None,
{
    if fd >= 0 {
        Some(fd)
    } else {
        None
    }
}

/// The lifecycle of one wake token after the transport hands it to the
/// host: held by the host, discharged by a wake, or discharged by a
/// forget.
#[derive(Clone, Copy, PartialEq, Eq, Debug)]
pub enum TokenState {
    Held,
    Waked,
    Forgotten,
}

/// A ledger of every wake token handed to the host, in issue order; a
/// token's number is its position.
pub struct WakeLedger {
    pub tokens: Vec<TokenState>,
}

/// Whether token `id` may still be discharged.
pub open spec fn may_discharge(l: WakeLedger, id: int) -> bool {
    0 <= id < l.tokens@.len() && l.tokens@[id] == TokenState::Held
}

/// Whether every token handed out so far has been discharged.
pub open spec fn all_discharged(l: WakeLedger) -> bool {
    forall|i: int| 0 <= i < l.tokens@.len() ==> l.tokens@[i] != TokenState::Held
}

impl WakeLedger {
    /// A ledger with no tokens issued; vacuously, all are discharged.
    pub fn new() -> (r: Self)
        ensures
            r.tokens@.len() == 0,
            all_discharged(r),
    {
        Self { tokens: Vec::new() }
    }

    /// A suspending poll hands a fresh token to the host; its number is
    /// returned.
    pub fn issue(&mut self) -> (id: usize)
        ensures
            final(self).tokens@ == old(self).tokens@.push(TokenState::Held),
            id == old(self).tokens@.len(),
            may_discharge(*final(self), id as int),
    {
        let id = self.tokens.len();
        self.tokens.push(TokenState::Held);
        id
    }

    /// The host discharges a held token by waking: the suspended task is
    /// scheduled and the token is consumed.
    pub fn wake(&mut self, id: usize)
        requires
            may_discharge(*old(self), id as int),
        ensures
            final(self).tokens@ == old(self).tokens@.update(id as int, TokenState::Waked),
    {
        self.tokens.set(id, TokenState::Waked);
    }

    /// The host discharges a held token by forgetting: the token is
    /// consumed without scheduling anything.
    pub fn forget(&mut self, id: usize)
        requires
            may_discharge(*old(self), id as int),
        ensures
            final(self).tokens@ == old(self).tokens@.update(id as int, TokenState::Forgotten),
    {
        self.tokens.set(id, TokenState::Forgotten);
    }
}

/// A wake token is discharged at most once: after any discharge, no
/// further wake or forget of the same token is possible.
pub proof fn lemma_token_discharged_once(l: WakeLedger, id: int)
    requires
        0 <= id < l.tokens@.len(),
        l.tokens@[id] != TokenState::Held,
    ensures
        !may_discharge(l, id),
{
}

/// Discharging the last held token completes the episode: every token
/// handed out during it has then been discharged, each exactly once, and
/// none is leaked.
pub proof fn lemma_last_discharge_completes(
    before: WakeLedger,
    after: WakeLedger,
    id: int,
    s: TokenState,
)
    requires
        0 <= id < before.tokens@.len(),
        forall|i: int|
            0 <= i < before.tokens@.len() && i != id ==> before.tokens@[i] != TokenState::Held,
        s != TokenState::Held,
        after.tokens@ == before.tokens@.update(id, s),
    ensures
        all_discharged(after),
{
}

/// Discharging one token leaves every other token's state alone.
pub proof fn lemma_discharge_frames_others(before: Vec<TokenState>, after: Vec<TokenState>, id: int, s: TokenState)
    requires
        0 <= id < before@.len(),
        after@ == before@.update(id, s),
    ensures
        after@.len() == before@.len(),
        forall|i: int| 0 <= i < before@.len() && i != id ==> after@[i] == before@[i],
{
}

/// The state of one bound UDP transport: the bound socket's descriptor
/// and the two host action slots obtained at bind, with their release
/// state.
pub struct KLoopUdp {
    pub fd: i32,
    pub send: u64,
    pub recv: u64,
    pub send_freed: bool,
    pub recv_freed: bool,
}

/// Whether the transport still owns both of its action slots.
pub open spec fn owns_slots(u: KLoopUdp) -> bool {
    !u.send_freed && !u.recv_freed
}

/// Whether both action slots have been handed back to the host.
pub open spec fn fully_released(u: KLoopUdp) -> bool {
    u.send_freed && u.recv_freed
}

impl KLoopUdp {
    /// A freshly bound transport owning the two action slots the host
    /// allocated for its socket.
    pub fn bind(fd: i32, send: u64, recv: u64) -> (r: Self)
        ensures
            r.fd == fd && r.send == send && r.recv == recv,
            owns_slots(r),
    {
        Self { fd, send, recv, send_freed: false, recv_freed: false }
    }

    /// The release performed when the transport is dropped: both action
    /// slots are handed back, each exactly once; the returned pair names
    /// the slots the host must free, send slot first.
    pub fn release(&mut self) -> (r: (u64, u64))
        requires
            owns_slots(*old(self)),
        ensures
            fully_released(*final(self)),
            r.0 == old(self).send && r.1 == old(self).recv,
            final(self).fd == old(self).fd,
            final(self).send == old(self).send && final(self).recv == old(self).recv,
    {
        self.send_freed = true;
        self.recv_freed = true;
        (self.send, self.recv)
    }
}

/// Each action slot is freed exactly once: a released transport cannot be
/// released again.
pub proof fn lemma_slots_freed_once(u: KLoopUdp)
    requires
        fully_released(u),
    ensures
        !owns_slots(u),
{
}

} // verus!
