use kloop_resolver::addr::{
    bytes_to_socket_addr, socket_addr_to_bytes, AddrError, SockAddr, SockAddrV4, SockAddrV6,
    SOCKADDR_V4_LEN, SOCKADDR_V6_LEN,
};
use kloop_resolver::config::init_session;
use kloop_resolver::config::{plan_endpoints, plan_options, Endpoint};
use kloop_resolver::executor::ExecutorHandle;
use kloop_resolver::hosts::{
    candidate_names, hosts_line_entry, hosts_line_tokens, hosts_lookup, parse_hosts_table,
    parse_v4_literal as parse_v4,
};
use futures_util::task::LocalSpawnExt;
use kloop_resolver::lookup::{
    ipv4_then_ipv6, plan_lookup_writes, plan_write, IpRepr, LookupOutcome, ResolveTicket,
};
use kloop_resolver::once::OnceFuture;
use kloop_resolver::session::{check_lookup_host, run_until_stalled_call, CurrentSlot};
use kloop_resolver::text::validate_utf8;
use kloop_resolver::transport::{
    classify_bind, classify_recv, classify_send, KLoopUdp, RecvPoll, SendPoll, TokenState,
    WakeLedger,
};

#[test]
fn v4_encode_bytes() {
    let a = SockAddr::V4(SockAddrV4 { ip: [10, 0, 0, 1], port: 443 });
    let b = socket_addr_to_bytes(&a);
    assert_eq!(b.len(), SOCKADDR_V4_LEN);
    // family AF_INET, port 0x01BB in network order, the address octets, zero pad
    assert_eq!(b, vec![0, 2, 0x01, 0xBB, 10, 0, 0, 1, 0, 0, 0, 0, 0, 0, 0, 0]);
}

#[test]
fn v4_round_trip() {
    let a = SockAddr::V4(SockAddrV4 { ip: [127, 0, 0, 1], port: 53 });
    let b = socket_addr_to_bytes(&a);
    assert_eq!(bytes_to_socket_addr(&b), Ok(a));
}

#[test]
fn v6_encode_bytes() {
    let mut ip = [0u8; 16];
    ip[15] = 1;
    let a = SockAddr::V6(SockAddrV6 { ip, port: 80, flowinfo: 0, scope_id: 0 });
    let b = socket_addr_to_bytes(&a);
    assert_eq!(b.len(), SOCKADDR_V6_LEN);
    // family AF_INET6, port 0x0050 network order, zero flowinfo, ::1, zero scope
    let mut expected = vec![0, 10, 0x00, 0x50, 0, 0, 0, 0];
    expected.extend_from_slice(&ip);
    expected.extend_from_slice(&[0, 0, 0, 0]);
    assert_eq!(b, expected);
}

#[test]
fn v6_round_trip_keeps_flowinfo_and_scope() {
    let a = SockAddr::V6(SockAddrV6 {
        ip: [0xFE, 0x80, 0, 0, 0, 0, 0, 0, 1, 2, 3, 4, 5, 6, 7, 8],
        port: 8053,
        flowinfo: 0x12345678,
        scope_id: 0x9ABCDEF0,
    });
    let b = socket_addr_to_bytes(&a);
    assert_eq!(bytes_to_socket_addr(&b), Ok(a));
}

#[test]
fn decode_unknown_family_is_invalid_input() {
    let mut b = vec![0u8; 16];
    b[1] = 7; // neither AF_INET nor AF_INET6
    assert_eq!(bytes_to_socket_addr(&b), Err(AddrError::InvalidInput));
}

#[test]
fn decode_wrong_length_is_invalid_input() {
    let b = vec![0u8, 2, 0, 53, 127, 0, 0, 1]; // truncated sockaddr_in
    assert_eq!(bytes_to_socket_addr(&b), Err(AddrError::InvalidInput));
    let b2 = vec![0u8; 27]; // one byte short of a sockaddr_in6
    assert_eq!(bytes_to_socket_addr(&b2), Err(AddrError::InvalidInput));
}

#[test]
fn decode_nonzero_pad_is_invalid_input() {
    let a = SockAddr::V4(SockAddrV4 { ip: [10, 0, 0, 1], port: 443 });
    let mut b = socket_addr_to_bytes(&a);
    b[12] = 1; // damage the sockaddr_in zero pad
    assert_eq!(bytes_to_socket_addr(&b), Err(AddrError::InvalidInput));
}

#[test]
fn plan_one_a_record() {
    // hosts file maps a.test -> 10.0.0.1; lookup_ip("a.test", 443)
    let outcome = LookupOutcome::Resolved(vec![IpRepr::V4([10, 0, 0, 1])]);
    let plan = plan_lookup_writes(&outcome, 443, 8);
    assert_eq!(plan.done_signals, 1);
    assert_eq!(plan.writes.len(), 1);
    let b = socket_addr_to_bytes(&plan.writes[0]);
    assert_eq!(b, vec![0, 2, 0x01, 0xBB, 10, 0, 0, 1, 0, 0, 0, 0, 0, 0, 0, 0]);
}

#[test]
fn plan_one_aaaa_record() {
    // upstream answers one AAAA ::1 for lookup_ip("b.test", 80)
    let mut ip = [0u8; 16];
    ip[15] = 1;
    let outcome = LookupOutcome::Resolved(vec![IpRepr::V6(ip)]);
    let plan = plan_lookup_writes(&outcome, 80, 8);
    assert_eq!(plan.done_signals, 1);
    assert_eq!(plan.writes.len(), 1);
    match plan.writes[0] {
        SockAddr::V6(v) => {
            assert_eq!(v.ip, ip);
            assert_eq!(v.port, 80);
            assert_eq!(v.flowinfo, 0);
            assert_eq!(v.scope_id, 0);
        }
        SockAddr::V4(_) => panic!("expected an IPv6 write"),
    }
}

#[test]
fn plan_failure_writes_nothing_and_signals_done_once() {
    // upstream returns NXDOMAIN: zero prep_addr calls, exactly one done_cb
    let plan = plan_lookup_writes(&LookupOutcome::Failed, 53, 8);
    assert_eq!(plan.writes.len(), 0);
    assert_eq!(plan.done_signals, 1);
}

#[test]
fn plan_stops_when_slots_run_out() {
    let outcome = LookupOutcome::Resolved(vec![
        IpRepr::V4([10, 0, 0, 1]),
        IpRepr::V4([10, 0, 0, 2]),
        IpRepr::V4([10, 0, 0, 3]),
    ]);
    let plan = plan_lookup_writes(&outcome, 53, 2);
    assert_eq!(plan.done_signals, 1);
    assert_eq!(plan.writes.len(), 2);
    assert_eq!(plan.writes[0], SockAddr::V4(SockAddrV4 { ip: [10, 0, 0, 1], port: 53 }));
    assert_eq!(plan.writes[1], SockAddr::V4(SockAddrV4 { ip: [10, 0, 0, 2], port: 53 }));
    let empty = plan_lookup_writes(&outcome, 53, 0);
    assert_eq!(empty.writes.len(), 0);
    assert_eq!(empty.done_signals, 1);
}

#[test]
fn plan_write_zeroes_reserved_v6_fields() {
    let w = plan_write(&IpRepr::V6([0xAB; 16]), 9);
    assert_eq!(
        w,
        SockAddr::V6(SockAddrV6 { ip: [0xAB; 16], port: 9, flowinfo: 0, scope_id: 0 })
    );
}

#[test]
fn utf8_accepts_host_names() {
    assert!(validate_utf8(b"a.test"));
    assert!(validate_utf8(b""));
    assert!(validate_utf8("h\u{00E9}llo.example".as_bytes()));
    assert!(validate_utf8("\u{4E2D}\u{6587}.example".as_bytes()));
    assert!(validate_utf8("\u{1F600}".as_bytes()));
}

#[test]
fn utf8_rejects_malformed_bytes() {
    assert!(!validate_utf8(b"not utf8 \xff"));
    assert!(!validate_utf8(&[0xC0, 0x80])); // overlong NUL
    assert!(!validate_utf8(&[0xC1, 0xBF])); // overlong
    assert!(!validate_utf8(&[0xED, 0xA0, 0x80])); // surrogate
    assert!(!validate_utf8(&[0xF4, 0x90, 0x80, 0x80])); // beyond U+10FFFF
    assert!(!validate_utf8(&[0xF5, 0x80, 0x80, 0x80]));
    assert!(!validate_utf8(&[0xE2, 0x82])); // truncated
    assert!(!validate_utf8(&[0x80])); // lone continuation
}

#[test]
fn utf8_agrees_with_std() {
    let samples: Vec<Vec<u8>> = vec![
        b"a.test".to_vec(),
        b"not utf8 \xff".to_vec(),
        vec![0xE0, 0x9F, 0xBF],
        vec![0xE0, 0xA0, 0x80],
        vec![0xF0, 0x8F, 0xBF, 0xBF],
        vec![0xF0, 0x90, 0x80, 0x80],
        vec![0xED, 0x9F, 0xBF],
        vec![0xC2, 0x80],
        vec![0xDF, 0xBF],
        vec![0xEF, 0xBF, 0xBD, 0x41],
    ];
    for s in samples {
        assert_eq!(validate_utf8(&s), std::str::from_utf8(&s).is_ok());
    }
}

#[test]
fn lookup_gate_matches_utf8() {
    assert!(check_lookup_host(b"a.test"));
    assert!(!check_lookup_host(b"not utf8 \xff"));
}

#[test]
fn once_future_pending_then_ready() {
    let mut f = OnceFuture::new();
    assert!(!f.seen);
    assert!(!f.poll_step());
    assert!(f.poll_step());
    assert!(f.poll_step());
}

#[test]
fn wake_ledger_discharges_each_token_once() {
    let mut l = WakeLedger::new();
    let t0 = l.issue();
    let t1 = l.issue();
    assert_eq!(t0, 0);
    assert_eq!(t1, 1);
    assert_eq!(l.tokens[t0], TokenState::Held);
    l.wake(t0);
    assert_eq!(l.tokens[t0], TokenState::Waked);
    l.forget(t1);
    assert_eq!(l.tokens[t1], TokenState::Forgotten);
    assert!(l.tokens.iter().all(|t| *t != TokenState::Held));
}

#[test]
fn transport_releases_both_slots_once() {
    let mut u = KLoopUdp::bind(3, 7, 9);
    assert!(!u.send_freed && !u.recv_freed);
    let (s, r) = u.release();
    assert_eq!((s, r), (7, 9));
    assert!(u.send_freed && u.recv_freed);
}

#[test]
fn send_poll_convention() {
    assert_eq!(classify_send(5), SendPoll::Ready(5));
    assert_eq!(classify_send(1), SendPoll::Ready(1));
    assert_eq!(classify_send(0), SendPoll::Pending);
    assert_eq!(classify_send(-1), SendPoll::Pending);
}

#[test]
fn recv_poll_convention() {
    let a = SockAddr::V4(SockAddrV4 { ip: [127, 0, 0, 1], port: 53 });
    let b = socket_addr_to_bytes(&a);
    assert_eq!(classify_recv(12, &b), RecvPoll::Ready(12, a));
    assert_eq!(classify_recv(0, &b), RecvPoll::Pending);
    assert_eq!(classify_recv(-7, &b), RecvPoll::Pending);
    let mut bad = b.clone();
    bad[1] = 7;
    assert_eq!(classify_recv(12, &bad), RecvPoll::Invalid);
}

#[test]
fn current_slot_empty_around_advance() {
    let mut slot = CurrentSlot::new();
    assert!(slot.current.is_none());
    let mut executor = ExecutorHandle::new();
    assert!(run_until_stalled_call(&mut slot, 1, &mut executor));
    assert!(slot.current.is_none());
}

#[test]
fn current_slot_names_session_mid_advance() {
    let mut slot = CurrentSlot::new();
    slot.enter(42);
    assert_eq!(slot.current_session(), 42);
    slot.exit();
    assert!(slot.current.is_none());
}

#[test]
fn resolve_ticket_signals_done() {
    let mut t = ResolveTicket::new();
    assert!(!t.done_called);
    t.signal_done();
    assert!(t.done_called);
}

#[test]
fn init_accepts_valid_resolv_conf() {
    let seed = init_session(b"nameserver 127.0.0.1\n");
    assert!(seed.is_some());
}

#[test]
fn init_rejects_malformed_resolv_conf() {
    let seed = init_session(b"nameserver not-an-address\n");
    assert!(seed.is_none());
}

#[test]
fn hosts_line_fields() {
    let toks = hosts_line_tokens(b"10.0.0.1\ta.test  b.test # comment");
    assert_eq!(
        toks,
        vec![b"10.0.0.1".to_vec(), b"a.test".to_vec(), b"b.test".to_vec()]
    );
    assert!(hosts_line_tokens(b"# all comment").is_empty());
    assert!(hosts_line_tokens(b"   ").is_empty());
    assert!(hosts_line_tokens(b"").is_empty());
    assert_eq!(hosts_line_tokens(b"one"), vec![b"one".to_vec()]);
    assert_eq!(hosts_line_tokens(b"a#b"), vec![b"a".to_vec()]);
}

#[test]
fn hosts_line_entry_needs_two_fields() {
    let (addr, names) = hosts_line_entry(b"10.0.0.1 a.test b.test").unwrap();
    assert_eq!(addr, b"10.0.0.1".to_vec());
    assert_eq!(names, vec![b"a.test".to_vec(), b"b.test".to_vec()]);
    assert!(hosts_line_entry(b"10.0.0.1").is_none());
    assert!(hosts_line_entry(b"# nothing").is_none());
    assert!(hosts_line_entry(b"::1 localhost").is_some());
}

struct GateFuture {
    ready: std::rc::Rc<std::cell::Cell<bool>>,
    waker_slot: std::rc::Rc<std::cell::RefCell<Option<std::task::Waker>>>,
    done: std::rc::Rc<std::cell::Cell<bool>>,
}

impl std::future::Future for GateFuture {
    type Output = ();

    fn poll(
        self: std::pin::Pin<&mut Self>,
        cx: &mut std::task::Context<'_>,
    ) -> std::task::Poll<()> {
        if self.ready.get() {
            self.done.set(true);
            std::task::Poll::Ready(())
        } else {
            *self.waker_slot.borrow_mut() = Some(cx.waker().clone());
            std::task::Poll::Pending
        }
    }
}

#[test]
fn stalled_task_resumes_after_wake() {
    let mut slot = CurrentSlot::new();
    let mut executor = ExecutorHandle::new();
    let ready = std::rc::Rc::new(std::cell::Cell::new(false));
    let waker_slot = std::rc::Rc::new(std::cell::RefCell::new(None));
    let done = std::rc::Rc::new(std::cell::Cell::new(false));
    let fut = GateFuture {
        ready: ready.clone(),
        waker_slot: waker_slot.clone(),
        done: done.clone(),
    };
    executor.spawner().spawn_local(fut).unwrap();
    // first advance: the task suspends and hands out its waker
    assert!(run_until_stalled_call(&mut slot, 1, &mut executor));
    assert!(slot.current.is_none());
    assert!(!done.get());
    let w = waker_slot.borrow_mut().take().expect("the pending poll left a waker");
    // the host reports readiness and advances again
    ready.set(true);
    w.wake();
    assert!(run_until_stalled_call(&mut slot, 1, &mut executor));
    assert!(done.get());
    assert!(slot.current.is_none());
}

#[test]
fn two_lookups_share_one_transport() {
    // two successive lookups on one session: each task gets its own done
    // notification on its own result slot; the shared transport's action
    // slots are freed once, when the transport is dropped
    let mut transport = KLoopUdp::bind(5, 11, 12);
    let first = plan_lookup_writes(
        &LookupOutcome::Resolved(vec![IpRepr::V4([10, 0, 0, 1])]),
        443,
        8,
    );
    let second = plan_lookup_writes(
        &LookupOutcome::Resolved(vec![IpRepr::V4([10, 0, 0, 2])]),
        80,
        8,
    );
    assert_eq!(first.done_signals, 1);
    assert_eq!(second.done_signals, 1);
    assert_ne!(first.writes, second.writes);
    let mut first_ticket = ResolveTicket::new();
    let mut second_ticket = ResolveTicket::new();
    first_ticket.signal_done();
    second_ticket.signal_done();
    assert!(first_ticket.done_called && second_ticket.done_called);
    let (s, r) = transport.release();
    assert_eq!((s, r), (11, 12));
    assert!(transport.send_freed && transport.recv_freed);
}

#[test]
fn hosts_table_from_whole_file() {
    let data = b"# local names\n10.0.0.1 a.test alias.test\n::1 b.test\n\nlonely\n10.0.0.2 a.test";
    let table = parse_hosts_table(data);
    assert_eq!(table.len(), 3);
    assert_eq!(table[0].addr, b"10.0.0.1".to_vec());
    assert_eq!(table[0].names, vec![b"a.test".to_vec(), b"alias.test".to_vec()]);
    assert_eq!(table[1].addr, b"::1".to_vec());
    assert_eq!(table[2].addr, b"10.0.0.2".to_vec());
}

#[test]
fn hosts_lookup_matches_names() {
    let data = b"10.0.0.1 a.test alias.test\n::1 b.test\n10.0.0.2 a.test\n";
    let table = parse_hosts_table(data);
    assert_eq!(
        hosts_lookup(&table, b"a.test"),
        vec![b"10.0.0.1".to_vec(), b"10.0.0.2".to_vec()]
    );
    assert_eq!(hosts_lookup(&table, b"b.test"), vec![b"::1".to_vec()]);
    // ASCII case does not matter, and one trailing dot is stripped
    assert_eq!(hosts_lookup(&table, b"A.TEST."), vec![b"10.0.0.1".to_vec(), b"10.0.0.2".to_vec()]);
    assert_eq!(hosts_lookup(&table, b"alias.test"), vec![b"10.0.0.1".to_vec()]);
    assert!(hosts_lookup(&table, b"missing.test").is_empty());
}

#[test]
fn v4_literal_grammar() {
    assert_eq!(parse_v4(b"10.0.0.1"), Some([10, 0, 0, 1]));
    assert_eq!(parse_v4(b"255.255.255.255"), Some([255, 255, 255, 255]));
    assert_eq!(parse_v4(b"0.0.0.0"), Some([0, 0, 0, 0]));
    assert_eq!(parse_v4(b"127.0.0.1"), Some([127, 0, 0, 1]));
    assert_eq!(parse_v4(b"256.0.0.1"), None); // octet too large
    assert_eq!(parse_v4(b"01.2.3.4"), None); // leading zero
    assert_eq!(parse_v4(b"1.2.3"), None); // three parts
    assert_eq!(parse_v4(b"1.2.3.4.5"), None); // five parts
    assert_eq!(parse_v4(b"1.2.3."), None); // empty last part
    assert_eq!(parse_v4(b"a.b.c.d"), None);
    assert_eq!(parse_v4(b""), None);
    assert_eq!(parse_v4(b"::1"), None);
}

#[test]
fn candidates_follow_search_qualification() {
    let suffixes: Vec<Vec<u8>> = vec![b"example.com".to_vec(), b"corp.example.com".to_vec()];
    // below the dot threshold the raw name is tried last
    assert_eq!(
        candidate_names(b"a.test", 2, &suffixes),
        vec![
            b"a.test.example.com".to_vec(),
            b"a.test.corp.example.com".to_vec(),
            b"a.test".to_vec(),
        ]
    );
    // above the threshold the raw name comes first
    assert_eq!(
        candidate_names(b"a.b.test", 2, &suffixes),
        vec![
            b"a.b.test".to_vec(),
            b"a.b.test.example.com".to_vec(),
            b"a.b.test.corp.example.com".to_vec(),
        ]
    );
    // a fully qualified name stands alone
    assert_eq!(candidate_names(b"a.test.", 2, &suffixes), vec![b"a.test.".to_vec()]);
    // the local host's zone is never search-qualified first
    assert_eq!(
        candidate_names(b"localhost", 5, &Vec::new()),
        vec![b"localhost".to_vec()]
    );
    assert_eq!(
        candidate_names(b"sub.LocalHost", 5, &Vec::new()),
        vec![b"sub.LocalHost".to_vec()]
    );
}

#[test]
fn hosts_search_qualified_entry_resolves() {
    // entry under the search domain, queried by its short name
    let table = parse_hosts_table(b"10.0.0.7 a.test.example.com\n");
    let suffixes: Vec<Vec<u8>> = vec![b"example.com".to_vec()];
    let candidates = candidate_names(b"a.test", 2, &suffixes);
    let mut found: Vec<Vec<u8>> = Vec::new();
    for cand in &candidates {
        found = hosts_lookup(&table, cand);
        if !found.is_empty() {
            break;
        }
    }
    assert_eq!(found, vec![b"10.0.0.7".to_vec()]);
}

#[test]
fn strategy_prefers_ipv4() {
    let mixed = vec![IpRepr::V6([1; 16]), IpRepr::V4([10, 0, 0, 1]), IpRepr::V4([10, 0, 0, 2])];
    assert_eq!(
        ipv4_then_ipv6(&mixed),
        vec![IpRepr::V4([10, 0, 0, 1]), IpRepr::V4([10, 0, 0, 2])]
    );
    let only_v6 = vec![IpRepr::V6([1; 16]), IpRepr::V6([2; 16])];
    assert_eq!(ipv4_then_ipv6(&only_v6), only_v6);
    assert_eq!(ipv4_then_ipv6(&Vec::new()), Vec::new());
}

#[test]
fn bind_gate_rejects_negative_descriptors() {
    assert_eq!(classify_bind(0), Some(0));
    assert_eq!(classify_bind(7), Some(7));
    assert_eq!(classify_bind(-1), None);
}

#[test]
fn endpoint_plan_interleaves_udp_and_tcp() {
    let ips = vec![IpRepr::V4([127, 0, 0, 1]), IpRepr::V6([0; 16])];
    let r = plan_endpoints(&ips);
    assert_eq!(r.len(), 4);
    assert_eq!(r[0], Endpoint { ip: ips[0], port: 53, udp: true });
    assert_eq!(r[1], Endpoint { ip: ips[0], port: 53, udp: false });
    assert_eq!(r[2], Endpoint { ip: ips[1], port: 53, udp: true });
    assert_eq!(r[3], Endpoint { ip: ips[1], port: 53, udp: false });
}

#[test]
fn options_plan_disables_engine_hosts() {
    let r = plan_options(3, 7, 2);
    assert_eq!((r.ndots, r.timeout_secs, r.attempts), (3, 7, 2));
    assert!(!r.use_hosts_file);
}
