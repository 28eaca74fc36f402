use chatnode::node::{Action, ChatNode, ConnName, Notice, MAX_DOWNSTREAM};
use chatnode::wire::{parse_raw, to_raw, ChatHeader, ChatType, Envelope, FrameReader, Peer, SockAddr};

fn addr(last: u8, port: u16) -> SockAddr {
    SockAddr { ip: vec![127, 0, 0, last], port }
}

fn envelope(bytes: &[u8]) -> Envelope {
    let (e, used) = parse_raw(bytes).expect("a whole envelope");
    assert_eq!(used, bytes.len());
    e
}

fn port_env(port: u16) -> Envelope {
    envelope(&to_raw(&ChatHeader::from_port(port), None))
}

fn sends(actions: &[Action]) -> Vec<(u64, Envelope)> {
    actions
        .iter()
        .filter_map(|a| match a {
            Action::Send { to, bytes } => Some((*to, envelope(bytes))),
            _ => None,
        })
        .collect()
}

/// A node on port 7000 with children 1..=n, all confirmed peers.
fn node_with_peers(n: u64) -> ChatNode {
    let mut node = ChatNode::new(7000);
    for id in 1..=n {
        assert!(node.add_stream(id, addr(id as u8, 7000 + id as u16)));
        node.handle_port(id, 7100 + id as u16);
    }
    node
}

#[test]
fn first_child_is_admitted_and_becomes_successor() {
    let mut node = ChatNode::new(7000);
    assert!(node.add_stream(1, addr(1, 40001)));
    let actions = node.handle_recv(1, port_env(7101));
    assert!(node.is_peer(1));
    assert_eq!(node.get_peer_port(1), 7101);
    // the only confirmed child becomes the successor and is told nothing
    assert_eq!(node.successor(), Some(1));
    assert!(actions.is_empty());
}

#[test]
fn admitted_child_learns_failover_target() {
    let mut node = node_with_peers(1);
    assert!(node.add_stream(2, addr(2, 40002)));
    let actions = node.handle_recv(2, port_env(7102));
    assert!(node.is_peer(2));
    let s = sends(&actions);
    assert_eq!(s.len(), 1);
    assert_eq!(s[0].0, 2);
    assert_eq!(s[0].1.header.chat_t, ChatType::FAILOVER);
    let p = s[0].1.header.peer.as_ref().unwrap();
    assert_eq!(p.port, 7101);
    assert_eq!(p.addr.as_ref().unwrap().ip, vec![127, 0, 0, 1]);
}

#[test]
fn failover_target_is_the_parent_when_there_is_one() {
    let mut node = ChatNode::new(7000);
    let actions = node.set_up_stream(50, addr(9, 6000), 6000);
    assert_eq!(sends(&actions), vec![(50, port_env(7000))]);
    assert!(node.add_stream(1, addr(1, 40001)));
    let actions = node.handle_recv(1, port_env(7101));
    let s = sends(&actions);
    assert_eq!(s.len(), 1);
    assert_eq!(s[0].0, 1);
    assert_eq!(s[0].1.header, ChatHeader::from_failover(addr(9, 6000), 6000));
    assert_eq!(node.successor(), Some(50));
}

#[test]
fn handshakes_within_capacity_are_admitted() {
    let mut node = ChatNode::new(7000);
    for id in 1..=MAX_DOWNSTREAM as u64 {
        assert!(node.add_stream(id, addr(id as u8, 40000)));
        let actions = node.handle_port(id, 7100 + id as u16);
        assert!(node.is_peer(id));
        for (_, e) in sends(&actions) {
            assert_ne!(e.header.chat_t, ChatType::REBALANCE);
        }
    }
}

#[test]
fn handshake_over_capacity_is_redirected() {
    let mut node = node_with_peers(MAX_DOWNSTREAM as u64);
    assert!(node.add_stream(9, addr(9, 40009)));
    let actions = node.handle_recv(9, port_env(7109));
    assert!(!node.is_peer(9));
    let s = sends(&actions);
    assert_eq!(s.len(), 1);
    assert_eq!(s[0].0, 9);
    assert_eq!(s[0].1.header.chat_t, ChatType::REBALANCE);
    let target = s[0].1.header.peer.as_ref().unwrap().port;
    assert!((7101..=7103).contains(&target));
}

#[test]
fn redirections_rotate_and_skip_the_requester() {
    let mut node = node_with_peers(4);
    // child 4 was redirected, so the confirmed peers are 1, 2 and 3
    assert!(!node.is_peer(4));
    let mut targets = Vec::new();
    for _ in 0..4 {
        let actions = node.handle_port(4, 7104);
        let s = sends(&actions);
        assert_eq!(s.len(), 1);
        targets.push(s[0].1.header.peer.as_ref().unwrap().port);
    }
    assert_eq!(targets, vec![7102, 7103, 7101, 7102]);
    // a confirmed peer that repeats its handshake is never sent to itself
    for _ in 0..4 {
        let actions = node.handle_port(1, 7101);
        for (_, e) in sends(&actions) {
            if e.header.chat_t == ChatType::REBALANCE {
                assert_ne!(e.header.peer.as_ref().unwrap().port, 7101);
            }
        }
    }
}

#[test]
fn broadcast_skips_the_excluded_connection() {
    let mut node = node_with_peers(2);
    assert!(node.add_stream(3, addr(3, 40003)));
    node.set_up_stream(50, addr(9, 6000), 6000);
    let all = node.broadcast(b"xyz", Some(2), false);
    let targets: Vec<u64> = all
        .iter()
        .map(|a| match a {
            Action::Send { to, bytes } => {
                assert_eq!(bytes, b"xyz");
                *to
            },
            _ => panic!("only writes"),
        })
        .collect();
    assert_eq!(targets, vec![1, 3, 50]);
    let peers_only = node.broadcast(b"xyz", Some(50), true);
    let targets: Vec<u64> = peers_only
        .iter()
        .map(|a| match a {
            Action::Send { to, .. } => *to,
            _ => panic!("only writes"),
        })
        .collect();
    assert_eq!(targets, vec![1, 2]);
    let none_excluded = node.broadcast(b"q", None, false);
    assert_eq!(none_excluded.len(), 4);
}

#[test]
fn regular_message_is_shown_and_flooded() {
    let mut node = node_with_peers(2);
    node.set_up_stream(50, addr(9, 6000), 6000);
    let bytes = to_raw(&ChatHeader::from_msg(), Some(b"bob> hi"));
    let actions = node.handle_recv(1, envelope(&bytes));
    assert_eq!(actions[0], Action::Notify(Notice::Chat(b"bob> hi".to_vec())));
    let s: Vec<u64> = sends(&actions).iter().map(|(to, _)| *to).collect();
    assert_eq!(s, vec![2, 50]);
    for a in &actions[1..] {
        if let Action::Send { bytes: b, .. } = a {
            assert_eq!(b, &bytes);
        }
    }
}

#[test]
fn failover_last_write_wins() {
    let mut node = ChatNode::new(7000);
    node.set_up_stream(50, addr(9, 6000), 6000);
    let first = envelope(&to_raw(&ChatHeader::from_failover(addr(3, 6003), 6003), None));
    let second = envelope(&to_raw(&ChatHeader::from_failover(addr(4, 6004), 6004), None));
    assert!(node.handle_recv(50, first).is_empty());
    assert_eq!(node.failover(), Some(&Peer::new(Some(addr(3, 6003)), 6003)));
    assert!(node.handle_recv(50, second).is_empty());
    assert_eq!(node.failover(), Some(&Peer::new(Some(addr(4, 6004)), 6004)));
}

#[test]
fn lost_parent_is_replaced_by_failover_candidate() {
    // node B listens on 6002; its parent A on 6001; the candidate C on 6003
    let mut b = ChatNode::new(6002);
    let hello = b.set_up_stream(10, addr(1, 6001), 6001);
    assert_eq!(sends(&hello), vec![(10, port_env(6002))]);
    let fo = to_raw(&ChatHeader::from_failover(addr(3, 6003), 6003), None);
    b.handle_recv(10, envelope(&fo));

    let actions = b.close_client(10);
    assert_eq!(
        actions,
        vec![
            Action::Notify(Notice::Closed(ConnName::Upstream)),
            Action::Shutdown { id: 10 },
            Action::Connect { peer: Peer::new(Some(addr(3, 6003)), 6003) },
        ]
    );
    assert_eq!(b.up_stream(), None);

    // the event loop dials C; the new connection becomes the parent
    let hello = b.set_up_stream(20, addr(3, 6003), 6003);
    assert_eq!(b.up_stream(), Some(20));
    let bytes = match &hello[0] {
        Action::Send { to: 20, bytes } => bytes.clone(),
        other => panic!("unexpected {:?}", other),
    };

    // C sees B's handshake with B's own port
    let mut c = ChatNode::new(6003);
    assert!(c.add_stream(30, addr(2, 45000)));
    let mut reader = FrameReader::new();
    reader.push(&bytes);
    let env = reader.next_envelope().unwrap().unwrap();
    assert_eq!(env.header.chat_t, ChatType::PORT);
    assert_eq!(env.header.peer.as_ref().unwrap().port, 6002);
    c.handle_recv(30, env);
    assert!(c.is_peer(30));
    assert_eq!(c.get_peer_port(30), 6002);
}

#[test]
fn reconnection_replays_the_name() {
    let mut b = ChatNode::new(6002);
    b.set_up_stream(10, addr(1, 6001), 6001);
    b.set_name("bob");
    b.handle_recv(10, envelope(&to_raw(&ChatHeader::from_failover(addr(3, 6003), 6003), None)));
    b.close_client(10);
    let hello = b.set_up_stream(20, addr(3, 6003), 6003);
    let s = sends(&hello);
    assert_eq!(s.len(), 2);
    assert_eq!(s[0], (20, port_env(6002)));
    assert_eq!(s[1].0, 20);
    assert_eq!(s[1].1.header.chat_t, ChatType::NAME);
    assert_eq!(s[1].1.payload, Some(b"bob".to_vec()));
}

#[test]
fn lost_parent_without_candidate_leaves_node_rootless() {
    let mut b = ChatNode::new(6002);
    b.set_up_stream(10, addr(1, 6001), 6001);
    let actions = b.close_client(10);
    assert_eq!(
        actions,
        vec![Action::Notify(Notice::Closed(ConnName::Upstream)), Action::Shutdown { id: 10 }]
    );
    assert_eq!(b.up_stream(), None);
    assert!(!b.is_stream(10));
}

#[test]
fn rebalance_replaces_the_parent() {
    let mut b = ChatNode::new(6002);
    b.set_up_stream(10, addr(1, 6001), 6001);
    let rb = to_raw(&ChatHeader::from_rebalance(addr(5, 6005), 6005), None);
    let actions = b.handle_recv(10, envelope(&rb));
    assert_eq!(
        actions,
        vec![
            Action::Shutdown { id: 10 },
            Action::Connect { peer: Peer::new(Some(addr(5, 6005)), 6005) },
        ]
    );
    assert_eq!(b.up_stream(), None);
}

#[test]
fn name_propagates_as_joined_notice() {
    let mut node = ChatNode::new(7000);
    node.set_up_stream(50, addr(9, 6000), 6000);
    assert!(node.add_stream(2, addr(2, 40002)));
    assert!(node.add_stream(3, addr(3, 40003)));
    let name = to_raw(&ChatHeader::from_name(), Some(b"alice"));
    let actions = node.handle_recv(2, envelope(&name));
    let text = b"alice has joined the Chat Room".to_vec();
    assert_eq!(actions[0], Action::Notify(Notice::Chat(text.clone())));
    let s = sends(&actions);
    assert_eq!(s.len(), 2);
    for (to, e) in &s {
        assert_ne!(*to, 2);
        assert_eq!(e.header.chat_t, ChatType::REGULAR);
        assert_eq!(e.payload, Some(text.clone()));
    }
    assert_eq!(s[0].0, 3);
    assert_eq!(s[1].0, 50);
    assert_eq!(node.get_stream_info(2).unwrap().name, Some(b"alice".to_vec()));
    assert_eq!(node.get_name(2), ConnName::Named(b"alice".to_vec()));
}

#[test]
fn name_is_set_only_once() {
    let mut node = ChatNode::new(7000);
    let first = node.handle_send("/name bob");
    assert_eq!(first, vec![Action::Notify(Notice::Welcome(b"bob".to_vec()))]);
    let second = node.handle_send("/name bob");
    assert_eq!(second, vec![Action::Notify(Notice::NameAlreadySet)]);
    assert_eq!(node.name(), Some(&b"bob".to_vec()));
    let third = node.handle_send("/name carol");
    assert_eq!(third, vec![Action::Notify(Notice::NameAlreadySet)]);
    assert_eq!(node.name(), Some(&b"bob".to_vec()));
}

#[test]
fn name_argument_is_trimmed() {
    let mut node = ChatNode::new(7000);
    node.handle_send("/name    dave  ");
    assert_eq!(node.name(), Some(&b"dave".to_vec()));
}

#[test]
fn empty_name_is_refused() {
    let mut node = ChatNode::new(7000);
    assert_eq!(node.handle_send("/name   "), vec![Action::Notify(Notice::NameEmpty)]);
    assert_eq!(node.handle_send("/name"), vec![Action::Notify(Notice::NameEmpty)]);
    assert_eq!(node.name(), None);
}

#[test]
fn name_is_announced_to_parent_and_peers() {
    let mut node = node_with_peers(1);
    assert!(node.add_stream(2, addr(2, 40002)));
    node.set_up_stream(50, addr(9, 6000), 6000);
    let actions = node.handle_send("/name erin");
    assert_eq!(actions[0], Action::Notify(Notice::Welcome(b"erin".to_vec())));
    let s = sends(&actions);
    let targets: Vec<u64> = s.iter().map(|(to, _)| *to).collect();
    assert_eq!(targets, vec![1, 50]);
    for (_, e) in s {
        assert_eq!(e.header.chat_t, ChatType::NAME);
        assert_eq!(e.payload, Some(b"erin".to_vec()));
    }
}

#[test]
fn exit_and_unknown_commands() {
    let mut node = ChatNode::new(7000);
    assert_eq!(node.handle_send("/exit"), vec![Action::Exit]);
    assert!(node.handle_send("/dance now").is_empty());
    assert_eq!(node.run_command("exit", ""), vec![Action::Exit]);
}

#[test]
fn chat_line_needs_a_name() {
    let mut node = node_with_peers(1);
    assert_eq!(node.handle_send("hello"), vec![Action::Notify(Notice::NameRequired)]);
    node.handle_send("/name bob");
    let actions = node.handle_send("hello all");
    let s = sends(&actions);
    assert_eq!(s.len(), 1);
    assert_eq!(s[0].0, 1);
    assert_eq!(s[0].1.payload, Some(b"bob> hello all".to_vec()));
    assert_eq!(node.send_chat("x"), node.send_msg(None, b"bob> x"));
}

#[test]
fn closing_a_child_forgets_it() {
    let mut node = node_with_peers(2);
    assert_eq!(node.successor(), Some(1));
    let actions = node.close_client(1);
    assert_eq!(
        actions,
        vec![Action::Notify(Notice::Closed(ConnName::Client(1))), Action::Shutdown { id: 1 }]
    );
    assert!(!node.is_stream(1));
    assert_eq!(node.successor(), None);
    assert_eq!(node.down_streams().len(), 1);
    assert!(node.close_client(1).is_empty());
}

#[test]
fn names_of_connections() {
    let mut node = ChatNode::new(7000);
    assert!(node.add_stream(4, addr(4, 1)));
    node.set_up_stream(50, addr(9, 6000), 6000);
    assert_eq!(node.get_name(4), ConnName::Client(4));
    assert_eq!(node.get_name(50), ConnName::Upstream);
    assert_eq!(node.get_name(99), ConnName::Unknown);
    assert!(!node.add_stream(4, addr(4, 2)));
    assert!(!node.add_stream(50, addr(4, 2)));
    assert_eq!(node.get_stream_idx(4), Some(0));
    assert!(node.is_up_stream(50));
}

#[test]
fn successor_assignment_prefers_parent_then_kept_successor() {
    let mut node = node_with_peers(2);
    let (bytes, to) = node.assign_successor().unwrap();
    assert_eq!(to, 1);
    assert_eq!(envelope(&bytes).header, ChatHeader::from_failover(addr(1, 7101), 7101));
    node.set_up_stream(50, addr(9, 6000), 6000);
    let (bytes, to) = node.assign_successor().unwrap();
    assert_eq!(to, 50);
    assert_eq!(envelope(&bytes).header, ChatHeader::from_failover(addr(9, 6000), 6000));
    assert!(ChatNode::new(1).assign_successor().is_none());
}
