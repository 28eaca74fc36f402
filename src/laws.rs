//! Properties of the topology protocol that relate several steps or hold
//! for every state.
use vstd::prelude::*;
use crate::node::{
    ActionView, ConnView, MAX_DOWNSTREAM, NodeView, child_index, child_sends, count_candidates,
    failover_frame, first_candidate_from, flood, in_scope, is_candidate, is_first_candidate,
    lemma_child_index, peer_of, rebalance_frame,
};
use crate::wire::{ChatType, EnvelopeView, HeaderView, PeerView, encode, lemma_round_trip, parse};

verus! {

/// The kind of the envelope that `b` decodes to.
pub open spec fn frame_kind(b: Seq<u8>) -> Option<ChatType> {
    match parse(b) {
        Ok((e, _)) => Some(e.header.chat_t),
        Err(_) => None,
    }
}

proof fn lemma_candidate_exists(cs: Seq<ConnView>, excl: Option<u64>)
    requires
        count_candidates(cs, excl) > 0,
    ensures
        exists|i: int| 0 <= i < cs.len() && is_candidate(cs[i], excl),
    decreases cs.len(),
{
    if !is_candidate(cs.last(), excl) {
        lemma_candidate_exists(cs.drop_last(), excl);
        let i = choose|i: int| 0 <= i < cs.drop_last().len() && is_candidate(cs.drop_last()[i], excl);
        assert(cs[i] == cs.drop_last()[i]);
    }
}

proof fn lemma_first_exists(cs: Seq<ConnView>, excl: Option<u64>, lo: int, i: int)
    requires
        lo <= i < cs.len(),
        is_candidate(cs[i], excl),
    ensures
        first_candidate_from(cs, excl, lo) is Some,
    decreases i - lo,
{
    if exists|j: int| lo <= j < i && is_candidate(cs[j], excl) {
        let j = choose|j: int| lo <= j < i && is_candidate(cs[j], excl);
        lemma_first_exists(cs, excl, lo, j);
    } else {
        assert(is_first_candidate(cs, excl, lo, i));
    }
}

proof fn lemma_first_spec(cs: Seq<ConnView>, excl: Option<u64>, lo: int)
    requires
        first_candidate_from(cs, excl, lo) is Some,
    ensures
        is_first_candidate(cs, excl, lo, first_candidate_from(cs, excl, lo).unwrap()),
{
}

/// The FAILOVER and REBALANCE envelopes that name `p` decode as such.
proof fn lemma_redirects_decode(p: PeerView)
    requires
        p.dialable(),
    ensures
        frame_kind(failover_frame(p)) == Some(ChatType::FAILOVER),
        frame_kind(rebalance_frame(p)) == Some(ChatType::REBALANCE),
{
    let e = EnvelopeView { header: HeaderView { chat_t: ChatType::FAILOVER, peer: Some(p) }, payload: None };
    lemma_round_trip(e, Seq::empty());
    assert(encode(e.header, e.payload) + Seq::empty() =~= failover_frame(p));
    let r = EnvelopeView { header: HeaderView { chat_t: ChatType::REBALANCE, peer: Some(p) }, payload: None };
    lemma_round_trip(r, Seq::empty());
    assert(encode(r.header, r.payload) + Seq::empty() =~= rebalance_frame(p));
}

proof fn lemma_child_sends_targets(cs: Seq<ConnView>, bytes: Seq<u8>, ex: Option<u64>, only_peer: bool)
    ensures
        forall|k: int|
            0 <= k < child_sends(cs, bytes, ex, only_peer).len() ==> {
                let a = #[trigger] child_sends(cs, bytes, ex, only_peer)[k];
                &&& a is Send
                &&& a->bytes == bytes
                &&& ex != Some(a->to)
                &&& exists|i: int| 0 <= i < cs.len() && cs[i].id == a->to && in_scope(cs[i], ex, only_peer)
            },
        forall|i: int|
            0 <= i < cs.len() && in_scope(#[trigger] cs[i], ex, only_peer) ==> exists|k: int|
                0 <= k < child_sends(cs, bytes, ex, only_peer).len()
                    && child_sends(cs, bytes, ex, only_peer)[k] == (ActionView::Send { to: cs[i].id, bytes }),
    decreases cs.len(),
{
    if cs.len() > 0 {
        let init = cs.drop_last();
        lemma_child_sends_targets(init, bytes, ex, only_peer);
        let prev = child_sends(init, bytes, ex, only_peer);
        let all = child_sends(cs, bytes, ex, only_peer);
        assert forall|k: int| 0 <= k < all.len() implies {
            let a = #[trigger] all[k];
            &&& a is Send
            &&& a->bytes == bytes
            &&& ex != Some(a->to)
            &&& exists|i: int| 0 <= i < cs.len() && cs[i].id == a->to && in_scope(cs[i], ex, only_peer)
        } by {
            if k < prev.len() {
                assert(all[k] == prev[k]);
                if let ActionView::Send { to, bytes: b } = prev[k] {
                    let i = choose|i: int| 0 <= i < init.len() && init[i].id == to && in_scope(init[i], ex, only_peer);
                    assert(cs[i] == init[i]);
                }
            } else {
                assert(cs[cs.len() - 1] == cs.last());
            }
        }
        assert forall|i: int| 0 <= i < cs.len() && in_scope(#[trigger] cs[i], ex, only_peer) implies exists|k: int|
            0 <= k < all.len() && all[k] == (ActionView::Send { to: cs[i].id, bytes }) by {
            if i < cs.len() - 1 {
                assert(init[i] == cs[i]);
                let k = choose|k: int| 0 <= k < prev.len() && prev[k] == (ActionView::Send { to: init[i].id, bytes });
                assert(all[k] == prev[k]);
            } else {
                assert(all[prev.len() as int] == (ActionView::Send { to: cs[i].id, bytes }));
            }
        }
    }
}

/// Flood exclusion: a flood never writes to the connection it excludes,
/// writes nothing but its bytes, only to connections of the node, and
/// writes them to every other connection in scope: each child in scope, and
/// the parent.
pub proof fn lemma_flood_exclusion(n: NodeView, bytes: Seq<u8>, ex: Option<u64>, only_peer: bool)
    ensures
        forall|k: int|
            0 <= k < flood(n, bytes, ex, only_peer).len() ==> {
                let a = #[trigger] flood(n, bytes, ex, only_peer)[k];
                &&& a is Send
                &&& a->bytes == bytes
                &&& ex != Some(a->to)
                &&& n.has_conn(a->to)
            },
        forall|i: int|
            0 <= i < n.children.len() && in_scope(#[trigger] n.children[i], ex, only_peer) ==> flood(
                n,
                bytes,
                ex,
                only_peer,
            ).contains(ActionView::Send { to: n.children[i].id, bytes }),
        n.parent is Some && ex != n.parent ==> flood(n, bytes, ex, only_peer).contains(
            ActionView::Send { to: n.parent.unwrap(), bytes },
        ),
{
    let cs = n.children;
    let f = flood(n, bytes, ex, only_peer);
    let c = child_sends(cs, bytes, ex, only_peer);
    lemma_child_sends_targets(cs, bytes, ex, only_peer);
    assert forall|k: int| 0 <= k < f.len() implies {
        let a = #[trigger] f[k];
        &&& a is Send
        &&& a->bytes == bytes
        &&& ex != Some(a->to)
        &&& n.has_conn(a->to)
    } by {
        if k < c.len() {
            assert(f[k] == c[k]);
            if let ActionView::Send { to, bytes: b } = c[k] {
                let i = choose|i: int| 0 <= i < cs.len() && cs[i].id == to && in_scope(cs[i], ex, only_peer);
            }
        }
    }
    assert forall|i: int| 0 <= i < cs.len() && in_scope(#[trigger] cs[i], ex, only_peer) implies f.contains(
        ActionView::Send { to: cs[i].id, bytes },
    ) by {
        let k = choose|k: int| 0 <= k < c.len() && c[k] == (ActionView::Send { to: cs[i].id, bytes });
        assert(f[k] == c[k]);
    }
    if let Some(p) = n.parent {
        if ex != Some(p) {
            assert(f[c.len() as int] == (ActionView::Send { to: p, bytes }));
        }
    }
}

/// Admission: a child's handshake, arriving while fewer than
/// `MAX_DOWNSTREAM` other children are confirmed peers (so that the confirmed
/// children stay within the limit once it is admitted), makes that child a
/// confirmed peer with the port it announced, and answers with FAILOVER
/// envelopes only, never with a redirection.
pub proof fn lemma_port_admits(n: NodeView, id: u64, port: u16)
    requires
        n.wf(),
        child_index(n.children, id) is Some,
        count_candidates(n.children, Some(id)) < MAX_DOWNSTREAM,
    ensures
        ({
            let (m, a) = n.port_step(id, port);
            let i = child_index(n.children, id).unwrap();
            &&& m.wf()
            &&& m.children.len() == n.children.len()
            &&& child_index(m.children, id) == Some(i)
            &&& m.children[i].is_peer
            &&& m.children[i].port == port
            &&& forall|k: int|
                0 <= k < a.len() ==> (#[trigger] a[k]) is Send && frame_kind(a[k]->bytes) == Some(
                    ChatType::FAILOVER,
                )
        }),
{
    let i = child_index(n.children, id).unwrap();
    let w = n.with_peer(id, port);
    assert(w.children[i].id == id);
    assert(w.wf());
    lemma_child_index(w.children, id, i);
    let (m, a) = n.port_step(id, port);
    match w.successor_choice() {
        Some((s, p)) => {
            if w.parent is Some && w.parent_info is Some {
            } else if w.successor is Some && child_index(w.children, w.successor.unwrap()) is Some {
                let j = child_index(w.children, w.successor.unwrap()).unwrap();
                assert(w.children[j].addr.wf());
            } else {
                lemma_first_spec(w.children, None, 0);
                let j = first_candidate_from(w.children, None, 0).unwrap();
                assert(w.children[j].addr.wf());
            }
            assert(p.dialable());
            lemma_flood_exclusion(w, failover_frame(p), Some(s), true);
            lemma_redirects_decode(p);
            assert forall|k: int| 0 <= k < a.len() implies (#[trigger] a[k]) is Send && frame_kind(a[k]->bytes) == Some(
                ChatType::FAILOVER,
            ) by {
                assert(a[k] == flood(w, failover_frame(p), Some(s), true)[k]);
            }
        },
        None => {},
    }
}

/// Redirection: a child's handshake, arriving while `MAX_DOWNSTREAM` or more
/// other children are confirmed peers, leaves the children as they are and
/// is answered with a single REBALANCE envelope, to that child, naming a
/// confirmed peer that is not the child itself.
pub proof fn lemma_port_redirects(n: NodeView, id: u64, port: u16)
    requires
        n.wf(),
        child_index(n.children, id) is Some,
        count_candidates(n.children, Some(id)) >= MAX_DOWNSTREAM,
    ensures
        ({
            let (m, a) = n.port_step(id, port);
            &&& m.wf()
            &&& m.children == n.children
            &&& a.len() == 1
            &&& a[0] is Send
            &&& a[0]->to == id
            &&& frame_kind(a[0]->bytes) == Some(ChatType::REBALANCE)
            &&& exists|j: int|
                0 <= j < n.children.len() && n.children[j].is_peer && n.children[j].id != id
                    && a[0]->bytes == rebalance_frame(peer_of(n.children[j]))
        }),
{
    let cs = n.children;
    lemma_candidate_exists(cs, Some(id));
    let c = choose|c: int| 0 <= c < cs.len() && is_candidate(cs[c], Some(id));
    lemma_first_exists(cs, Some(id), 0, c);
    let j = n.pick_index(id).unwrap();
    if first_candidate_from(cs, Some(id), n.next_pick as int) is Some {
        lemma_first_spec(cs, Some(id), n.next_pick as int);
    } else {
        lemma_first_spec(cs, Some(id), 0);
    }
    let (m, a) = n.port_step(id, port);
    assert(cs[j].addr.wf());
    lemma_redirects_decode(peer_of(cs[j]));
    assert(a[0]->bytes == rebalance_frame(peer_of(cs[j])));
}

/// Every node can say where its children should rejoin if it vanishes:
/// while it has a parent or at least one confirmed child, a failover target
/// is chosen, it can be dialled, and the connection given the role is one of
/// the node's own.
pub proof fn lemma_rejoin_target_exists(n: NodeView)
    requires
        n.wf(),
        n.parent is Some || count_candidates(n.children, None) > 0,
    ensures
        n.successor_choice() is Some,
        n.successor_choice().unwrap().1.dialable(),
        n.has_conn(n.successor_choice().unwrap().0),
{
    let cs = n.children;
    if n.parent is Some {
    } else if n.successor is Some && child_index(cs, n.successor.unwrap()) is Some {
        let i = child_index(cs, n.successor.unwrap()).unwrap();
        assert(cs[i].addr.wf());
    } else {
        lemma_candidate_exists(cs, None);
        let c = choose|c: int| 0 <= c < cs.len() && is_candidate(cs[c], None);
        lemma_first_exists(cs, None, 0, c);
        lemma_first_spec(cs, None, 0);
        let i = first_candidate_from(cs, None, 0).unwrap();
        assert(cs[i].addr.wf());
        lemma_child_index(cs, cs[i].id, i);
    }
}

/// Last write wins: after a FAILOVER envelope the stored failover candidate
/// is the endpoint it carries, whatever was stored before, and nothing else
/// changes.
pub proof fn lemma_failover_last_write_wins(n: NodeView, id: u64, e: EnvelopeView)
    requires
        e.header.chat_t == ChatType::FAILOVER,
    ensures
        n.recv_step(id, e).0 == (NodeView { failover: e.header.peer, ..n }),
        n.recv_step(id, e).1.len() == 0,
{
}

} // verus!
