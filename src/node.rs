//! The state of one node of the tree and the protocol that drives it.
//!
//! Every event is a method call that updates the state and returns the
//! actions to perform, in order.
use vstd::prelude::*;
use vstd::string::{StringExecFns, StringSliceAdditionalSpecFns};
use vstd::utf8::encode_utf8;
use crate::command::{command_split, split_command, trim, trim_of};
use crate::wire::{
    ChatHeader, ChatType, Envelope, EnvelopeView, HeaderView, Peer, PeerView, SockAddr,
    SockAddrView, encode, opt_peer_view, opt_bytes_view, to_raw,
};

verus! {

/// The most children that a node keeps as confirmed peers.
pub const MAX_DOWNSTREAM: usize = 3;

/// One child connection: its identity (assigned by the event loop), the
/// address it came from, whether it has completed the handshake, the
/// listening port it announced, and the display name it announced.
#[derive(Debug, PartialEq, Eq)]
pub struct InfoStream {
    pub id: u64,
    pub addr: SockAddr,
    pub is_peer: bool,
    pub port: u16,
    pub name: Option<Vec<u8>>,
}

pub struct ConnView {
    pub id: u64,
    pub addr: SockAddrView,
    pub is_peer: bool,
    pub port: u16,
    pub name: Option<Seq<u8>>,
}

impl View for InfoStream {
    type V = ConnView;

    open spec fn view(&self) -> ConnView {
        ConnView {
            id: self.id,
            addr: self.addr@,
            is_peer: self.is_peer,
            port: self.port,
            name: opt_bytes_view(self.name),
        }
    }
}

/// How a connection is called in diagnostics.
#[derive(Debug, PartialEq, Eq)]
pub enum ConnName {
    /// A child that announced this name.
    Named(Vec<u8>),
    /// A child that announced no name yet.
    Client(u64),
    /// The parent.
    Upstream,
    /// No connection of this node.
    Unknown,
}

pub enum ConnNameView {
    Named(Seq<u8>),
    Client(u64),
    Upstream,
    Unknown,
}

impl View for ConnName {
    type V = ConnNameView;

    open spec fn view(&self) -> ConnNameView {
        match self {
            ConnName::Named(n) => ConnNameView::Named(n@),
            ConnName::Client(id) => ConnNameView::Client(*id),
            ConnName::Upstream => ConnNameView::Upstream,
            ConnName::Unknown => ConnNameView::Unknown,
        }
    }
}

/// What the node reports to its local user.
#[derive(Debug, PartialEq, Eq)]
pub enum Notice {
    /// A line of chat to show.
    Chat(Vec<u8>),
    /// The local display name was set to this.
    Welcome(Vec<u8>),
    /// A second attempt to set the local name; the first one stays.
    NameAlreadySet,
    /// A chat line was typed before any name was set.
    NameRequired,
    /// A name command without a name.
    NameEmpty,
    /// A connection was closed.
    Closed(ConnName),
}

pub enum NoticeView {
    Chat(Seq<u8>),
    Welcome(Seq<u8>),
    NameAlreadySet,
    NameRequired,
    NameEmpty,
    Closed(ConnNameView),
}

impl View for Notice {
    type V = NoticeView;

    open spec fn view(&self) -> NoticeView {
        match self {
            Notice::Chat(t) => NoticeView::Chat(t@),
            Notice::Welcome(t) => NoticeView::Welcome(t@),
            Notice::NameAlreadySet => NoticeView::NameAlreadySet,
            Notice::NameRequired => NoticeView::NameRequired,
            Notice::NameEmpty => NoticeView::NameEmpty,
            Notice::Closed(c) => NoticeView::Closed(c@),
        }
    }
}

/// What the event loop must do for the node.
#[derive(Debug, PartialEq, Eq)]
pub enum Action {
    /// Write `bytes` to connection `to`; a failure is reported and ignored.
    Send { to: u64, bytes: Vec<u8> },
    /// Shut connection `id` down and stop watching it.
    Shutdown { id: u64 },
    /// Dial `peer` (its address, at its port) and, once connected, report
    /// the new connection with `set_up_stream`.
    Connect { peer: Peer },
    /// Tell the local user.
    Notify(Notice),
    /// End the process.
    Exit,
}

pub enum ActionView {
    Send { to: u64, bytes: Seq<u8> },
    Shutdown { id: u64 },
    Connect { peer: PeerView },
    Notify(NoticeView),
    Exit,
}

impl View for Action {
    type V = ActionView;

    open spec fn view(&self) -> ActionView {
        match self {
            Action::Send { to, bytes } => ActionView::Send { to: *to, bytes: bytes@ },
            Action::Shutdown { id } => ActionView::Shutdown { id: *id },
            Action::Connect { peer } => ActionView::Connect { peer: peer@ },
            Action::Notify(n) => ActionView::Notify(n@),
            Action::Exit => ActionView::Exit,
        }
    }
}

pub open spec fn acts(v: Seq<Action>) -> Seq<ActionView> {
    v.map_values(|a: Action| a@)
}

/// The node: its children in the order they joined, its parent, the
/// endpoint to fall back to if the parent goes, and the connection it has
/// promised a failover role to.
pub struct ChatNode {
    host_port: u16,
    down_streams: Vec<InfoStream>,
    name: Option<Vec<u8>>,
    up_stream: Option<u64>,
    up_stream_info: Option<Peer>,
    failover: Option<Peer>,
    successor: Option<u64>,
    next_pick: usize,
}

pub struct NodeView {
    pub host_port: u16,
    pub children: Seq<ConnView>,
    pub name: Option<Seq<u8>>,
    pub parent: Option<u64>,
    pub parent_info: Option<PeerView>,
    pub failover: Option<PeerView>,
    pub successor: Option<u64>,
    pub next_pick: nat,
}

impl View for ChatNode {
    type V = NodeView;

    closed spec fn view(&self) -> NodeView {
        NodeView {
            host_port: self.host_port,
            children: self.down_streams@.map_values(|c: InfoStream| c@),
            name: opt_bytes_view(self.name),
            parent: self.up_stream,
            parent_info: opt_peer_view(self.up_stream_info),
            failover: opt_peer_view(self.failover),
            successor: self.successor,
            next_pick: self.next_pick as nat,
        }
    }
}

/// The position of the child with identity `id`.
pub open spec fn child_index(cs: Seq<ConnView>, id: u64) -> Option<int> {
    if exists|i: int| 0 <= i < cs.len() && cs[i].id == id {
        Some(choose|i: int| 0 <= i < cs.len() && cs[i].id == id)
    } else {
        None
    }
}

/// No two children share an identity.
pub open spec fn ids_distinct(cs: Seq<ConnView>) -> bool {
    forall|i: int, j: int| 0 <= i < cs.len() && 0 <= j < cs.len() && i != j ==> cs[i].id != cs[j].id
}

/// Child `c` gets a flood that excludes `ex`, restricted to confirmed peers
/// if `only_peer`.
pub open spec fn in_scope(c: ConnView, ex: Option<u64>, only_peer: bool) -> bool {
    ex != Some(c.id) && (c.is_peer || !only_peer)
}

/// A write of `bytes` to each child of `cs` in scope, in order.
pub open spec fn child_sends(cs: Seq<ConnView>, bytes: Seq<u8>, ex: Option<u64>, only_peer: bool) -> Seq<ActionView>
    decreases cs.len(),
{
    if cs.len() == 0 {
        Seq::empty()
    } else {
        let prev = child_sends(cs.drop_last(), bytes, ex, only_peer);
        if in_scope(cs.last(), ex, only_peer) {
            prev.push(ActionView::Send { to: cs.last().id, bytes })
        } else {
            prev
        }
    }
}

/// The writes of a flood of `bytes` from node `n`: to the children in scope,
/// then to the parent unless it is `ex`.
pub open spec fn flood(n: NodeView, bytes: Seq<u8>, ex: Option<u64>, only_peer: bool) -> Seq<ActionView> {
    child_sends(n.children, bytes, ex, only_peer) + match n.parent {
        Some(p) => if ex != Some(p) {
            seq![ActionView::Send { to: p, bytes }]
        } else {
            Seq::empty()
        },
        None => Seq::empty(),
    }
}

/// A chat message carrying `text`.
pub open spec fn msg_frame(text: Seq<u8>) -> Seq<u8> {
    encode(HeaderView { chat_t: ChatType::REGULAR, peer: None }, Some(text))
}

/// The announcement of display name `name`.
pub open spec fn name_frame(name: Seq<u8>) -> Seq<u8> {
    encode(HeaderView { chat_t: ChatType::NAME, peer: None }, Some(name))
}

/// The handshake of a node listening on `port`.
pub open spec fn port_frame(port: u16) -> Seq<u8> {
    encode(HeaderView { chat_t: ChatType::PORT, peer: Some(PeerView { addr: None, port }) }, None)
}

/// The envelope that names `p` as the endpoint to fall back to.
pub open spec fn failover_frame(p: PeerView) -> Seq<u8> {
    encode(HeaderView { chat_t: ChatType::FAILOVER, peer: Some(p) }, None)
}

/// The envelope that redirects a joining node to `p`.
pub open spec fn rebalance_frame(p: PeerView) -> Seq<u8> {
    encode(HeaderView { chat_t: ChatType::REBALANCE, peer: Some(p) }, None)
}

/// The endpoint at which child `c` can be reached: its address, at the port
/// it announced.
pub open spec fn peer_of(c: ConnView) -> PeerView {
    PeerView { addr: Some(SockAddrView { ip: c.addr.ip, port: c.port }), port: c.port }
}

/// `c` is a confirmed peer other than `excl`.
pub open spec fn is_candidate(c: ConnView, excl: Option<u64>) -> bool {
    c.is_peer && excl != Some(c.id)
}

/// `i` is the first candidate at or after `lo`.
pub open spec fn is_first_candidate(cs: Seq<ConnView>, excl: Option<u64>, lo: int, i: int) -> bool {
    &&& lo <= i < cs.len()
    &&& is_candidate(cs[i], excl)
    &&& forall|j: int| lo <= j < i ==> !is_candidate(#[trigger] cs[j], excl)
}

/// The position of the first candidate at or after `lo`.
pub open spec fn first_candidate_from(cs: Seq<ConnView>, excl: Option<u64>, lo: int) -> Option<int> {
    if exists|i: int| is_first_candidate(cs, excl, lo, i) {
        Some(choose|i: int| is_first_candidate(cs, excl, lo, i))
    } else {
        None
    }
}

/// The number of candidates in `cs`.
pub open spec fn count_candidates(cs: Seq<ConnView>, excl: Option<u64>) -> nat
    decreases cs.len(),
{
    if cs.len() == 0 {
        0
    } else {
        count_candidates(cs.drop_last(), excl) + if is_candidate(cs.last(), excl) {
            1nat
        } else {
            0nat
        }
    }
}

/// The notice that a node called `name` joined.
pub open spec fn joined_text(name: Seq<u8>) -> Seq<u8> {
    name + " has joined the Chat Room".spec_bytes()
}

impl NodeView {
    /// The announcement of the local name, if set, to the parent and the
    /// confirmed children.
    pub open spec fn send_name_acts(self) -> Seq<ActionView> {
        match self.name {
            Some(nm) => flood(self, name_frame(nm), None, true),
            None => Seq::empty(),
        }
    }

    /// The handshake to the parent, if there is one.
    pub open spec fn send_peer_acts(self) -> Seq<ActionView> {
        match self.parent {
            Some(p) => seq![ActionView::Send { to: p, bytes: port_frame(self.host_port) }],
            None => Seq::empty(),
        }
    }

    /// Sets the local name once; a second attempt only warns.
    pub open spec fn set_name_step(self, name: Seq<u8>) -> (NodeView, Seq<ActionView>) {
        match self.name {
            None => {
                let n = NodeView { name: Some(name), ..self };
                (n, seq![ActionView::Notify(NoticeView::Welcome(name))] + n.send_name_acts())
            },
            Some(_) => (self, seq![ActionView::Notify(NoticeView::NameAlreadySet)]),
        }
    }

    /// Who a child should reconnect to if this node vanishes, and the
    /// connection that gets that role: the parent if there is one; else the
    /// successor already chosen, if still a child; else the first confirmed
    /// child.
    pub open spec fn successor_choice(self) -> Option<(u64, PeerView)> {
        if self.parent is Some && self.parent_info is Some {
            Some((self.parent.unwrap(), self.parent_info.unwrap()))
        } else if self.successor is Some && child_index(self.children, self.successor.unwrap()) is Some {
            let i = child_index(self.children, self.successor.unwrap()).unwrap();
            Some((self.children[i].id, peer_of(self.children[i])))
        } else {
            match first_candidate_from(self.children, None, 0) {
                Some(i) => Some((self.children[i].id, peer_of(self.children[i]))),
                None => None,
            }
        }
    }

    /// The node after recording the connection that gets the failover role.
    pub open spec fn with_successor_choice(self) -> NodeView {
        match self.successor_choice() {
            Some((s, _)) => NodeView { successor: Some(s), ..self },
            None => self,
        }
    }

    /// Tells every confirmed child but the successor where to go if this
    /// node vanishes.
    pub open spec fn failover_step(self) -> (NodeView, Seq<ActionView>) {
        match self.successor_choice() {
            Some((s, p)) => (
                NodeView { successor: Some(s), ..self },
                flood(self, failover_frame(p), Some(s), true),
            ),
            None => (self, Seq::empty()),
        }
    }

    /// The child that a redirected `req` is sent to: the first confirmed
    /// peer other than `req` from the round-robin position on, wrapping
    /// around.
    pub open spec fn pick_index(self, req: u64) -> Option<int> {
        match first_candidate_from(self.children, Some(req), self.next_pick as int) {
            Some(i) => Some(i),
            None => first_candidate_from(self.children, Some(req), 0),
        }
    }

    /// Redirects `req` to the picked child, and moves the round-robin
    /// position past it.
    pub open spec fn rebalance_step(self, req: u64) -> (NodeView, Seq<ActionView>) {
        match self.pick_index(req) {
            Some(i) => (
                NodeView { next_pick: (i + 1) as nat, ..self },
                seq![ActionView::Send { to: req, bytes: rebalance_frame(peer_of(self.children[i])) }],
            ),
            None => (self, Seq::empty()),
        }
    }

    /// Child `id` announced its listening port: admitted as a confirmed peer
    /// while fewer than `MAX_DOWNSTREAM` other children are; otherwise
    /// redirected.
    pub open spec fn port_step(self, id: u64, port: u16) -> (NodeView, Seq<ActionView>) {
        match child_index(self.children, id) {
            None => (self, Seq::empty()),
            Some(_) => if count_candidates(self.children, Some(id)) >= MAX_DOWNSTREAM {
                self.rebalance_step(id)
            } else {
                self.with_peer(id, port).failover_step()
            },
        }
    }

    /// Replaces the parent link by a dial of `peer`.
    pub open spec fn reconnect_step(self, peer: PeerView) -> (NodeView, Seq<ActionView>) {
        match self.parent {
            Some(p) => (
                self.without(p),
                seq![ActionView::Shutdown { id: p }, ActionView::Connect { peer }],
            ),
            None => (self, seq![ActionView::Connect { peer }]),
        }
    }

    /// Connection `id` was closed by the other side, or failed. A lost
    /// parent is replaced by the stored failover candidate; any other
    /// connection is forgotten.
    pub open spec fn close_step(self, id: u64) -> (NodeView, Seq<ActionView>) {
        if !self.has_conn(id) {
            (self, Seq::empty())
        } else {
            let note = ActionView::Notify(NoticeView::Closed(self.name_of(id)));
            if self.parent == Some(id) && self.failover is Some {
                let (m, a) = self.reconnect_step(self.failover.unwrap());
                (m, seq![note] + a)
            } else {
                (self.without(id), seq![note, ActionView::Shutdown { id }])
            }
        }
    }

    /// Connection `id` to `info` became the parent: announce the listening
    /// port, and the name if one is set.
    pub open spec fn up_stream_step(self, id: u64, info: PeerView) -> (NodeView, Seq<ActionView>) {
        if self.has_conn(id) || self.parent is Some {
            (self, Seq::empty())
        } else {
            let m = NodeView { parent: Some(id), parent_info: Some(info), ..self };
            (m, m.send_peer_acts() + m.send_name_acts())
        }
    }

    /// The reaction to envelope `e` received on connection `id`.
    pub open spec fn recv_step(self, id: u64, e: EnvelopeView) -> (NodeView, Seq<ActionView>) {
        match e.header.chat_t {
            ChatType::PORT => self.port_step(id, e.header.peer.unwrap().port),
            ChatType::REGULAR => match e.payload {
                Some(t) => (
                    self,
                    seq![ActionView::Notify(NoticeView::Chat(t))] + flood(self, msg_frame(t), Some(id), false),
                ),
                None => (self, Seq::empty()),
            },
            ChatType::FAILOVER => (NodeView { failover: e.header.peer, ..self }, Seq::empty()),
            ChatType::REBALANCE => self.reconnect_step(e.header.peer.unwrap()),
            ChatType::NAME => match e.payload {
                Some(nm) => {
                    let m = self.with_stream_name(id, nm);
                    let text = joined_text(nm);
                    (
                        m,
                        seq![ActionView::Notify(NoticeView::Chat(text))] + flood(m, msg_frame(text), Some(id), false),
                    )
                },
                None => (self, Seq::empty()),
            },
        }
    }
}

/// The line that the local user `name` sends as `msg`.
pub open spec fn chat_text(name: Seq<u8>, msg: Seq<char>) -> Seq<u8> {
    name + "> ".spec_bytes() + encode_utf8(msg)
}

impl NodeView {
    /// A command typed locally: `name` sets the display name once, `exit`
    /// ends the process, any other is ignored.
    pub open spec fn command_step(self, cmd: Seq<char>, arg: Seq<char>) -> (NodeView, Seq<ActionView>) {
        if cmd == "name"@ {
            if arg.len() == 0 {
                (self, seq![ActionView::Notify(NoticeView::NameEmpty)])
            } else {
                self.set_name_step(encode_utf8(arg))
            }
        } else if cmd == "exit"@ {
            (self, seq![ActionView::Exit])
        } else {
            (self, Seq::empty())
        }
    }

    /// A chat line typed locally: sent everywhere under the local name, if
    /// one is set.
    pub open spec fn chat_step(self, msg: Seq<char>) -> (NodeView, Seq<ActionView>) {
        match self.name {
            Some(nm) => (self, flood(self, msg_frame(chat_text(nm, msg)), None, false)),
            None => (self, seq![ActionView::Notify(NoticeView::NameRequired)]),
        }
    }

    /// A line typed locally.
    pub open spec fn send_step(self, msg: Seq<char>) -> (NodeView, Seq<ActionView>) {
        match command_split(msg) {
            None => self.chat_step(msg),
            Some((cmd, arg)) => self.command_step(cmd, trim_of(arg)),
        }
    }
}

proof fn lemma_first_candidate(cs: Seq<ConnView>, excl: Option<u64>, lo: int, i: int)
    requires
        is_first_candidate(cs, excl, lo, i),
    ensures
        first_candidate_from(cs, excl, lo) == Some(i),
{
    let j = choose|j: int| is_first_candidate(cs, excl, lo, j);
    if j < i {
        assert(!is_candidate(cs[j], excl));
    } else if i < j {
        assert(!is_candidate(cs[i], excl));
    }
}

pub proof fn lemma_child_index(cs: Seq<ConnView>, id: u64, i: int)
    requires
        ids_distinct(cs),
        0 <= i < cs.len(),
        cs[i].id == id,
    ensures
        child_index(cs, id) == Some(i),
{
    let j = choose|j: int| 0 <= j < cs.len() && cs[j].id == id;
    assert(cs[j].id == cs[i].id);
}

impl NodeView {
    pub open spec fn wf(self) -> bool {
        &&& ids_distinct(self.children)
        &&& forall|i: int| 0 <= i < self.children.len() ==> (#[trigger] self.children[i]).addr.wf()
        &&& forall|i: int|
            0 <= i < self.children.len() ==> Some((#[trigger] self.children[i]).id) != self.parent
        &&& self.parent is Some <==> self.parent_info is Some
        &&& self.parent_info matches Some(p) ==> p.dialable()
        &&& self.failover matches Some(p) ==> p.dialable()
    }

    /// `id` is a child or the parent.
    pub open spec fn has_conn(self, id: u64) -> bool {
        child_index(self.children, id) is Some || self.parent == Some(id)
    }

    pub open spec fn name_of(self, id: u64) -> ConnNameView {
        match child_index(self.children, id) {
            Some(i) => match self.children[i].name {
                Some(n) => ConnNameView::Named(n),
                None => ConnNameView::Client(id),
            },
            None => if self.parent == Some(id) {
                ConnNameView::Upstream
            } else {
                ConnNameView::Unknown
            },
        }
    }

    /// The node after child `id` announced its listening port.
    pub open spec fn with_peer(self, id: u64, port: u16) -> NodeView {
        match child_index(self.children, id) {
            Some(i) => NodeView {
                children: self.children.update(i, ConnView { is_peer: true, port, ..self.children[i] }),
                ..self
            },
            None => self,
        }
    }

    /// The node after child `id` announced its display name.
    pub open spec fn with_stream_name(self, id: u64, name: Seq<u8>) -> NodeView {
        match child_index(self.children, id) {
            Some(i) => NodeView {
                children: self.children.update(i, ConnView { name: Some(name), ..self.children[i] }),
                ..self
            },
            None => self,
        }
    }

    /// The node without connection `id`, and without any reference to it.
    pub open spec fn without(self, id: u64) -> NodeView {
        let children = match child_index(self.children, id) {
            Some(i) => self.children.remove(i),
            None => self.children,
        };
        let gone_parent = self.parent == Some(id);
        NodeView {
            children,
            successor: if self.successor == Some(id) { None } else { self.successor },
            parent: if gone_parent { None } else { self.parent },
            parent_info: if gone_parent { None } else { self.parent_info },
            ..self
        }
    }
}

impl ChatNode {
    pub open spec fn wf(&self) -> bool {
        self@.wf()
    }

    /// A node that announces `port` as its listening port, with no
    /// connection yet.
    pub fn new(port: u16) -> (r: ChatNode)
        ensures
            r.wf(),
            r@ == (NodeView {
                host_port: port,
                children: Seq::empty(),
                name: None,
                parent: None,
                parent_info: None,
                failover: None,
                successor: None,
                next_pick: 0,
            }),
    {
        let r = ChatNode {
            host_port: port,
            down_streams: Vec::new(),
            name: None,
            up_stream: None,
            up_stream_info: None,
            failover: None,
            successor: None,
            next_pick: 0,
        };
        assert(r@.children =~= Seq::empty());
        r
    }

    /// The position of child `id` among the children.
    pub fn get_stream_idx(&self, id: u64) -> (r: Option<usize>)
        requires
            self.wf(),
        ensures
            match r {
                Some(i) => child_index(self@.children, id) == Some(i as int),
                None => child_index(self@.children, id) is None,
            },
    {
        let mut i: usize = 0;
        while i < self.down_streams.len()
            invariant
                self.wf(),
                0 <= i <= self.down_streams@.len(),
                forall|j: int| 0 <= j < i ==> self@.children[j].id != id,
            decreases self.down_streams@.len() - i,
        {
            if self.down_streams[i].id == id {
                proof {
                    lemma_child_index(self@.children, id, i as int);
                }
                return Some(i);
            }
            i = i + 1;
        }
        None
    }

    /// Whether `id` is the parent connection.
    pub fn is_up_stream(&self, id: u64) -> (r: bool)
        ensures
            r == (self@.parent == Some(id)),
    {
        match self.up_stream {
            Some(p) => p == id,
            None => false,
        }
    }

    /// Whether `id` is a connection of this node, child or parent.
    pub fn is_stream(&self, id: u64) -> (r: bool)
        requires
            self.wf(),
        ensures
            r == self@.has_conn(id),
    {
        self.get_stream_idx(id).is_some() || self.is_up_stream(id)
    }

    /// Whether `id` is a child that completed the handshake.
    pub fn is_peer(&self, id: u64) -> (r: bool)
        requires
            self.wf(),
        ensures
            r == (child_index(self@.children, id) matches Some(i) && self@.children[i].is_peer),
    {
        match self.get_stream_idx(id) {
            Some(i) => self.down_streams[i].is_peer,
            None => false,
        }
    }

    /// The listening port that child `id` announced; 0 if there is none.
    pub fn get_peer_port(&self, id: u64) -> (r: u16)
        requires
            self.wf(),
        ensures
            r == match child_index(self@.children, id) {
                Some(i) => self@.children[i].port,
                None => 0,
            },
    {
        match self.get_stream_idx(id) {
            Some(i) => self.down_streams[i].port,
            None => 0,
        }
    }

    /// Registers a newly accepted child `id`, coming from `addr`; false,
    /// with nothing changed, if `id` is already a connection of this node.
    pub fn add_stream(&mut self, id: u64, addr: SockAddr) -> (r: bool)
        requires
            old(self).wf(),
            addr@.wf(),
        ensures
            final(self).wf(),
            r == !old(self)@.has_conn(id),
            r ==> final(self)@ == (NodeView {
                children: old(self)@.children.push(
                    ConnView { id, addr: addr@, is_peer: false, port: 0, name: None },
                ),
                ..old(self)@
            }),
            !r ==> final(self)@ == old(self)@,
    {
        if self.is_stream(id) {
            return false;
        }
        let ghost before = self@;
        self.down_streams.push(InfoStream { id, addr, is_peer: false, port: 0, name: None });
        assert(self@.children =~= before.children.push(
            ConnView { id, addr: addr@, is_peer: false, port: 0, name: None },
        ));
        true
    }

    /// Marks child `id` as a confirmed peer listening on `port`.
    pub fn set_peer(&mut self, id: u64, port: u16)
        requires
            old(self).wf(),
        ensures
            final(self).wf(),
            final(self)@ == old(self)@.with_peer(id, port),
    {
        let ghost before = self@;
        if let Some(i) = self.get_stream_idx(id) {
            self.down_streams[i].is_peer = true;
            self.down_streams[i].port = port;
            assert(self@.children =~= before.children.update(
                i as int,
                ConnView { is_peer: true, port, ..before.children[i as int] },
            ));
        }
    }

    /// Records the display name that child `id` announced.
    pub fn set_stream_name(&mut self, id: u64, name: Vec<u8>)
        requires
            old(self).wf(),
        ensures
            final(self).wf(),
            final(self)@ == old(self)@.with_stream_name(id, name@),
    {
        let ghost before = self@;
        if let Some(i) = self.get_stream_idx(id) {
            self.down_streams[i].name = Some(name);
            assert(self@.children =~= before.children.update(
                i as int,
                ConnView { name: Some(name@), ..before.children[i as int] },
            ));
        }
    }

    /// Forgets connection `id`: as a child, as the parent, and as the
    /// successor.
    pub fn remove_stream(&mut self, id: u64)
        requires
            old(self).wf(),
        ensures
            final(self).wf(),
            final(self)@ == old(self)@.without(id),
    {
        let ghost before = self@;
        if let Some(i) = self.get_stream_idx(id) {
            self.down_streams.remove(i);
            assert(self@.children =~= before.children.remove(i as int));
        }
        if self.successor == Some(id) {
            self.successor = None;
        }
        if self.is_up_stream(id) {
            self.up_stream = None;
            self.up_stream_info = None;
        }
        assert(self@.children =~= before.without(id).children);
    }

    /// The writes that flood `bytes` to every connection except `exclude`;
    /// with `only_peer`, children that have not completed the handshake are
    /// left out too.
    pub fn broadcast(&self, bytes: &[u8], exclude: Option<u64>, only_peer: bool) -> (r: Vec<Action>)
        ensures
            acts(r@) == flood(self@, bytes@, exclude, only_peer),
    {
        let mut out: Vec<Action> = Vec::new();
        let mut i: usize = 0;
        while i < self.down_streams.len()
            invariant
                0 <= i <= self.down_streams@.len(),
                acts(out@) == child_sends(self@.children.take(i as int), bytes@, exclude, only_peer),
            decreases self.down_streams@.len() - i,
        {
            let c = &self.down_streams[i];
            let ghost prev = out@;
            if (c.is_peer || !only_peer) && exclude != Some(c.id) {
                out.push(Action::Send { to: c.id, bytes: crate::wire::copy_bytes(bytes) });
                assert(acts(out@) =~= acts(prev).push(ActionView::Send { to: c.id, bytes: bytes@ }));
            }
            assert(self@.children.take(i + 1).drop_last() =~= self@.children.take(i as int));
            i = i + 1;
        }
        assert(self@.children.take(i as int) =~= self@.children);
        if let Some(p) = self.up_stream {
            if exclude != Some(p) {
                let ghost prev = out@;
                out.push(Action::Send { to: p, bytes: crate::wire::copy_bytes(bytes) });
                assert(acts(out@) =~= acts(prev).push(ActionView::Send { to: p, bytes: bytes@ }));
            }
        }
        assert(acts(out@) =~= flood(self@, bytes@, exclude, only_peer));
        out
    }

    /// The writes that flood the chat line `msg` to every connection but
    /// `exclude`.
    pub fn send_msg(&self, exclude: Option<u64>, msg: &[u8]) -> (r: Vec<Action>)
        ensures
            acts(r@) == flood(self@, msg_frame(msg@), exclude, false),
    {
        let buf = to_raw(&ChatHeader::from_msg(), Some(msg));
        self.broadcast(buf.as_slice(), exclude, false)
    }

    /// The writes that announce the local name, if set, to the parent and
    /// to the confirmed children.
    pub fn send_name(&self) -> (r: Vec<Action>)
        ensures
            acts(r@) == self@.send_name_acts(),
    {
        match &self.name {
            Some(n) => {
                let buf = to_raw(&ChatHeader::from_name(), Some(n.as_slice()));
                self.broadcast(buf.as_slice(), None, true)
            },
            None => {
                let r: Vec<Action> = Vec::new();
                assert(acts(r@) =~= Seq::empty());
                r
            },
        }
    }

    /// The handshake to the parent, if there is one: this node's listening
    /// port.
    pub fn send_peer(&self) -> (r: Vec<Action>)
        ensures
            acts(r@) == self@.send_peer_acts(),
    {
        let mut r: Vec<Action> = Vec::new();
        if let Some(p) = self.up_stream {
            r.push(Action::Send { to: p, bytes: to_raw(&ChatHeader::from_port(self.host_port), None) });
        }
        assert(acts(r@) =~= self@.send_peer_acts());
        r
    }

    /// Sets the local display name, once, and announces it.
    pub fn set_name(&mut self, name: &str) -> (r: Vec<Action>)
        requires
            old(self).wf(),
        ensures
            final(self).wf(),
            (final(self)@, acts(r@)) == old(self)@.set_name_step(encode_utf8(name@)),
    {
        let name = name.as_bytes();
        if self.name.is_some() {
            let r = vec![Action::Notify(Notice::NameAlreadySet)];
            assert(acts(r@) =~= seq![ActionView::Notify(NoticeView::NameAlreadySet)]);
            return r;
        }
        self.name = Some(crate::wire::copy_bytes(name));
        let mut r = vec![Action::Notify(Notice::Welcome(crate::wire::copy_bytes(name)))];
        let ghost first = acts(r@);
        let mut more = self.send_name();
        let ghost rest = acts(more@);
        r.append(&mut more);
        assert(acts(r@) =~= first + rest);
        r
    }

    /// The endpoint of child `i`.
    fn peer_of_child(&self, i: usize) -> (r: Peer)
        requires
            self.wf(),
            i < self@.children.len(),
        ensures
            r@ == peer_of(self@.children[i as int]),
            r@.dialable(),
    {
        let c = &self.down_streams[i];
        assert(self@.children[i as int].addr.wf());
        Peer::new(Some(SockAddr { ip: crate::wire::copy_bytes(c.addr.ip.as_slice()), port: c.port }), c.port)
    }

    /// The position of the first confirmed child other than `excl` at or
    /// after `lo`.
    fn find_candidate(&self, excl: Option<u64>, lo: usize) -> (r: Option<usize>)
        ensures
            match r {
                Some(i) => first_candidate_from(self@.children, excl, lo as int) == Some(i as int),
                None => first_candidate_from(self@.children, excl, lo as int) is None,
            },
            r matches Some(i) ==> i < self.down_streams.len(),
    {
        let mut i: usize = lo;
        while i < self.down_streams.len()
            invariant
                lo <= i,
                forall|j: int| lo <= j < i && j < self@.children.len() ==> !is_candidate(#[trigger] self@.children[j], excl),
            decreases self.down_streams@.len() - i,
        {
            let c = &self.down_streams[i];
            if c.is_peer && excl != Some(c.id) {
                proof {
                    lemma_first_candidate(self@.children, excl, lo as int, i as int);
                }
                return Some(i);
            }
            i = i + 1;
        }
        None
    }

    /// Chooses who a child should reconnect to if this node vanishes, and
    /// records the connection that gets that role; returns the FAILOVER
    /// envelope and that connection.
    pub fn assign_successor(&mut self) -> (r: Option<(Vec<u8>, u64)>)
        requires
            old(self).wf(),
        ensures
            final(self).wf(),
            final(self)@ == old(self)@.with_successor_choice(),
            match old(self)@.successor_choice() {
                Some((s, p)) => r matches Some((b, t)) && t == s && b@ == failover_frame(p),
                None => r is None,
            },
    {
        if let Some(p) = self.up_stream {
            if let Some(info) = &self.up_stream_info {
                let bytes = to_raw(&ChatHeader::from(ChatType::FAILOVER, info.copy()), None);
                self.successor = Some(p);
                return Some((bytes, p));
            }
        }
        if let Some(s) = self.successor {
            if let Some(i) = self.get_stream_idx(s) {
                let peer = self.peer_of_child(i);
                let bytes = to_raw(&ChatHeader::from(ChatType::FAILOVER, peer), None);
                return Some((bytes, s));
            }
        }
        match self.find_candidate(None, 0) {
            Some(i) => {
                let id = self.down_streams[i].id;
                let peer = self.peer_of_child(i);
                let bytes = to_raw(&ChatHeader::from(ChatType::FAILOVER, peer), None);
                self.successor = Some(id);
                Some((bytes, id))
            },
            None => None,
        }
    }

    /// Chooses a successor and tells every other confirmed child about it.
    pub fn send_failover(&mut self) -> (r: Vec<Action>)
        requires
            old(self).wf(),
        ensures
            final(self).wf(),
            (final(self)@, acts(r@)) == old(self)@.failover_step(),
    {
        match self.assign_successor() {
            None => {
                let r: Vec<Action> = Vec::new();
                assert(acts(r@) =~= Seq::empty());
                r
            },
            Some((buf, s)) => self.broadcast(buf.as_slice(), Some(s), true),
        }
    }

    /// The child that a redirected `req` is sent to, round-robin among the
    /// confirmed children other than `req`.
    pub fn pick_down_stream(&mut self, req: u64) -> (r: Option<Peer>)
        requires
            old(self).wf(),
        ensures
            final(self).wf(),
            (final(self)@, match r {
                Some(p) => seq![ActionView::Send { to: req, bytes: rebalance_frame(p@) }],
                None => Seq::empty(),
            }) == old(self)@.rebalance_step(req),
            r matches Some(p) ==> p@.dialable(),
    {
        let i = match self.find_candidate(Some(req), self.next_pick) {
            Some(i) => i,
            None => match self.find_candidate(Some(req), 0) {
                Some(i) => i,
                None => return None,
            },
        };
        let peer = self.peer_of_child(i);
        self.next_pick = i + 1;
        Some(peer)
    }

    /// Redirects `req` to another confirmed child.
    pub fn send_rebalance(&mut self, req: u64) -> (r: Vec<Action>)
        requires
            old(self).wf(),
        ensures
            final(self).wf(),
            (final(self)@, acts(r@)) == old(self)@.rebalance_step(req),
    {
        let mut r: Vec<Action> = Vec::new();
        match self.pick_down_stream(req) {
            Some(peer) => {
                let ghost pv = peer@;
                r.push(Action::Send { to: req, bytes: to_raw(&ChatHeader::from(ChatType::REBALANCE, peer), None) });
                assert(acts(r@) =~= seq![ActionView::Send { to: req, bytes: rebalance_frame(pv) }]);
            },
            None => {
                assert(acts(r@) =~= Seq::empty());
            },
        }
        r
    }

    /// The number of confirmed children other than `excl`.
    fn count_confirmed(&self, excl: Option<u64>) -> (r: usize)
        ensures
            r == count_candidates(self@.children, excl),
    {
        let mut cnt: usize = 0;
        let mut i: usize = 0;
        while i < self.down_streams.len()
            invariant
                0 <= i <= self.down_streams@.len(),
                cnt <= i,
                cnt == count_candidates(self@.children.take(i as int), excl),
            decreases self.down_streams@.len() - i,
        {
            let c = &self.down_streams[i];
            assert(self@.children.take(i + 1).drop_last() =~= self@.children.take(i as int));
            if c.is_peer && excl != Some(c.id) {
                cnt = cnt + 1;
            }
            i = i + 1;
        }
        assert(self@.children.take(i as int) =~= self@.children);
        cnt
    }

    /// Child `id` announced that it listens on `port`.
    pub fn handle_port(&mut self, id: u64, port: u16) -> (r: Vec<Action>)
        requires
            old(self).wf(),
        ensures
            final(self).wf(),
            (final(self)@, acts(r@)) == old(self)@.port_step(id, port),
    {
        if self.get_stream_idx(id).is_none() {
            let r: Vec<Action> = Vec::new();
            assert(acts(r@) =~= Seq::empty());
            return r;
        }
        if self.count_confirmed(Some(id)) >= MAX_DOWNSTREAM {
            self.send_rebalance(id)
        } else {
            self.set_peer(id, port);
            self.send_failover()
        }
    }

    /// Drops the parent link, if any, and asks for a dial of `peer`.
    pub fn reconnect(&mut self, peer: Peer) -> (r: Vec<Action>)
        requires
            old(self).wf(),
        ensures
            final(self).wf(),
            (final(self)@, acts(r@)) == old(self)@.reconnect_step(peer@),
    {
        let mut r: Vec<Action> = Vec::new();
        if let Some(p) = self.up_stream {
            r.push(Action::Shutdown { id: p });
            self.remove_stream(p);
        }
        let ghost pv = peer@;
        r.push(Action::Connect { peer });
        assert(acts(r@) =~= old(self)@.reconnect_step(pv).1);
        r
    }

    /// Connection `id` was closed by the other side, or failed.
    pub fn close_client(&mut self, id: u64) -> (r: Vec<Action>)
        requires
            old(self).wf(),
        ensures
            final(self).wf(),
            (final(self)@, acts(r@)) == old(self)@.close_step(id),
    {
        if !self.is_stream(id) {
            let r: Vec<Action> = Vec::new();
            assert(acts(r@) =~= Seq::empty());
            return r;
        }
        let mut r = vec![Action::Notify(Notice::Closed(self.get_name(id)))];
        let ghost first = acts(r@);
        if self.is_up_stream(id) {
            if let Some(f) = &self.failover {
                let peer = f.copy();
                let mut more = self.reconnect(peer);
                let ghost rest = acts(more@);
                r.append(&mut more);
                assert(acts(r@) =~= first + rest);
                return r;
            }
        }
        r.push(Action::Shutdown { id });
        self.remove_stream(id);
        assert(acts(r@) =~= first.push(ActionView::Shutdown { id }));
        r
    }

    /// Connection `id`, dialled to `addr` where a node listens on `port`,
    /// becomes the parent; ignored if `id` is known or a parent is present.
    pub fn set_up_stream(&mut self, id: u64, addr: SockAddr, port: u16) -> (r: Vec<Action>)
        requires
            old(self).wf(),
            addr@.wf(),
        ensures
            final(self).wf(),
            (final(self)@, acts(r@)) == old(self)@.up_stream_step(
                id,
                PeerView { addr: Some(addr@), port },
            ),
    {
        if self.is_stream(id) || self.up_stream.is_some() {
            let r: Vec<Action> = Vec::new();
            assert(acts(r@) =~= Seq::empty());
            return r;
        }
        self.up_stream = Some(id);
        self.up_stream_info = Some(Peer::new(Some(addr), port));
        let mut r = self.send_peer();
        let ghost first = acts(r@);
        let mut more = self.send_name();
        let ghost rest = acts(more@);
        r.append(&mut more);
        assert(acts(r@) =~= first + rest);
        r
    }

    /// Reacts to envelope `env`, received on connection `id`.
    pub fn handle_recv(&mut self, id: u64, env: Envelope) -> (r: Vec<Action>)
        requires
            old(self).wf(),
            env@.wf(),
        ensures
            final(self).wf(),
            (final(self)@, acts(r@)) == old(self)@.recv_step(id, env@),
    {
        let Envelope { header, payload } = env;
        let ChatHeader { chat_t, peer } = header;
        match chat_t {
            ChatType::PORT => match peer {
                Some(p) => self.handle_port(id, p.port),
                None => Vec::new(),
            },
            ChatType::REGULAR => match payload {
                Some(t) => {
                    let mut r = vec![Action::Notify(Notice::Chat(crate::wire::copy_bytes(t.as_slice())))];
                    let ghost first = acts(r@);
                    let mut more = self.send_msg(Some(id), t.as_slice());
                    let ghost rest = acts(more@);
                    r.append(&mut more);
                    assert(acts(r@) =~= first + rest);
                    r
                },
                None => {
                    let r: Vec<Action> = Vec::new();
                    assert(acts(r@) =~= Seq::empty());
                    r
                },
            },
            ChatType::FAILOVER => {
                self.failover = peer;
                let r: Vec<Action> = Vec::new();
                assert(acts(r@) =~= Seq::empty());
                r
            },
            ChatType::REBALANCE => match peer {
                Some(p) => self.reconnect(p),
                None => Vec::new(),
            },
            ChatType::NAME => match payload {
                Some(nm) => {
                    let mut text = crate::wire::copy_bytes(nm.as_slice());
                    crate::wire::push_bytes(&mut text, " has joined the Chat Room".as_bytes());
                    self.set_stream_name(id, nm);
                    let mut r = vec![Action::Notify(Notice::Chat(crate::wire::copy_bytes(text.as_slice())))];
                    let ghost first = acts(r@);
                    let mut more = self.send_msg(Some(id), text.as_slice());
                    let ghost rest = acts(more@);
                    r.append(&mut more);
                    assert(acts(r@) =~= first + rest);
                    r
                },
                None => {
                    let r: Vec<Action> = Vec::new();
                    assert(acts(r@) =~= Seq::empty());
                    r
                },
            },
        }
    }

    /// Runs the local command `cmd` with its argument `arg`, already trimmed.
    pub fn run_command(&mut self, cmd: &str, arg: &str) -> (r: Vec<Action>)
        requires
            old(self).wf(),
        ensures
            final(self).wf(),
            (final(self)@, acts(r@)) == old(self)@.command_step(cmd@, arg@),
    {
        let cmd = String::from_str(cmd);
        if cmd == String::from_str("name") {
            if arg.is_empty() {
                let r = vec![Action::Notify(Notice::NameEmpty)];
                assert(acts(r@) =~= seq![ActionView::Notify(NoticeView::NameEmpty)]);
                r
            } else {
                self.set_name(arg)
            }
        } else if cmd == String::from_str("exit") {
            let r = vec![Action::Exit];
            assert(acts(r@) =~= seq![ActionView::Exit]);
            r
        } else {
            let r: Vec<Action> = Vec::new();
            assert(acts(r@) =~= Seq::empty());
            r
        }
    }

    /// Sends the chat line `msg` under the local name.
    pub fn send_chat(&self, msg: &str) -> (r: Vec<Action>)
        ensures
            (self@, acts(r@)) == self@.chat_step(msg@),
    {
        match &self.name {
            Some(nm) => {
                let mut text = crate::wire::copy_bytes(nm.as_slice());
                crate::wire::push_bytes(&mut text, "> ".as_bytes());
                crate::wire::push_bytes(&mut text, msg.as_bytes());
                self.send_msg(None, text.as_slice())
            },
            None => {
                let r = vec![Action::Notify(Notice::NameRequired)];
                assert(acts(r@) =~= seq![ActionView::Notify(NoticeView::NameRequired)]);
                r
            },
        }
    }

    /// Handles a line typed by the local user: a command, or a chat line.
    pub fn handle_send(&mut self, msg: &str) -> (r: Vec<Action>)
        requires
            old(self).wf(),
        ensures
            final(self).wf(),
            (final(self)@, acts(r@)) == old(self)@.send_step(msg@),
    {
        match split_command(msg) {
            None => self.send_chat(msg),
            Some((cmd, arg)) => {
                let name = trim(arg.as_str());
                self.run_command(cmd.as_str(), name.as_str())
            },
        }
    }

    /// The record of child `id`.
    pub fn get_stream_info(&self, id: u64) -> (r: Option<&InfoStream>)
        requires
            self.wf(),
        ensures
            match r {
                Some(c) => child_index(self@.children, id) matches Some(i) && c@ == self@.children[i],
                None => child_index(self@.children, id) is None,
            },
    {
        match self.get_stream_idx(id) {
            Some(i) => Some(&self.down_streams[i]),
            None => None,
        }
    }

    /// The children, in the order they joined.
    pub fn down_streams(&self) -> (r: &Vec<InfoStream>)
        ensures
            r@.map_values(|c: InfoStream| c@) == self@.children,
    {
        &self.down_streams
    }

    /// The parent connection.
    pub fn up_stream(&self) -> (r: Option<u64>)
        ensures
            r == self@.parent,
    {
        self.up_stream
    }

    /// The endpoint the parent listens at.
    pub fn up_stream_info(&self) -> (r: Option<&Peer>)
        ensures
            opt_peer_view(match r { Some(p) => Some(*p), None => None }) == self@.parent_info,
    {
        self.up_stream_info.as_ref()
    }

    /// The endpoint to reconnect to if the parent is lost.
    pub fn failover(&self) -> (r: Option<&Peer>)
        ensures
            opt_peer_view(match r { Some(p) => Some(*p), None => None }) == self@.failover,
    {
        self.failover.as_ref()
    }

    /// The connection that was given the failover role.
    pub fn successor(&self) -> (r: Option<u64>)
        ensures
            r == self@.successor,
    {
        self.successor
    }

    /// The local display name.
    pub fn name(&self) -> (r: Option<&Vec<u8>>)
        ensures
            opt_bytes_view(match r { Some(n) => Some(*n), None => None }) == self@.name,
    {
        self.name.as_ref()
    }

    /// The listening port this node announces.
    pub fn host_port(&self) -> (r: u16)
        ensures
            r == self@.host_port,
    {
        self.host_port
    }

    /// How connection `id` is called in diagnostics.
    pub fn get_name(&self, id: u64) -> (r: ConnName)
        requires
            self.wf(),
        ensures
            r@ == self@.name_of(id),
    {
        match self.get_stream_idx(id) {
            Some(i) => match &self.down_streams[i].name {
                Some(n) => ConnName::Named(crate::wire::copy_bytes(n.as_slice())),
                None => ConnName::Client(id),
            },
            None => if self.is_up_stream(id) {
                ConnName::Upstream
            } else {
                ConnName::Unknown
            },
        }
    }
}

} // verus!
