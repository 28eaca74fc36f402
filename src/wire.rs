//! The binary envelope exchanged on every connection.
//!
//! Layout, all integers big-endian:
//!
//! ```text
//! kind            1 byte   0 REGULAR, 1 PORT, 2 REBALANCE, 3 FAILOVER, 4 NAME
//! peer present    1 byte   0 or 1
//!   address len   1 byte   0 (no address), 4 (IPv4) or 16 (IPv6)   } only with
//!   address       len bytes, then its port in 2 bytes              } a peer
//!   peer port     2 bytes                                          }
//! payload present 1 byte   0 or 1
//!   payload len   8 bytes                                          } only with
//!   payload       len bytes                                        } a payload
//! ```
use vstd::prelude::*;

verus! {

/// The kind of an envelope.
#[allow(non_camel_case_types)]
#[derive(Clone, Copy, Debug, PartialEq, Eq, Structural)]
pub enum ChatType {
    REGULAR,
    PORT,
    REBALANCE,
    FAILOVER,
    NAME,
}

/// A socket address: the IP address as its 4 or 16 octets, and a port.
#[derive(Debug, PartialEq, Eq)]
pub struct SockAddr {
    pub ip: Vec<u8>,
    pub port: u16,
}

pub struct SockAddrView {
    pub ip: Seq<u8>,
    pub port: u16,
}

impl View for SockAddr {
    type V = SockAddrView;

    open spec fn view(&self) -> SockAddrView {
        SockAddrView { ip: self.ip@, port: self.port }
    }
}

impl SockAddrView {
    pub open spec fn wf(self) -> bool {
        self.ip.len() == 4 || self.ip.len() == 16
    }
}

impl SockAddr {
    /// A copy of this address.
    pub fn copy(&self) -> (r: SockAddr)
        ensures
            r@ == self@,
    {
        SockAddr { ip: copy_bytes(self.ip.as_slice()), port: self.port }
    }
}

/// The reachable listening endpoint of a node.
#[derive(Debug, PartialEq, Eq)]
pub struct Peer {
    pub addr: Option<SockAddr>,
    pub port: u16,
}

pub struct PeerView {
    pub addr: Option<SockAddrView>,
    pub port: u16,
}

pub open spec fn opt_addr_view(a: Option<SockAddr>) -> Option<SockAddrView> {
    match a {
        Some(x) => Some(x@),
        None => None,
    }
}

impl View for Peer {
    type V = PeerView;

    open spec fn view(&self) -> PeerView {
        PeerView { addr: opt_addr_view(self.addr), port: self.port }
    }
}

impl PeerView {
    pub open spec fn wf(self) -> bool {
        match self.addr {
            Some(a) => a.wf(),
            None => true,
        }
    }

    /// The peer can be dialled: it names an address.
    pub open spec fn dialable(self) -> bool {
        self.wf() && self.addr is Some
    }
}

impl Peer {
    pub fn new(a: Option<SockAddr>, p: u16) -> (r: Peer)
        ensures
            r@ == (PeerView { addr: opt_addr_view(a), port: p }),
    {
        Peer { addr: a, port: p }
    }

    /// A copy of this peer.
    pub fn copy(&self) -> (r: Peer)
        ensures
            r@ == self@,
    {
        let addr = match &self.addr {
            Some(a) => Some(a.copy()),
            None => None,
        };
        Peer { addr, port: self.port }
    }
}


/// The fixed part of an envelope: its kind and, for the kinds that name an
/// endpoint, that endpoint.
#[derive(Debug, PartialEq, Eq)]
pub struct ChatHeader {
    pub chat_t: ChatType,
    pub peer: Option<Peer>,
}

pub struct HeaderView {
    pub chat_t: ChatType,
    pub peer: Option<PeerView>,
}

pub open spec fn opt_peer_view(p: Option<Peer>) -> Option<PeerView> {
    match p {
        Some(x) => Some(x@),
        None => None,
    }
}

impl View for ChatHeader {
    type V = HeaderView;

    open spec fn view(&self) -> HeaderView {
        HeaderView { chat_t: self.chat_t, peer: opt_peer_view(self.peer) }
    }
}

/// PORT carries a peer; REBALANCE and FAILOVER carry a peer with an address,
/// to be dialled; REGULAR and NAME carry none.
pub open spec fn header_wf(t: ChatType, peer: Option<PeerView>) -> bool {
    match t {
        ChatType::PORT => peer matches Some(p) && p.wf(),
        ChatType::REBALANCE | ChatType::FAILOVER => peer matches Some(p) && p.dialable(),
        ChatType::REGULAR | ChatType::NAME => peer is None,
    }
}

impl HeaderView {
    pub open spec fn wf(self) -> bool {
        header_wf(self.chat_t, self.peer)
    }
}

impl ChatHeader {
    /// The handshake of a node that announces its listening port.
    pub fn from_port(portno: u16) -> (r: ChatHeader)
        ensures
            r@ == (HeaderView {
                chat_t: ChatType::PORT,
                peer: Some(PeerView { addr: None, port: portno }),
            }),
            r@.wf(),
    {
        ChatHeader { chat_t: ChatType::PORT, peer: Some(Peer::new(None, portno)) }
    }

    /// A chat message.
    pub fn from_msg() -> (r: ChatHeader)
        ensures
            r@ == (HeaderView { chat_t: ChatType::REGULAR, peer: None }),
            r@.wf(),
    {
        ChatHeader { chat_t: ChatType::REGULAR, peer: None }
    }

    /// A redirection of a joining node to `addr`, listening on `portno`.
    pub fn from_rebalance(addr: SockAddr, portno: u16) -> (r: ChatHeader)
        ensures
            r@ == (HeaderView {
                chat_t: ChatType::REBALANCE,
                peer: Some(PeerView { addr: Some(addr@), port: portno }),
            }),
            addr@.wf() ==> r@.wf(),
    {
        ChatHeader { chat_t: ChatType::REBALANCE, peer: Some(Peer::new(Some(addr), portno)) }
    }

    /// The endpoint to reconnect to if the sender disappears.
    pub fn from_failover(addr: SockAddr, portno: u16) -> (r: ChatHeader)
        ensures
            r@ == (HeaderView {
                chat_t: ChatType::FAILOVER,
                peer: Some(PeerView { addr: Some(addr@), port: portno }),
            }),
            addr@.wf() ==> r@.wf(),
    {
        ChatHeader { chat_t: ChatType::FAILOVER, peer: Some(Peer::new(Some(addr), portno)) }
    }

    /// The announcement of a display name.
    pub fn from_name() -> (r: ChatHeader)
        ensures
            r@ == (HeaderView { chat_t: ChatType::NAME, peer: None }),
            r@.wf(),
    {
        ChatHeader { chat_t: ChatType::NAME, peer: None }
    }

    /// A header of kind `t` that carries `p`.
    pub fn from(t: ChatType, p: Peer) -> (r: ChatHeader)
        ensures
            r@ == (HeaderView { chat_t: t, peer: Some(p@) }),
    {
        ChatHeader { chat_t: t, peer: Some(p) }
    }
}

/// A whole envelope: a header and an optional payload.
#[derive(Debug, PartialEq, Eq)]
pub struct Envelope {
    pub header: ChatHeader,
    pub payload: Option<Vec<u8>>,
}

pub struct EnvelopeView {
    pub header: HeaderView,
    pub payload: Option<Seq<u8>>,
}

pub open spec fn opt_bytes_view(p: Option<Vec<u8>>) -> Option<Seq<u8>> {
    match p {
        Some(x) => Some(x@),
        None => None,
    }
}

impl View for Envelope {
    type V = EnvelopeView;

    open spec fn view(&self) -> EnvelopeView {
        EnvelopeView { header: self.header@, payload: opt_bytes_view(self.payload) }
    }
}

impl EnvelopeView {
    pub open spec fn wf(self) -> bool {
        &&& self.header.wf()
        &&& self.payload matches Some(p) ==> p.len() <= u64::MAX
    }
}

// ---------------------------------------------------------------------------
// Encoding
pub open spec fn kind_byte(t: ChatType) -> u8 {
    match t {
        ChatType::REGULAR => 0,
        ChatType::PORT => 1,
        ChatType::REBALANCE => 2,
        ChatType::FAILOVER => 3,
        ChatType::NAME => 4,
    }
}

pub open spec fn be16(v: u16) -> Seq<u8> {
    seq![(v / 256) as u8, (v % 256) as u8]
}

pub open spec fn be64(v: u64) -> Seq<u8> {
    seq![
        (v >> 56u64) as u8,
        (v >> 48u64) as u8,
        (v >> 40u64) as u8,
        (v >> 32u64) as u8,
        (v >> 24u64) as u8,
        (v >> 16u64) as u8,
        (v >> 8u64) as u8,
        v as u8,
    ]
}

pub open spec fn addr_bytes(a: Option<SockAddrView>) -> Seq<u8> {
    match a {
        None => seq![0u8],
        Some(a) => seq![a.ip.len() as u8] + a.ip + be16(a.port),
    }
}

pub open spec fn peer_bytes(p: Option<PeerView>) -> Seq<u8> {
    match p {
        None => seq![0u8],
        Some(p) => seq![1u8] + addr_bytes(p.addr) + be16(p.port),
    }
}

pub open spec fn payload_bytes(p: Option<Seq<u8>>) -> Seq<u8> {
    match p {
        None => seq![0u8],
        Some(p) => seq![1u8] + be64(p.len() as u64) + p,
    }
}

/// The bytes of an envelope with header `h` and payload `p`.
pub open spec fn encode(h: HeaderView, p: Option<Seq<u8>>) -> Seq<u8> {
    seq![kind_byte(h.chat_t)] + peer_bytes(h.peer) + payload_bytes(p)
}

fn kind_to_byte(t: ChatType) -> (r: u8)
    ensures
        r == kind_byte(t),
{
    match t {
        ChatType::REGULAR => 0,
        ChatType::PORT => 1,
        ChatType::REBALANCE => 2,
        ChatType::FAILOVER => 3,
        ChatType::NAME => 4,
    }
}

fn push_u16(out: &mut Vec<u8>, v: u16)
    ensures
        final(out)@ == old(out)@ + be16(v),
{
    out.push((v / 256) as u8);
    out.push((v % 256) as u8);
    assert(final(out)@ =~= old(out)@ + be16(v));
}

fn push_u64(out: &mut Vec<u8>, v: u64)
    ensures
        final(out)@ == old(out)@ + be64(v),
{
    out.push(#[verifier::truncate] ((v >> 56u64) as u8));
    out.push(#[verifier::truncate] ((v >> 48u64) as u8));
    out.push(#[verifier::truncate] ((v >> 40u64) as u8));
    out.push(#[verifier::truncate] ((v >> 32u64) as u8));
    out.push(#[verifier::truncate] ((v >> 24u64) as u8));
    out.push(#[verifier::truncate] ((v >> 16u64) as u8));
    out.push(#[verifier::truncate] ((v >> 8u64) as u8));
    out.push(#[verifier::truncate] (v as u8));
    assert(final(out)@ =~= old(out)@ + be64(v));
}

pub(crate) fn push_bytes(out: &mut Vec<u8>, b: &[u8])
    ensures
        final(out)@ == old(out)@ + b@,
{
    let mut i: usize = 0;
    while i < b.len()
        invariant
            0 <= i <= b@.len(),
            out@ == old(out)@ + b@.subrange(0, i as int),
        decreases b@.len() - i,
    {
        out.push(b[i]);
        i = i + 1;
        assert(out@ =~= old(out)@ + b@.subrange(0, i as int));
    }
    assert(b@.subrange(0, b@.len() as int) =~= b@);
}

/// Serialises the header `head`, then the payload `buffer` if there is one.
pub fn to_raw(head: &ChatHeader, buffer: Option<&[u8]>) -> (r: Vec<u8>)
    requires
        head@.wf(),
    ensures
        r@ == encode(head@, match buffer { Some(b) => Some(b@), None => None }),
{
    let mut out: Vec<u8> = Vec::new();
    out.push(kind_to_byte(head.chat_t));
    match &head.peer {
        None => out.push(0u8),
        Some(p) => {
            out.push(1u8);
            match &p.addr {
                None => out.push(0u8),
                Some(a) => {
                    out.push(a.ip.len() as u8);
                    push_bytes(&mut out, a.ip.as_slice());
                    push_u16(&mut out, a.port);
                },
            }
            push_u16(&mut out, p.port);
        },
    }
    match buffer {
        None => out.push(0u8),
        Some(b) => {
            out.push(1u8);
            push_u64(&mut out, b.len() as u64);
            push_bytes(&mut out, b);
        },
    }
    let ghost pay = match buffer { Some(b) => Some(b@), None => None };
    assert(out@ =~= encode(head@, pay));
    out
}


// ---------------------------------------------------------------------------
// Decoding
/// Why bytes do not decode to an envelope.
#[derive(Clone, Copy, Debug, PartialEq, Eq, Structural)]
pub enum DecodeError {
    /// The bytes end before the envelope does: more are needed.
    Incomplete,
    /// The bytes cannot start an envelope.
    Malformed,
}

pub open spec fn kind_of(b: u8) -> Option<ChatType> {
    if b == 0 {
        Some(ChatType::REGULAR)
    } else if b == 1 {
        Some(ChatType::PORT)
    } else if b == 2 {
        Some(ChatType::REBALANCE)
    } else if b == 3 {
        Some(ChatType::FAILOVER)
    } else if b == 4 {
        Some(ChatType::NAME)
    } else {
        None
    }
}

pub open spec fn be16_at(b: Seq<u8>, pos: int) -> u16 {
    (b[pos] as int * 256 + b[pos + 1] as int) as u16
}

pub open spec fn be64_at(b: Seq<u8>, pos: int) -> u64 {
    (b[pos] as u64) << 56u64 | (b[pos + 1] as u64) << 48u64 | (b[pos + 2] as u64) << 40u64 | (
    b[pos + 3] as u64) << 32u64 | (b[pos + 4] as u64) << 24u64 | (b[pos + 5] as u64) << 16u64 | (
    b[pos + 6] as u64) << 8u64 | (b[pos + 7] as u64)
}

/// The address field at `pos`, and the position after it.
pub open spec fn parse_addr(b: Seq<u8>, pos: int) -> Result<(Option<SockAddrView>, int), DecodeError> {
    if pos >= b.len() {
        Err(DecodeError::Incomplete)
    } else if b[pos] == 0 {
        Ok((None, pos + 1))
    } else if b[pos] != 4 && b[pos] != 16 {
        Err(DecodeError::Malformed)
    } else {
        let end = pos + 1 + b[pos] as int;
        if end + 2 > b.len() {
            Err(DecodeError::Incomplete)
        } else {
            Ok((Some(SockAddrView { ip: b.subrange(pos + 1, end), port: be16_at(b, end) }), end + 2))
        }
    }
}

/// The peer field at `pos`, and the position after it.
pub open spec fn parse_peer(b: Seq<u8>, pos: int) -> Result<(Option<PeerView>, int), DecodeError> {
    if pos >= b.len() {
        Err(DecodeError::Incomplete)
    } else if b[pos] == 0 {
        Ok((None, pos + 1))
    } else if b[pos] != 1 {
        Err(DecodeError::Malformed)
    } else {
        match parse_addr(b, pos + 1) {
            Err(e) => Err(e),
            Ok((a, q)) => if q + 2 > b.len() {
                Err(DecodeError::Incomplete)
            } else {
                Ok((Some(PeerView { addr: a, port: be16_at(b, q) }), q + 2))
            },
        }
    }
}

/// The payload field at `pos`, and the position after it.
pub open spec fn parse_payload(b: Seq<u8>, pos: int) -> Result<(Option<Seq<u8>>, int), DecodeError> {
    if pos >= b.len() {
        Err(DecodeError::Incomplete)
    } else if b[pos] == 0 {
        Ok((None, pos + 1))
    } else if b[pos] != 1 {
        Err(DecodeError::Malformed)
    } else if pos + 9 > b.len() {
        Err(DecodeError::Incomplete)
    } else {
        let start = pos + 9;
        let n = be64_at(b, pos + 1) as int;
        if start + n > b.len() {
            Err(DecodeError::Incomplete)
        } else {
            Ok((Some(b.subrange(start, start + n)), start + n))
        }
    }
}

/// The envelope at the start of `b`, and the number of bytes it takes.
pub open spec fn parse(b: Seq<u8>) -> Result<(EnvelopeView, int), DecodeError> {
    if b.len() == 0 {
        Err(DecodeError::Incomplete)
    } else {
        match kind_of(b[0]) {
            None => Err(DecodeError::Malformed),
            Some(t) => match parse_peer(b, 1) {
                Err(e) => Err(e),
                Ok((peer, q)) => if !header_wf(t, peer) {
                    Err(DecodeError::Malformed)
                } else {
                    match parse_payload(b, q) {
                        Err(e) => Err(e),
                        Ok((payload, end)) => Ok(
                            (EnvelopeView { header: HeaderView { chat_t: t, peer }, payload }, end),
                        ),
                    }
                },
            },
        }
    }
}

fn byte_to_kind(b: u8) -> (r: Option<ChatType>)
    ensures
        r == kind_of(b),
{
    if b == 0 {
        Some(ChatType::REGULAR)
    } else if b == 1 {
        Some(ChatType::PORT)
    } else if b == 2 {
        Some(ChatType::REBALANCE)
    } else if b == 3 {
        Some(ChatType::FAILOVER)
    } else if b == 4 {
        Some(ChatType::NAME)
    } else {
        None
    }
}

fn read_u16(b: &[u8], pos: usize) -> (r: u16)
    requires
        pos + 2 <= b@.len(),
    ensures
        r == be16_at(b@, pos as int),
{
    (b[pos] as u16) * 256 + (b[pos + 1] as u16)
}

fn read_u64(b: &[u8], pos: usize) -> (r: u64)
    requires
        pos + 8 <= b@.len(),
    ensures
        r == be64_at(b@, pos as int),
{
    (b[pos] as u64) << 56u64 | (b[pos + 1] as u64) << 48u64 | (b[pos + 2] as u64) << 40u64 | (b[pos
        + 3] as u64) << 32u64 | (b[pos + 4] as u64) << 24u64 | (b[pos + 5] as u64) << 16u64 | (b[pos
        + 6] as u64) << 8u64 | (b[pos + 7] as u64)
}

fn read_addr(b: &[u8], pos: usize) -> (r: Result<(Option<SockAddr>, usize), DecodeError>)
    ensures
        match r {
            Ok((a, q)) => parse_addr(b@, pos as int) == Ok::<_, DecodeError>((opt_addr_view(a), q as int)),
            Err(e) => parse_addr(b@, pos as int) == Err::<(Option<SockAddrView>, int), _>(e),
        },
{
    if pos >= b.len() {
        return Err(DecodeError::Incomplete);
    }
    let n = b[pos];
    if n == 0 {
        return Ok((None, pos + 1));
    }
    if n != 4 && n != 16 {
        return Err(DecodeError::Malformed);
    }
    if b.len() - pos - 1 < n as usize + 2 {
        return Err(DecodeError::Incomplete);
    }
    let end = pos + 1 + n as usize;
    let ip = copy_range(b, pos + 1, end);
    let port = read_u16(b, end);
    Ok((Some(SockAddr { ip, port }), end + 2))
}

fn read_peer(b: &[u8], pos: usize) -> (r: Result<(Option<Peer>, usize), DecodeError>)
    ensures
        match r {
            Ok((p, q)) => parse_peer(b@, pos as int) == Ok::<_, DecodeError>((opt_peer_view(p), q as int)),
            Err(e) => parse_peer(b@, pos as int) == Err::<(Option<PeerView>, int), _>(e),
        },
{
    if pos >= b.len() {
        return Err(DecodeError::Incomplete);
    }
    let flag = b[pos];
    if flag == 0 {
        return Ok((None, pos + 1));
    }
    if flag != 1 {
        return Err(DecodeError::Malformed);
    }
    match read_addr(b, pos + 1) {
        Err(e) => Err(e),
        Ok((addr, q)) => {
            if q > b.len() || b.len() - q < 2 {
                Err(DecodeError::Incomplete)
            } else {
                let port = read_u16(b, q);
                Ok((Some(Peer { addr, port }), q + 2))
            }
        },
    }
}

fn read_payload(b: &[u8], pos: usize) -> (r: Result<(Option<Vec<u8>>, usize), DecodeError>)
    ensures
        match r {
            Ok((p, q)) => parse_payload(b@, pos as int) == Ok::<_, DecodeError>((opt_bytes_view(p), q as int)),
            Err(e) => parse_payload(b@, pos as int) == Err::<(Option<Seq<u8>>, int), _>(e),
        },
{
    if pos >= b.len() {
        return Err(DecodeError::Incomplete);
    }
    let flag = b[pos];
    if flag == 0 {
        return Ok((None, pos + 1));
    }
    if flag != 1 {
        return Err(DecodeError::Malformed);
    }
    if b.len() - pos < 9 {
        return Err(DecodeError::Incomplete);
    }
    let n = read_u64(b, pos + 1);
    let start = pos + 9;
    if n > (b.len() - start) as u64 {
        return Err(DecodeError::Incomplete);
    }
    let end = start + n as usize;
    Ok((Some(copy_range(b, start, end)), end))
}

fn check_header(t: ChatType, peer: &Option<Peer>) -> (r: bool)
    ensures
        r == header_wf(t, opt_peer_view(*peer)),
{
    let (has_peer, has_addr, addr_ok) = match peer {
        None => (false, false, true),
        Some(p) => match &p.addr {
            None => (true, false, true),
            Some(a) => (true, true, a.ip.len() == 4 || a.ip.len() == 16),
        },
    };
    match t {
        ChatType::PORT => has_peer && addr_ok,
        ChatType::REBALANCE | ChatType::FAILOVER => has_peer && has_addr && addr_ok,
        ChatType::REGULAR | ChatType::NAME => !has_peer,
    }
}

/// Decodes the envelope at the start of `buffer`; on success also returns
/// how many bytes it took, so that the bytes after it can be decoded next.
pub fn parse_raw(buffer: &[u8]) -> (r: Result<(Envelope, usize), DecodeError>)
    ensures
        match r {
            Ok((e, n)) => parse(buffer@) == Ok::<_, DecodeError>((e@, n as int)),
            Err(x) => parse(buffer@) == Err::<(EnvelopeView, int), _>(x),
        },
        r matches Ok((e, n)) ==> e@.wf() && 0 < n <= buffer@.len(),
{
    if buffer.len() == 0 {
        return Err(DecodeError::Incomplete);
    }
    let t = match byte_to_kind(buffer[0]) {
        None => return Err(DecodeError::Malformed),
        Some(t) => t,
    };
    let (peer, q) = match read_peer(buffer, 1) {
        Err(e) => return Err(e),
        Ok(x) => x,
    };
    if !check_header(t, &peer) {
        return Err(DecodeError::Malformed);
    }
    let (payload, end) = match read_payload(buffer, q) {
        Err(e) => return Err(e),
        Ok(x) => x,
    };
    Ok((Envelope { header: ChatHeader { chat_t: t, peer }, payload }, end))
}


// ---------------------------------------------------------------------------
// Round trip
proof fn lemma_be64_bits(v: u64)
    by (bit_vector)
    ensures
        ((v >> 56u64) as u8 as u64) << 56u64 | ((v >> 48u64) as u8 as u64) << 48u64 | ((v
            >> 40u64) as u8 as u64) << 40u64 | ((v >> 32u64) as u8 as u64) << 32u64 | ((v
            >> 24u64) as u8 as u64) << 24u64 | ((v >> 16u64) as u8 as u64) << 16u64 | ((v
            >> 8u64) as u8 as u64) << 8u64 | (v as u8 as u64) == v,
{
}

proof fn lemma_read_be16(b: Seq<u8>, pos: int, v: u16)
    requires
        0 <= pos,
        pos + 2 <= b.len(),
        b.subrange(pos, pos + 2) == be16(v),
    ensures
        be16_at(b, pos) == v,
{
    assert(b[pos] == be16(v)[0]);
    assert(b[pos + 1] == be16(v)[1]);
}

proof fn lemma_read_be64(b: Seq<u8>, pos: int, v: u64)
    requires
        0 <= pos,
        pos + 8 <= b.len(),
        b.subrange(pos, pos + 8) == be64(v),
    ensures
        be64_at(b, pos) == v,
{
    assert forall|k: int| 0 <= k < 8 implies b[pos + k] == #[trigger] be64(v)[k] by {
        assert(b.subrange(pos, pos + 8)[k] == b[pos + k]);
    }
    lemma_be64_bits(v);
}

proof fn lemma_parse_addr(b: Seq<u8>, pos: int, a: Option<SockAddrView>)
    requires
        0 <= pos,
        pos + addr_bytes(a).len() <= b.len(),
        b.subrange(pos, pos + addr_bytes(a).len()) == addr_bytes(a),
        a matches Some(x) ==> x.wf(),
    ensures
        parse_addr(b, pos) == Ok::<_, DecodeError>((a, pos + addr_bytes(a).len())),
{
    let enc = addr_bytes(a);
    assert(b[pos] == enc[0]);
    if let Some(x) = a {
        let n = x.ip.len() as int;
        let end = pos + 1 + n;
        assert(b.subrange(pos + 1, end) =~= enc.subrange(1, 1 + n));
        assert(enc.subrange(1, 1 + n) =~= x.ip);
        assert(b.subrange(end, end + 2) =~= enc.subrange(1 + n, 3 + n));
        assert(enc.subrange(1 + n, 3 + n) =~= be16(x.port));
        lemma_read_be16(b, end, x.port);
    }
}

proof fn lemma_parse_peer(b: Seq<u8>, pos: int, p: Option<PeerView>)
    requires
        0 <= pos,
        pos + peer_bytes(p).len() <= b.len(),
        b.subrange(pos, pos + peer_bytes(p).len()) == peer_bytes(p),
        p matches Some(x) ==> x.wf(),
    ensures
        parse_peer(b, pos) == Ok::<_, DecodeError>((p, pos + peer_bytes(p).len())),
{
    let enc = peer_bytes(p);
    assert(b[pos] == enc[0]);
    if let Some(x) = p {
        let al = addr_bytes(x.addr).len() as int;
        assert(b.subrange(pos + 1, pos + 1 + al) =~= enc.subrange(1, 1 + al));
        assert(enc.subrange(1, 1 + al) =~= addr_bytes(x.addr));
        lemma_parse_addr(b, pos + 1, x.addr);
        let q = pos + 1 + al;
        assert(b.subrange(q, q + 2) =~= enc.subrange(1 + al, 3 + al));
        assert(enc.subrange(1 + al, 3 + al) =~= be16(x.port));
        lemma_read_be16(b, q, x.port);
    }
}

proof fn lemma_parse_payload(b: Seq<u8>, pos: int, p: Option<Seq<u8>>)
    requires
        0 <= pos,
        pos + payload_bytes(p).len() <= b.len(),
        b.subrange(pos, pos + payload_bytes(p).len()) == payload_bytes(p),
        p matches Some(x) ==> x.len() <= u64::MAX,
    ensures
        parse_payload(b, pos) == Ok::<_, DecodeError>((p, pos + payload_bytes(p).len())),
{
    let enc = payload_bytes(p);
    assert(b[pos] == enc[0]);
    if let Some(x) = p {
        assert(b.subrange(pos + 1, pos + 9) =~= enc.subrange(1, 9));
        assert(enc.subrange(1, 9) =~= be64(x.len() as u64));
        lemma_read_be64(b, pos + 1, x.len() as u64);
        let n = x.len() as int;
        assert(b.subrange(pos + 9, pos + 9 + n) =~= enc.subrange(9, 9 + n));
        assert(enc.subrange(9, 9 + n) =~= x);
    }
}

/// Decoding the bytes of a well-formed envelope gives back that envelope, and
/// takes exactly its bytes, whatever follows them.
pub proof fn lemma_round_trip(e: EnvelopeView, rest: Seq<u8>)
    requires
        e.wf(),
    ensures
        parse(encode(e.header, e.payload) + rest) == Ok::<_, DecodeError>(
            (e, encode(e.header, e.payload).len() as int),
        ),
{
    let h = e.header;
    let pb = peer_bytes(h.peer);
    let yb = payload_bytes(e.payload);
    let pl = pb.len() as int;
    let yl = yb.len() as int;
    let b = encode(h, e.payload) + rest;
    assert(b[0] == kind_byte(h.chat_t));
    assert(b.subrange(1, 1 + pl) =~= pb);
    lemma_parse_peer(b, 1, h.peer);
    let q = 1 + pl;
    assert(b.subrange(q, q + yl) =~= yb);
    lemma_parse_payload(b, q, e.payload);
    let p = parse(b);
    assert(p == Ok::<_, DecodeError>((EnvelopeView { header: HeaderView { chat_t: h.chat_t, peer: h.peer }, payload: e.payload }, q + yl)));
}

proof fn lemma_be64_bytes(b0: u8, b1: u8, b2: u8, b3: u8, b4: u8, b5: u8, b6: u8, b7: u8)
    by (bit_vector)
    ensures
        ({
            let v = (b0 as u64) << 56u64 | (b1 as u64) << 48u64 | (b2 as u64) << 40u64 | (b3 as u64)
                << 32u64 | (b4 as u64) << 24u64 | (b5 as u64) << 16u64 | (b6 as u64) << 8u64 | (b7 as u64);
            &&& (v >> 56u64) as u8 == b0
            &&& (v >> 48u64) as u8 == b1
            &&& (v >> 40u64) as u8 == b2
            &&& (v >> 32u64) as u8 == b3
            &&& (v >> 24u64) as u8 == b4
            &&& (v >> 16u64) as u8 == b5
            &&& (v >> 8u64) as u8 == b6
            &&& v as u8 == b7
        }),
{
}

proof fn lemma_be16_bytes(b: Seq<u8>, pos: int)
    requires
        0 <= pos,
        pos + 2 <= b.len(),
    ensures
        b.subrange(pos, pos + 2) == be16(be16_at(b, pos)),
{
    assert(b.subrange(pos, pos + 2) =~= be16(be16_at(b, pos)));
}

proof fn lemma_be64_at_bytes(b: Seq<u8>, pos: int)
    requires
        0 <= pos,
        pos + 8 <= b.len(),
    ensures
        b.subrange(pos, pos + 8) == be64(be64_at(b, pos)),
{
    lemma_be64_bytes(b[pos], b[pos + 1], b[pos + 2], b[pos + 3], b[pos + 4], b[pos + 5], b[pos + 6], b[pos + 7]);
    assert(b.subrange(pos, pos + 8) =~= be64(be64_at(b, pos)));
}

proof fn lemma_addr_exact(b: Seq<u8>, pos: int)
    requires
        0 <= pos,
        parse_addr(b, pos) is Ok,
    ensures
        ({
            let (a, end) = parse_addr(b, pos).unwrap();
            &&& pos < end <= b.len()
            &&& b.subrange(pos, end) == addr_bytes(a)
            &&& a matches Some(x) ==> x.wf()
        }),
{
    let (a, end) = parse_addr(b, pos).unwrap();
    if let Some(x) = a {
        let e = pos + 1 + b[pos] as int;
        lemma_be16_bytes(b, e);
        assert(b.subrange(pos, end) =~= seq![b[pos]] + b.subrange(pos + 1, e) + b.subrange(e, e + 2));
    } else {
        assert(b.subrange(pos, end) =~= seq![0u8]);
    }
}

proof fn lemma_peer_exact(b: Seq<u8>, pos: int)
    requires
        0 <= pos,
        parse_peer(b, pos) is Ok,
    ensures
        ({
            let (p, end) = parse_peer(b, pos).unwrap();
            &&& pos < end <= b.len()
            &&& b.subrange(pos, end) == peer_bytes(p)
            &&& p matches Some(x) ==> x.wf()
        }),
{
    let (p, end) = parse_peer(b, pos).unwrap();
    if let Some(x) = p {
        lemma_addr_exact(b, pos + 1);
        let (a, q) = parse_addr(b, pos + 1).unwrap();
        lemma_be16_bytes(b, q);
        assert(b.subrange(pos, end) =~= seq![1u8] + b.subrange(pos + 1, q) + b.subrange(q, q + 2));
    } else {
        assert(b.subrange(pos, end) =~= seq![0u8]);
    }
}

proof fn lemma_payload_exact(b: Seq<u8>, pos: int)
    requires
        0 <= pos,
        parse_payload(b, pos) is Ok,
    ensures
        ({
            let (p, end) = parse_payload(b, pos).unwrap();
            &&& pos < end <= b.len()
            &&& b.subrange(pos, end) == payload_bytes(p)
            &&& p matches Some(x) ==> x.len() <= u64::MAX
        }),
{
    let (p, end) = parse_payload(b, pos).unwrap();
    if let Some(x) = p {
        lemma_be64_at_bytes(b, pos + 1);
        let n = be64_at(b, pos + 1);
        assert(x.len() == n);
        assert(b.subrange(pos, end) =~= seq![1u8] + b.subrange(pos + 1, pos + 9) + b.subrange(pos + 9, end));
    } else {
        assert(b.subrange(pos, end) =~= seq![0u8]);
    }
}

/// Decoding is exact: a decoded envelope is well formed, and the bytes it
/// took are exactly its encoding, so no two byte strings decode to the same
/// envelope with the same length.
pub proof fn lemma_decode_exact(b: Seq<u8>)
    requires
        parse(b) is Ok,
    ensures
        ({
            let (e, n) = parse(b).unwrap();
            &&& e.wf()
            &&& 0 < n <= b.len()
            &&& b.subrange(0, n) == encode(e.header, e.payload)
        }),
{
    let (e, n) = parse(b).unwrap();
    lemma_peer_exact(b, 1);
    let (peer, q) = parse_peer(b, 1).unwrap();
    lemma_payload_exact(b, q);
    assert(kind_byte(e.header.chat_t) == b[0]);
    assert(b.subrange(0, n) =~= seq![b[0]] + b.subrange(1, q) + b.subrange(q, n));
}

// ---------------------------------------------------------------------------
// Framing a byte stream
/// The bytes received on one connection that are not decoded yet.
pub struct FrameReader {
    buf: Vec<u8>,
}

impl View for FrameReader {
    type V = Seq<u8>;

    closed spec fn view(&self) -> Seq<u8> {
        self.buf@
    }
}

impl FrameReader {
    /// A reader that holds no bytes.
    pub fn new() -> (r: FrameReader)
        ensures
            r@ == Seq::<u8>::empty(),
    {
        let r = FrameReader { buf: Vec::new() };
        assert(r@ =~= Seq::<u8>::empty());
        r
    }

    /// Appends bytes as they arrive.
    pub fn push(&mut self, bytes: &[u8])
        ensures
            final(self)@ == old(self)@ + bytes@,
    {
        push_bytes(&mut self.buf, bytes);
    }

    /// The next whole envelope, taken off the front of the bytes held. None
    /// while the bytes held end before the envelope does; on bytes that
    /// cannot start an envelope, `Malformed`, and everything held is
    /// dropped.
    pub fn next_envelope(&mut self) -> (r: Option<Result<Envelope, DecodeError>>)
        ensures
            match parse(old(self)@) {
                Ok((e, n)) => r matches Some(Ok(x)) && x@ == e && final(self)@ == old(self)@.skip(n),
                Err(DecodeError::Incomplete) => r is None && final(self)@ == old(self)@,
                Err(DecodeError::Malformed) => r matches Some(Err(DecodeError::Malformed))
                    && final(self)@ == Seq::<u8>::empty(),
            },
            r matches Some(Ok(x)) ==> x@.wf(),
    {
        match parse_raw(self.buf.as_slice()) {
            Ok((e, n)) => {
                let rest = copy_range(self.buf.as_slice(), n, self.buf.len());
                self.buf = rest;
                assert(self.buf@ =~= old(self)@.skip(n as int));
                Some(Ok(e))
            },
            Err(DecodeError::Incomplete) => None,
            Err(DecodeError::Malformed) => {
                self.buf = Vec::new();
                assert(self.buf@ =~= Seq::<u8>::empty());
                Some(Err(DecodeError::Malformed))
            },
        }
    }
}

/// The copy of a byte slice.
pub fn copy_bytes(b: &[u8]) -> (r: Vec<u8>)
    ensures
        r@ == b@,
{
    copy_range(b, 0, b.len())
}

/// The bytes `b[start..end]`, copied.
fn copy_range(b: &[u8], start: usize, end: usize) -> (r: Vec<u8>)
    requires
        start <= end <= b@.len(),
    ensures
        r@ == b@.subrange(start as int, end as int),
{
    let mut r: Vec<u8> = Vec::new();
    let mut i: usize = start;
    while i < end
        invariant
            start <= i <= end <= b@.len(),
            r@ == b@.subrange(start as int, i as int),
        decreases end - i,
    {
        r.push(b[i]);
        i = i + 1;
        assert(r@ =~= b@.subrange(start as int, i as int));
    }
    r
}

} // verus!
