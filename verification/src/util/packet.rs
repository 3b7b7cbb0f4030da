//! Packets on their way to and from the proxy.
//!
//! A packet for a client is framed as the Minecraft protocol frames it
//! (length, packet id, body) and travels to the proxy together with the
//! proxy's process id of the connection and the proxy's state for it.
use vstd::prelude::*;
use vstd::utf8::{decode_utf8, encode_utf8, valid_utf8};
use crate::bigendian::{be_bytes, be_fold};
use crate::text::{string_from_utf8, utf8_bytes};
use crate::varint::{
    encode_varint32, lemma_scan_bound, varint32_bytes, varint32_fold,
    varint32_mask, varint_len, varint_scan,
};
use crate::protocol::de::{lemma_fixed_read_back, lemma_varint32_read_back};

verus! {

/// The proxy's state of a connection: the connection state number (0
/// where the proxy gives none), the protocol number of the client and the
/// name of its player, where the proxy gives them.
pub struct ConnState {
    pub state: u64,
    pub protocol: Option<u64>,
    pub username: Option<String>,
}

/// What a [`ConnState`] holds.
pub struct ConnStateView {
    pub state: u64,
    pub protocol: Option<u64>,
    pub username: Option<Seq<char>>,
}

impl View for ConnState {
    type V = ConnStateView;

    open spec fn view(&self) -> ConnStateView {
        ConnStateView {
            state: self.state,
            protocol: self.protocol,
            username: match self.username {
                Some(u) => Some(u@),
                None => None,
            },
        }
    }
}

impl ConnState {
    /// The same state of the connection, with connection state number
    /// `state`.
    pub fn with_state(&self, state: u64) -> (c: ConnState)
        ensures
            c@ == (ConnStateView { state, ..self@ }),
    {
        ConnState {
            state,
            protocol: self.protocol,
            username: match &self.username {
                Some(u) => Some(u.clone()),
                None => None,
            },
        }
    }

    /// The same state of the connection, with the player's name `username`.
    pub fn with_username(&self, username: String) -> (c: ConnState)
        ensures
            c@ == (ConnStateView { username: Some(username@), ..self@ }),
    {
        ConnState { state: self.state, protocol: self.protocol, username: Some(username) }
    }
}

/// The view of an optional state.
pub open spec fn state_view(s: Option<ConnState>) -> Option<ConnStateView> {
    match s {
        Some(s) => Some(s@),
        None => None,
    }
}

/// A packet as the proxy receives and sends it: the process id of the
/// connection, the proxy's state of it (if any) and the Minecraft packet.
pub struct Packet {
    pub pid: String,
    pub state: Option<ConnState>,
    pub data: Vec<u8>,
}

/// What a [`Packet`] holds.
pub struct PacketView {
    pub pid: Seq<char>,
    pub state: Option<ConnStateView>,
    pub data: Seq<u8>,
}

impl View for Packet {
    type V = PacketView;

    open spec fn view(&self) -> PacketView {
        PacketView { pid: self.pid@, state: state_view(self.state), data: self.data@ }
    }
}

/// Builds the body of a packet field by field.
pub struct PacketBuilder {
    packet_id: i32,
    process_id: String,
    state: Option<ConnState>,
    data: Vec<u8>,
}

/// What a [`PacketBuilder`] holds.
pub struct PacketBuilderView {
    pub packet_id: i32,
    pub process_id: Seq<char>,
    pub state: Option<ConnState>,
    pub data: Seq<u8>,
}

impl View for PacketBuilder {
    type V = PacketBuilderView;

    closed spec fn view(&self) -> PacketBuilderView {
        PacketBuilderView {
            packet_id: self.packet_id,
            process_id: self.process_id@,
            state: self.state,
            data: self.data@,
        }
    }
}

/// A Minecraft packet as it goes on the wire: the number of bytes of the
/// id and body as a variable-length integer, then the id as one, then the
/// body.
pub open spec fn frame(packet_id: i32, body: Seq<u8>) -> Seq<u8> {
    let id = varint32_bytes(packet_id as u32);
    varint32_bytes((id.len() + body.len()) as u32) + id + body
}

/// A string as the Minecraft protocol writes it: its length in UTF-8 bytes
/// as a variable-length integer, then those bytes.
pub open spec fn string_bytes(s: Seq<char>) -> Seq<u8> {
    varint32_bytes(encode_utf8(s).len() as u32) + encode_utf8(s)
}

/// Encodes `value` (its bits read as unsigned) as a variable-length integer.
fn to_varint(value: i32) -> (res: Vec<u8>)
    ensures
        res@ == varint32_bytes(value as u32),
{
    encode_varint32(value as u32)
}

/// The low `size` bytes of `value`, most significant first.
pub(crate) fn to_sized(value: u64, size: usize) -> (res: Vec<u8>)
    requires
        size <= 8,
    ensures
        res@ == be_bytes(value, size as nat),
{
    let mut sized: Vec<u8> = Vec::new();
    let mut i: usize = 0;
    while i < size
        invariant
            i <= size <= 8,
            sized@ == be_bytes(value, size as nat).subrange(0, i as int),
        decreases size - i,
    {
        sized.push(((value >> ((size - 1 - i) * 8) as u64) & 0xFF) as u8);
        i += 1;
        assert(sized@ == be_bytes(value, size as nat).subrange(0, i as int));
    }
    sized
}

impl PacketBuilder {
    /// An empty body for packet `packet_id` to the connection `process_id`,
    /// without state.
    pub fn new(packet_id: i32, process_id: String) -> (b: Self)
        ensures
            b@.packet_id == packet_id,
            b@.process_id == process_id@,
            b@.state is None,
            b@.data.len() == 0,
    {
        PacketBuilder { packet_id, process_id, state: None, data: Vec::new() }
    }

    /// Sets the proxy state that goes with the packet.
    pub fn state(self, state: Option<ConnState>) -> (b: Self)
        ensures
            b@.packet_id == self@.packet_id,
            b@.process_id == self@.process_id,
            b@.state == state,
            b@.data == self@.data,
    {
        let mut b = self;
        b.state = state;
        b
    }

    /// Appends `value` as a variable-length integer.
    pub fn write_varint(self, value: i32) -> (b: Self)
        ensures
            b@.packet_id == self@.packet_id,
            b@.process_id == self@.process_id,
            b@.state == self@.state,
            b@.data == self@.data + varint32_bytes(value as u32),
    {
        let mut b = self;
        b.data.append(&mut to_varint(value));
        b
    }

    /// Appends `value` as a protocol string.
    pub fn write_string(self, value: String) -> (b: Self)
        ensures
            b@.packet_id == self@.packet_id,
            b@.process_id == self@.process_id,
            b@.state == self@.state,
            b@.data == self@.data + string_bytes(value@),
    {
        let mut b = self;
        let mut bytes = utf8_bytes(value.as_str());
        let mut size = to_varint(bytes.len() as i32);
        proof {
            let n = bytes.len();
            assert((n as i32) as u32 == n as u32) by (bit_vector);
        }
        b.data.append(&mut size);
        b.data.append(&mut bytes);
        b
    }

    /// Appends the low `size` bytes of `value`, most significant first.
    pub fn write_sized(self, value: u64, size: usize) -> (b: Self)
        requires
            size <= 8,
        ensures
            b@.packet_id == self@.packet_id,
            b@.process_id == self@.process_id,
            b@.state == self@.state,
            b@.data == self@.data + be_bytes(value, size as nat),
    {
        let mut b = self;
        b.data.append(&mut to_sized(value, size));
        b
    }

    /// The packet: the body framed as a Minecraft packet, for the
    /// connection and with the state given.
    pub fn finish(self) -> (p: Packet)
        ensures
            p.pid@ == self@.process_id,
            p.state == self@.state,
            p.data@ == frame(self@.packet_id, self@.data),
    {
        let PacketBuilder { packet_id, process_id, state, data } = self;
        let mut data = data;
        let mut id = to_varint(packet_id);
        let total = ((id.len() as u128) + (data.len() as u128)) as u32;
        let mut length = encode_varint32(total);
        let mut framed: Vec<u8> = Vec::new();
        framed.append(&mut length);
        framed.append(&mut id);
        framed.append(&mut data);
        Packet { pid: process_id, state, data: framed }
    }
}

/// What goes to the proxy for a packet whose JSON text is `json`: the
/// number of its bytes in four big-endian bytes, then the bytes.
pub fn prefix_with_size(json: Vec<u8>) -> (res: Vec<u8>)
    ensures
        res@ == be_bytes((json.len() as u32) as u64, 4) + json@,
{
    let mut json = json;
    let mut packet = to_sized((json.len() as u32) as u64, 4);
    packet.append(&mut json);
    packet
}

/// Whether a variable-length integer that ends within five bytes starts at
/// `offset` of `packet`.
pub open spec fn varint_at(packet: Seq<u8>, offset: int) -> bool {
    0 <= offset <= packet.len() && varint_len(packet.skip(offset), 5) is Some
}

/// The value and the end of the variable-length integer at `offset`.
pub open spec fn varint_read(packet: Seq<u8>, offset: int) -> (i32, int) {
    let s = packet.skip(offset);
    let n = varint_len(s, 5)->Some_0;
    (varint32_fold(s, n) as i32, offset + n)
}

/// Whether a string starts at `offset`: a length that ends within five
/// bytes, then at least as many bytes as it says (read as an unsigned size).
pub open spec fn string_at(packet: Seq<u8>, offset: int) -> bool {
    &&& varint_at(packet, offset)
    &&& varint_read(packet, offset).1 + (varint_read(packet, offset).0 as usize) <= packet.len()
}

/// The bytes of the string at `offset`.
pub open spec fn string_read_bytes(packet: Seq<u8>, offset: int) -> Seq<u8> {
    let (size, start) = varint_read(packet, offset);
    packet.subrange(start, start + (size as usize))
}

/// Whether a variable-length integer that ends within five bytes starts at
/// `offset`.
pub fn has_varint(packet: &Vec<u8>, offset: usize) -> (b: bool)
    ensures
        b == varint_at(packet@, offset as int),
{
    if offset > packet.len() {
        return false;
    }
    let ghost s = packet@.skip(offset as int);
    let mut i: usize = 0;
    while i < 5 && offset + i < packet.len()
        invariant
            s == packet@.skip(offset as int),
            offset + i <= packet.len(),
            i <= 5,
            varint_scan(s, 0, 5) == varint_scan(s, i as nat, 5),
        decreases 5 - i,
    {
        if packet[offset + i] < 0x80 {
            return true;
        }
        i += 1;
    }
    false
}

/// Whether a string starts at `offset`: a length that ends within five
/// bytes and at least as many bytes after it as it says.
pub fn has_string(packet: &Vec<u8>, offset: usize) -> (b: bool)
    ensures
        b == string_at(packet@, offset as int),
{
    if !has_varint(packet, offset) {
        return false;
    }
    proof {
        lemma_scan_bound(packet@.skip(offset as int), 0, 5);
    }
    match read_varint(packet, offset) {
        Some((size, end)) => (size as usize) <= packet.len() - end,
        None => false,
    }
}

/// Reads the variable-length integer at `offset`; gives its value and the
/// offset just after it.
pub fn read_varint(packet: &Vec<u8>, offset: usize) -> (r: Option<(i32, usize)>)
    requires
        varint_at(packet@, offset as int),
    ensures
        r matches Some((v, end)) && (v, end as int) == varint_read(packet@, offset as int),
{
    let ghost s = packet@.skip(offset as int);
    let mut i: usize = 0;
    let mut v: u32 = 0;
    loop
        invariant
            s == packet@.skip(offset as int),
            offset <= packet.len(),
            i < 5,
            varint_scan(s, 0, 5) == varint_scan(s, i as nat, 5),
            varint_scan(s, 0, 5) is Some,
            v == varint32_fold(s, i as nat),
        decreases 5 - i,
    {
        let b = packet[i + offset];
        assert(b == s[i as int]);
        v = v | (((b & 0x7F) as u32) << (i * 7) as u32);
        assert(v == varint32_fold(s, (i + 1) as nat));
        if (b & 0x80) == 0 {
            assert(b < 0x80) by (bit_vector)
                requires b & 0x80 == 0;
            return Some((v as i32, i + offset + 1));
        }
        assert(b >= 0x80) by (bit_vector)
            requires b & 0x80 != 0;
        i += 1;
        if i > 5 {
            return None;
        }
    }
}

/// Reads the string at `offset`: a length, then that many bytes of UTF-8;
/// gives the string and the offset just after it, or `None` where the bytes
/// are not valid UTF-8.
pub fn read_string(packet: &Vec<u8>, offset: usize) -> (r: Option<(String, usize)>)
    requires
        string_at(packet@, offset as int),
    ensures
        r is Some <==> valid_utf8(string_read_bytes(packet@, offset as int)),
        r matches Some((s, end)) ==> s@ == decode_utf8(string_read_bytes(packet@, offset as int))
            && end == varint_read(packet@, offset as int).1 + (varint_read(
            packet@,
            offset as int,
        ).0 as usize),
{
    let (size, offset) = match read_varint(packet, offset) {
        Some((size, length)) => (size as usize, length),
        None => {
            return None;
        },
    };
    assert(offset + size <= packet.len());
    let bytes = vstd::slice::slice_to_vec(
        vstd::slice::slice_subrange(packet.as_slice(), offset, size + offset),
    );
    match string_from_utf8(bytes) {
        Some(res) => Some((res, offset + size)),
        None => None,
    }
}

/// Whatever `n` bytes read most significant first give, it fits in them.
pub proof fn lemma_be_fold_fits(s: Seq<u8>, n: nat)
    requires
        n <= 8,
    ensures
        n < 8 ==> be_fold(s, n) >> ((8 * n) as u64) == 0,
    decreases n,
{
    if n > 0 {
        lemma_be_fold_fits(s, (n - 1) as nat);
        let x = be_fold(s, (n - 1) as nat);
        let b = s[n - 1];
        let k = (8 * (n - 1)) as u64;
        assert(be_fold(s, n) == (x << 8u64) | (b as u64));
        assert(k < 56 ==> x >> k == 0 ==> ((x << 8u64) | (b as u64)) >> (k + 8) == 0)
            by (bit_vector);
        assert((8 * n) as u64 == k + 8);
    } else {
        assert(0u64 >> 0u64 == 0) by (bit_vector);
    }
}

/// Reads `size` bytes at `offset` as a big-endian value; gives the value
/// and `size`.
pub fn read_sized(packet: &Vec<u8>, offset: usize, size: usize) -> (r: (u64, usize))
    requires
        1 <= size <= 8,
        offset + size <= packet.len(),
    ensures
        r.0 == be_fold(packet@.skip(offset as int), size as nat),
        size < 8 ==> r.0 >> ((8 * size) as u64) == 0,
        r.1 == size,
{
    let ghost s = packet@.skip(offset as int);
    let mut value: u64 = packet[offset] as u64;
    assert(be_fold(s, 0) == 0);
    assert(value == (0u64 << 8u64) | value) by (bit_vector);
    assert(value == be_fold(s, 1));
    let mut i: usize = 1;
    while i < size
        invariant
            s == packet@.skip(offset as int),
            1 <= i <= size <= 8,
            offset + size <= packet.len(),
            value == be_fold(s, i as nat),
        decreases size - i,
    {
        value = value << 8u64 | packet[offset + i] as u64;
        i += 1;
    }
    proof {
        lemma_be_fold_fits(s, size as nat);
    }
    (value, size)
}

/// Whether a variable-length integer written for `v` reads back as `v`:
/// the last byte written held all that was left of it.
pub open spec fn varint_exact(v: u32) -> bool {
    v >> ((7 * (varint32_bytes(v).len() - 1)) as u32) < 0x80
}

/// Law: a variable-length integer written into a packet reads back, at
/// its offset, as the value cut to the groups written, and exactly as the
/// value where [`varint_exact`] holds of it; reading ends just after it.
pub proof fn lemma_read_varint_back(prefix: Seq<u8>, v: u32, rest: Seq<u8>)
    ensures
        ({
            let data = prefix + varint32_bytes(v) + rest;
            let n = varint32_bytes(v).len();
            &&& varint_at(data, prefix.len() as int)
            &&& varint_read(data, prefix.len() as int) == (
                (v & varint32_mask(n)) as i32,
                (prefix.len() + n) as int,
            )
            &&& (varint_exact(v) ==> varint_read(data, prefix.len() as int).0 == v as i32)
        }),
{
    let e = varint32_bytes(v);
    let data = prefix + e + rest;
    assert(data.skip(prefix.len() as int) == e + rest);
    lemma_varint32_read_back(v, rest);
}

/// Law: a string written into a packet reads back, at its offset, as the
/// same characters (its bytes are always valid UTF-8), where the length
/// written reads back exactly; reading ends just after it.
pub proof fn lemma_read_string_back(prefix: Seq<u8>, s: Seq<char>, rest: Seq<u8>)
    requires
        encode_utf8(s).len() <= i32::MAX,
        varint_exact(encode_utf8(s).len() as u32),
    ensures
        ({
            let data = prefix + string_bytes(s) + rest;
            &&& string_at(data, prefix.len() as int)
            &&& string_read_bytes(data, prefix.len() as int) == encode_utf8(s)
            &&& valid_utf8(encode_utf8(s))
            &&& decode_utf8(encode_utf8(s)) == s
            &&& varint_read(data, prefix.len() as int).1 + (varint_read(
                data,
                prefix.len() as int,
            ).0 as usize) == prefix.len() + string_bytes(s).len()
        }),
{
    let b = encode_utf8(s);
    let m = b.len() as u32;
    let e = varint32_bytes(m);
    let data = prefix + string_bytes(s) + rest;
    assert(data == prefix + e + (b + rest));
    lemma_read_varint_back(prefix, m, b + rest);
    assert(((m as i32) as usize) == b.len());
    let start = (prefix.len() + e.len()) as int;
    assert(data.subrange(start, start + b.len()) == b);
    vstd::utf8::encode_utf8_valid_utf8(s);
    vstd::utf8::encode_utf8_decode_utf8(s);
}

/// Law: a value written into a packet in `n` big-endian bytes reads back,
/// at its offset, as the value, where it fits in them.
pub proof fn lemma_read_sized_back(prefix: Seq<u8>, v: u64, n: nat, rest: Seq<u8>)
    requires
        1 <= n <= 8,
        n == 8 || v >> ((8 * n) as u64) == 0,
    ensures
        be_fold((prefix + be_bytes(v, n) + rest).skip(prefix.len() as int), n) == v,
{
    let data = prefix + be_bytes(v, n) + rest;
    assert(data.skip(prefix.len() as int) == be_bytes(v, n) + rest);
    lemma_fixed_read_back(v, n, rest);
}

} // verus!
