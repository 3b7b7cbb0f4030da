//! The packet that puts a client into the game.
use vstd::prelude::*;
use crate::bigendian::{be_bytes, be_fold, lemma_be_roundtrip};
use crate::util::packet::{frame, string_bytes, ConnState, ConnStateView, Packet, PacketBuilder};

verus! {

/// Builds a join game packet.
pub struct JoinGamePacketBuilder {
    entity_id: u32,
    gamemode: u8,
    dimension: i8,
    difficulty: u8,
    max_players: u8,
    level_type: String,
    reduced_debug_info: bool,
}

/// What a [`JoinGamePacketBuilder`] holds.
pub struct JoinGameView {
    pub entity_id: u32,
    pub gamemode: u8,
    pub dimension: i8,
    pub difficulty: u8,
    pub max_players: u8,
    pub level_type: Seq<char>,
    pub reduced_debug_info: bool,
}

impl View for JoinGamePacketBuilder {
    type V = JoinGameView;

    closed spec fn view(&self) -> JoinGameView {
        JoinGameView {
            entity_id: self.entity_id,
            gamemode: self.gamemode,
            dimension: self.dimension,
            difficulty: self.difficulty,
            max_players: self.max_players,
            level_type: self.level_type@,
            reduced_debug_info: self.reduced_debug_info,
        }
    }
}

/// The body of a join game packet: entity id (4 bytes), game mode,
/// dimension, difficulty and maximum number of players (a byte each), level
/// type (a protocol string), reduced debug info (a byte, 1 or 0).
pub open spec fn join_game_body(v: JoinGameView) -> Seq<u8> {
    be_bytes(v.entity_id as u64, 4) + be_bytes(v.gamemode as u64, 1) + be_bytes(
        v.dimension as u64,
        1,
    ) + be_bytes(v.difficulty as u64, 1) + be_bytes(v.max_players as u64, 1) + string_bytes(
        v.level_type,
    ) + be_bytes(
        if v.reduced_debug_info {
            1
        } else {
            0
        },
        1,
    )
}

/// What a new builder holds: entity 0, survival, overworld, peaceful, 100
/// players, level type "default", full debug info.
pub open spec fn default_join_game() -> JoinGameView {
    JoinGameView {
        entity_id: 0,
        gamemode: 0,
        dimension: 0,
        difficulty: 0,
        max_players: 100,
        level_type: "default"@,
        reduced_debug_info: false,
    }
}

/// The proxy state that goes with a join game packet: the connection's
/// state, switched to the play state (3).
pub open spec fn play_state(state: ConnStateView) -> ConnStateView {
    ConnStateView { state: 3, ..state }
}

/// Law: the body of a join game packet holds each field as it was set:
/// the entity id in its first four bytes (most significant first), then
/// one byte each for the game mode, the dimension (its two's complement
/// byte), the difficulty and the maximum number of players, then the
/// level type as a protocol string, and last 1 for reduced debug info, 0
/// for full.
pub proof fn lemma_join_game_fields(v: JoinGameView)
    ensures
        ({
            let b = join_game_body(v);
            let n = b.len();
            &&& n == 9 + string_bytes(v.level_type).len()
            &&& be_fold(b, 4) == v.entity_id
            &&& b[4] == v.gamemode
            &&& b[5] == v.dimension as u8
            &&& b[6] == v.difficulty
            &&& b[7] == v.max_players
            &&& b.subrange(8, n - 1) == string_bytes(v.level_type)
            &&& b[n - 1] == (if v.reduced_debug_info {
                1u8
            } else {
                0u8
            })
        }),
{
    let b = join_game_body(v);
    let e = be_bytes(v.entity_id as u64, 4);
    let s = string_bytes(v.level_type);
    let g = v.gamemode;
    let d = v.dimension;
    let f = v.difficulty;
    let m = v.max_players;
    assert(((g as u64 >> 0u64) & 0xFF) as u8 == g) by (bit_vector);
    assert(((d as u64 >> 0u64) & 0xFF) as u8 == d as u8) by (bit_vector);
    assert(((f as u64 >> 0u64) & 0xFF) as u8 == f) by (bit_vector);
    assert(((m as u64 >> 0u64) & 0xFF) as u8 == m) by (bit_vector);
    assert(((1u64 >> 0u64) & 0xFF) as u8 == 1u8) by (bit_vector);
    assert(((0u64 >> 0u64) & 0xFF) as u8 == 0u8) by (bit_vector);
    let id = v.entity_id;
    let x = id as u64;
    assert((id as u64) >> 32u64 == 0) by (bit_vector);
    lemma_be_roundtrip(x, 4);
    assert(b.subrange(0, 4) =~= e);
    assert(e.subrange(0, 4) =~= e);
    lemma_be_fold_agree(b, e, 4);
    assert(b.subrange(8, b.len() - 1) =~= s);
}

/// Two sequences that agree on their first `k` bytes read the same there.
proof fn lemma_be_fold_agree(a: Seq<u8>, b: Seq<u8>, k: nat)
    requires
        k <= a.len(),
        k <= b.len(),
        a.subrange(0, k as int) == b.subrange(0, k as int),
    ensures
        be_fold(a, k) == be_fold(b, k),
    decreases k,
{
    if k > 0 {
        assert(a[k - 1] == a.subrange(0, k as int)[k - 1]);
        assert(b[k - 1] == b.subrange(0, k as int)[k - 1]);
        assert(a.subrange(0, k - 1) == a.subrange(0, k as int).subrange(0, k - 1));
        assert(b.subrange(0, k - 1) == b.subrange(0, k as int).subrange(0, k - 1));
        lemma_be_fold_agree(a, b, (k - 1) as nat);
    }
}

impl JoinGamePacketBuilder {
    /// Entity 0, survival, overworld, peaceful, 100 players, level type
    /// "default", full debug info.
    pub fn new() -> (b: Self)
        ensures
            b@ == default_join_game(),
    {
        JoinGamePacketBuilder {
            entity_id: 0,
            gamemode: 0,
            dimension: 0,
            difficulty: 0,
            max_players: 100,
            level_type: String::from_str("default"),
            reduced_debug_info: false,
        }
    }

    pub fn entity_id(self, entity_id: u32) -> (b: Self)
        ensures
            b@ == (JoinGameView { entity_id, ..self@ }),
    {
        let mut b = self;
        b.entity_id = entity_id;
        b
    }

    /// Adds the game mode given by the low two bits of `gamemode` to the
    /// bits already set.
    pub fn gamemode(self, gamemode: u8) -> (b: Self)
        ensures
            b@ == (JoinGameView { gamemode: self@.gamemode | (gamemode & 3), ..self@ }),
    {
        let mut b = self;
        b.gamemode = b.gamemode | (gamemode & 3);
        b
    }

    /// Sets the hardcore bit of the game mode.
    pub fn hardcore(self) -> (b: Self)
        ensures
            b@ == (JoinGameView { gamemode: self@.gamemode | 4, ..self@ }),
    {
        let mut b = self;
        b.gamemode = b.gamemode | 4;
        b
    }

    pub fn dimension(self, dimension: i8) -> (b: Self)
        ensures
            b@ == (JoinGameView { dimension, ..self@ }),
    {
        let mut b = self;
        b.dimension = dimension;
        b
    }

    pub fn difficulty(self, difficulty: u8) -> (b: Self)
        ensures
            b@ == (JoinGameView { difficulty, ..self@ }),
    {
        let mut b = self;
        b.difficulty = difficulty;
        b
    }

    pub fn max_players(self, max_players: u8) -> (b: Self)
        ensures
            b@ == (JoinGameView { max_players, ..self@ }),
    {
        let mut b = self;
        b.max_players = max_players;
        b
    }

    pub fn level_type(self, level_type: String) -> (b: Self)
        ensures
            b@ == (JoinGameView { level_type: level_type@, ..self@ }),
    {
        let mut b = self;
        b.level_type = level_type;
        b
    }

    pub fn reduced_debug_info(self, reduced: bool) -> (b: Self)
        ensures
            b@ == (JoinGameView { reduced_debug_info: reduced, ..self@ }),
    {
        let mut b = self;
        b.reduced_debug_info = reduced;
        b
    }

    /// The join game packet (id 1) for connection `process_id`, carrying
    /// the proxy state `state` of the connection switched to the play
    /// state.  A negative dimension has no unsigned byte form and is not
    /// accepted.
    pub fn finish(self, process_id: String, state: &ConnState) -> (p: Packet)
        requires
            self@.dimension >= 0,
        ensures
            p@.pid == process_id@,
            p@.state == Some(play_state(state@)),
            p@.data == frame(1, join_game_body(self@)),
    {
        // Switch to play state
        let new_state = state.with_state(3);
        let reduced: u8 = if self.reduced_debug_info {
            1
        } else {
            0
        };
        let b = PacketBuilder::new(0x01, process_id).write_sized(self.entity_id as u64, 4).write_sized(
            self.gamemode as u64,
            1,
        ).write_sized(self.dimension as u64, 1).write_sized(self.difficulty as u64, 1).write_sized(
            self.max_players as u64,
            1,
        ).write_string(self.level_type).write_sized(reduced as u64, 1).state(Some(new_state));
        let p = b.finish();
        assert(p.data@ == frame(1, join_game_body(self@)));
        p
    }
}

} // verus!
