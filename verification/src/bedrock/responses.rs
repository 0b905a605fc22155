//! Bedrock response packet builders. Each builder's contract gives the exact
//! bytes of the packet, field by field, over the encodings of `util::encoding`.
use vstd::prelude::*;
use crate::util::buffer::Buffer;
use vstd::utf8::{encode_utf8, is_ascii_chars, is_ascii_chars_encode_utf8};
use crate::util::encoding::{
    be_bytes, bool_bytes, le_bytes, var_int32_bytes, var_int64_bytes, var_string_bytes, var_uint_bytes,
};

verus! {

/// PlayStatus (0x02): VarUInt packet ID, then the status as a big-endian u32.
pub open spec fn play_status_packet(status: u32) -> Seq<u8> {
    var_uint_bytes(0x02) + be_bytes(status as nat, 4)
}

/// Disconnect (0x05): reason as a signed VarInt, `hideReason` false, then the
/// message twice (message and filtered message).
pub open spec fn disconnect_packet(reason: i32, message: Seq<char>) -> Seq<u8> {
    var_uint_bytes(0x05) + var_int32_bytes(reason) + bool_bytes(false) + var_string_bytes(message)
        + var_string_bytes(message)
}

/// NetworkSettings (0x8f): compression threshold 1 and algorithm 0 (zlib) as
/// little-endian u16, client throttling off with threshold 0, and throttle
/// scalar 0.0 (four zero bytes, the little-endian binary32 encoding of 0.0).
pub open spec fn network_settings_packet() -> Seq<u8> {
    var_uint_bytes(0x8f) + le_bytes(1, 2) + le_bytes(0, 2) + bool_bytes(false) + seq![0u8]
        + le_bytes(0, 4)
}

/// ResourcePacksInfo (0x06), shaped by the client's protocol:
/// - below 766: three false flags, then the pack count as a little-endian u16;
/// - 766 and above: a fourth flag, a zero world-template UUID (two big-endian
///   u64) and an empty template version string come before the count;
/// - 2168 and above: the count is a VarUInt instead of a u16.
pub open spec fn resource_packs_info_packet(protocol: u32) -> Seq<u8> {
    let head = var_uint_bytes(0x06) + bool_bytes(false) + bool_bytes(false) + bool_bytes(false);
    let with_template = if protocol >= 766 {
        head + bool_bytes(false) + be_bytes(0, 8) + be_bytes(0, 8) + var_string_bytes(
            Seq::empty(),
        )
    } else {
        head
    };
    if protocol >= 2168 {
        with_template + var_uint_bytes(0)
    } else {
        with_template + le_bytes(0, 2)
    }
}

/// ResourcePackStack (0x07): not required, no packs, the base game version,
/// no experiments (u32 LE count 0), and two false flags.
pub open spec fn resource_pack_stack_packet(game_version: Seq<char>) -> Seq<u8> {
    var_uint_bytes(0x07) + bool_bytes(false) + var_uint_bytes(0) + var_string_bytes(game_version)
        + le_bytes(0, 4) + bool_bytes(false) + bool_bytes(false)
}

/// The characters of "plains".
pub open spec fn plains() -> Seq<char> {
    seq!['p', 'l', 'a', 'i', 'n', 's']
}

/// The characters of "AndroServeMC".
pub open spec fn server_world_name() -> Seq<char> {
    seq!['A', 'n', 'd', 'r', 'o', 'S', 'e', 'r', 'v', 'e', 'M', 'C']
}

/// StartGame (0x0b), protocol 2168 layout: the fields before the base game
/// version, the base game version, the fields up to the game version, the game
/// version, and the closing fields. Float fields appear as the little-endian
/// bytes of their binary32 encoding (0.0 is 0, 4.0 is 0x40800000).
/// Opaque: proofs that need its bytes `reveal` it.
#[verifier::opaque]
pub open spec fn start_game_packet(game_version: Seq<char>) -> Seq<u8> {
    start_game_head() + var_string_bytes(game_version) + start_game_middle() + var_string_bytes(
        game_version,
    ) + start_game_tail()
}

/// The fields of StartGame before the base game version.
#[verifier::opaque]
pub open spec fn start_game_head() -> Seq<u8> {
    var_uint_bytes(0x0b)
    // entity unique ID (zigzag VarInt64 of 1) and runtime ID (VarUInt64 1)
     + var_uint_bytes(2) + var_uint_bytes(1)
    // player game mode: creative
     + var_int32_bytes(1)
    // position (0.0, 4.0, 0.0), pitch 0.0, yaw 0.0
     + le_bytes(0, 4) + le_bytes(0x4080_0000, 4) + le_bytes(0, 4) + le_bytes(0, 4) + le_bytes(0, 4)
    // seed, spawn biome type, custom biome name
     + le_bytes(12345, 8) + le_bytes(0, 2) + var_string_bytes(plains())
    // dimension, generator, world game mode, hardcore, difficulty
     + var_int32_bytes(0) + var_int32_bytes(1) + var_int32_bytes(1) + bool_bytes(false)
        + var_int32_bytes(1)
    // spawn position (0, 4, 0)
     + var_int32_bytes(0) + var_int32_bytes(4) + var_int32_bytes(0)
    // achievements disabled, editor world type, created in / exported from editor,
    // day cycle lock time, education offer, education features, education product ID
     + bool_bytes(false) + var_int32_bytes(0) + bool_bytes(false) + bool_bytes(false)
        + var_int32_bytes(0) + var_uint_bytes(0) + bool_bytes(false) + var_string_bytes(Seq::empty())
    // rain and lightning levels (0.0)
     + le_bytes(0, 4) + le_bytes(0, 4)
    // platform locked content, multiplayer, LAN broadcast, XBL and platform broadcast mode,
    // commands enabled, texture pack required
     + bool_bytes(false) + bool_bytes(true) + bool_bytes(true) + var_int32_bytes(4)
        + var_int32_bytes(4) + bool_bytes(true) + bool_bytes(false)
    // no game rules, no experiments, experiments never toggled
     + var_uint_bytes(0) + le_bytes(0, 4) + bool_bytes(false)
    // bonus chest, start with map, member permissions, chunk tick range 4
     + bool_bytes(false) + bool_bytes(false) + seq![1u8] + le_bytes(4, 4)
    // ten false world flags (pack locks, templates, MSA tags, villagers, persona,
    // custom skins, emote chat)
     + bool_bytes(false) + bool_bytes(false) + bool_bytes(false) + bool_bytes(false)
        + bool_bytes(false) + bool_bytes(false) + bool_bytes(false) + bool_bytes(false)
        + bool_bytes(false) + bool_bytes(false)
}

/// The fields of StartGame between the base game version and the game version.
#[verifier::opaque]
pub open spec fn start_game_middle() -> Seq<u8> {
    // limited world width and depth, new nether
    le_bytes(0, 4) + le_bytes(0, 4) + bool_bytes(true)
    // education button name and link, force experimental gameplay, chat restriction,
    // disable player interactions, editor connection policy, anonymous block drops
     + var_string_bytes(Seq::empty()) + var_string_bytes(Seq::empty()) + bool_bytes(false)
        + seq![0u8] + bool_bytes(false) + var_int32_bytes(0) + bool_bytes(false)
    // level ID, world name, template content identity, trial
     + var_string_bytes(Seq::empty()) + var_string_bytes(server_world_name()) + var_string_bytes(
        Seq::empty(),
    ) + bool_bytes(false)
    // rewind history size, server authoritative block breaking
     + var_int32_bytes(0) + bool_bytes(false)
    // time, enchantment seed, empty block palette
     + le_bytes(0, 8) + var_int32_bytes(0) + var_uint_bytes(0)
    // multiplayer correlation ID, inventory server authoritative
     + var_string_bytes(Seq::empty()) + bool_bytes(false)
}

/// The fields of StartGame after the game version.
#[verifier::opaque]
pub open spec fn start_game_tail() -> Seq<u8> {
    // empty NBT compound, block registry checksum, world template UUID
    seq![0u8] + le_bytes(0, 8) + le_bytes(0, 8) + le_bytes(0, 8)
    // client-side generation, block network ID hashes, server sound, join information
     + bool_bytes(false) + bool_bytes(false) + bool_bytes(false) + bool_bytes(false)
    // server, scenario, world and owner IDs
     + var_string_bytes(Seq::empty()) + var_string_bytes(Seq::empty()) + var_string_bytes(
        Seq::empty(),
    ) + var_string_bytes(Seq::empty())
}

/// BiomeDefinitionList (0x7a): an empty NBT compound.
pub open spec fn biome_definitions_packet() -> Seq<u8> {
    var_uint_bytes(0x7a) + seq![0u8]
}

/// AvailableEntityIdentifiers (0x77): an empty NBT compound.
pub open spec fn entity_identifiers_packet() -> Seq<u8> {
    var_uint_bytes(0x77) + seq![0u8]
}

/// ChunkRadiusUpdated (0x46): the radius, reinterpreted as unsigned, as a VarUInt.
pub open spec fn chunk_radius_updated_packet(radius: i32) -> Seq<u8> {
    var_uint_bytes(0x46) + var_uint_bytes((radius as u32) as nat)
}

/// NetworkChunkPublisherUpdate (0x79): block position as three signed VarInts,
/// the radius as a VarUInt, and no saved chunks (u32 LE 0).
pub open spec fn network_chunk_publisher_update_packet(x: i32, y: i32, z: i32, radius: u32) -> Seq<
    u8,
> {
    var_uint_bytes(0x79) + var_int32_bytes(x) + var_int32_bytes(y) + var_int32_bytes(z)
        + var_uint_bytes(radius as nat) + le_bytes(0, 4)
}

/// LevelChunk (0x3a) of an empty Overworld chunk: the chunk coordinates as
/// signed VarInts, dimension 0, no sub-chunks, no sub-chunk limit, cache off,
/// no blob hashes and an empty payload.
pub open spec fn level_chunk_packet(chunk_x: i32, chunk_z: i32) -> Seq<u8> {
    var_uint_bytes(0x3a) + var_int32_bytes(chunk_x) + var_int32_bytes(chunk_z) + var_int32_bytes(0)
        + var_uint_bytes(0) + bool_bytes(false) + bool_bytes(false) + var_uint_bytes(0)
        + var_uint_bytes(0)
}

/// ItemRegistry (0xa2): no items.
pub open spec fn item_registry_packet() -> Seq<u8> {
    var_uint_bytes(0xa2) + var_uint_bytes(0)
}

/// CreativeContent (0x91): no groups and no items.
pub open spec fn creative_content_packet() -> Seq<u8> {
    var_uint_bytes(0x91) + var_uint_bytes(0) + var_uint_bytes(0)
}

/// Text (0x09), a raw chat message: type 1, no translation, source and message,
/// then empty Xbox user ID and platform chat ID.
pub open spec fn text_packet(source: Seq<char>, message: Seq<char>) -> Seq<u8> {
    var_uint_bytes(0x09) + seq![1u8] + bool_bytes(false) + var_string_bytes(source)
        + var_string_bytes(message) + var_string_bytes(Seq::empty()) + var_string_bytes(
        Seq::empty(),
    )
}

/// Build PlayStatus packet (0x02).
pub fn build_play_status(status: u32) -> (packet: Vec<u8>)
    ensures
        packet@ == play_status_packet(status),
{
    let mut buf = Buffer::new();
    let _ = buf.write_var_int(0x02);
    assert(buf@ =~= var_uint_bytes(0x02));
    let _ = buf.write_u32(status);
    buf.to_vec()
}

/// Build Disconnect packet (0x05).
pub fn build_disconnect(reason: i32, message: &str) -> (packet: Vec<u8>)
    ensures
        packet@ == disconnect_packet(reason, message@),
{
    let mut buf = Buffer::new();
    let _ = buf.write_var_int(0x05);
    assert(buf@ =~= var_uint_bytes(0x05));
    let _ = buf.write_signed_var_int(reason);
    let _ = buf.write_bool(false);
    let _ = buf.write_var_string(message);
    let _ = buf.write_var_string(message);
    buf.to_vec()
}

/// Build NetworkSettings packet (0x8f).
pub fn build_network_settings() -> (packet: Vec<u8>)
    ensures
        packet@ == network_settings_packet(),
{
    let mut buf = Buffer::new();
    let _ = buf.write_var_int(0x8f);
    assert(buf@ =~= var_uint_bytes(0x8f));
    let _ = buf.write_u16_le(1);
    let _ = buf.write_u16_le(0);
    let _ = buf.write_bool(false);
    let _ = buf.write_u8(0);
    // throttle scalar 0.0: binary32 bits 0
    let _ = buf.write_u32_le(0);
    buf.to_vec()
}

/// Build ResourcePacksInfo packet (0x06), adapting to the client's protocol version.
pub fn build_resource_packs_info(protocol: u32) -> (packet: Vec<u8>)
    ensures
        packet@ == resource_packs_info_packet(protocol),
{
    let mut buf = Buffer::new();
    let _ = buf.write_var_int(0x06);
    assert(buf@ =~= var_uint_bytes(0x06));
    let _ = buf.write_bool(false);
    let _ = buf.write_bool(false);
    let _ = buf.write_bool(false);
    if protocol >= 766 {
        let _ = buf.write_bool(false);
        let _ = buf.write_u64(0);
        let _ = buf.write_u64(0);
        proof {
            reveal_strlit("");
        }
        assert(""@ =~= Seq::<char>::empty());
        let _ = buf.write_var_string("");
    }
    if protocol >= 2168 {
        let _ = buf.write_var_int(0);
    } else {
        let _ = buf.write_u16_le(0);
    }
    buf.to_vec()
}

/// Build ResourcePackStack packet (0x07).
pub fn build_resource_pack_stack(game_version: &str) -> (packet: Vec<u8>)
    ensures
        packet@ == resource_pack_stack_packet(game_version@),
{
    let mut buf = Buffer::new();
    let _ = buf.write_var_int(0x07);
    assert(buf@ =~= var_uint_bytes(0x07));
    let _ = buf.write_bool(false);
    let _ = buf.write_var_int(0);
    let _ = buf.write_var_string(game_version);
    let _ = buf.write_u32_le(0);
    let _ = buf.write_bool(false);
    let _ = buf.write_bool(false);
    buf.to_vec()
}

/// Build StartGame packet (0x0b) - protocol 2168 format.
#[verifier::rlimit(40)]
pub fn build_start_game(game_version: &str) -> (packet: Vec<u8>)
    ensures
        packet@ == start_game_packet(game_version@),
{
    proof {
        reveal(start_game_packet);
        reveal_strlit("");
        reveal_strlit("plains");
    }
    assert(""@ =~= Seq::<char>::empty());
    assert("plains"@ =~= plains());
    let mut buf = Buffer::new();
    let _ = buf.write_var_int(0x0b);
    assert(buf@ =~= var_uint_bytes(0x0b));
    // entity unique ID (zigzag VarInt64 of 1 is the VarUInt 2), entity runtime ID
    let _ = buf.write_signed_var_i64(1);
    let _ = buf.write_var_u64(1);
    let _ = buf.write_signed_var_int(1);
    // position (0.0, 4.0, 0.0), pitch, yaw: binary32 bits
    let _ = buf.write_u32_le(0);
    let _ = buf.write_u32_le(0x4080_0000);
    let _ = buf.write_u32_le(0);
    let _ = buf.write_u32_le(0);
    let _ = buf.write_u32_le(0);
    // world settings
    let _ = buf.write_u64_le(12345);
    let _ = buf.write_u16_le(0);
    let _ = buf.write_var_string("plains");
    let _ = buf.write_signed_var_int(0);
    let _ = buf.write_signed_var_int(1);
    let _ = buf.write_signed_var_int(1);
    let _ = buf.write_bool(false);
    let _ = buf.write_signed_var_int(1);
    // spawn position
    let _ = buf.write_signed_var_int(0);
    let _ = buf.write_signed_var_int(4);
    let _ = buf.write_signed_var_int(0);
    let _ = buf.write_bool(false);
    let _ = buf.write_signed_var_int(0);
    let _ = buf.write_bool(false);
    let _ = buf.write_bool(false);
    let _ = buf.write_signed_var_int(0);
    let _ = buf.write_var_int(0);
    let _ = buf.write_bool(false);
    let _ = buf.write_var_string("");
    // rain and lightning levels (0.0)
    let _ = buf.write_u32_le(0);
    let _ = buf.write_u32_le(0);
    let _ = buf.write_bool(false);
    let _ = buf.write_bool(true);
    let _ = buf.write_bool(true);
    let _ = buf.write_signed_var_int(4);
    let _ = buf.write_signed_var_int(4);
    let _ = buf.write_bool(true);
    let _ = buf.write_bool(false);
    // game rules, experiments
    let _ = buf.write_var_int(0);
    let _ = buf.write_u32_le(0);
    let _ = buf.write_bool(false);
    let _ = buf.write_bool(false);
    let _ = buf.write_bool(false);
    let _ = buf.write_u8(1);
    let _ = buf.write_u32_le(4);
    let _ = buf.write_bool(false);
    let _ = buf.write_bool(false);
    let _ = buf.write_bool(false);
    let _ = buf.write_bool(false);
    let _ = buf.write_bool(false);
    let _ = buf.write_bool(false);
    let _ = buf.write_bool(false);
    let _ = buf.write_bool(false);
    let _ = buf.write_bool(false);
    let _ = buf.write_bool(false);
    proof {
        assert(var_int64_bytes(1) == var_uint_bytes(2));
    }
    assert(buf@ == start_game_head()) by {
        reveal(start_game_head);
    }
    let _ = buf.write_var_string(game_version);
    let middle = build_start_game_middle();
    let _ = buf.write_bytes(middle.as_slice());
    let _ = buf.write_var_string(game_version);
    let tail = build_start_game_tail();
    let _ = buf.write_bytes(tail.as_slice());
    buf.to_vec()
}

/// The fields of StartGame between the base game version and the game version.
fn build_start_game_middle() -> (bytes: Vec<u8>)
    ensures
        bytes@ == start_game_middle(),
{
    proof {
        reveal(start_game_middle);
        reveal_strlit("");
        reveal_strlit("AndroServeMC");
    }
    assert(""@ =~= Seq::<char>::empty());
    assert("AndroServeMC"@ =~= server_world_name());
    let mut buf = Buffer::new();
    let _ = buf.write_u32_le(0);
    assert(buf@ =~= le_bytes(0, 4));
    let _ = buf.write_u32_le(0);
    let _ = buf.write_bool(true);
    let _ = buf.write_var_string("");
    let _ = buf.write_var_string("");
    let _ = buf.write_bool(false);
    let _ = buf.write_u8(0);
    let _ = buf.write_bool(false);
    let _ = buf.write_signed_var_int(0);
    let _ = buf.write_bool(false);
    let _ = buf.write_var_string("");
    let _ = buf.write_var_string("AndroServeMC");
    let _ = buf.write_var_string("");
    let _ = buf.write_bool(false);
    // player movement settings
    let _ = buf.write_signed_var_int(0);
    let _ = buf.write_bool(false);
    let _ = buf.write_u64_le(0);
    let _ = buf.write_signed_var_int(0);
    // block properties
    let _ = buf.write_var_int(0);
    let _ = buf.write_var_string("");
    let _ = buf.write_bool(false);
    buf.to_vec()
}

/// The fields of StartGame after the game version.
fn build_start_game_tail() -> (bytes: Vec<u8>)
    ensures
        bytes@ == start_game_tail(),
{
    proof {
        reveal(start_game_tail);
        reveal_strlit("");
    }
    assert(""@ =~= Seq::<char>::empty());
    let mut buf = Buffer::new();
    // modern properties
    let _ = buf.write_u8(0);
    assert(buf@ =~= seq![0u8]);
    let _ = buf.write_u64_le(0);
    let _ = buf.write_u64_le(0);
    let _ = buf.write_u64_le(0);
    let _ = buf.write_bool(false);
    let _ = buf.write_bool(false);
    let _ = buf.write_bool(false);
    let _ = buf.write_bool(false);
    let _ = buf.write_var_string("");
    let _ = buf.write_var_string("");
    let _ = buf.write_var_string("");
    let _ = buf.write_var_string("");
    buf.to_vec()
}

/// Build BiomeDefinitionList packet (0x7a).
pub fn build_biome_definitions() -> (packet: Vec<u8>)
    ensures
        packet@ == biome_definitions_packet(),
{
    let mut buf = Buffer::new();
    let _ = buf.write_var_int(0x7a);
    assert(buf@ =~= var_uint_bytes(0x7a));
    let _ = buf.write_u8(0);
    buf.to_vec()
}

/// Build AvailableEntityIdentifiers packet (0x77).
pub fn build_entity_identifiers() -> (packet: Vec<u8>)
    ensures
        packet@ == entity_identifiers_packet(),
{
    let mut buf = Buffer::new();
    let _ = buf.write_var_int(0x77);
    assert(buf@ =~= var_uint_bytes(0x77));
    let _ = buf.write_u8(0);
    buf.to_vec()
}

/// Build ChunkRadiusUpdated packet (0x46).
pub fn build_chunk_radius_updated(radius: i32) -> (packet: Vec<u8>)
    ensures
        packet@ == chunk_radius_updated_packet(radius),
{
    let mut buf = Buffer::new();
    let _ = buf.write_var_int(0x46);
    assert(buf@ =~= var_uint_bytes(0x46));
    let _ = buf.write_var_int(radius as u32);
    buf.to_vec()
}

/// Build NetworkChunkPublisherUpdate packet (0x79).
pub fn build_network_chunk_publisher_update(x: i32, y: i32, z: i32, radius: u32) -> (packet: Vec<
    u8,
>)
    ensures
        packet@ == network_chunk_publisher_update_packet(x, y, z, radius),
{
    let mut buf = Buffer::new();
    let _ = buf.write_var_int(0x79);
    assert(buf@ =~= var_uint_bytes(0x79));
    let _ = buf.write_signed_var_int(x);
    let _ = buf.write_signed_var_int(y);
    let _ = buf.write_signed_var_int(z);
    let _ = buf.write_var_int(radius);
    let _ = buf.write_u32_le(0);
    buf.to_vec()
}

/// Build LevelChunk packet (0x3a) - empty Overworld chunk.
pub fn build_level_chunk(chunk_x: i32, chunk_z: i32) -> (packet: Vec<u8>)
    ensures
        packet@ == level_chunk_packet(chunk_x, chunk_z),
{
    let mut buf = Buffer::new();
    let _ = buf.write_var_int(0x3a);
    assert(buf@ =~= var_uint_bytes(0x3a));
    let _ = buf.write_signed_var_int(chunk_x);
    let _ = buf.write_signed_var_int(chunk_z);
    let _ = buf.write_signed_var_int(0);
    let _ = buf.write_var_int(0);
    let _ = buf.write_bool(false);
    let _ = buf.write_bool(false);
    let _ = buf.write_var_int(0);
    let _ = buf.write_var_int(0);
    buf.to_vec()
}

/// Build ItemRegistry packet (0xa2) - empty registry.
pub fn build_item_registry() -> (packet: Vec<u8>)
    ensures
        packet@ == item_registry_packet(),
{
    let mut buf = Buffer::new();
    let _ = buf.write_var_int(0xa2);
    assert(buf@ =~= var_uint_bytes(0xa2));
    let _ = buf.write_var_int(0);
    buf.to_vec()
}

/// Build CreativeContent packet (0x91) - empty creative inventory.
pub fn build_creative_content() -> (packet: Vec<u8>)
    ensures
        packet@ == creative_content_packet(),
{
    let mut buf = Buffer::new();
    let _ = buf.write_var_int(0x91);
    assert(buf@ =~= var_uint_bytes(0x91));
    let _ = buf.write_var_int(0);
    let _ = buf.write_var_int(0);
    buf.to_vec()
}

/// Build Text packet (0x09) - chat message.
pub fn build_text_packet(source: &str, message: &str) -> (packet: Vec<u8>)
    ensures
        packet@ == text_packet(source@, message@),
{
    proof {
        reveal_strlit("");
    }
    assert(""@ =~= Seq::<char>::empty());
    let mut buf = Buffer::new();
    let _ = buf.write_var_int(0x09);
    assert(buf@ =~= var_uint_bytes(0x09));
    let _ = buf.write_u8(1);
    let _ = buf.write_bool(false);
    let _ = buf.write_var_string(source);
    let _ = buf.write_var_string(message);
    let _ = buf.write_var_string("");
    let _ = buf.write_var_string("");
    buf.to_vec()
}

/// StartGame layout: every StartGame is the same fixed head, the game version
/// as a string, the same fixed middle, the game version again, and 33 zero
/// bytes; only the two copies of the version depend on the version.
pub proof fn lemma_start_game_layout(game_version: Seq<char>)
    ensures
        start_game_packet(game_version) == start_game_head() + var_string_bytes(game_version)
            + start_game_middle() + var_string_bytes(game_version) + Seq::new(33, |i: int| 0u8),
{
    reveal(start_game_packet);
    reveal(start_game_tail);
    lemma_empty_string_bytes();
    reveal_with_fuel(le_bytes, 9);
    assert(start_game_tail() =~= Seq::new(33, |i: int| 0u8));
}

/// The fixed head of StartGame is 95 bytes and the fixed middle 46 bytes: the
/// base game version starts at byte 95, and the game version 46 bytes after
/// the base game version ends.
pub proof fn lemma_start_game_part_lengths()
    ensures
        start_game_head().len() == 95,
        start_game_middle().len() == 46,
{
    reveal(start_game_head);
    reveal(start_game_middle);
    lemma_empty_string_bytes();
    assert(is_ascii_chars(plains()));
    assert(is_ascii_chars(server_world_name()));
    is_ascii_chars_encode_utf8(plains());
    is_ascii_chars_encode_utf8(server_world_name());
    reveal_with_fuel(le_bytes, 9);
}

/// The empty string is the single byte 0.
pub proof fn lemma_empty_string_bytes()
    ensures
        var_string_bytes(Seq::empty()) == seq![0u8],
{
    assert(encode_utf8(Seq::<char>::empty()) =~= Seq::<u8>::empty());
    assert(var_string_bytes(Seq::empty()) =~= seq![0u8]);
}

/// The fixed head of StartGame, byte by byte: entity IDs 1, creative game
/// mode, spawn at (0, 4, 0), seed 12345, "plains", overworld, infinite
/// generator, creative world, normal difficulty, multiplayer and LAN on,
/// broadcast mode 4, commands on, member permissions (byte 80 is 1), chunk
/// tick range 4, every other flag off.
pub open spec fn start_game_head_bytes() -> Seq<u8> {
    seq![0x0bu8, 0x02u8, 0x01u8, 0x02u8, 0x00u8, 0x00u8, 0x00u8, 0x00u8, 0x00u8, 0x00u8, 0x80u8, 0x40u8, 0x00u8, 0x00u8, 0x00u8, 0x00u8, 0x00u8, 0x00u8, 0x00u8, 0x00u8, 0x00u8, 0x00u8, 0x00u8, 0x00u8, 0x39u8, 0x30u8, 0x00u8, 0x00u8, 0x00u8, 0x00u8, 0x00u8, 0x00u8, 0x00u8, 0x00u8, 0x06u8, 0x70u8, 0x6cu8, 0x61u8, 0x69u8, 0x6eu8, 0x73u8, 0x00u8, 0x02u8, 0x02u8, 0x00u8, 0x02u8, 0x00u8, 0x08u8, 0x00u8, 0x00u8, 0x00u8, 0x00u8, 0x00u8, 0x00u8, 0x00u8, 0x00u8, 0x00u8, 0x00u8, 0x00u8, 0x00u8, 0x00u8, 0x00u8, 0x00u8, 0x00u8, 0x00u8, 0x00u8, 0x01u8, 0x01u8, 0x08u8, 0x08u8, 0x01u8, 0x00u8, 0x00u8, 0x00u8, 0x00u8, 0x00u8, 0x00u8, 0x00u8, 0x00u8, 0x00u8, 0x01u8, 0x04u8, 0x00u8, 0x00u8, 0x00u8, 0x00u8, 0x00u8, 0x00u8, 0x00u8, 0x00u8, 0x00u8, 0x00u8, 0x00u8, 0x00u8, 0x00u8]
}

/// The fixed middle of StartGame, byte by byte: new nether on, world name
/// "AndroServeMC", every other field zero or empty.
pub open spec fn start_game_middle_bytes() -> Seq<u8> {
    seq![0x00u8, 0x00u8, 0x00u8, 0x00u8, 0x00u8, 0x00u8, 0x00u8, 0x00u8, 0x01u8, 0x00u8, 0x00u8, 0x00u8, 0x00u8, 0x00u8, 0x00u8, 0x00u8, 0x00u8, 0x0cu8, 0x41u8, 0x6eu8, 0x64u8, 0x72u8, 0x6fu8, 0x53u8, 0x65u8, 0x72u8, 0x76u8, 0x65u8, 0x4du8, 0x43u8, 0x00u8, 0x00u8, 0x00u8, 0x00u8, 0x00u8, 0x00u8, 0x00u8, 0x00u8, 0x00u8, 0x00u8, 0x00u8, 0x00u8, 0x00u8, 0x00u8, 0x00u8, 0x00u8]
}

/// The UTF-8 bytes of the two fixed names of StartGame.
proof fn lemma_start_game_names()
    ensures
        encode_utf8(plains()) == seq![0x70u8, 0x6c, 0x61, 0x69, 0x6e, 0x73],
        encode_utf8(server_world_name()) == seq![
            0x41u8, 0x6e, 0x64, 0x72, 0x6f, 0x53, 0x65, 0x72, 0x76, 0x65, 0x4d, 0x43,
        ],
{
    assert(is_ascii_chars(plains()));
    assert(is_ascii_chars(server_world_name()));
    is_ascii_chars_encode_utf8(plains());
    is_ascii_chars_encode_utf8(server_world_name());
    assert(encode_utf8(plains()) =~= seq![0x70u8, 0x6c, 0x61, 0x69, 0x6e, 0x73]);
    assert(encode_utf8(server_world_name()) =~= seq![
        0x41u8, 0x6e, 0x64, 0x72, 0x6f, 0x53, 0x65, 0x72, 0x76, 0x65, 0x4d, 0x43,
    ]);
}

/// The fixed head of StartGame is these bytes.
#[verifier::spinoff_prover]
#[verifier::rlimit(100)]
proof fn lemma_start_game_head_bytes()
    ensures
        start_game_head() == start_game_head_bytes(),
{
    reveal(start_game_head);
    lemma_empty_string_bytes();
    lemma_start_game_names();
    reveal_with_fuel(le_bytes, 9);
    assert(le_bytes(0x4080_0000, 4) =~= seq![0x00u8, 0x00, 0x80, 0x40]);
    assert(le_bytes(12345, 8) =~= seq![0x39u8, 0x30, 0, 0, 0, 0, 0, 0]);
    assert(start_game_head() =~= start_game_head_bytes());
}

/// The fixed middle of StartGame is these bytes.
#[verifier::spinoff_prover]
#[verifier::rlimit(100)]
proof fn lemma_start_game_middle_bytes()
    ensures
        start_game_middle() == start_game_middle_bytes(),
{
    reveal(start_game_middle);
    lemma_empty_string_bytes();
    lemma_start_game_names();
    reveal_with_fuel(le_bytes, 9);
    assert(start_game_middle() =~= start_game_middle_bytes());
}

/// The closing fields of StartGame are 33 zero bytes.
proof fn lemma_start_game_tail_bytes()
    ensures
        start_game_tail() == Seq::new(33, |i: int| 0u8),
{
    reveal(start_game_tail);
    lemma_empty_string_bytes();
    reveal_with_fuel(le_bytes, 9);
    assert(start_game_tail() =~= Seq::new(33, |i: int| 0u8));
}

/// The fixed parts of StartGame are these bytes.
pub proof fn lemma_start_game_fixed_parts()
    ensures
        start_game_head() == start_game_head_bytes(),
        start_game_middle() == start_game_middle_bytes(),
        start_game_tail() == Seq::new(33, |i: int| 0u8),
{
    lemma_start_game_head_bytes();
    lemma_start_game_middle_bytes();
    lemma_start_game_tail_bytes();
}

/// Every StartGame, whatever its version, is the fixed head bytes, the version,
/// the fixed middle bytes, the version again and 33 zero bytes. In particular
/// byte 41 is dimension 0, byte 42 generator 1 (infinite), byte 43 world game
/// mode 1 (creative) as ZigZag 2, and byte 80 player permissions 1 (member).
pub proof fn lemma_start_game_bytes(game_version: Seq<char>)
    ensures
        start_game_packet(game_version) == start_game_head_bytes() + var_string_bytes(game_version)
            + start_game_middle_bytes() + var_string_bytes(game_version) + Seq::new(
            33,
            |i: int| 0u8,
        ),
        start_game_packet(game_version)[41] == 0,
        start_game_packet(game_version)[42] == 2,
        start_game_packet(game_version)[43] == 2,
        start_game_packet(game_version)[80] == 1,
{
    lemma_start_game_layout(game_version);
    lemma_start_game_fixed_parts();
    let h = start_game_head_bytes();
    let a = h + var_string_bytes(game_version);
    let b = a + start_game_middle_bytes();
    let c = b + var_string_bytes(game_version);
    let d = c + Seq::new(33, |i: int| 0u8);
    assert(h.len() == 95);
    assert(a[41] == h[41] && a[42] == h[42] && a[43] == h[43] && a[80] == h[80]);
    assert(b[41] == a[41] && b[42] == a[42] && b[43] == a[43] && b[80] == a[80]);
    assert(c[41] == b[41] && c[42] == b[42] && c[43] == b[43] && c[80] == b[80]);
    assert(d[41] == c[41] && d[42] == c[42] && d[43] == c[43] && d[80] == c[80]);
}

/// The small packets on the wire, byte by byte: each starts with its one-byte
/// packet ID, and every field but the given ones is zero.
pub proof fn lemma_packet_bytes(status: u32, reason: i32, text: Seq<char>, other: Seq<char>)
    ensures
        play_status_packet(status) == seq![0x02u8] + be_bytes(status as nat, 4),
        disconnect_packet(reason, text) == seq![0x05u8] + var_int32_bytes(reason) + seq![0x00u8]
            + var_string_bytes(text) + var_string_bytes(text),
        network_settings_packet() == seq![
            0x8fu8, 0x01, 0x01, 0x00, 0x00, 0x00, 0x00, 0x00, 0x00, 0x00, 0x00, 0x00,
        ],
        resource_pack_stack_packet(text) == seq![0x07u8, 0x00, 0x00] + var_string_bytes(text)
            + seq![0x00u8, 0x00, 0x00, 0x00, 0x00, 0x00],
        biome_definitions_packet() == seq![0x7au8, 0x00],
        entity_identifiers_packet() == seq![0x77u8, 0x00],
        item_registry_packet() == seq![0xa2u8, 0x01, 0x00],
        creative_content_packet() == seq![0x91u8, 0x01, 0x00, 0x00],
        text_packet(text, other) == seq![0x09u8, 0x01, 0x00] + var_string_bytes(text)
            + var_string_bytes(other) + seq![0x00u8, 0x00],
{
    reveal_with_fuel(var_uint_bytes, 3);
    reveal_with_fuel(le_bytes, 5);
    lemma_empty_string_bytes();
    assert(network_settings_packet() =~= seq![
        0x8fu8, 0x01, 0x01, 0x00, 0x00, 0x00, 0x00, 0x00, 0x00, 0x00, 0x00, 0x00,
    ]);
    assert(resource_pack_stack_packet(text) =~= seq![0x07u8, 0x00, 0x00] + var_string_bytes(text)
        + seq![0x00u8, 0x00, 0x00, 0x00, 0x00, 0x00]);
    assert(biome_definitions_packet() =~= seq![0x7au8, 0x00]);
    assert(entity_identifiers_packet() =~= seq![0x77u8, 0x00]);
    assert(item_registry_packet() =~= seq![0xa2u8, 0x01, 0x00]);
    assert(creative_content_packet() =~= seq![0x91u8, 0x01, 0x00, 0x00]);
    assert(text_packet(text, other) =~= seq![0x09u8, 0x01, 0x00] + var_string_bytes(text)
        + var_string_bytes(other) + seq![0x00u8, 0x00]);
    assert(disconnect_packet(reason, text) =~= seq![0x05u8] + var_int32_bytes(reason)
        + seq![0x00u8] + var_string_bytes(text) + var_string_bytes(text));
}

/// The chunk packets on the wire: ChunkRadiusUpdated is 0x46 and the radius
/// reinterpreted as unsigned; NetworkChunkPublisherUpdate is 0x79, the
/// position, the radius and four zero bytes; LevelChunk is 0x3a, the chunk
/// coordinates and six zero bytes.
pub proof fn lemma_chunk_packet_bytes(x: i32, y: i32, z: i32, radius: u32, signed_radius: i32)
    ensures
        chunk_radius_updated_packet(signed_radius) == seq![0x46u8] + var_uint_bytes(
            (signed_radius as u32) as nat,
        ),
        network_chunk_publisher_update_packet(x, y, z, radius) == seq![0x79u8] + var_int32_bytes(x)
            + var_int32_bytes(y) + var_int32_bytes(z) + var_uint_bytes(radius as nat) + seq![
            0x00u8,
            0x00,
            0x00,
            0x00,
        ],
        level_chunk_packet(x, z) == seq![0x3au8] + var_int32_bytes(x) + var_int32_bytes(z) + seq![
            0x00u8,
            0x00,
            0x00,
            0x00,
            0x00,
            0x00,
        ],
{
    reveal_with_fuel(le_bytes, 5);
    assert(var_int32_bytes(0) == seq![0x00u8]);
    assert(network_chunk_publisher_update_packet(x, y, z, radius) =~= seq![0x79u8]
        + var_int32_bytes(x) + var_int32_bytes(y) + var_int32_bytes(z) + var_uint_bytes(
        radius as nat,
    ) + seq![0x00u8, 0x00, 0x00, 0x00]);
    assert(level_chunk_packet(x, z) =~= seq![0x3au8] + var_int32_bytes(x) + var_int32_bytes(z)
        + seq![0x00u8, 0x00, 0x00, 0x00, 0x00, 0x00]);
}

/// ResourcePacksInfo on the wire, by protocol era: six bytes below 766; from
/// 766 a flag, a zero 16-byte UUID and an empty string come before the count,
/// which is a two-byte zero below 2168 and a one-byte VarUInt zero from 2168.
pub proof fn lemma_resource_packs_info_bytes(protocol: u32)
    ensures
        protocol < 766 ==> resource_packs_info_packet(protocol) == seq![
            0x06u8, 0x00, 0x00, 0x00, 0x00, 0x00,
        ],
        766 <= protocol < 2168 ==> resource_packs_info_packet(protocol) == seq![0x06u8, 0x00, 0x00,
            0x00, 0x00] + Seq::new(16, |i: int| 0u8) + seq![0x00u8, 0x00, 0x00],
        2168 <= protocol ==> resource_packs_info_packet(protocol) == seq![0x06u8, 0x00, 0x00, 0x00,
            0x00] + Seq::new(16, |i: int| 0u8) + seq![0x00u8, 0x00],
{
    reveal_with_fuel(be_bytes, 9);
    reveal_with_fuel(le_bytes, 3);
    lemma_empty_string_bytes();
    if protocol < 766 {
        assert(resource_packs_info_packet(protocol) =~= seq![0x06u8, 0x00, 0x00, 0x00, 0x00, 0x00]);
    } else if protocol < 2168 {
        assert(resource_packs_info_packet(protocol) =~= seq![0x06u8, 0x00, 0x00, 0x00, 0x00]
            + Seq::new(16, |i: int| 0u8) + seq![0x00u8, 0x00, 0x00]);
    } else {
        assert(resource_packs_info_packet(protocol) =~= seq![0x06u8, 0x00, 0x00, 0x00, 0x00]
            + Seq::new(16, |i: int| 0u8) + seq![0x00u8, 0x00]);
    }
}

} // verus!
