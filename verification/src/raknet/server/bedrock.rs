//! Bedrock-layer packet handling: what the server answers to each packet a
//! client sends, and how the client's session changes.
//!
//! The functions here decide; the caller carries the decisions out. It looks
//! up the session of the sender, hands the packet in, and then sends every
//! [`Outgoing`] in order (framing it with `raknet::server::batch`).
use vstd::prelude::*;
use crate::bedrock::responses::{
    biome_definitions_packet, build_biome_definitions, build_chunk_radius_updated,
    build_creative_content, build_entity_identifiers, build_item_registry, build_level_chunk,
    build_network_chunk_publisher_update, build_network_settings, build_play_status,
    build_resource_pack_stack, build_resource_packs_info, build_start_game, build_text_packet,
    chunk_radius_updated_packet, lemma_chunk_packet_bytes, lemma_packet_bytes, creative_content_packet, entity_identifiers_packet,
    item_registry_packet, level_chunk_packet, network_chunk_publisher_update_packet,
    network_settings_packet, play_status_packet, resource_pack_stack_packet,
    resource_packs_info_packet, start_game_packet, text_packet,
};
use crate::util::buffer::Buffer;
use crate::util::encoding::{
    be_bytes, be_value, le_bytes, le_value, lemma_be_roundtrip, lemma_le_roundtrip, lemma_pow_values,
    lemma_var_string_roundtrip, lemma_var_u32_roundtrip, lemma_var_uint_prefix_bounds,
    var_int32_bytes, var_string_bytes, var_string_prefix, var_u32_prefix, var_uint_bytes,
};
use vstd::utf8::encode_utf8;

verus! {

/// What the server keeps about a connected client.
pub struct Session {
    /// The player's name, once the login was accepted.
    pub username: Option<String>,
    /// The Bedrock protocol version the client announced.
    pub bedrock_protocol: u16,
    /// The game version that protocol stands for.
    pub bedrock_version: String,
    /// Whether compression has been negotiated.
    pub compression_enabled: bool,
    /// The compression algorithm the client chose, when it chose one.
    pub compression_algo: Option<u8>,
    /// Whether the login completed; only such sessions receive broadcasts.
    pub connected: bool,
}

/// The mathematical view of a [`Session`].
pub struct SessionModel {
    pub username: Option<Seq<char>>,
    pub bedrock_protocol: u16,
    pub bedrock_version: Seq<char>,
    pub compression_enabled: bool,
    pub compression_algo: Option<u8>,
    pub connected: bool,
}

impl Session {
    /// The session of a client that has just connected: no name yet, on
    /// `bedrock_protocol` and `bedrock_version`, no compression, not logged in.
    pub fn new(bedrock_protocol: u16, bedrock_version: String) -> (s: Session)
        ensures
            s@ == (SessionModel {
                username: None,
                bedrock_protocol,
                bedrock_version: bedrock_version@,
                compression_enabled: false,
                compression_algo: None,
                connected: false,
            }),
    {
        Session {
            username: None,
            bedrock_protocol,
            bedrock_version,
            compression_enabled: false,
            compression_algo: None,
            connected: false,
        }
    }
}

impl View for Session {
    type V = SessionModel;

    open spec fn view(&self) -> SessionModel {
        SessionModel {
            username: match self.username {
                Some(u) => Some(u@),
                None => None,
            },
            bedrock_protocol: self.bedrock_protocol,
            bedrock_version: self.bedrock_version@,
            compression_enabled: self.compression_enabled,
            compression_algo: self.compression_algo,
            connected: self.connected,
        }
    }
}

/// The view of an optional session.
pub open spec fn session_model(session: Option<Session>) -> Option<SessionModel> {
    match session {
        Some(s) => Some(s@),
        None => None,
    }
}

/// What the handlers need to know of the server: the protocol version and the
/// game version it runs.
pub struct ServerContext {
    pub protocol_version: u32,
    pub version: String,
}

/// What the server does in answer to a packet, in order.
pub enum Outgoing {
    /// One packet to the sender, in a batch of its own.
    Packet { packet: Vec<u8>, force_uncompressed: bool },
    /// Several packets to the sender, in one batch.
    Bundle { packets: Vec<Vec<u8>> },
    /// One packet to every connected session, the sender left out when `exclude_sender`.
    Broadcast { packet: Vec<u8>, exclude_sender: bool },
    /// The rest of a Login packet, for the login parser; its result comes back
    /// through [`handle_login_accepted`].
    ParseLogin { payload: Vec<u8> },
    /// Server-wide: record the protocol of the client that just logged in as
    /// the protocol the server follows.
    SyncClientVersion { protocol: u16 },
}

/// The mathematical view of an [`Outgoing`].
pub enum OutgoingModel {
    Packet(Seq<u8>, bool),
    Bundle(Seq<Seq<u8>>),
    Broadcast(Seq<u8>, bool),
    ParseLogin(Seq<u8>),
    SyncClientVersion(u16),
}

impl View for Outgoing {
    type V = OutgoingModel;

    open spec fn view(&self) -> OutgoingModel {
        match self {
            Outgoing::Packet { packet, force_uncompressed } => OutgoingModel::Packet(
                packet@,
                *force_uncompressed,
            ),
            Outgoing::Bundle { packets } => OutgoingModel::Bundle(
                packets@.map_values(|p: Vec<u8>| p@),
            ),
            Outgoing::Broadcast { packet, exclude_sender } => OutgoingModel::Broadcast(
                packet@,
                *exclude_sender,
            ),
            Outgoing::ParseLogin { payload } => OutgoingModel::ParseLogin(payload@),
            Outgoing::SyncClientVersion { protocol } => OutgoingModel::SyncClientVersion(*protocol),
        }
    }
}

/// The views of a sequence of answers.
pub open spec fn outgoing_models(out: Seq<Outgoing>) -> Seq<OutgoingModel> {
    out.map_values(|o: Outgoing| o@)
}

/// The protocol version of a session, or the server's own when there is no session.
pub open spec fn session_protocol(session: Option<SessionModel>, server_protocol: u32) -> u32 {
    match session {
        Some(s) => s.bedrock_protocol as u32,
        None => server_protocol,
    }
}

/// A 32-bit VarUInt read from the front of `s`, or `default` with nothing
/// consumed when there is none.
pub open spec fn var_u32_or(s: Seq<u8>, default: u32) -> (u32, Seq<u8>) {
    match var_u32_prefix(s) {
        Some((v, n)) => (v, s.skip(n as int)),
        None => (default, s),
    }
}

/// A byte read from the front of `s`, or 0 with nothing consumed.
pub open spec fn u8_or_zero(s: Seq<u8>) -> (u8, Seq<u8>) {
    if s.len() >= 1 {
        (s[0], s.drop_first())
    } else {
        (0, s)
    }
}

/// A little-endian u64 read from the front of `s`, or 0 with nothing consumed.
pub open spec fn u64_le_or_zero(s: Seq<u8>) -> (u64, Seq<u8>) {
    if s.len() >= 8 {
        (le_value(s.take(8)) as u64, s.skip(8))
    } else {
        (0, s)
    }
}

/// A big-endian u32 read from the front of `s`, or `default` with nothing consumed.
pub open spec fn u32_or(s: Seq<u8>, default: u32) -> (u32, Seq<u8>) {
    if s.len() >= 4 {
        (be_value(s.take(4)) as u32, s.skip(4))
    } else {
        (default, s)
    }
}

/// A string read from the front of `s`, or the empty string with nothing consumed.
pub open spec fn string_or_empty(s: Seq<u8>) -> (Seq<char>, Seq<u8>) {
    match var_string_prefix(s) {
        Some((t, n)) => (t, s.skip(n as int)),
        None => (Seq::empty(), s),
    }
}

/// TickSync (0x17) answer: the request and response timestamps echoed as
/// little-endian u64.
pub open spec fn tick_sync_packet(request_time: u64, response_time: u64) -> Seq<u8> {
    var_uint_bytes(0x17) + le_bytes(request_time as nat, 8) + le_bytes(response_time as nat, 8)
}

/// The answer to TickSync: the two timestamps it carries (0 where missing), echoed back.
pub open spec fn tick_sync_outgoing(body: Seq<u8>) -> Seq<OutgoingModel> {
    let (request_time, rest) = u64_le_or_zero(body);
    let (response_time, _) = u64_le_or_zero(rest);
    seq![OutgoingModel::Packet(tick_sync_packet(request_time, response_time), false)]
}

/// Build the TickSync (0x17) answer.
pub fn build_tick_sync(request_time: u64, response_time: u64) -> (packet: Vec<u8>)
    ensures
        packet@ == tick_sync_packet(request_time, response_time),
{
    let mut buf = Buffer::new();
    let _ = buf.write_var_int(0x17);
    assert(buf@ =~= var_uint_bytes(0x17));
    let _ = buf.write_u64_le(request_time);
    let _ = buf.write_u64_le(response_time);
    buf.to_vec()
}

/// Handle TickSync (0x17).
pub fn handle_tick_sync(buf: &mut Buffer) -> (out: Vec<Outgoing>)
    ensures
        outgoing_models(out@) == tick_sync_outgoing(old(buf).unread()),
{
    let request_time = match buf.read_u64_le() {
        Ok(t) => t,
        Err(_) => 0,
    };
    let response_time = match buf.read_u64_le() {
        Ok(t) => t,
        Err(_) => 0,
    };
    let packet = build_tick_sync(request_time, response_time);
    let out = vec![Outgoing::Packet { packet, force_uncompressed: false }];
    assert(outgoing_models(out@) =~= tick_sync_outgoing(old(buf).unread()));
    out
}

/// Whether a ResourcePackClientResponse status asks for the pack stack, and
/// whether it asks for the game to start. The numbering depends on the
/// protocol: from 2168 on, 2 is "downloading finished" and 3 "stack finished";
/// before, 3 is "all packs downloaded" and 4 "completed".
pub open spec fn resource_pack_steps(protocol: u32, status: u32) -> (bool, bool) {
    if protocol >= 2168 {
        (status == 2, status == 3)
    } else {
        (status == 3, status == 4)
    }
}

/// The answer to ResourcePackClientResponse: the pack stack, or the bundle that
/// starts the game (StartGame, ItemRegistry, BiomeDefinitionList,
/// AvailableEntityIdentifiers), or nothing. A missing status counts as 0.
pub open spec fn resource_pack_response_outgoing(body: Seq<u8>, protocol: u32, version: Seq<char>) -> Seq<
    OutgoingModel,
> {
    let status = var_u32_or(body, 0).0;
    let (send_stack, send_start) = resource_pack_steps(protocol, status);
    if send_stack {
        seq![OutgoingModel::Packet(resource_pack_stack_packet(version), false)]
    } else if send_start {
        seq![
            OutgoingModel::Bundle(
                seq![
                    start_game_packet(version),
                    item_registry_packet(),
                    biome_definitions_packet(),
                    entity_identifiers_packet(),
                ],
            ),
        ]
    } else {
        Seq::empty()
    }
}

/// Handle ResourcePackClientResponse (0x08) from a client on `protocol`.
pub fn handle_resource_pack_client_response(buf: &mut Buffer, protocol: u32, version: &str) -> (out:
    Vec<Outgoing>)
    ensures
        outgoing_models(out@) == resource_pack_response_outgoing(
            old(buf).unread(),
            protocol,
            version@,
        ),
{
    let status = match buf.read_var_int() {
        Ok(s) => s,
        Err(_) => 0,
    };
    assert(status == var_u32_or(old(buf).unread(), 0).0);
    let (send_stack, send_start) = if protocol >= 2168 {
        (status == 2, status == 3)
    } else {
        (status == 3, status == 4)
    };
    if send_stack {
        let packet = build_resource_pack_stack(version);
        let out = vec![Outgoing::Packet { packet, force_uncompressed: false }];
        assert(outgoing_models(out@) =~= resource_pack_response_outgoing(
            old(buf).unread(),
            protocol,
            version@,
        ));
        out
    } else if send_start {
        let packets = vec![
            build_start_game(version),
            build_item_registry(),
            build_biome_definitions(),
            build_entity_identifiers(),
        ];
        let ghost expected = seq![
            start_game_packet(version@),
            item_registry_packet(),
            biome_definitions_packet(),
            entity_identifiers_packet(),
        ];
        assert(packets@.map_values(|p: Vec<u8>| p@) =~= expected);
        let out = vec![Outgoing::Bundle { packets }];
        assert(outgoing_models(out@) =~= resource_pack_response_outgoing(
            old(buf).unread(),
            protocol,
            version@,
        ));
        out
    } else {
        let out = Vec::new();
        assert(outgoing_models(out@) =~= resource_pack_response_outgoing(
            old(buf).unread(),
            protocol,
            version@,
        ));
        out
    }
}

/// The chunk `i` of the 3 by 3 square of chunks around the origin, in the order
/// they are sent: x from -1 to 1, and for each x, z from -1 to 1.
pub open spec fn flat_chunk(i: int) -> OutgoingModel {
    OutgoingModel::Packet(level_chunk_packet((i / 3 - 1) as i32, (i % 3 - 1) as i32), false)
}

/// The radius a RequestChunkRadius asks for: a 32-bit VarUInt, 4 when missing.
pub open spec fn requested_radius(body: Seq<u8>) -> u32 {
    var_u32_or(body, 4).0
}

/// The largest radius whose publisher radius (16 times it) fits in 32 bits.
pub const MAX_CHUNK_RADIUS: u32 = 0x0fff_ffff;

/// The answer to RequestChunkRadius, in order: ChunkRadiusUpdated with the
/// requested radius, NetworkChunkPublisherUpdate at (0, 4, 0) with a radius of
/// 16 times it, the nine empty chunks around the origin, PlayStatus "player
/// spawn" (3), and the empty CreativeContent.
pub open spec fn chunk_radius_outgoing(body: Seq<u8>) -> Seq<OutgoingModel> {
    let radius = requested_radius(body);
    seq![
        OutgoingModel::Packet(chunk_radius_updated_packet(radius as i32), false),
        OutgoingModel::Packet(
            network_chunk_publisher_update_packet(0, 4, 0, (radius * 16) as u32),
            false,
        ),
    ] + Seq::new(9, |i: int| flat_chunk(i)) + seq![
        OutgoingModel::Packet(play_status_packet(3), false),
        OutgoingModel::Packet(creative_content_packet(), false),
    ]
}

/// Handle RequestChunkRadius (0x45 or 0x61). A radius above
/// [`MAX_CHUNK_RADIUS`] makes 16 times it overflow 32 bits, so it is left out.
pub fn handle_request_chunk_radius(buf: &mut Buffer) -> (out: Vec<Outgoing>)
    requires
        requested_radius(old(buf).unread()) <= MAX_CHUNK_RADIUS,
    ensures
        outgoing_models(out@) == chunk_radius_outgoing(old(buf).unread()),
{
    let radius = match buf.read_var_int() {
        Ok(r) => r,
        Err(_) => 4,
    };
    let mut out: Vec<Outgoing> = Vec::new();
    out.push(
        Outgoing::Packet {
            packet: build_chunk_radius_updated(#[verifier::truncate] (radius as i32)),
            force_uncompressed: false,
        },
    );
    out.push(
        Outgoing::Packet {
            packet: build_network_chunk_publisher_update(0, 4, 0, radius * 16),
            force_uncompressed: false,
        },
    );
    let ghost head = outgoing_models(out@);
    assert(head =~= seq![
        OutgoingModel::Packet(chunk_radius_updated_packet(radius as i32), false),
        OutgoingModel::Packet(
            network_chunk_publisher_update_packet(0, 4, 0, (radius * 16) as u32),
            false,
        ),
    ]);
    assert(head + Seq::new(0, |i: int| flat_chunk(i)) =~= head);
    let mut x: i32 = -1;
    while x <= 1
        invariant
            -1 <= x <= 2,
            outgoing_models(out@) == head + Seq::new((3 * (x + 1)) as nat, |i: int| flat_chunk(i)),
        decreases 2 - x,
    {
        let mut z: i32 = -1;
        while z <= 1
            invariant
                -1 <= x <= 1,
                -1 <= z <= 2,
                outgoing_models(out@) == head + Seq::new(
                    (3 * (x + 1) + (z + 1)) as nat,
                    |i: int| flat_chunk(i),
                ),
            decreases 2 - z,
        {
            let ghost before = outgoing_models(out@);
            out.push(Outgoing::Packet { packet: build_level_chunk(x, z), force_uncompressed: false });
            proof {
                let k = 3 * (x + 1) + (z + 1);
                assert(k / 3 - 1 == x && k % 3 - 1 == z);
                assert(outgoing_models(out@) =~= before.push(flat_chunk(k)));
                assert(Seq::new((k + 1) as nat, |i: int| flat_chunk(i)) =~= Seq::new(
                    k as nat,
                    |i: int| flat_chunk(i),
                ).push(flat_chunk(k)));
            }
            z = z + 1;
        }
        x = x + 1;
    }
    let ghost chunks = outgoing_models(out@);
    out.push(Outgoing::Packet { packet: build_play_status(3), force_uncompressed: false });
    out.push(Outgoing::Packet { packet: build_creative_content(), force_uncompressed: false });
    let ghost tail = seq![
        OutgoingModel::Packet(play_status_packet(3), false),
        OutgoingModel::Packet(creative_content_packet(), false),
    ];
    assert(outgoing_models(out@) =~= chunks + tail);
    assert(radius == var_u32_or(old(buf).unread(), 4).0);
    assert(outgoing_models(out@) =~= chunk_radius_outgoing(old(buf).unread()));
    out
}

/// The answer to a Text packet: for a chat (1) or raw (2) message, its sender
/// and text are broadcast to everyone else as a chat message. The type byte and
/// the translation flag count as 0 where missing; a missing or malformed string
/// counts as empty. Other message types get no answer.
pub open spec fn text_outgoing(body: Seq<u8>) -> Seq<OutgoingModel> {
    let (msg_type, rest) = u8_or_zero(body);
    let (_needs_translation, rest) = u8_or_zero(rest);
    if msg_type == 1 || msg_type == 2 {
        let (sender, rest) = string_or_empty(rest);
        let (message, _) = string_or_empty(rest);
        seq![OutgoingModel::Broadcast(text_packet(sender, message), true)]
    } else {
        Seq::empty()
    }
}

/// Reads a string, or gives the empty string (reading nothing) when there is none.
fn read_string_or_empty(buf: &mut Buffer) -> (s: String)
    ensures
        (s@, final(buf).unread()) == string_or_empty(old(buf).unread()),
{
    match buf.read_var_string() {
        Ok(s) => s,
        Err(_) => String::new(),
    }
}

/// Handle a Text packet (0x09).
pub fn handle_text_packet(buf: &mut Buffer) -> (out: Vec<Outgoing>)
    ensures
        outgoing_models(out@) == text_outgoing(old(buf).unread()),
{
    let msg_type = match buf.read_u8() {
        Ok(t) => t,
        Err(_) => 0,
    };
    let _needs_translation = match buf.read_u8() {
        Ok(t) => t != 0,
        Err(_) => false,
    };
    if msg_type == 1 || msg_type == 2 {
        let sender = read_string_or_empty(buf);
        let message = read_string_or_empty(buf);
        let packet = build_text_packet(sender.as_str(), message.as_str());
        let out = vec![Outgoing::Broadcast { packet, exclude_sender: true }];
        assert(outgoing_models(out@) =~= text_outgoing(old(buf).unread()));
        out
    } else {
        let out = Vec::new();
        assert(outgoing_models(out@) =~= text_outgoing(old(buf).unread()));
        out
    }
}

/// The name a session goes by: its username, or "Player" when it has none.
pub open spec fn display_name(session: Option<SessionModel>) -> Seq<char> {
    match session {
        Some(s) => match s.username {
            Some(u) => u,
            None => "Player"@,
        },
        None => "Player"@,
    }
}

/// The answer to SetLocalPlayerAsInitialized: "<name> joined AndroServeMC!"
/// from "Server", broadcast to every connected session.
pub open spec fn player_initialized_outgoing(session: Option<SessionModel>) -> Seq<OutgoingModel> {
    seq![
        OutgoingModel::Broadcast(
            text_packet("Server"@, display_name(session) + " joined AndroServeMC!"@),
            false,
        ),
    ]
}

/// Handle SetLocalPlayerAsInitialized (0x71).
pub fn handle_player_initialized(session: &Option<Session>) -> (out: Vec<Outgoing>)
    ensures
        outgoing_models(out@) == player_initialized_outgoing(session_model(*session)),
{
    let mut message: String = match session {
        Some(s) => match &s.username {
            Some(u) => u.clone(),
            None => "Player".to_owned(),
        },
        None => "Player".to_owned(),
    };
    message.append(" joined AndroServeMC!");
    let packet = build_text_packet("Server", message.as_str());
    let out = vec![Outgoing::Broadcast { packet, exclude_sender: false }];
    assert(outgoing_models(out@) =~= player_initialized_outgoing(session_model(*session)));
    out
}

/// The protocol a RequestNetworkSettings announces: a big-endian u32, the
/// server's protocol when missing.
pub open spec fn requested_protocol(body: Seq<u8>, server_protocol: u32) -> u32 {
    u32_or(body, server_protocol).0
}

/// A session after RequestNetworkSettings: it takes the requested protocol
/// (truncated to 16 bits) and `version`, the game version resolved for that
/// protocol; compression becomes negotiated with no algorithm chosen yet.
/// No session, no change.
pub open spec fn network_settings_session(
    body: Seq<u8>,
    session: Option<SessionModel>,
    server_protocol: u32,
    version: Seq<char>,
) -> Option<SessionModel> {
    let protocol = requested_protocol(body, server_protocol);
    match session {
        Some(s) => Some(
            SessionModel {
                username: s.username,
                bedrock_protocol: protocol as u16,
                bedrock_version: version,
                compression_enabled: true,
                compression_algo: None,
                connected: s.connected,
            },
        ),
        None => None,
    }
}

/// The answer to RequestNetworkSettings: NetworkSettings, sent uncompressed.
pub open spec fn network_settings_outgoing() -> Seq<OutgoingModel> {
    seq![OutgoingModel::Packet(network_settings_packet(), true)]
}

/// Handle RequestNetworkSettings (0xc1). `resolve_version` gives the game
/// version of a protocol; it is called once, on the requested protocol.
pub fn handle_request_network_settings<F: Fn(u32) -> String>(
    buf: &mut Buffer,
    session: &mut Option<Session>,
    server_protocol: u32,
    resolve_version: &F,
) -> (out: Vec<Outgoing>)
    requires
        forall|p: u32| resolve_version.requires((p,)),
    ensures
        exists|version: String|
            #![trigger resolve_version.ensures((requested_protocol(old(buf).unread(), server_protocol),), version)]
            resolve_version.ensures(
                (requested_protocol(old(buf).unread(), server_protocol),),
                version,
            ) && session_model(*final(session)) == network_settings_session(
                old(buf).unread(),
                session_model(*old(session)),
                server_protocol,
                version@,
            ),
        outgoing_models(out@) == network_settings_outgoing(),
{
    let protocol = match buf.read_u32() {
        Ok(p) => p,
        Err(_) => server_protocol,
    };
    let version = resolve_version(protocol);
    let ghost version_model = version@;
    match session {
        Some(s) => {
            s.bedrock_protocol = #[verifier::truncate] (protocol as u16);
            s.bedrock_version = version;
            s.compression_enabled = true;
            s.compression_algo = None;
        },
        None => {},
    }
    assert(session_model(*session) == network_settings_session(
        old(buf).unread(),
        session_model(*old(session)),
        server_protocol,
        version_model,
    ));
    let out = vec![Outgoing::Packet { packet: build_network_settings(), force_uncompressed: true }];
    assert(outgoing_models(out@) =~= network_settings_outgoing());
    out
}

/// A session after its login was accepted: it takes the player's name, the
/// protocol (truncated to 16 bits) and `version`, the game version resolved
/// for that protocol, and counts as connected. No session, no change.
pub open spec fn login_session(
    session: Option<SessionModel>,
    protocol: u32,
    player_name: Seq<char>,
    version: Seq<char>,
) -> Option<SessionModel> {
    match session {
        Some(s) => Some(
            SessionModel {
                username: Some(player_name),
                bedrock_protocol: protocol as u16,
                bedrock_version: version,
                compression_enabled: s.compression_enabled,
                compression_algo: s.compression_algo,
                connected: true,
            },
        ),
        None => None,
    }
}

/// The answer to an accepted login on `protocol`: first the server follows the
/// client's protocol (truncated to 16 bits), then one bundle of PlayStatus
/// "login success" (0) and ResourcePacksInfo for the session's protocol as it
/// is after the login.
pub open spec fn login_outgoing(
    protocol: u32,
    session_after: Option<SessionModel>,
    server_protocol: u32,
) -> Seq<OutgoingModel> {
    seq![
        OutgoingModel::SyncClientVersion(protocol as u16),
        OutgoingModel::Bundle(
            seq![
                play_status_packet(0),
                resource_packs_info_packet(session_protocol(session_after, server_protocol)),
            ],
        ),
    ]
}

/// Handle an accepted Login: the login parser read `protocol` and
/// `player_name` from the payload of an [`Outgoing::ParseLogin`].
/// `resolve_version` gives the game version of a protocol; it is called once,
/// on `protocol`.
pub fn handle_login_accepted<F: Fn(u32) -> String>(
    session: &mut Option<Session>,
    protocol: u32,
    player_name: &str,
    server_protocol: u32,
    resolve_version: &F,
) -> (out: Vec<Outgoing>)
    requires
        resolve_version.requires((protocol,)),
    ensures
        exists|version: String|
            #![trigger resolve_version.ensures((protocol,), version)]
            resolve_version.ensures((protocol,), version) && session_model(*final(session))
                == login_session(session_model(*old(session)), protocol, player_name@, version@),
        outgoing_models(out@) == login_outgoing(
            protocol,
            session_model(*final(session)),
            server_protocol,
        ),
{
    let version = resolve_version(protocol);
    let ghost version_model = version@;
    match session {
        Some(s) => {
            s.username = Some(player_name.to_owned());
            s.bedrock_protocol = #[verifier::truncate] (protocol as u16);
            s.bedrock_version = version;
            s.connected = true;
        },
        None => {},
    }
    assert(session_model(*session) == login_session(
        session_model(*old(session)),
        protocol,
        player_name@,
        version_model,
    ));
    let protocol_now: u32 = match session {
        Some(s) => s.bedrock_protocol as u32,
        None => server_protocol,
    };
    let packets = vec![build_play_status(0), build_resource_packs_info(protocol_now)];
    let ghost expected = seq![
        play_status_packet(0),
        resource_packs_info_packet(session_protocol(session_model(*session), server_protocol)),
    ];
    assert(packets@.map_values(|p: Vec<u8>| p@) =~= expected);
    let out = vec![
        Outgoing::SyncClientVersion { protocol: #[verifier::truncate] (protocol as u16) },
        Outgoing::Bundle { packets },
    ];
    assert(outgoing_models(out@) =~= login_outgoing(protocol, session_model(*session), server_protocol));
    out
}

/// Whether a session receives a broadcast: it must be connected, and it is left
/// out when it sent the packet being answered and the broadcast excludes the sender.
pub fn receives_broadcast(session: &Session, is_sender: bool, exclude_sender: bool) -> (r: bool)
    ensures
        r == (session.connected && !(is_sender && exclude_sender)),
{
    session.connected && !(is_sender && exclude_sender)
}

/// The packet ID at the front of a non-empty packet and the bytes after it. The
/// ID is a 32-bit VarUInt; when there is none, the first byte is the ID and
/// the body is the whole packet.
pub open spec fn packet_id_and_body(data: Seq<u8>) -> (u32, Seq<u8>) {
    match var_u32_prefix(data) {
        Some((id, n)) => (id, data.skip(n as int)),
        None => (data[0] as u32, data),
    }
}

/// Whether a packet is a RequestNetworkSettings that gets handled.
pub open spec fn is_network_settings_request(data: Seq<u8>, active: bool) -> bool {
    data.len() > 0 && active && packet_id_and_body(data).0 == 0xc1
}

/// Whether a packet is a RequestChunkRadius that gets handled.
pub open spec fn is_chunk_radius_request(data: Seq<u8>, active: bool) -> bool {
    data.len() > 0 && active && (packet_id_and_body(data).0 == 0x45 || packet_id_and_body(data).0
        == 0x61)
}

/// Whether the server can answer a packet: every packet but a RequestChunkRadius
/// whose radius is above [`MAX_CHUNK_RADIUS`] (16 times it overflows 32 bits).
pub open spec fn packet_in_domain(data: Seq<u8>, active: bool) -> bool {
    is_chunk_radius_request(data, active) ==> requested_radius(packet_id_and_body(data).1)
        <= MAX_CHUNK_RADIUS
}

/// Tells whether the server can answer `data` (see [`packet_in_domain`]).
pub fn packet_in_range(data: &[u8], active: bool) -> (r: bool)
    ensures
        r == packet_in_domain(data@, active),
{
    if data.len() == 0 || !active {
        return true;
    }
    let mut buf = Buffer::from_slice(data);
    let packet_id = match buf.read_var_int() {
        Ok(id) => id,
        Err(_) => data[0] as u32,
    };
    assert((packet_id, buf.unread()) == packet_id_and_body(data@));
    if packet_id == 0x45 || packet_id == 0x61 {
        let radius = match buf.read_var_int() {
            Ok(r) => r,
            Err(_) => 4,
        };
        radius <= MAX_CHUNK_RADIUS
    } else {
        true
    }
}

/// What one Bedrock packet from a client does: the session afterwards, and what
/// the server sends. Empty packets, and packets from a session that is no
/// longer active, do nothing. Packets of other IDs than those below are ignored.
/// `resolved_version` is the game version resolved for the protocol that a
/// RequestNetworkSettings announces; no other packet uses it.
pub open spec fn bedrock_packet_outcome(
    data: Seq<u8>,
    active: bool,
    session: Option<SessionModel>,
    server_protocol: u32,
    version: Seq<char>,
    resolved_version: Seq<char>,
) -> (Option<SessionModel>, Seq<OutgoingModel>) {
    if data.len() == 0 || !active {
        (session, Seq::empty())
    } else {
        let (id, body) = packet_id_and_body(data);
        if id == 0x01 {
            (session, seq![OutgoingModel::ParseLogin(body)])
        } else if id == 0x08 {
            (
                session,
                resource_pack_response_outgoing(
                    body,
                    session_protocol(session, server_protocol),
                    version,
                ),
            )
        } else if id == 0x09 {
            (session, text_outgoing(body))
        } else if id == 0x17 {
            (session, tick_sync_outgoing(body))
        } else if id == 0x45 || id == 0x61 {
            (session, chunk_radius_outgoing(body))
        } else if id == 0x71 {
            (session, player_initialized_outgoing(session))
        } else if id == 0xc1 {
            (
                network_settings_session(body, session, server_protocol, resolved_version),
                network_settings_outgoing(),
            )
        } else {
            (session, Seq::empty())
        }
    }
}

/// Process a single Bedrock packet (already decompressed) from a client whose
/// session is `session`; `active` says whether its connection is still open.
/// `resolve_version` gives the game version of a protocol; it is called only for
/// a RequestNetworkSettings, on the protocol it announces.
pub fn process_single_bedrock_packet<F: Fn(u32) -> String>(
    data: &[u8],
    active: bool,
    session: &mut Option<Session>,
    server: &ServerContext,
    resolve_version: &F,
) -> (out: Vec<Outgoing>)
    requires
        packet_in_domain(data@, active),
        forall|p: u32| resolve_version.requires((p,)),
    ensures
        exists|resolved: String|
            #![trigger bedrock_packet_outcome(data@, active, session_model(*old(session)), server.protocol_version, server.version@, resolved@)]
            (is_network_settings_request(data@, active) ==> resolve_version.ensures(
                (requested_protocol(packet_id_and_body(data@).1, server.protocol_version),),
                resolved,
            )) && (session_model(*final(session)), outgoing_models(out@))
                == bedrock_packet_outcome(
                data@,
                active,
                session_model(*old(session)),
                server.protocol_version,
                server.version@,
                resolved@,
            ),
{
    let ghost any_version: String = vstd::pervasive::arbitrary();
    if data.len() == 0 || !active {
        let out = Vec::new();
        assert(outgoing_models(out@) =~= Seq::<OutgoingModel>::empty());
        assert((session_model(*session), outgoing_models(out@)) == bedrock_packet_outcome(
            data@,
            active,
            session_model(*old(session)),
            server.protocol_version,
            server.version@,
            any_version@,
        ));
        return out;
    }
    let mut buf = Buffer::from_slice(data);
    let packet_id = match buf.read_var_int() {
        Ok(id) => id,
        Err(_) => data[0] as u32,
    };
    assert((packet_id, buf.unread()) == packet_id_and_body(data@));
    let ghost body = buf.unread();
    let out = if packet_id == 0x01 {
        let payload = buf.read_remaining();
        let out = vec![Outgoing::ParseLogin { payload }];
        assert(outgoing_models(out@) =~= seq![OutgoingModel::ParseLogin(payload@)]);
        out
    } else if packet_id == 0x08 {
        let protocol: u32 = match session {
            Some(s) => s.bedrock_protocol as u32,
            None => server.protocol_version,
        };
        handle_resource_pack_client_response(&mut buf, protocol, server.version.as_str())
    } else if packet_id == 0x09 {
        handle_text_packet(&mut buf)
    } else if packet_id == 0x17 {
        handle_tick_sync(&mut buf)
    } else if packet_id == 0x45 || packet_id == 0x61 {
        handle_request_chunk_radius(&mut buf)
    } else if packet_id == 0x71 {
        handle_player_initialized(session)
    } else if packet_id == 0xc1 {
        let out = handle_request_network_settings(
            &mut buf,
            session,
            server.protocol_version,
            resolve_version,
        );
        proof {
            let version = choose|version: String|
                resolve_version.ensures(
                    (requested_protocol(body, server.protocol_version),),
                    version,
                ) && session_model(*session) == network_settings_session(
                    body,
                    session_model(*old(session)),
                    server.protocol_version,
                    version@,
                );
            assert((session_model(*session), outgoing_models(out@)) == bedrock_packet_outcome(
                data@,
                active,
                session_model(*old(session)),
                server.protocol_version,
                server.version@,
                version@,
            ));
        }
        return out;
    } else {
        let out = Vec::new();
        assert(outgoing_models(out@) =~= Seq::<OutgoingModel>::empty());
        out
    };
    assert((session_model(*session), outgoing_models(out@)) == bedrock_packet_outcome(
        data@,
        active,
        session_model(*old(session)),
        server.protocol_version,
        server.version@,
        any_version@,
    ));
    out
}

/// A string followed by other bytes reads back as itself, and what is left is
/// exactly the bytes that followed.
proof fn lemma_string_then(s: Seq<char>, rest: Seq<u8>)
    requires
        encode_utf8(s).len() <= u32::MAX,
    ensures
        string_or_empty(var_string_bytes(s) + rest) == (s, rest),
{
    lemma_var_string_roundtrip(s, rest);
    assert((var_string_bytes(s) + rest).skip(var_string_bytes(s).len() as int) =~= rest);
}

/// Chat relay keeps the text: a chat message in the layout the server sends,
/// received from an active client, is broadcast to the other players as the
/// very same packet, with the same sender and message.
pub proof fn lemma_chat_relay_keeps_text(
    sender: Seq<char>,
    message: Seq<char>,
    session: Option<SessionModel>,
    server_protocol: u32,
    version: Seq<char>,
    resolved_version: Seq<char>,
)
    requires
        encode_utf8(sender).len() <= u32::MAX,
        encode_utf8(message).len() <= u32::MAX,
    ensures
        bedrock_packet_outcome(
            text_packet(sender, message),
            true,
            session,
            server_protocol,
            version,
            resolved_version,
        ) == (session, seq![OutgoingModel::Broadcast(text_packet(sender, message), true)]),
{
    let empty = var_string_bytes(Seq::empty());
    let tail = empty + empty;
    let after_sender = var_string_bytes(message) + tail;
    let after_flags = var_string_bytes(sender) + after_sender;
    let body = seq![1u8, 0u8] + after_flags;
    let data = text_packet(sender, message);
    assert(var_uint_bytes(0x09) == seq![0x09u8]);
    assert(data =~= var_uint_bytes(0x09) + body);
    lemma_var_u32_roundtrip(0x09, body);
    assert(data.skip(1) =~= body);
    assert(packet_id_and_body(data) == (0x09u32, body));
    assert(u8_or_zero(body) == (1u8, seq![0u8] + after_flags)) by {
        assert(body.drop_first() =~= seq![0u8] + after_flags);
    }
    assert(u8_or_zero(seq![0u8] + after_flags) == (0u8, after_flags)) by {
        assert((seq![0u8] + after_flags).drop_first() =~= after_flags);
    }
    lemma_string_then(sender, after_sender);
    lemma_string_then(message, tail);
}

/// TickSync is an echo: a TickSync in the layout the server sends, received
/// from an active client, is answered with the same two timestamps.
pub proof fn lemma_tick_sync_echoes(
    request_time: u64,
    response_time: u64,
    session: Option<SessionModel>,
    server_protocol: u32,
    version: Seq<char>,
    resolved_version: Seq<char>,
)
    ensures
        bedrock_packet_outcome(
            tick_sync_packet(request_time, response_time),
            true,
            session,
            server_protocol,
            version,
            resolved_version,
        ) == (
            session,
            seq![OutgoingModel::Packet(tick_sync_packet(request_time, response_time), false)],
        ),
{
    lemma_pow_values();
    lemma_le_roundtrip(request_time as nat, 8);
    lemma_le_roundtrip(response_time as nat, 8);
    let first = le_bytes(request_time as nat, 8);
    let second = le_bytes(response_time as nat, 8);
    let body = first + second;
    let data = tick_sync_packet(request_time, response_time);
    assert(var_uint_bytes(0x17) == seq![0x17u8]);
    assert(data =~= var_uint_bytes(0x17) + body);
    lemma_var_u32_roundtrip(0x17, body);
    assert(data.skip(1) =~= body);
    assert(body.take(8) =~= first);
    assert(body.skip(8) =~= second);
    assert(second.take(8) =~= second);
}

/// RequestNetworkSettings takes the client's protocol: a request carrying
/// `protocol` as a big-endian u32, from an active client with a session, leaves
/// the session on that protocol (truncated to 16 bits) and on the game version
/// resolved for it, with compression negotiated and no algorithm chosen, every
/// other field unchanged; it is answered with NetworkSettings, uncompressed.
/// The version is resolved for exactly `protocol`.
pub proof fn lemma_network_settings_request_takes_protocol(
    protocol: u32,
    session: SessionModel,
    server_protocol: u32,
    version: Seq<char>,
    resolved_version: Seq<char>,
)
    ensures
        is_network_settings_request(var_uint_bytes(0xc1) + be_bytes(protocol as nat, 4), true),
        requested_protocol(
            packet_id_and_body(var_uint_bytes(0xc1) + be_bytes(protocol as nat, 4)).1,
            server_protocol,
        ) == protocol,
        bedrock_packet_outcome(
            var_uint_bytes(0xc1) + be_bytes(protocol as nat, 4),
            true,
            Some(session),
            server_protocol,
            version,
            resolved_version,
        ) == (
            Some(
                SessionModel {
                    username: session.username,
                    bedrock_protocol: protocol as u16,
                    bedrock_version: resolved_version,
                    compression_enabled: true,
                    compression_algo: None,
                    connected: session.connected,
                },
            ),
            network_settings_outgoing(),
        ),
{
    lemma_pow_values();
    lemma_be_roundtrip(protocol as nat, 4);
    let body = be_bytes(protocol as nat, 4);
    let data = var_uint_bytes(0xc1) + body;
    lemma_var_u32_roundtrip(0xc1, body);
    assert(var_uint_bytes(0xc1).len() == 2) by {
        reveal_with_fuel(var_uint_bytes, 3);
    }
    assert(data.skip(2) =~= body);
    assert(body.take(4) =~= body);
}

/// An accepted login is answered for the client's own protocol: when the
/// session exists and the protocol fits in 16 bits, the server first follows
/// that protocol, then ResourcePacksInfo is built for exactly that protocol,
/// after PlayStatus "login success".
pub proof fn lemma_login_answers_for_client_protocol(
    session: SessionModel,
    protocol: u32,
    player_name: Seq<char>,
    server_protocol: u32,
    version: Seq<char>,
)
    requires
        protocol <= u16::MAX,
    ensures
        login_outgoing(
            protocol,
            login_session(Some(session), protocol, player_name, version),
            server_protocol,
        ) == seq![
            OutgoingModel::SyncClientVersion(protocol as u16),
            OutgoingModel::Bundle(seq![play_status_packet(0), resource_packs_info_packet(protocol)]),
        ],
{
}

/// A one-byte packet ID below 128 is read as that ID, and the body is the rest.
proof fn lemma_small_id(id: u8, rest: Seq<u8>)
    requires
        id < 128,
    ensures
        packet_id_and_body(seq![id] + rest) == (id as u32, rest),
{
    assert(var_uint_bytes(id as nat) == seq![id]);
    lemma_var_u32_roundtrip(id as u32, rest);
    assert((seq![id] + rest).skip(1) =~= rest);
}

/// Both RequestChunkRadius IDs mean the same: a packet with ID 0x45 and one
/// with ID 0x61 and the same body are in the server's domain alike and have the
/// same outcome, from any session and server state.
pub proof fn lemma_chunk_radius_ids_agree(
    rest: Seq<u8>,
    active: bool,
    session: Option<SessionModel>,
    server_protocol: u32,
    version: Seq<char>,
    resolved_version: Seq<char>,
)
    ensures
        packet_in_domain(seq![0x45u8] + rest, active) == packet_in_domain(
            seq![0x61u8] + rest,
            active,
        ),
        bedrock_packet_outcome(
            seq![0x45u8] + rest,
            active,
            session,
            server_protocol,
            version,
            resolved_version,
        ) == bedrock_packet_outcome(
            seq![0x61u8] + rest,
            active,
            session,
            server_protocol,
            version,
            resolved_version,
        ),
{
    lemma_small_id(0x45, rest);
    lemma_small_id(0x61, rest);
}

/// The start bundle: StartGame, ItemRegistry, BiomeDefinitionList,
/// AvailableEntityIdentifiers, in that order.
pub open spec fn start_bundle(version: Seq<char>) -> OutgoingModel {
    OutgoingModel::Bundle(
        seq![
            start_game_packet(version),
            item_registry_packet(),
            biome_definitions_packet(),
            entity_identifiers_packet(),
        ],
    )
}

/// ResourcePackClientResponse by protocol era. From protocol 2168 on, status 2
/// is answered with the pack stack and status 3 starts the game; below 2168
/// (including 766 to 2167), status 3 is answered with the pack stack and
/// status 4 starts the game. Every other status, and a missing one, gets no
/// answer. The pack stack goes out on its own, not forced uncompressed.
pub proof fn lemma_resource_pack_eras(status: u32, rest: Seq<u8>, protocol: u32, version: Seq<char>)
    ensures
        resource_pack_response_outgoing(var_uint_bytes(status as nat) + rest, protocol, version) == (
        if (protocol >= 2168 && status == 2) || (protocol < 2168 && status == 3) {
            seq![OutgoingModel::Packet(resource_pack_stack_packet(version), false)]
        } else if (protocol >= 2168 && status == 3) || (protocol < 2168 && status == 4) {
            seq![start_bundle(version)]
        } else {
            Seq::empty()
        }),
        protocol < 2168 ==> resource_pack_response_outgoing(seq![3u8] + rest, protocol, version)
            == seq![OutgoingModel::Packet(resource_pack_stack_packet(version), false)],
        protocol < 2168 ==> resource_pack_response_outgoing(seq![4u8] + rest, protocol, version)
            == seq![start_bundle(version)],
        protocol < 2168 ==> resource_pack_response_outgoing(seq![2u8] + rest, protocol, version)
            == Seq::<OutgoingModel>::empty(),
        protocol >= 2168 ==> resource_pack_response_outgoing(seq![2u8] + rest, protocol, version)
            == seq![OutgoingModel::Packet(resource_pack_stack_packet(version), false)],
        protocol >= 2168 ==> resource_pack_response_outgoing(seq![3u8] + rest, protocol, version)
            == seq![start_bundle(version)],
        protocol >= 2168 ==> resource_pack_response_outgoing(seq![4u8] + rest, protocol, version)
            == Seq::<OutgoingModel>::empty(),
        resource_pack_response_outgoing(Seq::empty(), protocol, version)
            == Seq::<OutgoingModel>::empty(),
{
    lemma_var_u32_roundtrip(status, rest);
    assert((var_uint_bytes(status as nat) + rest).skip(var_uint_bytes(status as nat).len() as int)
        =~= rest);
    assert(var_uint_bytes(2) == seq![2u8]);
    assert(var_uint_bytes(3) == seq![3u8]);
    assert(var_uint_bytes(4) == seq![4u8]);
    lemma_var_uint_prefix_bounds(Seq::<u8>::empty(), 5);
}

/// The answer to RequestChunkRadius for a radius `radius` in the server's
/// domain, on the wire: thirteen packets, none forced uncompressed.
/// ChunkRadiusUpdated echoes the requested radius exactly; the publisher
/// update is at (0, 4, 0) with 16 times that radius; then the nine chunks with
/// x from -1 to 1 and, for each x, z from -1 to 1; then PlayStatus 3 and the
/// empty CreativeContent.
pub proof fn lemma_chunk_radius_answers(radius: u32, rest: Seq<u8>)
    requires
        radius <= MAX_CHUNK_RADIUS,
    ensures
        chunk_radius_outgoing(var_uint_bytes(radius as nat) + rest).len() == 13,
        chunk_radius_outgoing(var_uint_bytes(radius as nat) + rest)[0] == OutgoingModel::Packet(
            seq![0x46u8] + var_uint_bytes(radius as nat),
            false,
        ),
        chunk_radius_outgoing(var_uint_bytes(radius as nat) + rest)[1] == OutgoingModel::Packet(
            seq![0x79u8, 0x00, 0x08, 0x00] + var_uint_bytes(16 * radius as nat) + seq![
                0x00u8,
                0x00,
                0x00,
                0x00,
            ],
            false,
        ),
        forall|i: int|
            0 <= i < 9 ==> #[trigger] chunk_radius_outgoing(var_uint_bytes(radius as nat) + rest)[2
                + i] == OutgoingModel::Packet(
                seq![0x3au8] + var_int32_bytes((i / 3 - 1) as i32) + var_int32_bytes(
                    (i % 3 - 1) as i32,
                ) + seq![0x00u8, 0x00, 0x00, 0x00, 0x00, 0x00],
                false,
            ),
        chunk_radius_outgoing(var_uint_bytes(radius as nat) + rest)[11] == OutgoingModel::Packet(
            seq![0x02u8, 0x00, 0x00, 0x00, 0x03],
            false,
        ),
        chunk_radius_outgoing(var_uint_bytes(radius as nat) + rest)[12] == OutgoingModel::Packet(
            seq![0x91u8, 0x01, 0x00, 0x00],
            false,
        ),
        forall|i: int|
            0 <= i < 13 ==> (#[trigger] chunk_radius_outgoing(var_uint_bytes(radius as nat) + rest)[i]
                matches OutgoingModel::Packet(_, force) && !force),
{
    let body = var_uint_bytes(radius as nat) + rest;
    lemma_var_u32_roundtrip(radius, rest);
    assert(requested_radius(body) == radius);
    assert((radius as i32) as u32 == radius) by (bit_vector)
        requires
            radius <= 0x0fff_ffff,
    ;
    lemma_chunk_packet_bytes(0, 4, 0, (radius * 16) as u32, radius as i32);
    assert(((radius * 16) as u32) as nat == 16 * radius as nat);
    assert(var_int32_bytes(0) == seq![0x00u8]);
    assert(var_int32_bytes(4) == seq![0x08u8]);
    assert(seq![0x79u8] + var_int32_bytes(0) + var_int32_bytes(4) + var_int32_bytes(0)
        =~= seq![0x79u8, 0x00, 0x08, 0x00]);
    lemma_packet_bytes(3, 0, Seq::empty(), Seq::empty());
    assert(be_bytes(3, 4) =~= seq![0x00u8, 0x00, 0x00, 0x03]) by {
        reveal_with_fuel(be_bytes, 5);
    }
    assert(seq![0x02u8] + be_bytes(3, 4) =~= seq![0x02u8, 0x00, 0x00, 0x00, 0x03]);
    let out = chunk_radius_outgoing(body);
    assert forall|i: int| 0 <= i < 9 implies #[trigger] out[2 + i] == OutgoingModel::Packet(
        seq![0x3au8] + var_int32_bytes((i / 3 - 1) as i32) + var_int32_bytes((i % 3 - 1) as i32)
            + seq![0x00u8, 0x00, 0x00, 0x00, 0x00, 0x00],
        false,
    ) by {
        lemma_chunk_packet_bytes((i / 3 - 1) as i32, 0, (i % 3 - 1) as i32, 0, 0);
        assert(out[2 + i] == flat_chunk(i));
    }
    assert forall|i: int| 0 <= i < 13 implies (#[trigger] out[i] matches OutgoingModel::Packet(
        _,
        force,
    ) && !force) by {
        if 2 <= i < 11 {
            assert(out[i] == flat_chunk(i - 2));
        }
    }
}

/// A RequestChunkRadius without a radius counts as radius 4.
pub proof fn lemma_chunk_radius_default()
    ensures
        chunk_radius_outgoing(Seq::empty())[0] == OutgoingModel::Packet(seq![0x46u8, 0x04], false),
        chunk_radius_outgoing(Seq::empty())[1] == OutgoingModel::Packet(
            seq![0x79u8, 0x00, 0x08, 0x00, 0x40, 0x00, 0x00, 0x00, 0x00],
            false,
        ),
{
    lemma_var_uint_prefix_bounds(Seq::<u8>::empty(), 5);
    assert(requested_radius(Seq::empty()) == 4);
    assert((4u32 as i32) as u32 == 4u32);
    lemma_chunk_packet_bytes(0, 4, 0, 64, 4);
    assert(var_int32_bytes(0) == seq![0x00u8]);
    assert(var_int32_bytes(4) == seq![0x08u8]);
    assert(var_uint_bytes(64) == seq![0x40u8]);
    assert(var_uint_bytes(4) == seq![0x04u8]);
    assert(seq![0x46u8] + seq![0x04u8] =~= seq![0x46u8, 0x04]);
    assert(seq![0x79u8] + var_int32_bytes(0) + var_int32_bytes(4) + var_int32_bytes(0)
        + var_uint_bytes(64) + seq![0x00u8, 0x00, 0x00, 0x00] =~= seq![
        0x79u8, 0x00, 0x08, 0x00, 0x40, 0x00, 0x00, 0x00, 0x00,
    ]);
}

/// TickSync on the wire: 0x17, then the two timestamps, little-endian.
pub proof fn lemma_tick_sync_bytes(request_time: u64, response_time: u64)
    ensures
        tick_sync_packet(request_time, response_time) == seq![0x17u8] + le_bytes(
            request_time as nat,
            8,
        ) + le_bytes(response_time as nat, 8),
{
    assert(var_uint_bytes(0x17) == seq![0x17u8]);
}

/// The answer to RequestNetworkSettings is exactly one NetworkSettings packet,
/// forced uncompressed.
pub proof fn lemma_network_settings_answer()
    ensures
        network_settings_outgoing() == seq![
            OutgoingModel::Packet(
                seq![0x8fu8, 0x01, 0x01, 0x00, 0x00, 0x00, 0x00, 0x00, 0x00, 0x00, 0x00, 0x00],
                true,
            ),
        ],
{
    lemma_packet_bytes(0, 0, Seq::empty(), Seq::empty());
}

/// Chat relay by message type: a Text packet body of type 1 (chat) or 2 (raw)
/// with its sender and message is broadcast to everyone but the sender as the
/// server's chat packet with that sender and message; every other type is not
/// answered.
pub proof fn lemma_text_types(
    msg_type: u8,
    flag: u8,
    sender: Seq<char>,
    message: Seq<char>,
    rest: Seq<u8>,
)
    requires
        encode_utf8(sender).len() <= u32::MAX,
        encode_utf8(message).len() <= u32::MAX,
    ensures
        text_outgoing(
            seq![msg_type, flag] + var_string_bytes(sender) + var_string_bytes(message) + rest,
        ) == if msg_type == 1 || msg_type == 2 {
            seq![
                OutgoingModel::Broadcast(
                    seq![0x09u8, 0x01, 0x00] + var_string_bytes(sender) + var_string_bytes(message)
                        + seq![0x00u8, 0x00],
                    true,
                ),
            ]
        } else {
            Seq::<OutgoingModel>::empty()
        },
{
    let after_sender = var_string_bytes(message) + rest;
    let after_flags = var_string_bytes(sender) + after_sender;
    let body = seq![msg_type, flag] + var_string_bytes(sender) + var_string_bytes(message) + rest;
    assert(body =~= seq![msg_type, flag] + after_flags);
    assert(body.drop_first() =~= seq![flag] + after_flags);
    assert((seq![flag] + after_flags).drop_first() =~= after_flags);
    lemma_string_then(sender, after_sender);
    lemma_string_then(message, rest);
    lemma_packet_bytes(0, 0, sender, message);
}

/// The join announcement on the wire: from "Server", the text is the player's
/// username (or "Player" when it has none) followed by " joined
/// AndroServeMC!", broadcast to everyone including the new player.
pub proof fn lemma_join_message(session: Option<SessionModel>)
    ensures
        display_name(session) == match session {
            Some(s) => match s.username {
                Some(u) => u,
                None => seq!['P', 'l', 'a', 'y', 'e', 'r'],
            },
            None => seq!['P', 'l', 'a', 'y', 'e', 'r'],
        },
        player_initialized_outgoing(session) == seq![
            OutgoingModel::Broadcast(
                seq![0x09u8, 0x01, 0x00] + var_string_bytes(seq!['S', 'e', 'r', 'v', 'e', 'r'])
                    + var_string_bytes(
                    display_name(session) + seq![
                        ' ', 'j', 'o', 'i', 'n', 'e', 'd', ' ', 'A', 'n', 'd', 'r', 'o', 'S', 'e',
                        'r', 'v', 'e', 'M', 'C', '!',
                    ],
                ) + seq![0x00u8, 0x00],
                false,
            ),
        ],
{
    reveal_strlit("Player");
    reveal_strlit("Server");
    reveal_strlit(" joined AndroServeMC!");
    assert("Player"@ =~= seq!['P', 'l', 'a', 'y', 'e', 'r']);
    assert("Server"@ =~= seq!['S', 'e', 'r', 'v', 'e', 'r']);
    assert(" joined AndroServeMC!"@ =~= seq![
        ' ', 'j', 'o', 'i', 'n', 'e', 'd', ' ', 'A', 'n', 'd', 'r', 'o', 'S', 'e', 'r', 'v', 'e',
        'M', 'C', '!',
    ]);
    lemma_packet_bytes(
        0,
        0,
        "Server"@,
        display_name(session) + " joined AndroServeMC!"@,
    );
}

/// What an accepted login does to an existing session: the username becomes
/// the player's name, the protocol the client's (truncated to 16 bits), the
/// version the one resolved for it, and the session counts as connected; its
/// compression state is kept.
pub proof fn lemma_login_session_fields(
    session: SessionModel,
    protocol: u32,
    player_name: Seq<char>,
    version: Seq<char>,
)
    ensures
        login_session(Some(session), protocol, player_name, version) matches Some(after) && after.username
            == Some(player_name) && after.bedrock_protocol as int == protocol as int % 0x1_0000
            && after.bedrock_version == version && after.connected && after.compression_enabled
            == session.compression_enabled && after.compression_algo == session.compression_algo,
        login_session(None, protocol, player_name, version) is None,
{
    assert((protocol as u16) as int == protocol as int % 0x1_0000) by (bit_vector);
}

/// The packet IDs the server answers, and how: Login (0x01) hands the rest of
/// the packet to the login parser; ResourcePackClientResponse (0x08) is
/// answered for the session's protocol (the server's when there is no
/// session); RequestChunkRadius (0x45 and 0x61) with the chunk answer;
/// SetLocalPlayerAsInitialized (0x71) with the join announcement; PlayStatus
/// and the two handshake IDs (0x02 to 0x04) get no answer and change nothing.
/// A packet from an inactive connection, or an empty one, does nothing.
pub proof fn lemma_dispatch(
    rest: Seq<u8>,
    session: Option<SessionModel>,
    server_protocol: u32,
    version: Seq<char>,
    resolved_version: Seq<char>,
    id: u8,
)
    ensures
        bedrock_packet_outcome(
            seq![0x01u8] + rest,
            true,
            session,
            server_protocol,
            version,
            resolved_version,
        ) == (session, seq![OutgoingModel::ParseLogin(rest)]),
        bedrock_packet_outcome(
            seq![0x08u8] + rest,
            true,
            session,
            server_protocol,
            version,
            resolved_version,
        ) == (
            session,
            resource_pack_response_outgoing(
                rest,
                match session {
                    Some(s) => s.bedrock_protocol as u32,
                    None => server_protocol,
                },
                version,
            ),
        ),
        bedrock_packet_outcome(
            seq![0x45u8] + rest,
            true,
            session,
            server_protocol,
            version,
            resolved_version,
        ) == (session, chunk_radius_outgoing(rest)),
        bedrock_packet_outcome(
            seq![0x61u8] + rest,
            true,
            session,
            server_protocol,
            version,
            resolved_version,
        ) == (session, chunk_radius_outgoing(rest)),
        bedrock_packet_outcome(
            seq![0x71u8] + rest,
            true,
            session,
            server_protocol,
            version,
            resolved_version,
        ) == (session, player_initialized_outgoing(session)),
        0x02 <= id <= 0x04 ==> bedrock_packet_outcome(
            seq![id] + rest,
            true,
            session,
            server_protocol,
            version,
            resolved_version,
        ) == (session, Seq::<OutgoingModel>::empty()),
        bedrock_packet_outcome(
            seq![id] + rest,
            false,
            session,
            server_protocol,
            version,
            resolved_version,
        ) == (session, Seq::<OutgoingModel>::empty()),
        bedrock_packet_outcome(
            Seq::empty(),
            true,
            session,
            server_protocol,
            version,
            resolved_version,
        ) == (session, Seq::<OutgoingModel>::empty()),
{
    lemma_small_id(0x01, rest);
    lemma_small_id(0x08, rest);
    lemma_small_id(0x45, rest);
    lemma_small_id(0x61, rest);
    lemma_small_id(0x71, rest);
    if 0x02 <= id <= 0x04 {
        lemma_small_id(id, rest);
    }
}

} // verus!
