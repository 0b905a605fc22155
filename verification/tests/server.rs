use androservemc::bedrock::{
    build_biome_definitions, build_chunk_radius_updated, build_creative_content,
    build_entity_identifiers, build_item_registry, build_level_chunk,
    build_network_chunk_publisher_update, build_network_settings, build_play_status,
    build_resource_pack_stack, build_resource_packs_info, build_start_game, build_text_packet,
};
use androservemc::raknet::server::batch::{
    bundle_batch, bundle_payload, single_batch, split_batch, use_compression, wrap_with_length,
    CompressionOutcome,
};
use androservemc::raknet::server::batch::{
    compress_batch, decompress_batch, frame_bundle, frame_single, ALGO_DEFLATE, ALGO_NONE,
};
use androservemc::raknet::server::bedrock::{
    build_tick_sync, handle_login_accepted, packet_in_range, process_single_bedrock_packet,
    receives_broadcast, Outgoing, ServerContext, Session, MAX_CHUNK_RADIUS,
};

fn resolve(protocol: u32) -> String {
    format!("v{}", protocol)
}

fn process(data: &[u8], active: bool, session: &mut Option<Session>) -> Vec<Outgoing> {
    process_single_bedrock_packet(data, active, session, &server(), &resolve)
}

fn server() -> ServerContext {
    ServerContext { protocol_version: 2168, version: "1.26.40".to_string() }
}

fn session(protocol: u16) -> Option<Session> {
    Some(Session::new(protocol, "1.0".to_string()))
}

fn single(out: &[Outgoing]) -> (&Vec<u8>, bool) {
    assert_eq!(out.len(), 1);
    match &out[0] {
        Outgoing::Packet { packet, force_uncompressed } => (packet, *force_uncompressed),
        _ => panic!("expected a single packet"),
    }
}

#[test]
fn empty_and_inactive_packets_do_nothing() {
    let mut s = session(2168);
    assert!(process(&[], true, &mut s).is_empty());
    assert!(process(&[0x17], false, &mut s).is_empty());
    assert!(process(&[0x02], true, &mut s).is_empty());
    assert!(process(&[0x7f, 1, 2], true, &mut s).is_empty());
}

#[test]
fn login_payload_goes_to_the_parser() {
    let mut s = session(2168);
    let out = process(&[0x01, 0xaa, 0xbb], true, &mut s);
    assert_eq!(out.len(), 1);
    match &out[0] {
        Outgoing::ParseLogin { payload } => assert_eq!(payload, &vec![0xaa, 0xbb]),
        _ => panic!("expected the login payload"),
    }
}

#[test]
fn network_settings_request_negotiates_compression() {
    let mut s = session(0);
    let out = process(
        &[0xc1, 0x01, 0x00, 0x00, 0x08, 0x78],
        true,
        &mut s,
    );
    let (packet, force) = single(&out);
    assert_eq!(packet, &build_network_settings());
    assert!(force);
    let s = s.unwrap();
    assert_eq!(s.bedrock_protocol, 0x0878);
    assert_eq!(s.bedrock_version, "v2168");
    assert!(s.compression_enabled);
    assert_eq!(s.compression_algo, None);
}

#[test]
fn network_settings_request_without_protocol_uses_the_servers() {
    let mut s = session(0);
    let _ = process(&[0xc1, 0x01, 0x00], true, &mut s);
    assert_eq!(s.unwrap().bedrock_protocol, 2168);
    let mut none: Option<Session> = None;
    let out = process(&[0xc1, 0x01], true, &mut none);
    assert_eq!(out.len(), 1);
    assert!(none.is_none());
}

#[test]
fn resource_pack_response_new_protocol() {
    let mut s = session(2168);
    let out = process(&[0x08, 0x02], true, &mut s);
    let (packet, force) = single(&out);
    assert_eq!(packet, &build_resource_pack_stack("1.26.40"));
    assert!(!force);
    let out = process(&[0x08, 0x03], true, &mut s);
    assert_eq!(out.len(), 1);
    match &out[0] {
        Outgoing::Bundle { packets } => assert_eq!(
            packets,
            &vec![
                build_start_game("1.26.40"),
                build_item_registry(),
                build_biome_definitions(),
                build_entity_identifiers(),
            ]
        ),
        _ => panic!("expected the start bundle"),
    }
    assert!(process(&[0x08, 0x04], true, &mut s).is_empty());
}

#[test]
fn resource_pack_response_legacy_protocol() {
    let mut s = session(748);
    let out = process(&[0x08, 0x03], true, &mut s);
    let (packet, _) = single(&out);
    assert_eq!(packet, &build_resource_pack_stack("1.26.40"));
    let out = process(&[0x08, 0x04], true, &mut s);
    assert!(matches!(&out[0], Outgoing::Bundle { .. }));
    assert!(process(&[0x08, 0x02], true, &mut s).is_empty());
    // a missing status counts as 0
    assert!(process(&[0x08], true, &mut s).is_empty());
}

#[test]
fn tick_sync_echoes_timestamps() {
    let mut s = session(2168);
    let mut data = vec![0x17];
    data.extend_from_slice(&5u64.to_le_bytes());
    data.extend_from_slice(&9u64.to_le_bytes());
    let out = process(&data, true, &mut s);
    let (packet, _) = single(&out);
    assert_eq!(packet, &build_tick_sync(5, 9));
    let out = process(&[0x17, 1, 2], true, &mut s);
    let (packet, _) = single(&out);
    assert_eq!(packet, &build_tick_sync(0, 0));
    assert_eq!(build_tick_sync(1, 2).len(), 17);
}

#[test]
fn chunk_radius_request_sends_the_spawn_area() {
    let mut s = session(2168);
    let out = process(&[0x45, 0x06], true, &mut s);
    assert_eq!(out.len(), 13);
    let packets: Vec<Vec<u8>> = out
        .iter()
        .map(|o| match o {
            Outgoing::Packet { packet, .. } => packet.clone(),
            _ => panic!("expected packets"),
        })
        .collect();
    assert_eq!(packets[0], build_chunk_radius_updated(6));
    assert_eq!(packets[1], build_network_chunk_publisher_update(0, 4, 0, 96));
    let mut i = 2;
    for x in -1..=1 {
        for z in -1..=1 {
            assert_eq!(packets[i], build_level_chunk(x, z));
            i += 1;
        }
    }
    assert_eq!(packets[11], build_play_status(3));
    assert_eq!(packets[12], build_creative_content());
}

#[test]
fn chunk_radius_defaults_and_limit() {
    let mut s = session(2168);
    let out = process(&[0x61], true, &mut s);
    match &out[0] {
        Outgoing::Packet { packet, .. } => assert_eq!(packet, &build_chunk_radius_updated(4)),
        _ => panic!(),
    }
    // the largest radius whose publisher radius fits in 32 bits
    let out = process(&[0x61, 0xff, 0xff, 0xff, 0x7f], true, &mut s);
    match &out[1] {
        Outgoing::Packet { packet, .. } => assert_eq!(
            packet,
            &build_network_chunk_publisher_update(0, 4, 0, MAX_CHUNK_RADIUS * 16)
        ),
        _ => panic!(),
    }
}

#[test]
fn oversized_chunk_radius_is_out_of_range() {
    assert!(packet_in_range(&[0x45, 0xff, 0xff, 0xff, 0x7f], true));
    assert!(!packet_in_range(&[0x45, 0x80, 0x80, 0x80, 0x80, 0x01], true));
    assert!(!packet_in_range(&[0x61, 0xff, 0xff, 0xff, 0xff, 0x0f], true));
    assert!(packet_in_range(&[0x61, 0xff, 0xff, 0xff, 0xff, 0x0f], false));
    assert!(packet_in_range(&[0x09, 0xff, 0xff, 0xff, 0xff, 0x0f], true));
    assert!(packet_in_range(&[], true));
}

#[test]
fn chat_is_relayed_to_the_others() {
    let mut s = session(2168);
    let data = [0x09, 0x01, 0x00, 0x03, b'B', b'o', b'b', 0x02, b'h', b'i'];
    let out = process(&data, true, &mut s);
    assert_eq!(out.len(), 1);
    match &out[0] {
        Outgoing::Broadcast { packet, exclude_sender } => {
            assert_eq!(packet, &build_text_packet("Bob", "hi"));
            assert!(*exclude_sender);
        }
        _ => panic!("expected a broadcast"),
    }
    // other message types are not relayed
    assert!(process(&[0x09, 0x03, 0x00], true, &mut s).is_empty());
    // missing strings count as empty
    let out = process(&[0x09, 0x02], true, &mut s);
    match &out[0] {
        Outgoing::Broadcast { packet, .. } => assert_eq!(packet, &build_text_packet("", "")),
        _ => panic!(),
    }
}

#[test]
fn player_join_is_announced() {
    let mut s = Some(Session {
        username: Some("Steve".to_string()),
        bedrock_protocol: 2168,
        bedrock_version: "1.26.40".to_string(),
        compression_enabled: true,
        compression_algo: None,
        connected: true,
    });
    let out = process(&[0x71, 0x00], true, &mut s);
    match &out[0] {
        Outgoing::Broadcast { packet, exclude_sender } => {
            assert_eq!(packet, &build_text_packet("Server", "Steve joined AndroServeMC!"));
            assert!(!*exclude_sender);
        }
        _ => panic!(),
    }
    let mut none: Option<Session> = None;
    let out = process(&[0x71], true, &mut none);
    match &out[0] {
        Outgoing::Broadcast { packet, .. } => {
            assert_eq!(packet, &build_text_packet("Server", "Player joined AndroServeMC!"))
        }
        _ => panic!(),
    }
}

#[test]
fn accepted_login_updates_the_session() {
    let mut s = session(0);
    let out = handle_login_accepted(&mut s, 0x1_0000 + 766, "Alex", 2168, &resolve);
    let s = s.unwrap();
    assert_eq!(s.username.as_deref(), Some("Alex"));
    assert_eq!(s.bedrock_protocol, 766);
    assert_eq!(s.bedrock_version, "v66302");
    assert!(s.connected);
    assert_eq!(out.len(), 2);
    match &out[0] {
        Outgoing::SyncClientVersion { protocol } => assert_eq!(*protocol, 766),
        _ => panic!(),
    }
    match &out[1] {
        Outgoing::Bundle { packets } => {
            assert_eq!(packets, &vec![build_play_status(0), build_resource_packs_info(766)])
        }
        _ => panic!(),
    }
    let mut none: Option<Session> = None;
    let out = handle_login_accepted(&mut none, 766, "Alex", 2168, &resolve);
    match &out[1] {
        Outgoing::Bundle { packets } => assert_eq!(packets[1], build_resource_packs_info(2168)),
        _ => panic!(),
    }
}

#[test]
fn broadcast_targets() {
    let mut s = session(2168).unwrap();
    assert!(!receives_broadcast(&s, false, false));
    s.connected = true;
    assert!(receives_broadcast(&s, false, true));
    assert!(receives_broadcast(&s, true, false));
    assert!(!receives_broadcast(&s, true, true));
}

#[test]
fn batch_framing() {
    assert_eq!(wrap_with_length(&[9, 8]), vec![0x02, 9, 8]);
    let long = vec![0u8; 200];
    let wrapped = wrap_with_length(&long);
    assert_eq!(&wrapped[..2], &[0xc8, 0x01]);
    assert_eq!(wrapped.len(), 202);
    assert_eq!(
        single_batch(&[0x02, 9, 8], &CompressionOutcome::Off),
        vec![0xfe, 0x02, 9, 8]
    );
    assert_eq!(
        single_batch(&[0x02, 9, 8], &CompressionOutcome::Failed),
        vec![0xfe, 0x02, 9, 8]
    );
    assert_eq!(
        single_batch(&[0x02, 9, 8], &CompressionOutcome::Done(vec![7, 7])),
        vec![0xfe, 7, 7]
    );
}

#[test]
fn bundle_framing() {
    let body = bundle_payload(&vec![vec![1, 2], vec![], vec![3]]);
    assert_eq!(body, vec![0x02, 1, 2, 0x00, 0x01, 3]);
    assert_eq!(bundle_batch(&body, &CompressionOutcome::Off), vec![0xfe, 0x02, 1, 2, 0x00, 0x01, 3]);
    assert_eq!(
        bundle_batch(&body, &CompressionOutcome::Failed),
        vec![0xfe, 0x00, 0x02, 1, 2, 0x00, 0x01, 3]
    );
    assert_eq!(bundle_batch(&body, &CompressionOutcome::Done(vec![5])), vec![0xfe, 5]);
}

#[test]
fn compression_choice() {
    assert!(use_compression(false, Some(true)));
    assert!(!use_compression(true, Some(true)));
    assert!(!use_compression(false, Some(false)));
    assert!(!use_compression(false, None));
}

#[test]
fn batch_body_splits_into_its_packets() {
    let packets = vec![vec![1, 2], vec![], vec![3; 300]];
    assert_eq!(split_batch(&bundle_payload(&packets)), Some(packets));
    assert_eq!(split_batch(&[]), Some(vec![]));
    // a length that runs past the end
    assert_eq!(split_batch(&[0x03, 1, 2]), None);
    // a length that is not a VarUInt
    assert_eq!(split_batch(&[0x80]), None);
}

#[test]
fn relayed_chat_is_the_same_packet() {
    let mut s = session(2168);
    let packet = build_text_packet("Bob", "héllo wörld");
    let out = process(&packet, true, &mut s);
    match &out[0] {
        Outgoing::Broadcast { packet: relayed, exclude_sender } => {
            assert_eq!(relayed, &packet);
            assert!(*exclude_sender);
        }
        _ => panic!("expected a broadcast"),
    }
}

#[test]
fn tick_sync_packet_is_echoed() {
    let mut s = session(2168);
    let packet = build_tick_sync(u64::MAX, 12345);
    let out = process(&packet, true, &mut s);
    let (answer, force) = single(&out);
    assert_eq!(answer, &packet);
    assert!(!force);
}

#[test]
fn new_session_state() {
    let s = Session::new(766, "1.21.50".to_string());
    assert_eq!(s.username, None);
    assert_eq!(s.bedrock_protocol, 766);
    assert_eq!(s.bedrock_version, "1.21.50");
    assert!(!s.compression_enabled);
    assert_eq!(s.compression_algo, None);
    assert!(!s.connected);
}

#[test]
fn compression_roundtrip() {
    let body = bundle_payload(&vec![vec![7u8; 500], vec![1, 2, 3]]);
    let compressed = match compress_batch(&body) {
        CompressionOutcome::Done(c) => c,
        _ => panic!("compression failed"),
    };
    assert_eq!(compressed[0], 0x00);
    assert!(compressed.len() < body.len());
    assert_eq!(decompress_batch(&compressed), Some(body.clone()));
    let mut plain = vec![ALGO_NONE];
    plain.extend_from_slice(&body);
    assert_eq!(decompress_batch(&plain), Some(body.clone()));
    assert_eq!(decompress_batch(&body[1..]), Some(body[1..].to_vec()));
    assert_eq!(decompress_batch(&[0x00, 0xff, 0xff]), None);
}

#[test]
fn framing_for_a_session() {
    let packet = vec![9u8, 8, 7];
    // no compression: marker, length, packet
    assert_eq!(frame_single(&packet, false, Some(false)), vec![0xfe, 0x03, 9, 8, 7]);
    assert_eq!(frame_single(&packet, false, None), vec![0xfe, 0x03, 9, 8, 7]);
    assert_eq!(frame_single(&packet, true, Some(true)), vec![0xfe, 0x03, 9, 8, 7]);
    // compression: marker, algorithm byte, DEFLATE of the length-prefixed packet
    let framed = frame_single(&packet, false, Some(true));
    assert_eq!(&framed[..2], &[0xfe, ALGO_DEFLATE]);
    assert_eq!(decompress_batch(&framed[1..]), Some(vec![0x03, 9, 8, 7]));
}

#[test]
fn bundle_of_one_is_sent_like_a_single_packet() {
    let packet = vec![1u8, 2, 3, 4];
    for compression in [None, Some(false), Some(true)] {
        assert_eq!(
            frame_bundle(&vec![packet.clone()], compression),
            frame_single(&packet, false, compression)
        );
    }
    let packets = vec![vec![1u8], vec![2u8, 3]];
    assert_eq!(frame_bundle(&packets, Some(false)), vec![0xfe, 0x01, 1, 0x02, 2, 3]);
    let framed = frame_bundle(&packets, Some(true));
    assert_eq!(decompress_batch(&framed[1..]), Some(vec![0x01, 1, 0x02, 2, 3]));
}

#[test]
fn both_chunk_radius_ids_agree() {
    let mut a = session(2168);
    let mut b = session(2168);
    let out_a = process(&[0x45, 0x09], true, &mut a);
    let out_b = process(&[0x61, 0x09], true, &mut b);
    assert_eq!(out_a.len(), out_b.len());
    for (x, y) in out_a.iter().zip(out_b.iter()) {
        match (x, y) {
            (Outgoing::Packet { packet: p, .. }, Outgoing::Packet { packet: q, .. }) => assert_eq!(p, q),
            _ => panic!("expected packets"),
        }
    }
}
