use androservemc::bedrock::{
    build_biome_definitions, build_chunk_radius_updated, build_creative_content, build_disconnect,
    build_entity_identifiers, build_item_registry, build_level_chunk,
    build_network_chunk_publisher_update, build_network_settings, build_play_status,
    build_resource_pack_stack, build_resource_packs_info, build_start_game, build_text_packet,
};
use androservemc::util::Buffer;

#[test]
fn start_game_matches_2168_wire_format() {
    let pkt = build_start_game("1.26.40");

    // packet ID (0x0b), EntityUniqueID Varint64(1)->0x02,
    // EntityRuntimeID Varuint64(1)->0x01, PlayerGameMode Varint32(1)->0x02,
    // then Vec3 position floats (0, 4, 0) little-endian
    let expected_head = [
        0x0b, 0x02, 0x01, 0x02, 0x00, 0x00, 0x00, 0x00, 0x00, 0x00, 0x80, 0x40, 0x00, 0x00, 0x00,
        0x00,
    ];
    assert_eq!(&pkt[..expected_head.len()], &expected_head);
    assert_eq!(pkt.len(), 190);
}

#[test]
fn signed_var_int_is_zigzag() {
    let mut buf = Buffer::new();
    buf.write_signed_var_int(4).unwrap();
    assert_eq!(buf.as_slice(), &[0x08]);
    let mut buf = Buffer::new();
    buf.write_signed_var_int(-1).unwrap();
    assert_eq!(buf.as_slice(), &[0x01]);
}

#[test]
fn item_registry_matches_2168_wire_format() {
    assert_eq!(build_item_registry(), vec![0xa2, 0x01, 0x00]);
}

#[test]
fn creative_content_matches_2168_wire_format() {
    assert_eq!(build_creative_content(), vec![0x91, 0x01, 0x00, 0x00]);
}

#[test]
fn level_chunk_matches_2168_wire_format() {
    // 0x3a, X(0), Z(0), dimension(0), subchunk_count(0),
    // subchunk_limit present flag(false), cache_enabled(false),
    // blob hashes count(0), payload length(0)
    assert_eq!(
        build_level_chunk(0, 0),
        vec![0x3a, 0x00, 0x00, 0x00, 0x00, 0x00, 0x00, 0x00, 0x00]
    );
    assert_eq!(
        build_level_chunk(1, -2),
        vec![0x3a, 0x02, 0x03, 0x00, 0x00, 0x00, 0x00, 0x00, 0x00]
    );
}

#[test]
fn play_status_is_big_endian() {
    assert_eq!(build_play_status(0), vec![0x02, 0x00, 0x00, 0x00, 0x00]);
    assert_eq!(build_play_status(3), vec![0x02, 0x00, 0x00, 0x00, 0x03]);
    assert_eq!(build_play_status(0x0102_0304), vec![0x02, 0x01, 0x02, 0x03, 0x04]);
}

#[test]
fn disconnect_repeats_the_message() {
    assert_eq!(
        build_disconnect(-1, "bye"),
        vec![0x05, 0x01, 0x00, 0x03, b'b', b'y', b'e', 0x03, b'b', b'y', b'e']
    );
    assert_eq!(build_disconnect(0, ""), vec![0x05, 0x00, 0x00, 0x00, 0x00]);
}

#[test]
fn disconnect_message_is_utf8() {
    // "é" is two bytes of UTF-8
    assert_eq!(
        build_disconnect(2, "é"),
        vec![0x05, 0x04, 0x00, 0x02, 0xc3, 0xa9, 0x02, 0xc3, 0xa9]
    );
}

#[test]
fn network_settings_bytes() {
    assert_eq!(
        build_network_settings(),
        vec![0x8f, 0x01, 0x01, 0x00, 0x00, 0x00, 0x00, 0x00, 0x00, 0x00, 0x00, 0x00]
    );
}

#[test]
fn resource_packs_info_legacy_layout() {
    assert_eq!(build_resource_packs_info(765), vec![0x06, 0x00, 0x00, 0x00, 0x00, 0x00]);
}

#[test]
fn resource_packs_info_template_layout() {
    let mut expected = vec![0x06, 0x00, 0x00, 0x00, 0x00];
    expected.extend_from_slice(&[0u8; 16]);
    expected.push(0x00); // empty template version
    expected.extend_from_slice(&[0x00, 0x00]); // u16 pack count
    assert_eq!(build_resource_packs_info(766), expected);
    assert_eq!(build_resource_packs_info(2167), expected);
}

#[test]
fn resource_packs_info_varuint_count() {
    let mut expected = vec![0x06, 0x00, 0x00, 0x00, 0x00];
    expected.extend_from_slice(&[0u8; 16]);
    expected.push(0x00);
    expected.push(0x00); // VarUInt pack count
    assert_eq!(build_resource_packs_info(2168), expected);
    assert_eq!(build_resource_packs_info(u32::MAX), expected);
}

#[test]
fn resource_pack_stack_bytes() {
    assert_eq!(
        build_resource_pack_stack("1.2"),
        vec![0x07, 0x00, 0x00, 0x03, b'1', b'.', b'2', 0x00, 0x00, 0x00, 0x00, 0x00, 0x00]
    );
}

#[test]
fn start_game_carries_the_version_twice() {
    let short = build_start_game("");
    let long = build_start_game("1.26.40");
    assert_eq!(long.len() - short.len(), 14);
    assert_eq!(short.len(), 176);
    let text = b"1.26.40";
    let count = long.windows(text.len()).filter(|w| *w == text).count();
    assert_eq!(count, 2);
    assert!(long.windows(6).any(|w| w == b"plains"));
    assert!(long.windows(12).any(|w| w == b"AndroServeMC"));
}

#[test]
fn nbt_placeholder_packets() {
    assert_eq!(build_biome_definitions(), vec![0x7a, 0x00]);
    assert_eq!(build_entity_identifiers(), vec![0x77, 0x00]);
}

#[test]
fn chunk_radius_updated_bytes() {
    assert_eq!(build_chunk_radius_updated(4), vec![0x46, 0x04]);
    assert_eq!(build_chunk_radius_updated(300), vec![0x46, 0xac, 0x02]);
    // a negative radius is sent as its unsigned reinterpretation
    assert_eq!(
        build_chunk_radius_updated(-1),
        vec![0x46, 0xff, 0xff, 0xff, 0xff, 0x0f]
    );
}

#[test]
fn network_chunk_publisher_update_bytes() {
    assert_eq!(
        build_network_chunk_publisher_update(0, 4, 0, 64),
        vec![0x79, 0x00, 0x08, 0x00, 0x40, 0x00, 0x00, 0x00, 0x00]
    );
    assert_eq!(
        build_network_chunk_publisher_update(-1, 1, -2, 128),
        vec![0x79, 0x01, 0x02, 0x03, 0x80, 0x01, 0x00, 0x00, 0x00, 0x00]
    );
}

#[test]
fn level_chunk_extreme_coordinates() {
    assert_eq!(
        build_level_chunk(i32::MIN, i32::MAX),
        vec![
            0x3a, 0xff, 0xff, 0xff, 0xff, 0x0f, 0xfe, 0xff, 0xff, 0xff, 0x0f, 0x00, 0x00, 0x00,
            0x00, 0x00, 0x00
        ]
    );
}

#[test]
fn text_packet_bytes() {
    assert_eq!(
        build_text_packet("Al", "hi"),
        vec![0x09, 0x01, 0x00, 0x02, b'A', b'l', 0x02, b'h', b'i', 0x00, 0x00]
    );
}

#[test]
fn start_game_layout_around_the_version() {
    let empty = build_start_game("");
    let pkt = build_start_game("1.26.40");
    let version = [&[7u8][..], b"1.26.40"].concat();
    assert_eq!(&pkt[..95], &empty[..95]);
    assert_eq!(&pkt[95..103], &version[..]);
    assert_eq!(&pkt[103..149], &empty[96..142]);
    assert_eq!(&pkt[149..157], &version[..]);
    assert_eq!(&pkt[157..], &[0u8; 33]);
}
