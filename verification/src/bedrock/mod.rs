//! Bedrock protocol packets that the server builds.
pub mod responses;

pub use responses::{
    build_biome_definitions, build_chunk_radius_updated, build_creative_content, build_disconnect,
    build_entity_identifiers, build_item_registry, build_level_chunk, build_network_chunk_publisher_update,
    build_network_settings, build_play_status, build_resource_pack_stack, build_resource_packs_info,
    build_start_game, build_text_packet,
};
