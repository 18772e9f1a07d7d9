//! Decoder for BER-TLV encoded byte streams as used in EMV payment-card
//! data exchange. The decoder turns a byte sequence into an ordered,
//! flattened sequence of tag records, each annotated with its nesting depth
//! and, where the tag identifier is known, a human-readable name.

mod hexstr;
mod registry;
mod render;
mod tlv;

pub use hexstr::lemma_hex_round_trip;
pub use hexstr::parse_tlv;
pub use hexstr::spec_decode_hex;
pub use hexstr::spec_hex_bytes;
pub use hexstr::spec_hex_encode;
pub use hexstr::spec_valid_hex;
pub use registry::get_name_by_id;
pub use render::spec_render;
pub use registry::spec_registry_name;
pub use registry::spec_tag_name;
pub use registry::TagDefinition;
pub use tlv::lemma_constructed_closure;
pub use tlv::lemma_decode_prefix;
pub use tlv::lemma_decoded_tags_wf;
pub use tlv::lemma_nest_level_bound;
pub use tlv::lemma_truncated_element;
pub use tlv::lemma_unknown_sentinel;
pub use tlv::parse_tlv_vec;
pub use tlv::spec_decode;
pub use tlv::spec_declared_len;
pub use tlv::spec_elem_ok;
pub use tlv::spec_elem_size;
pub use tlv::spec_header_size;
pub use tlv::spec_is_boundary;
pub use tlv::spec_is_constructed;
pub use tlv::spec_tag_wf;
pub use tlv::tags_view;
pub use tlv::DecodeError;
pub use tlv::GTag;
pub use tlv::Tag;
