//! A type-directed value transcoder: encodes a dynamically typed value tree
//! against a schema of type definitions into the strict binary wire form of
//! the SCALE codec.

mod codec;
mod encode;
mod error;
mod hexstr;
mod laws;
mod numeric;
mod schema;
mod value;

pub use codec::compact_prefix;
pub use codec::le_bytes;
pub use codec::lemma_le_bytes_len;
pub use codec::lemma_le_bytes_single;
pub use encode::encode_array_spec;
pub use encode::encode_composite_spec;
pub use encode::encode_elements_spec;
pub use encode::encode_field_spec;
pub use encode::encode_fields_spec;
pub use encode::encode_id_spec;
pub use encode::encode_outcome;
pub use encode::encode_primitive_spec;
pub use encode::encode_type_spec;
pub use encode::is_uint_kind;
pub use encode::uint_from_int_spec;
pub use encode::uint_from_string_spec;
pub use encode::uint_max;
pub use encode::uint_width;
pub use error::EncodeError;
pub use hexstr::hex_decoded;
pub use hexstr::hex_digit_val;
pub use hexstr::is_hex_bytes;
pub use hexstr::is_hex_digit;
pub use hexstr::strip_hex_prefix;
pub use hexstr::without_hex_prefix;
pub use laws::lemma_array_concatenates_elements;
pub use laws::lemma_hex_matches_byte_sequence;
pub use laws::lemma_hex_prefix_irrelevant;
pub use laws::lemma_mismatch_appends_nothing;
pub use laws::lemma_primitive_fixed_width;
pub use laws::lemma_primitive_int_out_of_range;
pub use laws::lemma_separated_string_matches_int;
pub use laws::lemma_unsupported_appends_nothing;
pub use laws::prim_fixed_width;
pub use laws::shape_mismatch;
pub use laws::unimplemented_def;
pub use numeric::all_dec_digits;
pub use numeric::dec_value;
pub use numeric::is_dec_digit;
pub use numeric::is_separator;
pub use numeric::lemma_dec_value_nonneg;
pub use numeric::lemma_dec_value_prefix;
pub use numeric::parse_decimal;
pub use numeric::strip_separator_chars;
pub use numeric::strip_separators;
pub use schema::Field;
pub use schema::PrimitiveKind;
pub use schema::Registry;
pub use schema::TypeDef;
pub use schema::TypeId;
pub use schema::resolve_spec;
pub use value::Value;
