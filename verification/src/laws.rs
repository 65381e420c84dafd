//! Laws of the encoder: the properties that hold of every input, stated
//! over the spec-level encoding rules and proved once and for all.

use vstd::prelude::*;
use vstd::utf8::encode_utf8;

use crate::codec::lemma_le_bytes_len;
use crate::codec::lemma_le_bytes_single;
use crate::encode::encode_array_spec;
use crate::encode::encode_elements_spec;
use crate::encode::encode_primitive_spec;
use crate::encode::encode_type_spec;
use crate::encode::is_uint_kind;
use crate::encode::uint_max;
use crate::encode::uint_width;
use crate::error::EncodeError;
use crate::hexstr::hex_decoded;
use crate::hexstr::is_hex_bytes;
use crate::hexstr::strip_hex_prefix;
use crate::numeric::all_dec_digits;
use crate::numeric::dec_value;
use crate::numeric::lemma_dec_value_nonneg;
use crate::numeric::strip_separators;
use crate::schema::PrimitiveKind;
use crate::schema::resolve_spec;
use crate::schema::TypeDef;
use crate::schema::TypeId;
use crate::value::Value;

verus! {

/// The byte width of a primitive kind with a defined fixed-width
/// encoding, if it has one (`Str` is variable-width; the rest have none).
pub open spec fn prim_fixed_width(k: PrimitiveKind) -> Option<nat> {
    match k {
        PrimitiveKind::Bool => Some(1nat),
        PrimitiveKind::U8 => Some(1nat),
        PrimitiveKind::U16 => Some(2nat),
        PrimitiveKind::U32 => Some(4nat),
        PrimitiveKind::U64 => Some(8nat),
        PrimitiveKind::U128 => Some(16nat),
        _ => None,
    }
}

/// Law: whenever encoding a value against a primitive kind with a defined
/// fixed-width encoding succeeds, it appends exactly that many bytes.
pub proof fn lemma_primitive_fixed_width(k: PrimitiveKind, v: Value)
    requires
        prim_fixed_width(k) is Some,
        encode_primitive_spec(k, v).1 is None,
    ensures
        encode_primitive_spec(k, v).0.len() == prim_fixed_width(k)->Some_0,
{
    match v {
        Value::Int(i) => {
            lemma_le_bytes_len(i as int, uint_width(k));
        },
        Value::Str(s) => {
            lemma_le_bytes_len(dec_value(strip_separators(s@)), uint_width(k));
        },
        _ => {},
    }
}

/// Law: an out-of-range integer against an unsigned kind fails with
/// `NumericConversion` and appends nothing; it is never wrapped or
/// truncated.
pub proof fn lemma_primitive_int_out_of_range(k: PrimitiveKind, i: i128)
    requires
        is_uint_kind(k),
        !(0 <= i && i as int <= uint_max(k)),
    ensures
        encode_primitive_spec(k, Value::Int(i)) == (
            Seq::<u8>::empty(),
            Some(EncodeError::NumericConversion),
        ),
{
}

/// Law: for a `U64` or `U128` field, a decimal string with interleaved
/// `_`/`,` separators encodes exactly as the equivalent plain integer
/// value does.
pub proof fn lemma_separated_string_matches_int(k: PrimitiveKind, s: String, i: i128)
    requires
        k == PrimitiveKind::U64 || k == PrimitiveKind::U128,
        strip_separators(s@).len() > 0,
        all_dec_digits(strip_separators(s@)),
        dec_value(strip_separators(s@)) <= uint_max(k),
        i as int == dec_value(strip_separators(s@)),
    ensures
        encode_primitive_spec(k, Value::Str(s)) == encode_primitive_spec(k, Value::Int(i)),
{
    lemma_dec_value_nonneg(strip_separators(s@));
}

/// Law: a byte-array hex string encodes the same with a leading `0x` as
/// without it.
pub proof fn lemma_hex_prefix_irrelevant(reg: Seq<TypeDef>, elem: TypeId, p: String, b: String)
    requires
        p@ == seq!['0', 'x'] + b@,
        !(b@.len() >= 2 && b@[0] == '0' && b@[1] == 'x'),
    ensures
        encode_array_spec(reg, elem, Value::Str(p)) == encode_array_spec(reg, elem, Value::Str(b)),
{
    assert(p@.len() >= 2 && p@[0] == '0' && p@[1] == 'x');
    assert(strip_hex_prefix(p@) =~= b@);
    assert(strip_hex_prefix(b@) == b@);
}

/// A sequence whose entries are exactly the given bytes, as integer
/// values, encodes against `U8` elements to those bytes.
proof fn lemma_u8_elements_concat(reg: Seq<TypeDef>, items: Seq<Value>, bytes: Seq<u8>)
    requires
        items.len() == bytes.len(),
        forall|j: int| 0 <= j < items.len() ==> items[j] == Value::Int(bytes[j] as i128),
    ensures
        encode_elements_spec(reg, TypeDef::Primitive(PrimitiveKind::U8), items) == (
            bytes,
            None::<EncodeError>,
        ),
    decreases items.len(),
{
    if items.len() == 0 {
        assert(bytes =~= Seq::<u8>::empty());
    } else {
        let b0 = bytes[0];
        lemma_le_bytes_single(b0);
        assert(encode_type_spec(reg, TypeDef::Primitive(PrimitiveKind::U8), items[0]) == (
            seq![b0],
            None::<EncodeError>,
        ));
        assert forall|j: int| 0 <= j < items.drop_first().len() implies items.drop_first()[j]
            == Value::Int(bytes.drop_first()[j] as i128) by {
            assert(items.drop_first()[j] == items[j + 1]);
            assert(bytes.drop_first()[j] == bytes[j + 1]);
        }
        lemma_u8_elements_concat(reg, items.drop_first(), bytes.drop_first());
        assert(seq![b0] + bytes.drop_first() =~= bytes);
    }
}

/// Law: for a byte array, a hex string input and the equivalent explicit
/// sequence of byte values produce byte-identical output.
pub proof fn lemma_hex_matches_byte_sequence(
    reg: Seq<TypeDef>,
    elem: TypeId,
    s: String,
    items: Vec<Value>,
)
    requires
        resolve_spec(reg, elem) == Some(TypeDef::Primitive(PrimitiveKind::U8)),
        is_hex_bytes(encode_utf8(strip_hex_prefix(s@))),
        items@.len() == hex_decoded(encode_utf8(strip_hex_prefix(s@))).len(),
        forall|j: int|
            0 <= j < items@.len() ==> items@[j] == Value::Int(
                hex_decoded(encode_utf8(strip_hex_prefix(s@)))[j] as i128,
            ),
    ensures
        encode_array_spec(reg, elem, Value::Str(s)) == encode_array_spec(
            reg,
            elem,
            Value::Sequence(items),
        ),
        encode_array_spec(reg, elem, Value::Str(s)) == (
            hex_decoded(encode_utf8(strip_hex_prefix(s@))),
            None::<EncodeError>,
        ),
{
    lemma_u8_elements_concat(reg, items@, hex_decoded(encode_utf8(strip_hex_prefix(s@))));
}

/// Law: an array encoded from a sequence of element values — composites
/// included — is the plain concatenation of each element's encoding, in
/// sequence order, with no separators and no length prefix.
pub proof fn lemma_array_concatenates_elements(
    reg: Seq<TypeDef>,
    elem: TypeId,
    etd: TypeDef,
    items: Vec<Value>,
)
    requires
        resolve_spec(reg, elem) == Some(etd),
        forall|j: int|
            0 <= j < items@.len() ==> (#[trigger] encode_type_spec(reg, etd, items@[j])).1
                is None,
    ensures
        encode_array_spec(reg, elem, Value::Sequence(items)) == (
            Seq::new(items@.len(), |j: int| encode_type_spec(reg, etd, items@[j]).0).flatten(),
            None::<EncodeError>,
        ),
{
    lemma_elements_concat(reg, etd, items@);
}

/// The elementwise form of [`lemma_array_concatenates_elements`].
proof fn lemma_elements_concat(reg: Seq<TypeDef>, etd: TypeDef, items: Seq<Value>)
    requires
        forall|j: int|
            0 <= j < items.len() ==> (#[trigger] encode_type_spec(reg, etd, items[j])).1 is None,
    ensures
        encode_elements_spec(reg, etd, items) == (
            Seq::new(items.len(), |j: int| encode_type_spec(reg, etd, items[j]).0).flatten(),
            None::<EncodeError>,
        ),
    decreases items.len(),
{
    let encs = Seq::new(items.len(), |j: int| encode_type_spec(reg, etd, items[j]).0);
    if items.len() == 0 {
        assert(encs.flatten() =~= Seq::<u8>::empty());
    } else {
        assert forall|j: int|
            0 <= j < items.drop_first().len() implies (#[trigger] encode_type_spec(
            reg,
            etd,
            items.drop_first()[j],
        )).1 is None by {
            assert(items.drop_first()[j] == items[j + 1]);
        }
        lemma_elements_concat(reg, etd, items.drop_first());
        let rest_encs = Seq::new(
            items.drop_first().len(),
            |j: int| encode_type_spec(reg, etd, items.drop_first()[j]).0,
        );
        assert(encs.drop_first() =~= rest_encs);
        assert(encs.flatten() == encs.first() + encs.drop_first().flatten());
        assert(encs.first() == encode_type_spec(reg, etd, items[0]).0);
    }
}

/// Does the value's top-level shape fail to match what the type
/// definition accepts? These are exactly the `TypeMismatch` cases.
pub open spec fn shape_mismatch(reg: Seq<TypeDef>, td: TypeDef, v: Value) -> bool {
    match td {
        TypeDef::Primitive(k) => match k {
            PrimitiveKind::Bool => !(v is Bool),
            PrimitiveKind::Str => !(v is Str),
            PrimitiveKind::U8 | PrimitiveKind::U16 | PrimitiveKind::U32 => !(v is Int),
            PrimitiveKind::U64 | PrimitiveKind::U128 => !(v is Int) && !(v is Str),
            _ => false,
        },
        TypeDef::Array(elem) => match resolve_spec(reg, elem) {
            Some(etd) => match v {
                Value::Str(s) => etd != TypeDef::Primitive(PrimitiveKind::U8),
                Value::Sequence(items) => false,
                _ => true,
            },
            None => false,
        },
        TypeDef::Composite(fields) => !(v is Mapping),
        TypeDef::Other => false,
    }
}

/// Law: a value/type shape mismatch fails with `TypeMismatch`, and the
/// mismatching node itself appends no bytes.
pub proof fn lemma_mismatch_appends_nothing(reg: Seq<TypeDef>, td: TypeDef, v: Value)
    requires
        shape_mismatch(reg, td, v),
    ensures
        encode_type_spec(reg, td, v) == (Seq::<u8>::empty(), Some(EncodeError::TypeMismatch)),
{
}

/// Is the type definition one this encoder does not implement: the
/// catch-all variant, or a reserved primitive kind?
pub open spec fn unimplemented_def(td: TypeDef) -> bool {
    match td {
        TypeDef::Other => true,
        TypeDef::Primitive(k) => !(k is Bool) && !(k is Str) && !is_uint_kind(k),
        _ => false,
    }
}

/// Law: an unimplemented type definition variant always fails with
/// `UnsupportedType` and never partially encodes: no bytes are appended,
/// whatever the value.
pub proof fn lemma_unsupported_appends_nothing(reg: Seq<TypeDef>, td: TypeDef, v: Value)
    requires
        unimplemented_def(td),
    ensures
        encode_type_spec(reg, td, v) == (Seq::<u8>::empty(), Some(EncodeError::UnsupportedType)),
{
}

} // verus!
