//! The encoder: one rule per type definition variant, each consuming a
//! value node and appending bytes to the output sink.
//!
//! The whole behaviour — the bytes appended and the error, if any — is
//! fixed by the `*_spec` functions below. On failure the bytes appended by
//! already-encoded earlier siblings stay in the sink; the failing node
//! itself appends nothing.

use vstd::prelude::*;
use vstd::string::StrSliceExecFns;
use vstd::utf8::encode_utf8;

use crate::codec::le_bytes;
use crate::codec::lemma_le_bytes_single;
use crate::codec::compact_prefix;
use crate::codec::scale_encode_bool;
use crate::codec::scale_encode_bytes;
use crate::codec::scale_encode_u128;
use crate::codec::scale_encode_u16;
use crate::codec::scale_encode_u32;
use crate::codec::scale_encode_u64;
use crate::codec::scale_encode_u8;
use crate::error::EncodeError;
use crate::hexstr::hex_decode;
use crate::hexstr::hex_decoded;
use crate::hexstr::is_hex_bytes;
use crate::hexstr::strip_hex_prefix;
use crate::hexstr::without_hex_prefix;
use crate::numeric::all_dec_digits;
use crate::numeric::dec_value;
use crate::numeric::parse_decimal;
use crate::numeric::strip_separator_chars;
use crate::numeric::strip_separators;
use crate::schema::Field;
use crate::schema::PrimitiveKind;
use crate::schema::Registry;
use crate::schema::resolve_spec;
use crate::schema::TypeDef;
use crate::schema::TypeId;
use crate::value::Value;

verus! {

/// Does this unsigned integer kind have a defined encoding, and how wide
/// is it, in bytes?
pub open spec fn uint_width(k: PrimitiveKind) -> nat {
    match k {
        PrimitiveKind::U8 => 1,
        PrimitiveKind::U16 => 2,
        PrimitiveKind::U32 => 4,
        PrimitiveKind::U64 => 8,
        PrimitiveKind::U128 => 16,
        _ => 0,
    }
}

pub open spec fn is_uint_kind(k: PrimitiveKind) -> bool {
    match k {
        PrimitiveKind::U8
        | PrimitiveKind::U16
        | PrimitiveKind::U32
        | PrimitiveKind::U64
        | PrimitiveKind::U128 => true,
        _ => false,
    }
}

/// The largest value an unsigned integer kind can carry.
pub open spec fn uint_max(k: PrimitiveKind) -> int
    recommends
        is_uint_kind(k),
{
    match k {
        PrimitiveKind::U8 => u8::MAX as int,
        PrimitiveKind::U16 => u16::MAX as int,
        PrimitiveKind::U32 => u32::MAX as int,
        PrimitiveKind::U64 => u64::MAX as int,
        PrimitiveKind::U128 => u128::MAX as int,
        _ => 0,
    }
}

/// An integer value against an unsigned kind: its fixed-width bytes when
/// in range, `NumericConversion` otherwise.
pub open spec fn uint_from_int_spec(k: PrimitiveKind, i: i128) -> (Seq<u8>, Option<EncodeError>)
    recommends
        is_uint_kind(k),
{
    if 0 <= i && i as int <= uint_max(k) {
        (le_bytes(i as int, uint_width(k)), None)
    } else {
        (Seq::empty(), Some(EncodeError::NumericConversion))
    }
}

/// A decimal string value against a wide unsigned kind: separators are
/// stripped, then the digits must denote an in-range number; any other
/// content is `NumericParse`.
pub open spec fn uint_from_string_spec(k: PrimitiveKind, s: Seq<char>) -> (
    Seq<u8>,
    Option<EncodeError>,
)
    recommends
        is_uint_kind(k),
{
    let t = strip_separators(s);
    if t.len() > 0 && all_dec_digits(t) && dec_value(t) <= uint_max(k) {
        (le_bytes(dec_value(t), uint_width(k)), None)
    } else {
        (Seq::empty(), Some(EncodeError::NumericParse))
    }
}

/// The primitive rule: what encoding a value against a primitive kind
/// appends, or why it fails.
pub open spec fn encode_primitive_spec(k: PrimitiveKind, v: Value) -> (Seq<u8>, Option<EncodeError>) {
    match k {
        PrimitiveKind::Bool => match v {
            Value::Bool(b) => (seq![if b { 1u8 } else { 0u8 }], None::<EncodeError>),
            _ => (Seq::empty(), Some(EncodeError::TypeMismatch)),
        },
        PrimitiveKind::Str => match v {
            Value::Str(s) => {
                let bs = encode_utf8(s@);
                if bs.len() <= u32::MAX {
                    (compact_prefix(bs.len()) + bs, None)
                } else {
                    (Seq::empty(), Some(EncodeError::NumericConversion))
                }
            },
            _ => (Seq::empty(), Some(EncodeError::TypeMismatch)),
        },
        PrimitiveKind::U8 | PrimitiveKind::U16 | PrimitiveKind::U32 => match v {
            Value::Int(i) => uint_from_int_spec(k, i),
            _ => (Seq::empty(), Some(EncodeError::TypeMismatch)),
        },
        PrimitiveKind::U64 | PrimitiveKind::U128 => match v {
            Value::Int(i) => uint_from_int_spec(k, i),
            Value::Str(s) => uint_from_string_spec(k, s@),
            _ => (Seq::empty(), Some(EncodeError::TypeMismatch)),
        },
        _ => (Seq::empty(), Some(EncodeError::UnsupportedType)),
    }
}

/// The dispatch rule over a resolved type definition.
pub open spec fn encode_type_spec(reg: Seq<TypeDef>, td: TypeDef, v: Value) -> (
    Seq<u8>,
    Option<EncodeError>,
)
    decreases v, 1int,
{
    match td {
        TypeDef::Primitive(k) => encode_primitive_spec(k, v),
        TypeDef::Array(elem) => encode_array_spec(reg, elem, v),
        TypeDef::Composite(fields) => encode_composite_spec(reg, fields@, v),
        TypeDef::Other => (Seq::empty(), Some(EncodeError::UnsupportedType)),
    }
}

/// The array rule: a hex string (only for byte arrays), or a sequence of
/// element values, each encoded in order against the element type.
pub open spec fn encode_array_spec(reg: Seq<TypeDef>, elem: TypeId, v: Value) -> (
    Seq<u8>,
    Option<EncodeError>,
)
    decreases v, 0int,
{
    match resolve_spec(reg, elem) {
        None => (Seq::empty(), Some(EncodeError::UnknownType)),
        Some(etd) => match v {
            Value::Str(s) => {
                if etd == TypeDef::Primitive(PrimitiveKind::U8) {
                    let hs = encode_utf8(strip_hex_prefix(s@));
                    if is_hex_bytes(hs) {
                        (hex_decoded(hs), None)
                    } else {
                        (Seq::empty(), Some(EncodeError::HexDecodeError))
                    }
                } else {
                    (Seq::empty(), Some(EncodeError::TypeMismatch))
                }
            },
            Value::Sequence(items) => encode_elements_spec(reg, etd, items@),
            _ => (Seq::empty(), Some(EncodeError::TypeMismatch)),
        },
    }
}

/// Element after element against one element type, stopping at the first
/// failure and keeping the bytes appended before it.
pub open spec fn encode_elements_spec(reg: Seq<TypeDef>, etd: TypeDef, items: Seq<Value>) -> (
    Seq<u8>,
    Option<EncodeError>,
)
    decreases items, 0int,
{
    if items.len() == 0 {
        (Seq::empty(), None)
    } else {
        let first = encode_type_spec(reg, etd, items[0]);
        if first.1 is Some {
            first
        } else {
            let rest = encode_elements_spec(reg, etd, items.drop_first());
            (first.0 + rest.0, rest.1)
        }
    }
}

/// The composite rule: a mapping's values are zipped positionally with the
/// schema fields; the zip stops at the shorter side.
pub open spec fn encode_composite_spec(reg: Seq<TypeDef>, fields: Seq<Field>, v: Value) -> (
    Seq<u8>,
    Option<EncodeError>,
)
    decreases v, 0int,
{
    match v {
        Value::Mapping(entries) => encode_fields_spec(reg, fields, entries@),
        _ => (Seq::empty(), Some(EncodeError::TypeMismatch)),
    }
}

/// Field by field, positionally: each mapping value is encoded against the
/// same-ranked field's type.
pub open spec fn encode_fields_spec(
    reg: Seq<TypeDef>,
    fields: Seq<Field>,
    entries: Seq<(String, Value)>,
) -> (Seq<u8>, Option<EncodeError>)
    decreases entries, 0int,
{
    if fields.len() == 0 || entries.len() == 0 {
        (Seq::empty(), None)
    } else {
        let first = encode_field_spec(reg, fields[0], entries[0].1);
        if first.1 is Some {
            first
        } else {
            let rest = encode_fields_spec(reg, fields.drop_first(), entries.drop_first());
            (first.0 + rest.0, rest.1)
        }
    }
}

/// The field rule: resolve the field's type, then encode the value
/// against it.
pub open spec fn encode_field_spec(reg: Seq<TypeDef>, field: Field, v: Value) -> (
    Seq<u8>,
    Option<EncodeError>,
)
    decreases v, 2int,
{
    match resolve_spec(reg, field.ty) {
        None => (Seq::empty(), Some(EncodeError::UnknownType)),
        Some(ftd) => encode_type_spec(reg, ftd, v),
    }
}

/// A whole encode call, from a type id.
pub open spec fn encode_id_spec(reg: Seq<TypeDef>, id: TypeId, v: Value) -> (
    Seq<u8>,
    Option<EncodeError>,
) {
    match resolve_spec(reg, id) {
        None => (Seq::empty(), Some(EncodeError::UnknownType)),
        Some(td) => encode_type_spec(reg, td, v),
    }
}

/// How an executable encoding step relates to its spec: the sink grew by
/// exactly the spec's bytes, and the call failed exactly on the spec's
/// error.
pub open spec fn encode_outcome(
    spec_result: (Seq<u8>, Option<EncodeError>),
    old_out: Seq<u8>,
    new_out: Seq<u8>,
    r: Result<(), EncodeError>,
) -> bool {
    &&& new_out == old_out + spec_result.0
    &&& match r {
        Ok(u) => spec_result.1 is None,
        Err(e) => spec_result.1 == Some(e),
    }
}

impl PrimitiveKind {
    /// The primitive rule: validates `value` against this kind and appends
    /// its fixed- or variable-width encoding.
    pub fn encode_value_to(&self, value: &Value, out: &mut Vec<u8>) -> (r: Result<
        (),
        EncodeError,
    >)
        ensures
            encode_outcome(encode_primitive_spec(*self, *value), old(out)@, final(out)@, r),
    {
        match self {
            PrimitiveKind::Bool => match value {
                Value::Bool(b) => {
                    scale_encode_bool(*b, out);
                    Ok(())
                },
                _ => Err(EncodeError::TypeMismatch),
            },
            PrimitiveKind::Str => match value {
                Value::Str(s) => {
                    let bytes = s.as_str().as_bytes_vec();
                    if bytes.len() <= u32::MAX as usize {
                        scale_encode_bytes(&bytes, out);
                        proof {
                            let bs = encode_utf8(s@);
                            assert(old(out)@ + (compact_prefix(bs.len()) + bs) =~= old(out)@
                                + compact_prefix(bs.len()) + bs);
                        }
                        Ok(())
                    } else {
                        Err(EncodeError::NumericConversion)
                    }
                },
                _ => Err(EncodeError::TypeMismatch),
            },
            PrimitiveKind::U8 => match value {
                Value::Int(i) => {
                    if 0 <= *i && *i <= u8::MAX as i128 {
                        scale_encode_u8(*i as u8, out);
                        Ok(())
                    } else {
                        Err(EncodeError::NumericConversion)
                    }
                },
                _ => Err(EncodeError::TypeMismatch),
            },
            PrimitiveKind::U16 => match value {
                Value::Int(i) => {
                    if 0 <= *i && *i <= u16::MAX as i128 {
                        scale_encode_u16(*i as u16, out);
                        Ok(())
                    } else {
                        Err(EncodeError::NumericConversion)
                    }
                },
                _ => Err(EncodeError::TypeMismatch),
            },
            PrimitiveKind::U32 => match value {
                Value::Int(i) => {
                    if 0 <= *i && *i <= u32::MAX as i128 {
                        scale_encode_u32(*i as u32, out);
                        Ok(())
                    } else {
                        Err(EncodeError::NumericConversion)
                    }
                },
                _ => Err(EncodeError::TypeMismatch),
            },
            PrimitiveKind::U64 => match value {
                Value::Int(i) => {
                    if 0 <= *i && *i <= u64::MAX as i128 {
                        scale_encode_u64(*i as u64, out);
                        Ok(())
                    } else {
                        Err(EncodeError::NumericConversion)
                    }
                },
                Value::Str(s) => {
                    let digits = strip_separator_chars(s.as_str());
                    match parse_decimal(&digits) {
                        Ok(v) => {
                            if v <= u64::MAX as u128 {
                                scale_encode_u64(v as u64, out);
                                Ok(())
                            } else {
                                Err(EncodeError::NumericParse)
                            }
                        },
                        Err(e) => Err(e),
                    }
                },
                _ => Err(EncodeError::TypeMismatch),
            },
            PrimitiveKind::U128 => match value {
                Value::Int(i) => {
                    if 0 <= *i {
                        scale_encode_u128(*i as u128, out);
                        Ok(())
                    } else {
                        Err(EncodeError::NumericConversion)
                    }
                },
                Value::Str(s) => {
                    let digits = strip_separator_chars(s.as_str());
                    match parse_decimal(&digits) {
                        Ok(v) => {
                            scale_encode_u128(v, out);
                            Ok(())
                        },
                        Err(e) => Err(e),
                    }
                },
                _ => Err(EncodeError::TypeMismatch),
            },
            _ => Err(EncodeError::UnsupportedType),
        }
    }
}

impl TypeDef {
    /// The dispatch rule: encodes `value` against this type definition,
    /// appending the wire bytes to `out`.
    pub fn encode_value_to(&self, registry: &Registry, value: &Value, out: &mut Vec<u8>) -> (r:
        Result<(), EncodeError>)
        ensures
            encode_outcome(encode_type_spec(registry@, *self, *value), old(out)@, final(out)@, r),
        decreases *value, 1int,
    {
        match self {
            TypeDef::Primitive(k) => k.encode_value_to(value, out),
            TypeDef::Array(elem) => encode_array(registry, *elem, value, out),
            TypeDef::Composite(fields) => encode_composite(registry, fields, value, out),
            TypeDef::Other => Err(EncodeError::UnsupportedType),
        }
    }
}

/// The array rule: resolves the element type once, then accepts either a
/// hexadecimal string (byte arrays only) or a sequence of element values.
#[verifier::loop_isolation(false)]
pub fn encode_array(registry: &Registry, elem: TypeId, value: &Value, out: &mut Vec<u8>) -> (r:
    Result<(), EncodeError>)
    ensures
        encode_outcome(encode_array_spec(registry@, elem, *value), old(out)@, final(out)@, r),
    decreases *value, 0int,
{
    let etd = match registry.resolve(elem) {
        Ok(td) => td,
        Err(e) => {
            return Err(e);
        },
    };
    match value {
        Value::Str(s) => match etd {
            TypeDef::Primitive(PrimitiveKind::U8) => {
                let trimmed = without_hex_prefix(s.as_str());
                match hex_decode(trimmed) {
                    Some(decoded) => {
                        let ghost hs = encode_utf8(strip_hex_prefix(s@));
                        let mut i: usize = 0;
                        while i < decoded.len()
                            invariant
                                i <= decoded@.len(),
                                out@ == old(out)@ + decoded@.subrange(0, i as int),
                            decreases decoded@.len() - i,
                        {
                            scale_encode_u8(decoded[i], out);
                            proof {
                                lemma_le_bytes_single(decoded@[i as int]);
                                assert(decoded@.subrange(0, i + 1) =~= decoded@.subrange(
                                    0,
                                    i as int,
                                ) + seq![decoded@[i as int]]);
                                assert(out@ =~= old(out)@ + decoded@.subrange(0, i + 1));
                            }
                            i = i + 1;
                        }
                        proof {
                            assert(decoded@.subrange(0, decoded@.len() as int) =~= decoded@);
                        }
                        Ok(())
                    },
                    None => Err(EncodeError::HexDecodeError),
                }
            },
            _ => Err(EncodeError::TypeMismatch),
        },
        Value::Sequence(items) => {
            let ghost full = encode_elements_spec(registry@, *etd, items@);
            let ghost mut written: Seq<u8> = Seq::empty();
            let mut i: usize = 0;
            proof {
                assert(items@.subrange(0, items@.len() as int) =~= items@);
            }
            while i < items.len()
                invariant
                    i <= items@.len(),
                    out@ == old(out)@ + written,
                    full == encode_elements_spec(registry@, *etd, items@),
                    ({
                        let rest = encode_elements_spec(
                            registry@,
                            *etd,
                            items@.subrange(i as int, items@.len() as int),
                        );
                        full == (written + rest.0, rest.1)
                    }),
                decreases items@.len() - i,
            {
                let ghost tail = items@.subrange(i as int, items@.len() as int);
                proof {
                    assert(tail[0] == items@[i as int]);
                    assert(tail.drop_first() =~= items@.subrange(i + 1, items@.len() as int));
                }
                let ghost step = encode_type_spec(registry@, *etd, items@[i as int]);
                proof {
                    assert(*value == Value::Sequence(*items));
                    assert(decreases_to!(*value => *items));
                    assert(decreases_to!(*items => items@[i as int]));
                }
                match etd.encode_value_to(registry, &items[i], out) {
                    Ok(u) => {
                        proof {
                            let rest = encode_elements_spec(
                                registry@,
                                *etd,
                                items@.subrange(i + 1, items@.len() as int),
                            );
                            assert(written + (step.0 + rest.0) =~= (written + step.0) + rest.0);
                            written = written + step.0;
                            assert(out@ =~= old(out)@ + written);
                        }
                        i = i + 1;
                    },
                    Err(e) => {
                        proof {
                            assert(full == (written + step.0, step.1));
                            assert(out@ =~= old(out)@ + (written + step.0));
                        }
                        return Err(e);
                    },
                }
            }
            proof {
                assert(items@.subrange(items@.len() as int, items@.len() as int) =~= Seq::<
                    Value,
                >::empty());
                assert(full == (written + Seq::<u8>::empty(), None::<EncodeError>));
                assert(full.0 =~= written);
            }
            Ok(())
        },
        _ => Err(EncodeError::TypeMismatch),
    }
}

/// The composite rule: a mapping's values, zipped positionally with the
/// fields, each encoded against its field's type.
#[verifier::loop_isolation(false)]
pub fn encode_composite(
    registry: &Registry,
    fields: &Vec<Field>,
    value: &Value,
    out: &mut Vec<u8>,
) -> (r: Result<(), EncodeError>)
    ensures
        encode_outcome(
            encode_composite_spec(registry@, fields@, *value),
            old(out)@,
            final(out)@,
            r,
        ),
    decreases *value, 0int,
{
    match value {
        Value::Mapping(entries) => {
            let ghost full = encode_fields_spec(registry@, fields@, entries@);
            let ghost mut written: Seq<u8> = Seq::empty();
            let mut i: usize = 0;
            proof {
                assert(fields@.subrange(0, fields@.len() as int) =~= fields@);
                assert(entries@.subrange(0, entries@.len() as int) =~= entries@);
            }
            while i < fields.len() && i < entries.len()
                invariant
                    i <= fields@.len(),
                    i <= entries@.len(),
                    out@ == old(out)@ + written,
                    full == encode_fields_spec(registry@, fields@, entries@),
                    ({
                        let rest = encode_fields_spec(
                            registry@,
                            fields@.subrange(i as int, fields@.len() as int),
                            entries@.subrange(i as int, entries@.len() as int),
                        );
                        full == (written + rest.0, rest.1)
                    }),
                decreases fields@.len() - i,
            {
                proof {
                    let ftail = fields@.subrange(i as int, fields@.len() as int);
                    let etail = entries@.subrange(i as int, entries@.len() as int);
                    assert(ftail[0] == fields@[i as int]);
                    assert(etail[0] == entries@[i as int]);
                    assert(ftail.drop_first() =~= fields@.subrange(i + 1, fields@.len() as int));
                    assert(etail.drop_first() =~= entries@.subrange(i + 1, entries@.len() as int));
                }
                let ghost step = encode_field_spec(registry@, fields@[i as int], entries@[
                    i as int].1);
                proof {
                    assert(*value == Value::Mapping(*entries));
                    assert(decreases_to!(*value => *entries));
                    assert(decreases_to!(*entries => entries@[i as int]));
                    assert(decreases_to!(entries@[i as int] => entries@[i as int].1));
                }
                let entry = &entries[i];
                match encode_field(registry, &fields[i], &entry.1, out) {
                    Ok(u) => {
                        proof {
                            let rest = encode_fields_spec(
                                registry@,
                                fields@.subrange(i + 1, fields@.len() as int),
                                entries@.subrange(i + 1, entries@.len() as int),
                            );
                            assert(written + (step.0 + rest.0) =~= (written + step.0) + rest.0);
                            written = written + step.0;
                            assert(out@ =~= old(out)@ + written);
                        }
                        i = i + 1;
                    },
                    Err(e) => {
                        proof {
                            assert(full == (written + step.0, step.1));
                            assert(out@ =~= old(out)@ + (written + step.0));
                        }
                        return Err(e);
                    },
                }
            }
            proof {
                let rest = encode_fields_spec(
                    registry@,
                    fields@.subrange(i as int, fields@.len() as int),
                    entries@.subrange(i as int, entries@.len() as int),
                );
                assert(rest == (Seq::<u8>::empty(), None::<EncodeError>));
                assert(full.0 =~= written);
            }
            Ok(())
        },
        _ => Err(EncodeError::TypeMismatch),
    }
}

/// The field rule: resolve the field's type, then encode against it.
pub fn encode_field(registry: &Registry, field: &Field, value: &Value, out: &mut Vec<u8>) -> (r:
    Result<(), EncodeError>)
    ensures
        encode_outcome(encode_field_spec(registry@, *field, *value), old(out)@, final(out)@, r),
    decreases *value, 2int,
{
    match registry.resolve(field.ty) {
        Ok(ftd) => ftd.encode_value_to(registry, value, out),
        Err(e) => Err(e),
    }
}

impl Registry {
    /// A whole encode call: resolves `id` and encodes `value` against the
    /// resolved definition, appending the wire bytes to `out`.
    pub fn encode_value_to(&self, id: TypeId, value: &Value, out: &mut Vec<u8>) -> (r: Result<
        (),
        EncodeError,
    >)
        ensures
            encode_outcome(encode_id_spec(self@, id, *value), old(out)@, final(out)@, r),
    {
        match self.resolve(id) {
            Ok(td) => td.encode_value_to(self, value, out),
            Err(e) => Err(e),
        }
    }

    /// Encodes into a fresh scratch buffer: on failure nothing is handed
    /// back, so no partial encoding can leak into a larger message.
    pub fn encode_value(&self, id: TypeId, value: &Value) -> (r: Result<Vec<u8>, EncodeError>)
        ensures
            match r {
                Ok(bytes) => encode_id_spec(self@, id, *value) == (
                    bytes@,
                    None::<EncodeError>,
                ),
                Err(e) => encode_id_spec(self@, id, *value).1 == Some(e),
            },
    {
        let mut out: Vec<u8> = Vec::new();
        match self.encode_value_to(id, value, &mut out) {
            Ok(u) => {
                proof {
                    assert(Seq::<u8>::empty() + encode_id_spec(self@, id, *value).0
                        =~= encode_id_spec(self@, id, *value).0);
                }
                Ok(out)
            },
            Err(e) => Err(e),
        }
    }
}

} // verus!
