//! The wire form of field values, and the proof that decoding gives them back.

use vstd::prelude::*;
use vstd::utf8::encode_utf8;
use vstd::utf8::encode_utf8_decode_utf8;
use vstd::utf8::encode_utf8_valid_utf8;
use crate::payload::decode_def;
use crate::payload::decode_fields;
use crate::payload::decode_from;
use crate::payload::field;
use crate::payload::text_field;
use crate::payload::FieldDef;
use crate::payload::FieldView;
use crate::payload::SchemaView;
use crate::payload::Step;
use crate::payload::ValueView;
use crate::payload::NUMERIC_IDENTIFIER;
use crate::payload::STRING_IDENTIFIER;
use crate::wire::lemma_le_u32_of_bytes;
use crate::wire::lemma_le_u64_of_bytes;
use crate::wire::u32_le_bytes;
use crate::wire::u64_le_bytes;

verus! {

/// The value that goes into one schema entry.
pub enum Datum {
    U8(u8),
    U32(u32),
    U64(u64),
    Text(Seq<char>),
    /// An identifier of the numeric kind.
    NumericId(u32),
    /// An identifier of the string kind.
    NamedId(Seq<char>),
}

/// `datum` is a value for the entry `def`, and its text, if it holds any, is short
/// enough for the entry's length field.
pub open spec fn datum_fits(def: FieldDef, datum: Datum) -> bool {
    match (def, datum) {
        (FieldDef::U8 { .. }, Datum::U8(_)) => true,
        (FieldDef::U32 { .. }, Datum::U32(_)) => true,
        (FieldDef::U64 { .. }, Datum::U64(_)) => true,
        (FieldDef::Text8 { .. }, Datum::Text(text)) => encode_utf8(text).len() <= u8::MAX,
        (FieldDef::Text32 { .. }, Datum::Text(text)) => encode_utf8(text).len() <= u32::MAX,
        (FieldDef::Identifier { .. }, Datum::NumericId(_)) => true,
        (FieldDef::Identifier { .. }, Datum::NamedId(text)) => encode_utf8(text).len() <= u8::MAX,
        _ => false,
    }
}

/// The bytes of `datum` under the entry `def`.
pub open spec fn encode_datum(def: FieldDef, datum: Datum) -> Seq<u8> {
    match (def, datum) {
        (FieldDef::U8 { .. }, Datum::U8(v)) => seq![v],
        (FieldDef::U32 { .. }, Datum::U32(v)) => u32_le_bytes(v),
        (FieldDef::U64 { .. }, Datum::U64(v)) => u64_le_bytes(v),
        (FieldDef::Text8 { .. }, Datum::Text(text)) => seq![encode_utf8(text).len() as u8]
            + encode_utf8(text),
        (FieldDef::Text32 { .. }, Datum::Text(text)) => u32_le_bytes(
            encode_utf8(text).len() as u32,
        ) + encode_utf8(text),
        (FieldDef::Identifier { .. }, Datum::NumericId(v)) => seq![NUMERIC_IDENTIFIER, 4u8]
            + u32_le_bytes(v),
        (FieldDef::Identifier { .. }, Datum::NamedId(text)) => seq![
            STRING_IDENTIFIER,
            encode_utf8(text).len() as u8,
        ] + encode_utf8(text),
        _ => Seq::empty(),
    }
}

/// The fields that `datum` is decoded to under the entry `def`.
pub open spec fn datum_fields(def: FieldDef, datum: Datum) -> Seq<FieldView> {
    match (def, datum) {
        (FieldDef::U8 { name }, Datum::U8(v)) => seq![field(name, ValueView::U8(v))],
        (FieldDef::U32 { name }, Datum::U32(v)) => seq![field(name, ValueView::U32(v))],
        (FieldDef::U64 { name }, Datum::U64(v)) => seq![field(name, ValueView::U64(v))],
        (FieldDef::Text8 { len_name, name }, Datum::Text(text)) => seq![
            field(len_name, ValueView::U8(encode_utf8(text).len() as u8)),
            field(name, ValueView::Text(text)),
        ],
        (FieldDef::Text32 { len_name, name }, Datum::Text(text)) => seq![
            field(len_name, ValueView::U32(encode_utf8(text).len() as u32)),
            field(name, ValueView::Text(text)),
        ],
        (FieldDef::Identifier { kind_name, len_name, value_name }, Datum::NumericId(v)) => seq![
            field(kind_name, ValueView::U8(NUMERIC_IDENTIFIER)),
            field(len_name, ValueView::U8(4)),
            field(value_name, ValueView::U32(v)),
        ],
        (FieldDef::Identifier { kind_name, len_name, value_name }, Datum::NamedId(text)) => seq![
            field(kind_name, ValueView::U8(STRING_IDENTIFIER)),
            field(len_name, ValueView::U8(encode_utf8(text).len() as u8)),
            field(value_name, ValueView::Text(text)),
        ],
        _ => Seq::empty(),
    }
}

/// `data` are values for the first entries of `schema`, the required ones among them.
pub open spec fn data_fit(schema: SchemaView, data: Seq<Datum>) -> bool {
    &&& schema.required <= data.len() <= schema.fields.len()
    &&& forall|i: int| 0 <= i < data.len() ==> datum_fits(schema.fields[i], #[trigger] data[i])
}

/// The bytes of the values of `data` from index `i` on, one behind the other.
pub open spec fn encode_from(defs: Seq<FieldDef>, data: Seq<Datum>, i: int) -> Seq<u8>
    decreases data.len() - i,
{
    if i < 0 || i >= data.len() {
        Seq::empty()
    } else {
        encode_datum(defs[i], data[i]) + encode_from(defs, data, i + 1)
    }
}

/// The fields of the values of `data` from index `i` on, in order.
pub open spec fn fields_from(defs: Seq<FieldDef>, data: Seq<Datum>, i: int) -> Seq<FieldView>
    decreases data.len() - i,
{
    if i < 0 || i >= data.len() {
        Seq::empty()
    } else {
        datum_fields(defs[i], data[i]) + fields_from(defs, data, i + 1)
    }
}

/// The payload that holds `data` in the layout of `schema`.
pub open spec fn encode_fields(schema: SchemaView, data: Seq<Datum>) -> Seq<u8> {
    encode_from(schema.fields, data, 0)
}

/// The fields that `data` stand for under `schema`.
pub open spec fn fields_of(schema: SchemaView, data: Seq<Datum>) -> Seq<FieldView> {
    fields_from(schema.fields, data, 0)
}

/// Text that was encoded is decoded to itself, wherever its bytes stand.
proof fn lemma_text_round_trip(
    name: &'static str,
    text: Seq<char>,
    whole: Seq<u8>,
    start: int,
)
    requires
        0 <= start,
        start + encode_utf8(text).len() <= whole.len(),
        whole.subrange(start, start + encode_utf8(text).len()) == encode_utf8(text),
    ensures
        text_field(
            name,
            whole.subrange(start, start + encode_utf8(text).len()),
        ) == field(name, ValueView::Text(text)),
{
    encode_utf8_valid_utf8(text);
    encode_utf8_decode_utf8(text);
}

/// One value that was encoded is decoded to its fields, whatever stands around its bytes.
pub proof fn lemma_datum_round_trip(def: FieldDef, datum: Datum, before: Seq<u8>, after: Seq<u8>)
    requires
        datum_fits(def, datum),
    ensures
        encode_datum(def, datum).len() > 0,
        decode_def(def, before + encode_datum(def, datum) + after, before.len() as int) == (
        Step::Done {
            fields: datum_fields(def, datum),
            next: before.len() as int + encode_datum(def, datum).len() as int,
        }),
{
    let bytes = encode_datum(def, datum);
    let whole = before + bytes + after;
    let at = before.len() as int;
    assert forall|k: int| 0 <= k < bytes.len() implies whole[at + k] == bytes[k] by {}
    match (def, datum) {
        (FieldDef::U8 { name }, Datum::U8(v)) => {
            assert(whole[at] == bytes[0]);
        },
        (FieldDef::U32 { name }, Datum::U32(v)) => {
            lemma_le_u32_of_bytes(v, before, after);
        },
        (FieldDef::U64 { name }, Datum::U64(v)) => {
            lemma_le_u64_of_bytes(v, before, after);
        },
        (FieldDef::Text8 { len_name, name }, Datum::Text(text)) => {
            let encoded = encode_utf8(text);
            assert(whole[at] == bytes[0]);
            assert(whole.subrange(at + 1, at + 1 + encoded.len()) =~= encoded);
            lemma_text_round_trip(name, text, whole, at + 1);
        },
        (FieldDef::Text32 { len_name, name }, Datum::Text(text)) => {
            let encoded = encode_utf8(text);
            let len = encoded.len() as u32;
            lemma_le_u32_of_bytes(len, before, encoded + after);
            assert(whole =~= before + u32_le_bytes(len) + (encoded + after));
            assert(whole.subrange(at + 4, at + 4 + encoded.len()) =~= encoded);
            lemma_text_round_trip(name, text, whole, at + 4);
        },
        (FieldDef::Identifier { kind_name, len_name, value_name }, Datum::NumericId(v)) => {
            let head = seq![NUMERIC_IDENTIFIER, 4u8];
            assert(whole[at] == bytes[0]);
            assert(whole[at + 1] == bytes[1]);
            lemma_le_u32_of_bytes(v, before + head, after);
            assert(whole =~= (before + head) + u32_le_bytes(v) + after);
        },
        (FieldDef::Identifier { kind_name, len_name, value_name }, Datum::NamedId(text)) => {
            let encoded = encode_utf8(text);
            assert(whole[at] == bytes[0]);
            assert(whole[at + 1] == bytes[1]);
            assert(whole.subrange(at + 2, at + 2 + encoded.len()) =~= encoded);
            lemma_text_round_trip(value_name, text, whole, at + 2);
        },
        _ => {},
    }
}

/// The values of `data` from index `i` on, encoded behind any bytes `before`, are
/// decoded from there to their fields.
proof fn lemma_round_trip_from(schema: SchemaView, data: Seq<Datum>, i: int, before: Seq<u8>)
    requires
        data_fit(schema, data),
        0 <= i <= data.len(),
    ensures
        decode_from(
            schema.fields,
            schema.required,
            before + encode_from(schema.fields, data, i),
            i,
            before.len() as int,
        ) == fields_from(schema.fields, data, i),
    decreases data.len() - i,
{
    let defs = schema.fields;
    let whole = before + encode_from(defs, data, i);
    if i < data.len() {
        let bytes = encode_datum(defs[i], data[i]);
        let after = encode_from(defs, data, i + 1);
        lemma_datum_round_trip(defs[i], data[i], before, after);
        lemma_round_trip_from(schema, data, i + 1, before + bytes);
        assert(whole =~= before + bytes + after);
        assert(whole =~= (before + bytes) + after);
    } else {
        assert(whole =~= before);
    }
}

/// Round trip: a payload that holds values in the layout of a schema is decoded
/// by that schema to exactly those values, field by field.
pub proof fn lemma_round_trip(schema: SchemaView, data: Seq<Datum>)
    requires
        data_fit(schema, data),
    ensures
        decode_fields(schema, encode_fields(schema, data)) == fields_of(schema, data),
{
    lemma_round_trip_from(schema, data, 0, Seq::empty());
    assert(Seq::<u8>::empty() + encode_fields(schema, data) =~= encode_fields(schema, data));
}

} // verus!
