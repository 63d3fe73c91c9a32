//! Payload schemas and the decoder that reads a payload by its schema.
//!
//! A payload is a run of fields. Integers are little-endian and unsigned. Text is
//! UTF-8 behind a length of one or four bytes. An identifier is a kind byte, a
//! length byte and a value: four bytes of integer for the numeric kind, text of
//! the given length for the string kind.

use vstd::prelude::*;
use vstd::slice::slice_subrange;
use crate::fault::Fault;
use crate::text::spec_text;
use crate::text::text_from_bytes;
use crate::wire::le_u32;
use crate::wire::le_u64;
use crate::wire::read_u32_le;
use crate::wire::read_u64_le;
use crate::wire::read_u8;

verus! {

/// Kind byte of an identifier whose value is a four-byte integer.
pub const NUMERIC_IDENTIFIER: u8 = 1;

/// Kind byte of an identifier whose value is text.
pub const STRING_IDENTIFIER: u8 = 2;

/// How one entry of a schema lies on the wire, and the names of the fields it yields.
#[derive(Clone, Copy, Debug, PartialEq, Eq)]
pub enum FieldDef {
    /// One byte.
    U8 { name: &'static str },
    /// Four bytes, little-endian.
    U32 { name: &'static str },
    /// Eight bytes, little-endian.
    U64 { name: &'static str },
    /// A one-byte length, then that many bytes of UTF-8 text.
    Text8 { len_name: &'static str, name: &'static str },
    /// A four-byte length, then that many bytes of UTF-8 text.
    Text32 { len_name: &'static str, name: &'static str },
    /// A kind byte, a length byte, and the value that the kind announces.
    Identifier { kind_name: &'static str, len_name: &'static str, value_name: &'static str },
}

/// The layout of a payload: its entries in wire order. The entries from index
/// `required` on are optional: a payload may end in front of any of them.
#[derive(Clone, Debug, PartialEq, Eq)]
pub struct Schema {
    pub fields: Vec<FieldDef>,
    pub required: usize,
}

/// What a `Schema` stands for.
pub struct SchemaView {
    pub fields: Seq<FieldDef>,
    pub required: int,
}

impl View for Schema {
    type V = SchemaView;

    open spec fn view(&self) -> SchemaView {
        SchemaView { fields: self.fields@, required: self.required as int }
    }
}

/// A decoded value.
#[derive(Clone, Debug, PartialEq, Eq)]
pub enum Value {
    U8(u8),
    U32(u32),
    U64(u64),
    Text(String),
    Bytes(Vec<u8>),
    /// The value could not be decoded, and why.
    Fault(Fault),
}

/// What a `Value` stands for.
pub enum ValueView {
    U8(u8),
    U32(u32),
    U64(u64),
    Text(Seq<char>),
    Bytes(Seq<u8>),
    Fault(Fault),
}

impl View for Value {
    type V = ValueView;

    open spec fn view(&self) -> ValueView {
        match self {
            Value::U8(v) => ValueView::U8(*v),
            Value::U32(v) => ValueView::U32(*v),
            Value::U64(v) => ValueView::U64(*v),
            Value::Text(s) => ValueView::Text(s@),
            Value::Bytes(b) => ValueView::Bytes(b@),
            Value::Fault(f) => ValueView::Fault(*f),
        }
    }
}

/// A named, decoded field.
#[derive(Clone, Debug, PartialEq, Eq)]
pub struct Field {
    pub name: &'static str,
    pub value: Value,
}

/// What a `Field` stands for.
pub struct FieldView {
    pub name: Seq<char>,
    pub value: ValueView,
}

impl View for Field {
    type V = FieldView;

    open spec fn view(&self) -> FieldView {
        FieldView { name: self.name@, value: self.value@ }
    }
}

/// The fields that a list of `Field` stands for, in order.
pub open spec fn field_views(fields: Seq<Field>) -> Seq<FieldView> {
    fields.map_values(|f: Field| f@)
}

/// The field that marks where a payload ended too early: the name of the field that
/// could not be read, with `Fault::TruncatedPayload` in place of a value.
pub open spec fn truncated(name: &'static str) -> FieldView {
    FieldView { name: name@, value: ValueView::Fault(Fault::TruncatedPayload) }
}

/// A field with a value.
pub open spec fn field(name: &'static str, value: ValueView) -> FieldView {
    FieldView { name: name@, value }
}

/// A text field: the text that `bytes` encode, or `Fault::InvalidEncoding` in its
/// place where they are not UTF-8.
pub open spec fn text_field(name: &'static str, bytes: Seq<u8>) -> FieldView {
    match spec_text(bytes) {
        Some(text) => field(name, ValueView::Text(text)),
        None => field(name, ValueView::Fault(Fault::InvalidEncoding)),
    }
}

/// What decoding one schema entry gives.
pub enum Step {
    /// The entry was all there: its fields, and where the next entry starts.
    Done { fields: Seq<FieldView>, next: int },
    /// The payload ended inside the entry: the fields read so far, then the marker.
    Cut { fields: Seq<FieldView> },
}

/// The value of an identifier of `kind` whose length byte is `len`, read at `at`.
pub open spec fn decode_identifier_value(
    kind_field: FieldView,
    len_field: FieldView,
    value_name: &'static str,
    kind: u8,
    len: u8,
    bytes: Seq<u8>,
    at: int,
) -> Step {
    if kind == NUMERIC_IDENTIFIER {
        if at + 4 <= bytes.len() {
            Step::Done {
                fields: seq![
                    kind_field,
                    len_field,
                    field(value_name, ValueView::U32(le_u32(bytes, at))),
                ],
                next: at + 4,
            }
        } else {
            Step::Cut { fields: seq![kind_field, len_field, truncated(value_name)] }
        }
    } else if at + len <= bytes.len() {
        Step::Done {
            fields: seq![
                kind_field,
                len_field,
                if kind == STRING_IDENTIFIER {
                    text_field(value_name, bytes.subrange(at, at + len))
                } else {
                    field(value_name, ValueView::Fault(Fault::InvalidEncoding))
                },
            ],
            next: at + len,
        }
    } else {
        Step::Cut { fields: seq![kind_field, len_field, truncated(value_name)] }
    }
}

/// Decodes the entry `def` from `bytes`, starting at `at`.
pub open spec fn decode_def(def: FieldDef, bytes: Seq<u8>, at: int) -> Step {
    match def {
        FieldDef::U8 { name } => if at + 1 <= bytes.len() {
            Step::Done { fields: seq![field(name, ValueView::U8(bytes[at]))], next: at + 1 }
        } else {
            Step::Cut { fields: seq![truncated(name)] }
        },
        FieldDef::U32 { name } => if at + 4 <= bytes.len() {
            Step::Done {
                fields: seq![field(name, ValueView::U32(le_u32(bytes, at)))],
                next: at + 4,
            }
        } else {
            Step::Cut { fields: seq![truncated(name)] }
        },
        FieldDef::U64 { name } => if at + 8 <= bytes.len() {
            Step::Done {
                fields: seq![field(name, ValueView::U64(le_u64(bytes, at)))],
                next: at + 8,
            }
        } else {
            Step::Cut { fields: seq![truncated(name)] }
        },
        FieldDef::Text8 { len_name, name } => if at + 1 <= bytes.len() {
            let len = bytes[at];
            let len_field = field(len_name, ValueView::U8(len));
            if at + 1 + len <= bytes.len() {
                Step::Done {
                    fields: seq![len_field, text_field(name, bytes.subrange(at + 1, at + 1 + len))],
                    next: at + 1 + len,
                }
            } else {
                Step::Cut { fields: seq![len_field, truncated(name)] }
            }
        } else {
            Step::Cut { fields: seq![truncated(len_name)] }
        },
        FieldDef::Text32 { len_name, name } => if at + 4 <= bytes.len() {
            let len = le_u32(bytes, at);
            let len_field = field(len_name, ValueView::U32(len));
            if at + 4 + len <= bytes.len() {
                Step::Done {
                    fields: seq![len_field, text_field(name, bytes.subrange(at + 4, at + 4 + len))],
                    next: at + 4 + len,
                }
            } else {
                Step::Cut { fields: seq![len_field, truncated(name)] }
            }
        } else {
            Step::Cut { fields: seq![truncated(len_name)] }
        },
        FieldDef::Identifier { kind_name, len_name, value_name } => if at + 1 <= bytes.len() {
            let kind = bytes[at];
            let kind_field = field(kind_name, ValueView::U8(kind));
            if at + 2 <= bytes.len() {
                let len = bytes[at + 1];
                let len_field = field(len_name, ValueView::U8(len));
                decode_identifier_value(kind_field, len_field, value_name, kind, len, bytes, at + 2)
            } else {
                Step::Cut { fields: seq![kind_field, truncated(len_name)] }
            }
        } else {
            Step::Cut { fields: seq![truncated(kind_name)] }
        },
    }
}

/// Decodes the entries of `defs` from index `i` on, from `bytes` starting at `at`.
///
/// Decoding ends without a fault where the schema ends, or where the payload ends
/// in front of an optional entry. Where the payload ends inside an entry, or in
/// front of a required one, the fields read so far are followed by the marker of
/// `truncated`, and nothing more. Bytes behind the last entry are left unread.
pub open spec fn decode_from(
    defs: Seq<FieldDef>,
    required: int,
    bytes: Seq<u8>,
    i: int,
    at: int,
) -> Seq<FieldView>
    decreases defs.len() - i,
{
    if i < 0 || i >= defs.len() {
        Seq::empty()
    } else if i >= required && at >= bytes.len() {
        Seq::empty()
    } else {
        match decode_def(defs[i], bytes, at) {
            Step::Done { fields, next } => fields + decode_from(defs, required, bytes, i + 1, next),
            Step::Cut { fields } => fields,
        }
    }
}

/// The fields of a payload under a schema.
pub open spec fn decode_fields(schema: SchemaView, bytes: Seq<u8>) -> Seq<FieldView> {
    decode_from(schema.fields, schema.required, bytes, 0, 0)
}

/// Puts `value` under `name` at the end of `out`.
fn push_field(out: &mut Vec<Field>, name: &'static str, value: Value)
    ensures
        field_views(final(out)@) == field_views(old(out)@).push(field(name, value@)),
{
    out.push(Field { name, value });
    assert(field_views(out@) =~= field_views(old(out)@).push(field(name, value@)));
}

/// Puts the marker of a payload that ended in front of `name` at the end of `out`.
fn push_truncated(out: &mut Vec<Field>, name: &'static str)
    ensures
        field_views(final(out)@) == field_views(old(out)@).push(truncated(name)),
{
    push_field(out, name, Value::Fault(Fault::TruncatedPayload));
}

/// Puts the text field `name`, read from `bytes`, at the end of `out`.
fn push_text(out: &mut Vec<Field>, name: &'static str, bytes: &[u8])
    ensures
        field_views(final(out)@) == field_views(old(out)@).push(text_field(name, bytes@)),
{
    match text_from_bytes(bytes) {
        Some(text) => push_field(out, name, Value::Text(text)),
        None => push_field(out, name, Value::Fault(Fault::InvalidEncoding)),
    }
}

/// `after` is `before` with the fields of `step` behind it, and `next` is where `step` says
/// the next entry starts, inside a payload of `len` bytes.
pub open spec fn entry_decoded(
    step: Step,
    before: Seq<FieldView>,
    after: Seq<FieldView>,
    next: Option<usize>,
    len: int,
) -> bool {
    match step {
        Step::Done { fields, next: n } => {
            &&& next matches Some(m)
            &&& m == n
            &&& n <= len
            &&& after == before + fields
        },
        Step::Cut { fields } => next.is_none() && after == before + fields,
    }
}

/// Decodes text behind a one-byte length.
fn decode_text8(
    len_name: &'static str,
    name: &'static str,
    payload: &[u8],
    at: usize,
    out: &mut Vec<Field>,
) -> (next: Option<usize>)
    requires
        at <= payload@.len(),
    ensures
        entry_decoded(
            decode_def(FieldDef::Text8 { len_name, name }, payload@, at as int),
            field_views(old(out)@),
            field_views(final(out)@),
            next,
            payload@.len() as int,
        ),
{
    let ghost before = field_views(out@);
    let left = payload.len() - at;
    match read_u8(payload, at) {
        Some(len) => {
            push_field(out, len_name, Value::U8(len));
            let ghost len_field = field(len_name, ValueView::U8(len));
            if left - 1 >= len as usize {
                let start = at + 1;
                let end = start + len as usize;
                push_text(out, name, slice_subrange(payload, start, end));
                assert(field_views(out@) =~= before + seq![
                    len_field,
                    text_field(name, payload@.subrange(start as int, end as int)),
                ]);
                Some(end)
            } else {
                push_truncated(out, name);
                assert(field_views(out@) =~= before + seq![len_field, truncated(name)]);
                None
            }
        },
        None => {
            push_truncated(out, len_name);
            assert(field_views(out@) =~= before + seq![truncated(len_name)]);
            None
        },
    }
}

/// Decodes text behind a four-byte length.
fn decode_text32(
    len_name: &'static str,
    name: &'static str,
    payload: &[u8],
    at: usize,
    out: &mut Vec<Field>,
) -> (next: Option<usize>)
    requires
        at <= payload@.len(),
    ensures
        entry_decoded(
            decode_def(FieldDef::Text32 { len_name, name }, payload@, at as int),
            field_views(old(out)@),
            field_views(final(out)@),
            next,
            payload@.len() as int,
        ),
{
    let ghost before = field_views(out@);
    let left = payload.len() - at;
    match read_u32_le(payload, at) {
        Some(len) => {
            push_field(out, len_name, Value::U32(len));
            let ghost len_field = field(len_name, ValueView::U32(len));
            if (left - 4) as u64 >= len as u64 {
                let start = at + 4;
                let end = start + len as usize;
                push_text(out, name, slice_subrange(payload, start, end));
                assert(field_views(out@) =~= before + seq![
                    len_field,
                    text_field(name, payload@.subrange(start as int, end as int)),
                ]);
                Some(end)
            } else {
                push_truncated(out, name);
                assert(field_views(out@) =~= before + seq![len_field, truncated(name)]);
                None
            }
        },
        None => {
            push_truncated(out, len_name);
            assert(field_views(out@) =~= before + seq![truncated(len_name)]);
            None
        },
    }
}

/// Decodes the value of an identifier whose kind and length bytes were read.
fn decode_identifier_tail(
    value_name: &'static str,
    kind: u8,
    len: u8,
    payload: &[u8],
    at: usize,
    out: &mut Vec<Field>,
    Ghost(before): Ghost<Seq<FieldView>>,
    Ghost(kind_field): Ghost<FieldView>,
    Ghost(len_field): Ghost<FieldView>,
) -> (next: Option<usize>)
    requires
        at <= payload@.len(),
        field_views(old(out)@) == before + seq![kind_field, len_field],
    ensures
        entry_decoded(
            decode_identifier_value(
                kind_field,
                len_field,
                value_name,
                kind,
                len,
                payload@,
                at as int,
            ),
            before,
            field_views(final(out)@),
            next,
            payload@.len() as int,
        ),
{
    let left = payload.len() - at;
    if kind == NUMERIC_IDENTIFIER {
        match read_u32_le(payload, at) {
            Some(v) => {
                push_field(out, value_name, Value::U32(v));
                assert(field_views(out@) =~= before + seq![
                    kind_field,
                    len_field,
                    field(value_name, ValueView::U32(v)),
                ]);
                Some(at + 4)
            },
            None => {
                push_truncated(out, value_name);
                assert(field_views(out@) =~= before + seq![
                    kind_field,
                    len_field,
                    truncated(value_name),
                ]);
                None
            },
        }
    } else if left >= len as usize {
        let end = at + len as usize;
        if kind == STRING_IDENTIFIER {
            push_text(out, value_name, slice_subrange(payload, at, end));
            assert(field_views(out@) =~= before + seq![
                kind_field,
                len_field,
                text_field(value_name, payload@.subrange(at as int, end as int)),
            ]);
        } else {
            push_field(out, value_name, Value::Fault(Fault::InvalidEncoding));
            assert(field_views(out@) =~= before + seq![
                kind_field,
                len_field,
                field(value_name, ValueView::Fault(Fault::InvalidEncoding)),
            ]);
        }
        Some(end)
    } else {
        push_truncated(out, value_name);
        assert(field_views(out@) =~= before + seq![kind_field, len_field, truncated(value_name)]);
        None
    }
}

/// Decodes an identifier: kind, length, value.
fn decode_identifier(
    kind_name: &'static str,
    len_name: &'static str,
    value_name: &'static str,
    payload: &[u8],
    at: usize,
    out: &mut Vec<Field>,
) -> (next: Option<usize>)
    requires
        at <= payload@.len(),
    ensures
        entry_decoded(
            decode_def(
                FieldDef::Identifier { kind_name, len_name, value_name },
                payload@,
                at as int,
            ),
            field_views(old(out)@),
            field_views(final(out)@),
            next,
            payload@.len() as int,
        ),
{
    let ghost before = field_views(out@);
    assert(payload@.len() == payload.len());
    match read_u8(payload, at) {
        Some(kind) => {
            push_field(out, kind_name, Value::U8(kind));
            let ghost kind_field = field(kind_name, ValueView::U8(kind));
            match read_u8(payload, at + 1) {
                Some(len) => {
                    push_field(out, len_name, Value::U8(len));
                    let ghost len_field = field(len_name, ValueView::U8(len));
                    assert(field_views(out@) =~= before + seq![kind_field, len_field]);
                    decode_identifier_tail(
                        value_name,
                        kind,
                        len,
                        payload,
                        at + 2,
                        out,
                        Ghost(before),
                        Ghost(kind_field),
                        Ghost(len_field),
                    )
                },
                None => {
                    push_truncated(out, len_name);
                    assert(field_views(out@) =~= before + seq![kind_field, truncated(len_name)]);
                    None
                },
            }
        },
        None => {
            push_truncated(out, kind_name);
            assert(field_views(out@) =~= before + seq![truncated(kind_name)]);
            None
        },
    }
}

/// Decodes one schema entry at `at` and puts its fields at the end of `out`.
/// Returns where the next entry starts, or `None` if the payload ended inside this one.
fn decode_entry(def: FieldDef, payload: &[u8], at: usize, out: &mut Vec<Field>) -> (next: Option<
    usize,
>)
    requires
        at <= payload@.len(),
    ensures
        entry_decoded(
            decode_def(def, payload@, at as int),
            field_views(old(out)@),
            field_views(final(out)@),
            next,
            payload@.len() as int,
        ),
{
    let ghost before = field_views(out@);
    assert(payload@.len() == payload.len());
    match def {
        FieldDef::U8 { name } => match read_u8(payload, at) {
            Some(v) => {
                push_field(out, name, Value::U8(v));
                assert(field_views(out@) =~= before + seq![field(name, ValueView::U8(v))]);
                Some(at + 1)
            },
            None => {
                push_truncated(out, name);
                assert(field_views(out@) =~= before + seq![truncated(name)]);
                None
            },
        },
        FieldDef::U32 { name } => match read_u32_le(payload, at) {
            Some(v) => {
                push_field(out, name, Value::U32(v));
                assert(field_views(out@) =~= before + seq![field(name, ValueView::U32(v))]);
                Some(at + 4)
            },
            None => {
                push_truncated(out, name);
                assert(field_views(out@) =~= before + seq![truncated(name)]);
                None
            },
        },
        FieldDef::U64 { name } => match read_u64_le(payload, at) {
            Some(v) => {
                push_field(out, name, Value::U64(v));
                assert(field_views(out@) =~= before + seq![field(name, ValueView::U64(v))]);
                Some(at + 8)
            },
            None => {
                push_truncated(out, name);
                assert(field_views(out@) =~= before + seq![truncated(name)]);
                None
            },
        },
        FieldDef::Text8 { len_name, name } => decode_text8(len_name, name, payload, at, out),
        FieldDef::Text32 { len_name, name } => decode_text32(len_name, name, payload, at, out),
        FieldDef::Identifier { kind_name, len_name, value_name } => decode_identifier(
            kind_name,
            len_name,
            value_name,
            payload,
            at,
            out,
        ),
    }
}

/// Decodes `payload` by `schema` into its fields, in wire order.
///
/// The decoder never fails. A payload that ends too early gives the fields read
/// so far and the marker of `truncated`; text that is not UTF-8 gives
/// `Fault::InvalidEncoding` in place of that one value, and the fields after it
/// are decoded as usual.
pub fn decode_payload(schema: &Schema, payload: &[u8]) -> (fields: Vec<Field>)
    ensures
        field_views(fields@) == decode_fields(schema@, payload@),
{
    let mut out: Vec<Field> = Vec::new();
    let mut at: usize = 0;
    let mut i: usize = 0;
    let ghost defs = schema.fields@;
    let ghost required = schema.required as int;
    assert(field_views(out@) =~= Seq::empty());
    while i < schema.fields.len() && (i < schema.required || at < payload.len())
        invariant
            i <= defs.len(),
            at <= payload@.len(),
            defs == schema.fields@,
            required == schema.required as int,
            field_views(out@) + decode_from(defs, required, payload@, i as int, at as int)
                == decode_from(defs, required, payload@, 0, 0),
        decreases defs.len() - i,
    {
        let ghost before = field_views(out@);
        let ghost rest = decode_from(defs, required, payload@, i as int, at as int);
        let def = schema.fields[i];
        match decode_entry(def, payload, at, &mut out) {
            Some(next) => {
                proof {
                    let step = decode_def(def, payload@, at as int);
                    let tail = decode_from(defs, required, payload@, i + 1, next as int);
                    assert(rest == step->Done_fields + tail);
                    assert(field_views(out@) + tail =~= before + rest);
                }
                at = next;
                i += 1;
            },
            None => {
                proof {
                    let step = decode_def(def, payload@, at as int);
                    assert(rest == step->Cut_fields);
                    assert(field_views(out@) =~= before + rest);
                    assert(field_views(out@) == decode_fields(schema@, payload@));
                }
                return out;
            },
        }
    }
    proof {
        assert(decode_from(defs, required, payload@, i as int, at as int) =~= Seq::empty());
        assert(field_views(out@) =~= field_views(out@) + Seq::<FieldView>::empty());
    }
    out
}

} // verus!
