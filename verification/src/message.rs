//! Decoded messages, and the decoder that turns one frame into one message.

use vstd::prelude::*;
use vstd::slice::slice_subrange;
use vstd::slice::slice_to_vec;
use crate::catalog::CommandCatalog;
use crate::catalog::DescriptorView;
use crate::fault::Fault;
use crate::frame::declared_length;
use crate::frame::is_frame;
use crate::frame::Direction;
use crate::frame::Frame;
use crate::payload::decode_fields;
use crate::payload::decode_payload;
use crate::payload::field_views;
use crate::payload::Field;
use crate::payload::FieldView;
use crate::payload::SchemaView;
use crate::payload::Value;
use crate::payload::ValueView;
use crate::status::name_view;
use crate::status::spec_status_name;
use crate::status::status_name;
use crate::wire::le_u32;
use crate::wire::read_u32_le;

verus! {

/// Name of the one field that holds a payload which no schema was found for.
pub const OPAQUE_FIELD: &'static str = "payload";

/// One decoded request or response.
#[derive(Clone, Debug, PartialEq, Eq)]
pub struct DecodedMessage {
    /// The direction the message travelled in.
    pub direction: Direction,
    /// The command code of a request, the status of a response.
    pub code_or_status: u32,
    /// The code of the command: a request's own; for a response, that of the
    /// request it answers, once the two are paired.
    pub command_code: Option<u32>,
    /// The name of the command, where the catalog knows its code.
    pub command_name: Option<&'static str>,
    /// The name of the status of a response.
    pub status_name: Option<&'static str>,
    /// The value of the frame's length field.
    pub declared_length: u32,
    /// The payload's fields, in wire order.
    pub fields: Vec<Field>,
    /// The payload as it came.
    pub raw_payload: Vec<u8>,
    /// What is wrong with the message as a whole, if anything.
    pub fault: Option<Fault>,
}

/// What a `DecodedMessage` stands for.
pub struct MessageView {
    pub direction: Direction,
    pub code_or_status: u32,
    pub command_code: Option<u32>,
    pub command_name: Option<Seq<char>>,
    pub status_name: Option<Seq<char>>,
    pub declared_length: u32,
    pub fields: Seq<FieldView>,
    pub raw_payload: Seq<u8>,
    pub fault: Option<Fault>,
}

impl View for DecodedMessage {
    type V = MessageView;

    open spec fn view(&self) -> MessageView {
        MessageView {
            direction: self.direction,
            code_or_status: self.code_or_status,
            command_code: self.command_code,
            command_name: name_view(self.command_name),
            status_name: name_view(self.status_name),
            declared_length: self.declared_length,
            fields: field_views(self.fields@),
            raw_payload: self.raw_payload@,
            fault: self.fault,
        }
    }
}

impl MessageView {
    /// Number of bytes that the message takes behind the length field of its frame:
    /// the payload, and in front of it the command code where the message has one
    /// of its own.
    pub open spec fn segment_len(self) -> int {
        if self.direction == Direction::Request && self.command_code is Some {
            4 + self.raw_payload.len() as int
        } else {
            self.raw_payload.len() as int
        }
    }

    /// The declared length is the number of bytes that were there.
    pub open spec fn length_consistent(self) -> bool {
        self.declared_length == self.segment_len()
    }
}

/// The fields of a payload for which no schema was found: the payload itself, as one field.
pub open spec fn opaque_fields(payload: Seq<u8>) -> Seq<FieldView> {
    seq![FieldView { name: OPAQUE_FIELD@, value: ValueView::Bytes(payload) }]
}

/// The fields of `payload` and the fault of its message, where `schema` is what the
/// catalog holds for the command, if anything.
pub open spec fn payload_fields(
    schema: Option<SchemaView>,
    payload: Seq<u8>,
) -> (Seq<FieldView>, Option<Fault>) {
    match schema {
        Some(schema) => (decode_fields(schema, payload), None),
        None => (opaque_fields(payload), Some(Fault::UnknownCommandCode)),
    }
}

/// The request schema that `catalog` holds for `code`.
pub open spec fn request_schema(catalog: Map<u32, DescriptorView>, code: u32) -> Option<
    SchemaView,
> {
    if catalog.contains_key(code) {
        Some(catalog[code].request)
    } else {
        None
    }
}

/// The response schema that `catalog` holds for the command code `code`, if there is a code.
pub open spec fn response_schema(catalog: Map<u32, DescriptorView>, code: Option<u32>) -> Option<
    SchemaView,
> {
    match code {
        Some(code) if catalog.contains_key(code) => Some(catalog[code].response),
        _ => None,
    }
}

/// The name that `catalog` holds for `code`.
pub open spec fn command_name(catalog: Map<u32, DescriptorView>, code: u32) -> Option<
    &'static str,
> {
    if catalog.contains_key(code) {
        Some(catalog[code].name)
    } else {
        None
    }
}

/// The message that a request frame holds.
///
/// The code is the four bytes behind the length, the payload is what follows, and
/// the catalog says how to read it. Under a code that the catalog does not know,
/// the payload is one opaque field and the message is marked
/// `Fault::UnknownCommandCode`. A frame too short to hold a code gives a message
/// without code, marked `Fault::TruncatedPayload`, whose payload is what was there.
pub open spec fn request_message(catalog: Map<u32, DescriptorView>, frame: Seq<u8>) -> MessageView
    recommends
        is_frame(Direction::Request, frame),
{
    if frame.len() < 8 {
        MessageView {
            direction: Direction::Request,
            code_or_status: 0,
            command_code: None,
            command_name: None,
            status_name: None,
            declared_length: declared_length(Direction::Request, frame),
            fields: Seq::empty(),
            raw_payload: frame.skip(4),
            fault: Some(Fault::TruncatedPayload),
        }
    } else {
        let code = le_u32(frame, 4);
        let payload = frame.skip(8);
        let decoded = payload_fields(request_schema(catalog, code), payload);
        MessageView {
            direction: Direction::Request,
            code_or_status: code,
            command_code: Some(code),
            command_name: name_view(command_name(catalog, code)),
            status_name: None,
            declared_length: declared_length(Direction::Request, frame),
            fields: decoded.0,
            raw_payload: payload,
            fault: decoded.1,
        }
    }
}

/// The message that a response frame holds, as far as the frame alone tells:
/// status, status name, length and raw payload. Which command it answers, and
/// with that its fields, is for the correlator to add.
pub open spec fn response_message(frame: Seq<u8>) -> MessageView
    recommends
        is_frame(Direction::Response, frame),
{
    MessageView {
        direction: Direction::Response,
        code_or_status: le_u32(frame, 0),
        command_code: None,
        command_name: None,
        status_name: Some(spec_status_name(le_u32(frame, 0))),
        declared_length: declared_length(Direction::Response, frame),
        fields: Seq::empty(),
        raw_payload: frame.skip(8),
        fault: None,
    }
}

/// The message that a frame holds.
pub open spec fn frame_message(
    catalog: Map<u32, DescriptorView>,
    direction: Direction,
    frame: Seq<u8>,
) -> MessageView
    recommends
        is_frame(direction, frame),
{
    match direction {
        Direction::Request => request_message(catalog, frame),
        Direction::Response => response_message(frame),
    }
}

/// In the message of a frame, the declared length is the number of bytes that the
/// message took behind the length field.
pub proof fn lemma_frame_message_length(
    catalog: Map<u32, DescriptorView>,
    direction: Direction,
    frame: Seq<u8>,
)
    requires
        is_frame(direction, frame),
    ensures
        frame_message(catalog, direction, frame).length_consistent(),
        frame_message(catalog, direction, frame).direction == direction,
{
}

/// Decodes `payload` by the schema that the catalog holds under `code` for the
/// given direction, or wraps it as one opaque field where it holds none.
pub fn decode_command_payload(
    catalog: &CommandCatalog,
    direction: Direction,
    code: Option<u32>,
    payload: &[u8],
) -> (decoded: (Vec<Field>, Option<Fault>))
    ensures
        (field_views(decoded.0@), decoded.1) == payload_fields(
            match direction {
                Direction::Request => match code {
                    Some(code) => request_schema(catalog@, code),
                    None => None,
                },
                Direction::Response => response_schema(catalog@, code),
            },
            payload@,
        ),
{
    let descriptor = match code {
        Some(code) => catalog.lookup(code),
        None => None,
    };
    match descriptor {
        Some(descriptor) => {
            let fields = match direction {
                Direction::Request => decode_payload(&descriptor.request, payload),
                Direction::Response => decode_payload(&descriptor.response, payload),
            };
            (fields, None)
        },
        None => {
            let mut fields: Vec<Field> = Vec::new();
            fields.push(Field { name: OPAQUE_FIELD, value: Value::Bytes(slice_to_vec(payload)) });
            assert(field_views(fields@) =~= opaque_fields(payload@));
            (fields, Some(Fault::UnknownCommandCode))
        },
    }
}

/// Decodes one frame into one message.
///
/// This never fails: what cannot be decoded is marked in the message.
pub fn decode_frame(frame: &Frame, catalog: &CommandCatalog) -> (message: DecodedMessage)
    ensures
        message@ == frame_message(catalog@, frame@.direction, frame@.bytes),
        message@.length_consistent(),
{
    let bytes = frame.bytes();
    let declared = frame.declared_length();
    proof {
        lemma_frame_message_length(catalog@, frame@.direction, frame@.bytes);
    }
    match frame.direction() {
        Direction::Request => {
            match read_u32_le(bytes, 4) {
                Some(code) => {
                    let payload = slice_subrange(bytes, 8, bytes.len());
                    assert(payload@ =~= bytes@.skip(8));
                    let decoded = decode_command_payload(
                        catalog,
                        Direction::Request,
                        Some(code),
                        payload,
                    );
                    let name = match catalog.lookup(code) {
                        Some(descriptor) => Some(descriptor.name),
                        None => None,
                    };
                    DecodedMessage {
                        direction: Direction::Request,
                        code_or_status: code,
                        command_code: Some(code),
                        command_name: name,
                        status_name: None,
                        declared_length: declared,
                        fields: decoded.0,
                        raw_payload: slice_to_vec(payload),
                        fault: decoded.1,
                    }
                },
                None => {
                    let rest = slice_subrange(bytes, 4, bytes.len());
                    assert(rest@ =~= bytes@.skip(4));
                    let message = DecodedMessage {
                        direction: Direction::Request,
                        code_or_status: 0,
                        command_code: None,
                        command_name: None,
                        status_name: None,
                        declared_length: declared,
                        fields: Vec::new(),
                        raw_payload: slice_to_vec(rest),
                        fault: Some(Fault::TruncatedPayload),
                    };
                    assert(message@.fields =~= Seq::empty());
                    message
                },
            }
        },
        Direction::Response => {
            let status = match read_u32_le(bytes, 0) {
                Some(status) => status,
                None => 0,
            };
            let payload = slice_subrange(bytes, 8, bytes.len());
            assert(payload@ =~= bytes@.skip(8));
            let message = DecodedMessage {
                direction: Direction::Response,
                code_or_status: status,
                command_code: None,
                command_name: None,
                status_name: Some(status_name(status)),
                declared_length: declared,
                fields: Vec::new(),
                raw_payload: slice_to_vec(payload),
                fault: None,
            };
            assert(message@.fields =~= Seq::empty());
            message
        },
    }
}

} // verus!
