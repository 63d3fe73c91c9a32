//! Building the request frame of a command.

use bytes::BufMut;
use bytes::BytesMut;
use vstd::prelude::*;
use crate::catalog::DescriptorView;
use crate::encoding::data_fit;
use crate::encoding::encode_fields;
use crate::encoding::fields_of;
use crate::encoding::lemma_round_trip;
use crate::encoding::Datum;
use crate::frame::is_frame;
use crate::frame::Direction;
use crate::message::request_message;
use crate::status::name_view;
use crate::wire::lemma_le_u32_of_bytes;
use crate::wire::u32_le_bytes;

verus! {

/// `bytes::BytesMut`, a growable buffer of bytes.
#[verifier::external_type_specification]
#[verifier::external_body]
pub struct ExBytesMut(BytesMut);

/// The bytes that a `BytesMut` holds, first to last.
pub uninterp spec fn buffer_contents(buffer: BytesMut) -> Seq<u8>;

/// `BytesMut::new` gives a buffer that holds no bytes.
#[verifier::external_body]
fn buffer_new() -> (buffer: BytesMut)
    ensures
        buffer_contents(buffer) == Seq::<u8>::empty(),
{
    BytesMut::new()
}

/// `BufMut::put_u32_le` on a `BytesMut` puts the four bytes of `value`, lowest
/// first, behind the bytes held. The buffer grows as needed; like `Vec`, it
/// does not return where the allocator cannot supply the memory.
#[verifier::external_body]
fn buffer_put_u32_le(buffer: &mut BytesMut, value: u32)
    ensures
        buffer_contents(*final(buffer)) == buffer_contents(*old(buffer)) + u32_le_bytes(value),
{
    buffer.put_u32_le(value);
}

/// `BufMut::put_slice` on a `BytesMut` puts the bytes of `src` behind the bytes
/// held. The buffer grows as needed; like `Vec`, it does not return where the
/// allocator cannot supply the memory.
#[verifier::external_body]
fn buffer_put_slice(buffer: &mut BytesMut, src: &[u8])
    ensures
        buffer_contents(*final(buffer)) == buffer_contents(*old(buffer)) + src@,
{
    buffer.put_slice(src);
}

/// A `BytesMut` dereferences to the bytes it holds; `to_vec` copies them.
#[verifier::external_body]
fn buffer_to_vec(buffer: &BytesMut) -> (bytes: Vec<u8>)
    ensures
        bytes@ == buffer_contents(*buffer),
{
    buffer.to_vec()
}

/// A command as the server takes it: a command code and the payload that goes with it.
#[derive(Clone, Debug, PartialEq, Eq)]
pub struct ServerCommand {
    pub code: u32,
    pub payload: Vec<u8>,
}

/// The bytes of a command: the code, little-endian, then the payload.
pub open spec fn command_bytes(code: u32, payload: Seq<u8>) -> Seq<u8> {
    u32_le_bytes(code) + payload
}

/// The packet of a command whose bytes are `command`: their number in four
/// bytes, little-endian, then the bytes. A number that does not fit in four
/// bytes is cut to its low 32 bits.
pub open spec fn packet_bytes(command: Seq<u8>) -> Seq<u8> {
    u32_le_bytes((command.len() % 0x1_0000_0000) as u32) + command
}

/// Puts the four bytes of `value`, lowest first, behind `out`.
pub fn push_u32_le(out: &mut Vec<u8>, value: u32)
    ensures
        final(out)@ == old(out)@ + u32_le_bytes(value),
{
    out.push((value % 0x100) as u8);
    out.push((value / 0x100 % 0x100) as u8);
    out.push((value / 0x1_0000 % 0x100) as u8);
    out.push((value / 0x100_0000) as u8);
    assert(out@ =~= old(out)@ + u32_le_bytes(value));
}

impl ServerCommand {
    /// The bytes of the command: the code, little-endian, then the payload.
    pub fn to_bytes(&self) -> (bytes: Vec<u8>)
        ensures
            bytes@ == command_bytes(self.code, self.payload@),
    {
        let mut bytes: Vec<u8> = Vec::new();
        push_u32_le(&mut bytes, self.code);
        bytes.extend_from_slice(self.payload.as_slice());
        assert(bytes@ =~= command_bytes(self.code, self.payload@));
        bytes
    }
}

/// Builds the complete network packet of `command`: the length of code and
/// payload in four bytes, then the code, then the payload.
///
/// The packet is one request frame wherever code and payload together fit the
/// length field.
pub fn create_packet_from_server_command(command: &ServerCommand) -> (packet: Vec<u8>)
    ensures
        packet@ == packet_bytes(command_bytes(command.code, command.payload@)),
        4 + command.payload@.len() <= u32::MAX ==> is_frame(Direction::Request, packet@),
{
    let command_bytes = command.to_bytes();
    let length = (command_bytes.len() as u64 % 0x1_0000_0000) as u32;
    let mut bytes = buffer_new();
    buffer_put_u32_le(&mut bytes, length);
    buffer_put_slice(&mut bytes, command_bytes.as_slice());
    let packet = buffer_to_vec(&bytes);
    proof {
        assert(packet@ =~= packet_bytes(command_bytes@));
        if 4 + command.payload@.len() <= u32::MAX {
            lemma_le_u32_of_bytes(length, Seq::empty(), command_bytes@);
            assert(packet@ =~= Seq::<u8>::empty() + u32_le_bytes(length) + command_bytes@);
        }
    }
    packet
}

/// The packet of a command is one request frame, and the message of that frame
/// has the command's code and payload.
pub proof fn lemma_packet_round_trip(
    catalog: Map<u32, DescriptorView>,
    code: u32,
    payload: Seq<u8>,
)
    requires
        4 + payload.len() <= u32::MAX,
    ensures
        ({
            let packet = packet_bytes(command_bytes(code, payload));
            let message = request_message(catalog, packet);
            &&& is_frame(Direction::Request, packet)
            &&& message.direction == Direction::Request
            &&& message.code_or_status == code
            &&& message.command_code == Some(code)
            &&& message.raw_payload == payload
            &&& message.declared_length == 4 + payload.len()
        }),
{
    let command = command_bytes(code, payload);
    let length = (command.len() % 0x1_0000_0000) as u32;
    let packet = packet_bytes(command);
    lemma_le_u32_of_bytes(length, Seq::empty(), command);
    assert(packet =~= Seq::<u8>::empty() + u32_le_bytes(length) + command);
    lemma_le_u32_of_bytes(code, u32_le_bytes(length), payload);
    assert(packet =~= u32_le_bytes(length) + u32_le_bytes(code) + payload);
    assert(packet.skip(8) =~= payload);
}

/// Round trip of a request: where a command of the catalog is sent with a payload
/// that holds `data` in the layout of its request schema, the message decoded from
/// the packet names the command and has exactly the fields of `data`, no fault.
pub proof fn lemma_request_round_trip(
    catalog: Map<u32, DescriptorView>,
    code: u32,
    data: Seq<Datum>,
)
    requires
        catalog.contains_key(code),
        data_fit(catalog[code].request, data),
        4 + encode_fields(catalog[code].request, data).len() <= u32::MAX,
    ensures
        ({
            let payload = encode_fields(catalog[code].request, data);
            let message = request_message(catalog, packet_bytes(command_bytes(code, payload)));
            &&& message.command_name == name_view(Some(catalog[code].name))
            &&& message.fields == fields_of(catalog[code].request, data)
            &&& message.fault is None
        }),
{
    let payload = encode_fields(catalog[code].request, data);
    lemma_packet_round_trip(catalog, code, payload);
    lemma_round_trip(catalog[code].request, data);
    let packet = packet_bytes(command_bytes(code, payload));
    assert(packet.skip(8) == request_message(catalog, packet).raw_payload);
}

} // verus!
