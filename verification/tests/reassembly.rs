use iggy_dissector::fault::Fault;
use iggy_dissector::frame::Direction;
use iggy_dissector::frame::Frame;
use iggy_dissector::frame::FrameReassembler;
use iggy_dissector::frame::StreamBuffer;

fn request_frame(code: u32, payload: &[u8]) -> Vec<u8> {
    let mut frame = Vec::new();
    frame.extend_from_slice(&(4 + payload.len() as u32).to_le_bytes());
    frame.extend_from_slice(&code.to_le_bytes());
    frame.extend_from_slice(payload);
    frame
}

fn extracted(reassembler: &mut FrameReassembler, direction: Direction) -> Option<Vec<u8>> {
    match reassembler.try_extract_frame(direction) {
        Ok(Some(frame)) => {
            assert_eq!(frame.direction(), direction);
            Some(frame.bytes().to_vec())
        }
        Ok(None) => None,
        Err(fault) => panic!("unexpected fault {:?}", fault),
    }
}

#[test]
fn header_lengths() {
    assert_eq!(Direction::Request.header_len(), 4);
    assert_eq!(Direction::Response.header_len(), 8);
}

#[test]
fn fewer_than_four_bytes_are_incomplete() {
    let mut reassembler = FrameReassembler::new(1024);
    assert_eq!(extracted(&mut reassembler, Direction::Request), None);
    reassembler.feed(Direction::Request, &[4, 0, 0]);
    assert_eq!(extracted(&mut reassembler, Direction::Request), None);
    assert_eq!(reassembler.buffered_len(Direction::Request), 3);
}

#[test]
fn header_without_all_declared_bytes_is_incomplete() {
    let mut reassembler = FrameReassembler::new(1024);
    reassembler.feed(Direction::Request, &[6, 0, 0, 0, 1, 0, 0, 0, 9]);
    assert_eq!(extracted(&mut reassembler, Direction::Request), None);
    assert_eq!(reassembler.buffered_len(Direction::Request), 9);
    reassembler.feed(Direction::Request, &[8]);
    assert_eq!(
        extracted(&mut reassembler, Direction::Request),
        Some(vec![6, 0, 0, 0, 1, 0, 0, 0, 9, 8])
    );
    assert_eq!(reassembler.buffered_len(Direction::Request), 0);
}

#[test]
fn trailing_bytes_stay_for_the_next_extraction() {
    let mut reassembler = FrameReassembler::new(1024);
    let first = request_frame(1, &[]);
    let second = request_frame(10, &[1, 2, 3]);
    let mut bytes = first.clone();
    bytes.extend_from_slice(&second);
    bytes.extend_from_slice(&[0xaa]);
    reassembler.feed(Direction::Request, &bytes);
    assert_eq!(extracted(&mut reassembler, Direction::Request), Some(first));
    assert_eq!(reassembler.buffered_len(Direction::Request), second.len() + 1);
    assert_eq!(extracted(&mut reassembler, Direction::Request), Some(second));
    assert_eq!(extracted(&mut reassembler, Direction::Request), None);
    assert_eq!(reassembler.buffered_len(Direction::Request), 1);
}

#[test]
fn every_split_point_gives_the_same_frame() {
    let frame = request_frame(38, b"some payload bytes");
    for split in 0..=frame.len() {
        let mut reassembler = FrameReassembler::new(1024);
        reassembler.feed(Direction::Request, &frame[..split]);
        if split < frame.len() {
            assert_eq!(extracted(&mut reassembler, Direction::Request), None);
        }
        reassembler.feed(Direction::Request, &frame[split..]);
        assert_eq!(extracted(&mut reassembler, Direction::Request), Some(frame.clone()));
        assert_eq!(extracted(&mut reassembler, Direction::Request), None);
    }
}

#[test]
fn byte_by_byte_feeding_gives_the_same_frame() {
    let frame = request_frame(302, &[5; 40]);
    let mut reassembler = FrameReassembler::new(1024);
    for (index, byte) in frame.iter().enumerate() {
        reassembler.feed(Direction::Request, &[*byte]);
        if index + 1 < frame.len() {
            assert_eq!(extracted(&mut reassembler, Direction::Request), None);
        }
    }
    assert_eq!(extracted(&mut reassembler, Direction::Request), Some(frame));
}

#[test]
fn response_frames_carry_their_length_behind_the_status() {
    let mut reassembler = FrameReassembler::new(1024);
    reassembler.feed(Direction::Response, &[0, 0, 0, 0, 0, 0, 0, 0]);
    assert_eq!(
        extracted(&mut reassembler, Direction::Response),
        Some(vec![0, 0, 0, 0, 0, 0, 0, 0])
    );
    assert_eq!(extracted(&mut reassembler, Direction::Response), None);
    reassembler.feed(Direction::Response, &[7, 0, 0, 0, 2, 0, 0]);
    assert_eq!(extracted(&mut reassembler, Direction::Response), None);
    reassembler.feed(Direction::Response, &[0, 5]);
    assert_eq!(extracted(&mut reassembler, Direction::Response), None);
    reassembler.feed(Direction::Response, &[6, 1]);
    assert_eq!(
        extracted(&mut reassembler, Direction::Response),
        Some(vec![7, 0, 0, 0, 2, 0, 0, 0, 5, 6])
    );
    assert_eq!(reassembler.buffered_len(Direction::Response), 1);
}

#[test]
fn directions_have_buffers_of_their_own() {
    let mut reassembler = FrameReassembler::new(1024);
    reassembler.feed(Direction::Request, &[4, 0, 0, 0]);
    reassembler.feed(Direction::Response, &[0, 0, 0, 0, 0, 0, 0, 0]);
    assert_eq!(reassembler.buffered_len(Direction::Request), 4);
    assert_eq!(reassembler.buffered_len(Direction::Response), 8);
    assert_eq!(extracted(&mut reassembler, Direction::Request), None);
    assert!(extracted(&mut reassembler, Direction::Response).is_some());
    assert_eq!(reassembler.buffered_len(Direction::Request), 4);
}

#[test]
fn frame_larger_than_the_maximum_is_a_fault_that_stays() {
    let mut reassembler = FrameReassembler::new(16);
    assert_eq!(reassembler.max_frame_size(), 16);
    reassembler.feed(Direction::Request, &[13, 0, 0, 0]);
    assert!(reassembler.is_halted(Direction::Request));
    assert_eq!(reassembler.try_extract_frame(Direction::Request), Err(Fault::FrameTooLarge));
    reassembler.feed(Direction::Request, &[0; 32]);
    assert_eq!(reassembler.try_extract_frame(Direction::Request), Err(Fault::FrameTooLarge));
    assert_eq!(reassembler.buffered_len(Direction::Request), 36);
    assert!(!reassembler.is_halted(Direction::Response));
}

#[test]
fn largest_declared_length_is_too_large() {
    let mut reassembler = FrameReassembler::new(usize::MAX >> 40);
    reassembler.feed(Direction::Response, &[0, 0, 0, 0, 0xff, 0xff, 0xff, 0xff]);
    assert_eq!(reassembler.try_extract_frame(Direction::Response), Err(Fault::FrameTooLarge));
}

#[test]
fn frame_of_the_maximum_size_is_handed_out() {
    let mut reassembler = FrameReassembler::new(16);
    reassembler.feed(Direction::Request, &[12, 0, 0, 0]);
    assert!(!reassembler.is_halted(Direction::Request));
    assert_eq!(extracted(&mut reassembler, Direction::Request), None);
    reassembler.feed(Direction::Request, &[1; 12]);
    let frame = extracted(&mut reassembler, Direction::Request).unwrap();
    assert_eq!(frame.len(), 16);
}

#[test]
fn reset_empties_both_buffers() {
    let mut reassembler = FrameReassembler::new(16);
    reassembler.feed(Direction::Request, &[200, 0, 0, 0]);
    reassembler.feed(Direction::Response, &[1, 2]);
    reassembler.reset();
    assert_eq!(reassembler.buffered_len(Direction::Request), 0);
    assert_eq!(reassembler.buffered_len(Direction::Response), 0);
    assert!(!reassembler.is_halted(Direction::Request));
    assert_eq!(reassembler.max_frame_size(), 16);
}

#[test]
fn parse_takes_exactly_one_frame() {
    let frame = Frame::parse(Direction::Request, vec![5, 0, 0, 0, 1, 0, 0, 0, 9]).unwrap();
    assert_eq!(frame.direction(), Direction::Request);
    assert_eq!(frame.declared_length(), 5);
    assert_eq!(frame.bytes(), &[5, 0, 0, 0, 1, 0, 0, 0, 9]);
    assert_eq!(Frame::parse(Direction::Request, vec![5, 0, 0, 0, 1, 0, 0, 0]), None);
    assert_eq!(Frame::parse(Direction::Request, vec![5, 0, 0, 0, 1, 0, 0, 0, 9, 9]), None);
    assert_eq!(Frame::parse(Direction::Request, vec![0, 0, 0]), None);
    assert!(Frame::parse(Direction::Request, vec![0, 0, 0, 0]).is_some());
    assert_eq!(Frame::parse(Direction::Response, vec![0, 0, 0, 0]), None);
    let response = Frame::parse(Direction::Response, vec![9, 0, 0, 0, 1, 0, 0, 0, 7]).unwrap();
    assert_eq!(response.declared_length(), 1);
}

#[test]
fn stream_buffer_appends_and_consumes_in_order() {
    let mut buffer = StreamBuffer::new();
    assert_eq!(buffer.len(), 0);
    buffer.append(&[1, 2, 3]);
    buffer.append(&[4, 5]);
    assert_eq!(buffer.as_slice(), &[1, 2, 3, 4, 5]);
    assert_eq!(buffer.consume(2), vec![1, 2]);
    assert_eq!(buffer.as_slice(), &[3, 4, 5]);
    buffer.append(&[6]);
    assert_eq!(buffer.as_slice(), &[3, 4, 5, 6]);
    assert_eq!(buffer.consume(0), Vec::<u8>::new());
    assert_eq!(buffer.consume(4), vec![3, 4, 5, 6]);
    assert_eq!(buffer.len(), 0);
    buffer.append(&[7]);
    buffer.clear();
    assert_eq!(buffer.len(), 0);
}
