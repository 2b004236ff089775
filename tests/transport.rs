use qmsg::bytes::FromBeSlice;
use qmsg::frame::Message;
use qmsg::poll::select_width;
use qmsg::reader::{BlockingMessageReader, StreamMessageReader, BUFFER_SIZE};

#[test]
fn test_message() {
    // Deserialize / serialize
    let buffer = [0u8, 0, 0, 4, 1, 2, 3, 4, 0xA0, 0xA0];
    let (msg, msg_len) = Message::parse(&buffer).unwrap();
    assert_eq!(msg, Message::from(vec![1, 2, 3, 4]));
    assert_eq!(msg_len, 8);
    assert_eq!(msg.header(), [0, 0, 0, 4]);
    assert_eq!(msg.data(), &[1, 2, 3, 4]);
}

#[test]
fn test_message_read() {
    let buffer = [0u8, 0, 0, 4, 1, 2, 3, 4, 0xA0, 0xA0];
    let mut reader = BlockingMessageReader::new();

    let msg = reader.receive(&buffer).unwrap();
    assert_eq!(msg, Message::from(vec![1, 2, 3, 4]));
}

#[test]
fn test_message_write() {
    let mut buffer = [0xA0u8; 10];
    let msg = Message::from(vec![1, 2, 3, 4]);

    assert_eq!(msg.write_to(&mut buffer[..]), Some(8));
    assert_eq!(buffer, [0, 0, 0, 4, 1, 2, 3, 4, 0xA0, 0xA0]);
}

#[test]
fn from_be_slice_reads_first_four_bytes() {
    assert_eq!(u32::from_be_slice(&[0x12, 0x34, 0x56, 0x78, 0x9A]), 0x1234_5678);
    assert_eq!(u32::from_be_slice(&[0xFF, 0, 0, 1]), 0xFF00_0001);
}

#[test]
fn parse_needs_whole_header() {
    assert!(Message::parse(&[]).is_none());
    assert!(Message::parse(&[0, 0, 0]).is_none());
}

#[test]
fn parse_needs_whole_payload() {
    assert!(Message::parse(&[0, 0, 0, 3, 1, 2]).is_none());
    let (m, n) = Message::parse(&[0, 0, 0, 3, 1, 2, 3]).unwrap();
    assert_eq!(m.data(), &vec![1, 2, 3]);
    assert_eq!(n, 7);
}

#[test]
fn empty_payload_round_trip() {
    let m = Message::from(Vec::new());
    let frame = m.encode();
    assert_eq!(frame, vec![0, 0, 0, 0]);
    let (back, n) = Message::parse(&frame).unwrap();
    assert_eq!(back, m);
    assert_eq!(n, 4);
}

#[test]
fn frame_round_trip_various_lengths() {
    for len in [1usize, 255, 256, 300, 65536, 70000] {
        let payload: Vec<u8> = (0..len).map(|i| (i % 251) as u8).collect();
        let frame = Message::from(payload.clone()).encode();
        assert_eq!(frame.len(), payload.len() + 4);
        assert_eq!(&frame[..4], &(len as u32).to_be_bytes());
        let (back, n) = Message::parse(&frame).unwrap();
        assert_eq!(back.data(), &payload);
        assert_eq!(n, frame.len());
    }
}

#[test]
fn header_is_big_endian_length() {
    let m = Message::from(vec![7u8; 0x0102]);
    assert_eq!(m.header(), [0, 0, 1, 2]);
    assert_eq!(m.len(), 0x0102);
}

#[test]
fn stream_reader_reassembles_split_frame() {
    let payload: Vec<u8> = (0u8..50).collect();
    let frame = Message::from(payload.clone()).encode();
    for cut in [1usize, 3, 4, 5, 20, 53] {
        let mut reader = StreamMessageReader::new();
        assert_eq!(reader.advance(&frame[..cut]), cut);
        if cut < frame.len() {
            assert!(reader.peek().is_none());
            assert_eq!(reader.advance(&frame[cut..]), frame.len() - cut);
        }
        assert_eq!(reader.peek().unwrap().data(), &payload);
    }
}

#[test]
fn stream_reader_byte_by_byte() {
    let payload = b"hello, group".to_vec();
    let frame = Message::from(payload.clone()).encode();
    let mut reader = StreamMessageReader::new();
    for (i, b) in frame.iter().enumerate() {
        assert!(reader.peek().is_none());
        assert_eq!(reader.advance(&[*b]), 1);
        assert_eq!(reader.buffered(), i + 1);
    }
    let m = reader.peek().unwrap();
    assert_eq!(m.data(), &payload);
    // peeking is idempotent
    assert_eq!(reader.peek().unwrap(), m);
}

#[test]
fn stream_reader_keeps_following_message_after_consume() {
    let first = Message::from(vec![1, 2, 3]).encode();
    let second = Message::from(vec![9, 8, 7, 6, 5]).encode();
    let mut both = first.clone();
    both.extend_from_slice(&second);
    both.extend_from_slice(&[0, 0]);

    let mut reader = StreamMessageReader::new();
    reader.advance(&both);
    assert_eq!(reader.peek().unwrap().data(), &vec![1, 2, 3]);
    // the next advance drops the first message and moves the rest to the front
    assert_eq!(reader.advance(&[]), 0);
    assert_eq!(reader.peek().unwrap().data(), &vec![9, 8, 7, 6, 5]);
    assert_eq!(reader.buffered(), second.len() + 2);
    reader.consume();
    assert!(reader.peek().is_none());
    assert_eq!(reader.buffered(), 2);
    // the trailing bytes are the start of a third frame
    reader.advance(&[0, 1, 42]);
    assert_eq!(reader.peek().unwrap().data(), &vec![42]);
}

#[test]
fn stream_reader_takes_only_free_capacity() {
    let mut reader = StreamMessageReader::new();
    let big = vec![0u8; BUFFER_SIZE + 100];
    assert_eq!(reader.advance(&big), BUFFER_SIZE);
    assert_eq!(reader.free_capacity(), 0);
    assert_eq!(reader.buffered(), BUFFER_SIZE);
}

#[test]
fn stream_reader_fill_after_consume() {
    let mut reader = StreamMessageReader::new();
    reader.fill(&[0, 0, 0, 1, 5, 0, 0]);
    assert_eq!(reader.peek().unwrap().data(), &vec![5]);
    reader.consume();
    assert_eq!(reader.free_capacity(), BUFFER_SIZE - 2);
    reader.fill(&[0, 1, 6]);
    assert_eq!(reader.peek().unwrap().data(), &vec![6]);
}

#[test]
fn stream_reader_flags_oversized_frame() {
    let mut reader = StreamMessageReader::new();
    assert!(!reader.frame_too_large());
    reader.advance(&[0, 0, 0x20, 0x00]);
    // 8192 payload bytes plus the header cannot fit
    assert!(reader.frame_too_large());
    let mut fits = StreamMessageReader::new();
    fits.advance(&[0, 0, 0x1F, 0xFC]);
    assert!(!fits.frame_too_large());
}

#[test]
fn stream_reader_largest_frame_fits() {
    let payload = vec![3u8; BUFFER_SIZE - 4];
    let frame = Message::from(payload.clone()).encode();
    let mut reader = StreamMessageReader::new();
    assert_eq!(reader.advance(&frame[..1000]), 1000);
    assert_eq!(reader.advance(&frame[1000..]), frame.len() - 1000);
    assert_eq!(reader.peek().unwrap().data(), &payload);
}

#[test]
fn blocking_reader_keeps_leftover_bytes() {
    let mut reader = BlockingMessageReader::new();
    let mut bytes = Message::from(vec![1]).encode();
    bytes.extend_from_slice(&Message::from(vec![2, 2]).encode());
    assert_eq!(reader.receive(&bytes[..3]), None);
    assert_eq!(reader.receive(&bytes[3..]).unwrap().data(), &vec![1]);
    assert_eq!(reader.receive(&[]).unwrap().data(), &vec![2, 2]);
    assert_eq!(reader.receive(&[]), None);
}

#[test]
fn select_width_is_one_past_largest_descriptor() {
    assert_eq!(select_width(&vec![]), 1);
    assert_eq!(select_width(&vec![3, 9, 4]), 10);
    assert_eq!(select_width(&vec![0]), 1);
}

#[test]
fn write_to_refuses_short_buffer() {
    let mut buffer = [0xA0u8; 7];
    let msg = Message::from(vec![1, 2, 3, 4]);
    assert_eq!(msg.write_to(&mut buffer[..]), None);
    assert_eq!(buffer, [0xA0u8; 7]);
}
