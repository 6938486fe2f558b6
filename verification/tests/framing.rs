use pixelflut::color::Color;
use pixelflut::connection::{
    handle_ws_frame, Connection, FramingError, Step, WriteBuffer, WsFrame, WsReply,
};
use pixelflut::framing::{handle_datagram, next_frame, Frame, DEFAULT_MAX_FRAME};
use pixelflut::pixmap::Pixmap;

#[test]
fn frames_end_at_the_first_newline() {
    assert_eq!(next_frame(b"SIZE\nPX 1 2\n", 0, 128), Frame::Line { end: 5 });
    assert_eq!(next_frame(b"SIZE\nPX 1 2\n", 5, 128), Frame::Line { end: 7 });
    assert_eq!(next_frame(b"SIZE\nPX 1 2\n", 12, 128), Frame::Incomplete);
    assert_eq!(next_frame(b"\n", 0, 128), Frame::Line { end: 1 });
    assert_eq!(next_frame(b"", 0, 128), Frame::Incomplete);
    assert_eq!(next_frame(b"SIZ", 0, 128), Frame::Incomplete);
}

#[test]
fn frames_are_capped() {
    assert_eq!(DEFAULT_MAX_FRAME, 128);
    let mut line = vec![b'a'; 127];
    assert_eq!(next_frame(&line, 0, 128), Frame::Incomplete);
    line.push(b'\n');
    assert_eq!(next_frame(&line, 0, 128), Frame::Line { end: 128 });
    let mut long = vec![b'a'; 128];
    assert_eq!(next_frame(&long, 0, 128), Frame::TooLong);
    long.push(b'\n');
    assert_eq!(next_frame(&long, 0, 128), Frame::TooLong);
    assert_eq!(next_frame(b"SIZE\n", 0, 5), Frame::Line { end: 5 });
    assert_eq!(next_frame(b"SIZE\n", 0, 4), Frame::TooLong);
    assert_eq!(next_frame(b"", 0, 0), Frame::TooLong);
}

#[test]
fn multi_request_udp() {
    let mut pixmap = Pixmap::new(4, 4).unwrap();
    let reply = handle_datagram(&mut pixmap, b"PX 0 0 010203\nPX 1 0 040506\nSIZE\n");
    assert_eq!(reply, Some(b"SIZE 4 4\n".to_vec()));
    assert_eq!(
        handle_datagram(&mut pixmap, b"PX 0 0\n"),
        Some(b"PX 0 0 010203\n".to_vec())
    );
    assert_eq!(pixmap.get_pixel(1, 0), Ok(Color(4, 5, 6)));
}

#[test]
fn datagram_replies_are_joined_in_order() {
    let mut pixmap = Pixmap::new(4, 4).unwrap();
    assert_eq!(
        handle_datagram(&mut pixmap, b"SIZE\nPX 2 2 0a0b0c\nPX 2 2\nPX 9 9\nSIZE"),
        Some(b"SIZE 4 4\nPX 2 2 0A0B0C\nerror coordinates 9 9 size 4 4\nSIZE 4 4\n".to_vec())
    );
    assert_eq!(handle_datagram(&mut pixmap, b"PX 1 1 ffffff\n"), Some(Vec::new()));
    assert_eq!(handle_datagram(&mut pixmap, b""), Some(Vec::new()));
}

#[test]
fn datagram_with_a_malformed_line_is_dropped() {
    let mut pixmap = Pixmap::new(4, 4).unwrap();
    assert_eq!(handle_datagram(&mut pixmap, b"PX 0 0 010203\nBOGUS\nPX 1 0 040506\nSIZE\n"), None);
    // what came before the faulty line stays, what came after it was never done
    assert_eq!(pixmap.get_pixel(0, 0), Ok(Color(1, 2, 3)));
    assert_eq!(pixmap.get_pixel(1, 0), Ok(Color(0, 0, 0)));
    assert_eq!(handle_datagram(&mut pixmap, b"SIZE\n\nSIZE\n"), None);
    assert_eq!(handle_datagram(&mut pixmap, b"\n"), None);
}

#[test]
fn connection_answers_complete_lines_only() {
    let mut pixmap = Pixmap::new(4, 4).unwrap();
    let mut connection = Connection::new(DEFAULT_MAX_FRAME);
    assert_eq!(
        connection.receive(&mut pixmap, b"SIZE\nPX 1 1 ff"),
        Step { output: b"SIZE 4 4\n".to_vec(), error: None }
    );
    assert_eq!(
        connection.receive(&mut pixmap, b"0000"),
        Step { output: Vec::new(), error: None }
    );
    assert_eq!(
        connection.receive(&mut pixmap, b"\nPX 1 1\nSI"),
        Step { output: b"PX 1 1 FF0000\n".to_vec(), error: None }
    );
    assert_eq!(
        connection.receive(&mut pixmap, b"ZE\r\n"),
        Step { output: b"SIZE 4 4\n".to_vec(), error: None }
    );
    assert_eq!(connection.receive(&mut pixmap, b""), Step { output: Vec::new(), error: None });
}

#[test]
fn connection_survives_malformed_lines() {
    let mut pixmap = Pixmap::new(4, 4).unwrap();
    let mut connection = Connection::new(DEFAULT_MAX_FRAME);
    let step = connection.receive(&mut pixmap, b"NOPE\nPX 7 7\nSIZE\n");
    assert_eq!(
        step,
        Step {
            output: b"error syntax 0\nerror coordinates 7 7 size 4 4\nSIZE 4 4\n".to_vec(),
            error: None
        }
    );
}

#[test]
fn connection_closes_on_a_frame_that_is_too_long() {
    let mut pixmap = Pixmap::new(4, 4).unwrap();
    let mut connection = Connection::new(16);
    let mut bytes = b"SIZE\n".to_vec();
    bytes.extend_from_slice(&[b'x'; 16]);
    assert_eq!(
        connection.receive(&mut pixmap, &bytes),
        Step { output: b"SIZE 4 4\n".to_vec(), error: Some(FramingError::FrameTooLong) }
    );
    let mut fresh = Connection::new(16);
    assert_eq!(
        fresh.receive(&mut pixmap, b"PX 1 1 ffffff123\n"),
        Step { output: Vec::new(), error: Some(FramingError::FrameTooLong) }
    );
    assert_eq!(pixmap.get_pixel(1, 1), Ok(Color(0, 0, 0)));
}

#[test]
fn websocket_frames_are_single_requests() {
    let mut pixmap = Pixmap::new(4, 4).unwrap();
    assert_eq!(
        handle_ws_frame(&mut pixmap, WsFrame::Text(b"SIZE"), 128),
        WsReply::Text(b"SIZE 4 4\n".to_vec())
    );
    assert_eq!(
        handle_ws_frame(&mut pixmap, WsFrame::Text(b"PX 1 2 abcdef\n"), 128),
        WsReply::Nothing
    );
    assert_eq!(
        handle_ws_frame(&mut pixmap, WsFrame::Text(b"PX 1 2"), 128),
        WsReply::Text(b"PX 1 2 ABCDEF\n".to_vec())
    );
    assert_eq!(handle_ws_frame(&mut pixmap, WsFrame::Binary, 128), WsReply::IgnoredBinary);
    assert_eq!(
        handle_ws_frame(&mut pixmap, WsFrame::Text(b"what"), 128),
        WsReply::Text(b"error syntax 0\n".to_vec())
    );
    assert_eq!(
        handle_ws_frame(&mut pixmap, WsFrame::Text(b"PX 3 3 ffffff"), 12),
        WsReply::Close(FramingError::FrameTooLong)
    );
    assert_eq!(pixmap.get_pixel(3, 3), Ok(Color(0, 0, 0)));
}

#[test]
fn write_buffer_batches_until_it_would_overflow() {
    let mut buffer = WriteBuffer::new(16);
    assert_eq!(buffer.write(b"SIZE 4 4\n"), Vec::<u8>::new());
    assert_eq!(buffer.write(b"PX 1 1\n"), Vec::<u8>::new());
    // 16 bytes are pending: one more does not fit
    assert_eq!(buffer.write(b"!"), b"SIZE 4 4\nPX 1 1\n".to_vec());
    assert_eq!(buffer.flush(), b"!".to_vec());
    assert_eq!(buffer.flush(), Vec::<u8>::new());
    // what alone fills the buffer is passed through behind the pending bytes
    assert_eq!(buffer.write(b"ab"), Vec::<u8>::new());
    assert_eq!(buffer.write(b"0123456789abcdef"), b"ab0123456789abcdef".to_vec());
    assert_eq!(buffer.flush(), Vec::<u8>::new());
}
