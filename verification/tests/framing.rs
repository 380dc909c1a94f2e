use alzed::framing::{frame, read_frame, FrameError, FrameReader, HeaderStep};

#[test]
fn frame_announces_the_length_in_bytes() {
    assert_eq!(frame(b"{}"), b"Content-Length: 2\r\n\r\n{}".to_vec());
    assert_eq!(frame(b""), b"Content-Length: 0\r\n\r\n".to_vec());
    assert_eq!(
        frame("\u{e9}\u{20ac}".as_bytes()),
        "Content-Length: 5\r\n\r\n\u{e9}\u{20ac}".as_bytes().to_vec()
    );
}

#[test]
fn frame_of_a_long_payload() {
    let payload = vec![b'x'; 12345];
    let framed = frame(&payload);
    assert!(framed.starts_with(b"Content-Length: 12345\r\n\r\nx"));
    assert_eq!(framed.len(), 25 + 12345);
}

#[test]
fn frames_read_back() {
    let payload = br#"{"jsonrpc":"2.0","id":1}"#;
    let mut stream = frame(payload);
    let end = stream.len();
    stream.extend_from_slice(b"left over");
    assert_eq!(read_frame(&stream).unwrap(), (payload.to_vec(), end));
}

#[test]
fn frames_read_back_one_after_the_other() {
    let payloads: Vec<Vec<u8>> = vec![b"one".to_vec(), b"".to_vec(), b"\r\n\r\n".to_vec()];
    let mut stream: Vec<u8> = Vec::new();
    for p in &payloads {
        stream.extend_from_slice(&frame(p));
    }
    let mut at = 0;
    for p in &payloads {
        let (body, end) = read_frame(&stream[at..]).unwrap();
        assert_eq!(&body, p);
        at += end;
    }
    assert_eq!(at, stream.len());
}

#[test]
fn other_headers_are_passed_over() {
    let stream = b"Content-Type: application/vscode-jsonrpc\r\nContent-Length:3\r\n\r\nabc";
    assert_eq!(read_frame(stream).unwrap().0, b"abc".to_vec());
}

#[test]
fn the_last_announced_length_counts() {
    let stream = b"Content-Length: 1\r\nContent-Length: +2\r\n\r\nabc";
    assert_eq!(read_frame(stream).unwrap().0, b"ab".to_vec());
}

#[test]
fn header_names_are_case_sensitive() {
    let stream = b"content-length: 1\r\n\r\na";
    assert_eq!(read_frame(stream).unwrap_err(), FrameError::MissingContentLength);
}

#[test]
fn broken_frames_are_refused() {
    assert_eq!(read_frame(b"").unwrap_err(), FrameError::EndInHeader);
    assert_eq!(read_frame(b"Content-Length: 1\r").unwrap_err(), FrameError::EndInHeader);
    assert_eq!(read_frame(b"\xff\xfe\r\n\r\n").unwrap_err(), FrameError::HeaderNotUtf8);
    assert_eq!(read_frame(b"Content-Length: x\r\n\r\n").unwrap_err(), FrameError::BadContentLength);
    assert_eq!(read_frame(b"Content-Length: -1\r\n\r\n").unwrap_err(), FrameError::BadContentLength);
    assert_eq!(read_frame(b"Content-Length:\r\n\r\n").unwrap_err(), FrameError::BadContentLength);
    assert_eq!(
        read_frame(b"Content-Length: 99999999999999999999\r\n\r\n").unwrap_err(),
        FrameError::BadContentLength
    );
    assert_eq!(read_frame(b"\r\n").unwrap_err(), FrameError::MissingContentLength);
    assert_eq!(read_frame(b"Content-Length: 3\r\n\r\nab").unwrap_err(), FrameError::EndInBody);
}

#[test]
fn the_reader_takes_byte_for_byte() {
    let mut reader = FrameReader::new();
    let header = b"Content-Length: 7\r\n\r\n";
    for byte in &header[..header.len() - 1] {
        assert_eq!(reader.push(*byte), HeaderStep::More);
    }
    assert_eq!(reader.push(b'\n'), HeaderStep::Body(7));
}

#[test]
fn frame_errors_say_what_is_wrong() {
    assert_eq!(FrameError::EndInHeader.message(), "EOF while reading LSP header line");
    assert_eq!(FrameError::HeaderNotUtf8.message(), "LSP header not UTF-8");
    assert_eq!(FrameError::BadContentLength.message(), "parsing Content-Length");
    assert_eq!(
        FrameError::MissingContentLength.message(),
        "LSP frame missing Content-Length header"
    );
    assert_eq!(FrameError::EndInBody.message(), "reading body");
}
