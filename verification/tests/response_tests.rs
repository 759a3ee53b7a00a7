use httpget::codec::decode_bytes;
use httpget::response::{
    parse_response_bytes, status_token, Machine, ProtocolError, ReadCmd,
};
use httpget::stats::{max_sample, min_sample};

#[test]
fn fixed_length_success() {
    let data = b"HTTP/1.1 200 OK\r\nContent-Length: 5\r\n\r\nhello".to_vec();
    let r = parse_response_bytes(&data, 0).unwrap();
    assert!(r.succeeded);
    assert_eq!(r.body, b"hello".to_vec());
    assert_eq!(decode_bytes(&r.body), "hello");
    assert_eq!(r.size, data.len());
    assert_eq!(r.end, data.len());
}

#[test]
fn chunked_success() {
    let data = b"HTTP/1.1 200 OK\r\nTransfer-Encoding: chunked\r\n\r\n5\r\nhello\r\n6\r\n world\r\n0\r\n\r\n"
        .to_vec();
    let r = parse_response_bytes(&data, 0).unwrap();
    assert!(r.succeeded);
    assert_eq!(decode_bytes(&r.body), "hello world");
    // the zero-length chunk's own terminator is consumed with it
    assert_eq!(r.end, data.len());
    assert_eq!(r.size, data.len());
}

#[test]
fn non_2xx_status() {
    let data = b"HTTP/1.1 404 Not Found\r\nContent-Length: 0\r\n\r\n".to_vec();
    let r = parse_response_bytes(&data, 0).unwrap();
    assert!(!r.succeeded);
    assert_eq!(r.body.len(), 0);
    assert_eq!(r.size, data.len());
}

#[test]
fn latin1_fallback_body() {
    let data = b"HTTP/1.1 200 OK\r\nContent-Length: 1\r\n\r\n\xDF".to_vec();
    let r = parse_response_bytes(&data, 0).unwrap();
    assert!(r.succeeded);
    assert_eq!(decode_bytes(&r.body), "\u{00DF}");
}

#[test]
fn three_responses_on_one_connection() {
    let mut data = Vec::new();
    data.extend_from_slice(b"HTTP/1.1 200 OK\r\nContent-Length: 10\r\n\r\n0123456789");
    data.extend_from_slice(b"HTTP/1.1 200 OK\r\nContent-Length: 20\r\n\r\n01234567890123456789");
    data.extend_from_slice(
        b"HTTP/1.1 200 OK\r\nContent-Length: 30\r\n\r\n012345678901234567890123456789",
    );
    let mut pos = 0;
    let mut sizes: Vec<u64> = Vec::new();
    let mut successes = 0;
    for _ in 0..3 {
        let r = parse_response_bytes(&data, pos).unwrap();
        assert!(r.end > pos);
        pos = r.end;
        sizes.push(r.size as u64);
        if r.succeeded {
            successes += 1;
        }
    }
    assert_eq!(pos, data.len());
    assert_eq!(successes, 3);
    // sizes count header bytes too, so the largest is at least its body
    assert_eq!(min_sample(&sizes), sizes[0]);
    assert!(max_sample(&sizes) >= 30);
    assert_eq!(sizes[0] as usize, b"HTTP/1.1 200 OK\r\nContent-Length: 10\r\n\r\n".len() + 10);
}

#[test]
fn blank_line_before_status_is_ignored() {
    let data = b"\r\nHTTP/1.1 200 OK\r\nContent-Length: 2\r\n\r\nok".to_vec();
    let r = parse_response_bytes(&data, 0).unwrap();
    assert!(r.succeeded);
    assert_eq!(r.body, b"ok".to_vec());
    assert_eq!(r.size, data.len());
}

#[test]
fn content_length_wins_over_chunked() {
    let data =
        b"HTTP/1.1 200 OK\r\nTransfer-Encoding: chunked\r\nContent-Length: 2\r\n\r\nok".to_vec();
    let r = parse_response_bytes(&data, 0).unwrap();
    assert_eq!(r.body, b"ok".to_vec());
}

#[test]
fn ignored_headers_still_counted() {
    let data = b"HTTP/1.1 204 No Content\r\nX-Extra: yes\r\nContent-Length: 0\r\n\r\n".to_vec();
    let r = parse_response_bytes(&data, 0).unwrap();
    assert!(r.succeeded);
    assert_eq!(r.size, data.len());
}

#[test]
fn bad_content_length_is_an_error() {
    let data = b"HTTP/1.1 200 OK\r\nContent-Length: abc\r\n\r\n".to_vec();
    assert_eq!(parse_response_bytes(&data, 0).unwrap_err(), ProtocolError::BadContentLength);
}

#[test]
fn bad_chunk_length_is_an_error() {
    let data = b"HTTP/1.1 200 OK\r\nTransfer-Encoding: chunked\r\n\r\nzz\r\n".to_vec();
    assert_eq!(parse_response_bytes(&data, 0).unwrap_err(), ProtocolError::BadChunkLength);
}

#[test]
fn truncated_body_is_an_error() {
    let data = b"HTTP/1.1 200 OK\r\nContent-Length: 5\r\n\r\nhe".to_vec();
    assert_eq!(parse_response_bytes(&data, 0).unwrap_err(), ProtocolError::UnexpectedEnd);
}

#[test]
fn truncated_headers_are_an_error() {
    let data = b"HTTP/1.1 200 OK\r\n".to_vec();
    assert_eq!(parse_response_bytes(&data, 0).unwrap_err(), ProtocolError::UnexpectedEnd);
}

#[test]
fn status_token_of_status_line() {
    assert_eq!(status_token(b"HTTP/1.1 200 OK\r\n"), Some(b"200 OK".to_vec()));
    assert_eq!(status_token(b"short"), None);
}

#[test]
fn machine_driven_step_by_step() {
    // the same loop the driver runs against a socket, over in-memory bytes
    let data = b"HTTP/1.1 201 Created\r\nContent-Length: 3\r\n\r\nabc".to_vec();
    let mut m = Machine::new();
    let mut pos = 0;
    loop {
        match m.next_cmd() {
            ReadCmd::Finished => break,
            ReadCmd::Line => {
                let mut end = pos;
                while end < data.len() && data[end] != b'\n' {
                    end += 1;
                }
                if end < data.len() {
                    end += 1;
                }
                m.on_line(&data[pos..end]).unwrap();
                pos = end;
            }
            ReadCmd::Exact(n) => {
                m.on_bytes(&data[pos..pos + n]).unwrap();
                pos += n;
            }
        }
    }
    assert!(m.succeeded());
    assert_eq!(m.total_size(), data.len());
    assert_eq!(m.into_body(), b"abc".to_vec());
}
