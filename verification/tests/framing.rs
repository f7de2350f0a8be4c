//! Message framing.

use xcode_dap::dap::framing::frame;
use xcode_dap::dap::framing::frame_value;
use xcode_dap::dap::framing::DapReader;
use xcode_dap::json::Json;
use xcode_dap::setup::jsonc::parse_strict;

/// What a reader gives on some chunks: the messages, and whether the stream
/// ended cleanly.
fn read_all(chunks: Vec<Vec<u8>>) -> (Vec<Vec<u8>>, bool) {
    let mut r = DapReader::new();
    let mut out = Vec::new();
    for chunk in chunks {
        r.push(&chunk);
        loop {
            match r.next_message() {
                Ok(Some(m)) => out.push(m),
                Ok(None) => break,
                Err(_) => return (out, false),
            }
        }
    }
    let clean = r.end_of_stream().is_ok();
    (out, clean)
}

#[test]
fn frame_exact_bytes() {
    assert_eq!(frame(b"{}"), b"Content-Length: 2\r\n\r\n{}".to_vec());
}

#[test]
fn single_message_roundtrip() {
    let body = br#"{"seq":1,"type":"request","command":"initialize"}"#;
    assert_eq!(read_all(vec![frame(body)]), (vec![body.to_vec()], true));
}

#[test]
fn two_messages_in_one_read() {
    let mut joined = frame(b"{\"a\":1}");
    joined.extend_from_slice(&frame(b"{\"b\":2}"));
    assert_eq!(
        read_all(vec![joined]),
        (vec![b"{\"a\":1}".to_vec(), b"{\"b\":2}".to_vec()], true)
    );
}

#[test]
fn header_and_body_split_across_reads() {
    // Split inside the header name, inside the \r\n\r\n, and inside the body.
    let chunks = vec![
        b"Content-Le".to_vec(),
        b"ngth: 8\r\n".to_vec(),
        b"\r".to_vec(),
        b"\n{\"x\"".to_vec(),
        b":42}".to_vec(),
    ];
    assert_eq!(read_all(chunks), (vec![b"{\"x\":42}".to_vec()], true));
}

#[test]
fn second_message_split_after_first() {
    // First frame complete + second frame's header start in one read.
    let mut first = frame(b"{\"a\":1}");
    first.extend_from_slice(b"Content-Length");
    let chunks = vec![first, b": 7\r\n\r\n{\"b\":2}".to_vec()];
    let (messages, _) = read_all(chunks);
    assert_eq!(messages, vec![b"{\"a\":1}".to_vec(), b"{\"b\":2}".to_vec()]);
}

#[test]
fn extra_headers_tolerated() {
    let raw =
        b"Content-Type: application/vscode-jsonrpc; charset=utf-8\r\nContent-Length: 4\r\n\r\nnull"
            .to_vec();
    assert_eq!(read_all(vec![raw]).0, vec![b"null".to_vec()]);
}

#[test]
fn extra_headers_after_content_length_tolerated() {
    let raw = b"Content-Length: 4\r\nX-Custom: zed\r\n\r\ntrue".to_vec();
    assert_eq!(read_all(vec![raw]).0, vec![b"true".to_vec()]);
}

#[test]
fn clean_eof_returns_none() {
    assert_eq!(read_all(vec![]), (vec![], true));
}

#[test]
fn eof_mid_frame_is_error() {
    let mut full = frame(b"{\"a\":1}");
    full.truncate(full.len() - 3); // chop the body
    assert_eq!(read_all(vec![full]), (vec![], false));
}

#[test]
fn missing_content_length_is_error() {
    assert_eq!(read_all(vec![b"X-Only: 1\r\n\r\n{}".to_vec()]), (vec![], false));
}

#[test]
fn invalid_content_length_is_error() {
    assert_eq!(
        read_all(vec![b"Content-Length: nope\r\n\r\n{}".to_vec()]),
        (vec![], false)
    );
}

#[test]
fn overflowing_content_length_is_error() {
    // A huge Content-Length must join the graceful malformed-header path.
    assert_eq!(
        read_all(vec![b"Content-Length: 18446744073709551615\r\n\r\n{}".to_vec()]),
        (vec![], false)
    );
}

/// A number goes out as it came in: to the last digit.
#[test]
fn numbers_are_written_as_they_were_read() {
    let mut x: u64 = 0x9e37_79b9_7f4a_7c15;
    for _ in 0..20_000 {
        x ^= x << 13;
        x ^= x >> 7;
        x ^= x << 17;
        let f = f64::from_bits(x);
        if !f.is_finite() {
            continue;
        }
        let v = parse_strict(&format!("{f:e}")).unwrap();
        let Json::Number(n) = &v else { panic!("no number") };
        assert_eq!(frame_value(&v), frame(n.text.as_bytes()));
    }
    for (given, written) in [
        ("1.5", "1.5"),
        ("-0.0", "-0.0"),
        ("1e3", "1000.0"),
        ("18446744073709551615", "18446744073709551615"),
        ("-9223372036854775808", "-9223372036854775808"),
        ("0", "0"),
    ] {
        assert_eq!(frame_value(&parse_strict(given).unwrap()), frame(written.as_bytes()));
    }
}
