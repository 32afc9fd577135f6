use hypercool::codec::{decode_comp_zlib_utf16le, decode_utf16le, decompress_brotli, DecodeError};
use hypercool::content::{decode_content, StoredValue, DECODE_FAILED};
use std::io::Write;

fn brotli_of(data: &[u8]) -> Vec<u8> {
    let mut out = Vec::new();
    {
        let mut w = brotli::CompressorWriter::new(&mut out, 4096, 5, 22);
        w.write_all(data).unwrap();
    }
    out
}

#[test]
fn brotli_stream_with_one_stored_block() {
    let stream = [0x40, 0x00, 0x10, 0x68, 0x65, 0x6c, 0x6c, 0x6f, 0x03];
    assert_eq!(decompress_brotli(&stream), Ok("hello".to_string()));
}

#[test]
fn brotli_round_trip_of_korean_text() {
    let packed = brotli_of("안녕하세요 학교 공지입니다".as_bytes());
    assert_ne!(packed, "안녕하세요 학교 공지입니다".as_bytes());
    assert_eq!(decompress_brotli(&packed), Ok("안녕하세요 학교 공지입니다".to_string()));
}

#[test]
fn brotli_rejects_garbage() {
    assert_eq!(decompress_brotli(&[0xff, 0xff, 0xff, 0xff]), Err(DecodeError::Brotli));
}

#[test]
fn comp_payload_decodes_korean_text() {
    assert_eq!(decode_comp_zlib_utf16le("eJzzOBq6EQAEzgIU"), Ok("안녕".to_string()));
}

#[test]
fn comp_payload_ignores_surrounding_whitespace() {
    assert_eq!(decode_comp_zlib_utf16le("  eJzLYMhkAAACdgDS\r\n"), Ok("hi".to_string()));
}

#[test]
fn comp_payload_errors() {
    assert_eq!(decode_comp_zlib_utf16le("***"), Err(DecodeError::Base64));
    assert_eq!(decode_comp_zlib_utf16le("bm90IGEgemxpYiBzdHJlYW0="), Err(DecodeError::Inflate));
    assert_eq!(decode_comp_zlib_utf16le("eJxLTEoGAAJNASc="), Err(DecodeError::OddLength));
    assert_eq!(decode_comp_zlib_utf16le("eJxjuAEAANoA2Q=="), Err(DecodeError::Utf16));
}

#[test]
fn utf16le_pairs_and_plain_units() {
    assert_eq!(decode_utf16le(&[0x68, 0x00, 0x69, 0x00]), Ok("hi".to_string()));
    assert_eq!(decode_utf16le(&[0x3d, 0xd8, 0x00, 0xde]), Ok("\u{1F600}".to_string()));
    assert_eq!(decode_utf16le(&[]), Ok(String::new()));
    assert_eq!(decode_utf16le(&[0x68]), Err(DecodeError::OddLength));
    assert_eq!(decode_utf16le(&[0x00, 0xdc]), Err(DecodeError::Utf16));
    assert_eq!(decode_utf16le(&[0x3d, 0xd8, 0x68, 0x00]), Err(DecodeError::Utf16));
}

#[test]
fn content_prefers_blob_body_over_text() {
    let body = StoredValue::Blob(brotli_of(b"from body"));
    let text = StoredValue::Text("from text".to_string());
    assert_eq!(decode_content(&text, &body), "from body");
}

#[test]
fn content_prefers_marked_body_over_text() {
    let body = StoredValue::Text("{COMP}eJzzOBq6EQAEzgIU".to_string());
    let text = StoredValue::Text("from text".to_string());
    assert_eq!(decode_content(&text, &body), "안녕");
    let blob_text = StoredValue::Blob(brotli_of(b"from text blob"));
    assert_eq!(decode_content(&blob_text, &body), "안녕");
}

#[test]
fn content_plain_body_does_not_override_text() {
    let body = StoredValue::Text("plain body".to_string());
    assert_eq!(decode_content(&StoredValue::Text("from text".to_string()), &body), "from text");
    assert_eq!(
        decode_content(&StoredValue::Blob(brotli_of(b"from text blob")), &body),
        "from text blob"
    );
    assert_eq!(decode_content(&StoredValue::Text(String::new()), &body), "plain body");
    assert_eq!(decode_content(&StoredValue::Absent, &body), "plain body");
}

#[test]
fn content_of_empty_body_falls_back_to_text() {
    let text = StoredValue::Text("hi".to_string());
    assert_eq!(decode_content(&text, &StoredValue::Absent), "hi");
    assert_eq!(decode_content(&text, &StoredValue::Text(String::new())), "hi");
    assert_eq!(decode_content(&StoredValue::Absent, &StoredValue::Absent), "");
}

#[test]
fn content_failures_become_the_placeholder() {
    let bad_blob = StoredValue::Blob(vec![0xff, 0xff, 0xff, 0xff]);
    let bad_comp = StoredValue::Text("{COMP}***".to_string());
    let text = StoredValue::Text("from text".to_string());
    assert_eq!(DECODE_FAILED, "압축 해제 실패");
    assert_eq!(decode_content(&text, &bad_blob), DECODE_FAILED);
    assert_eq!(decode_content(&text, &bad_comp), DECODE_FAILED);
    assert_eq!(decode_content(&bad_blob, &StoredValue::Text("plain".to_string())), DECODE_FAILED);
    assert_eq!(decode_content(&bad_blob, &StoredValue::Absent), DECODE_FAILED);
}

#[test]
fn decode_failures_say_what_failed() {
    assert_eq!(DecodeError::Base64.message(), "base64 디코딩 실패");
    assert_eq!(DecodeError::Inflate.message(), "zlib inflate 실패");
    assert_eq!(DecodeError::OddLength.message(), "UTF-16LE 길이가 홀수입니다");
    assert_eq!(DecodeError::Utf16.message(), "UTF-16LE 변환 실패");
    assert_eq!(DecodeError::Brotli.message(), "brotli 압축 해제 실패");
}
