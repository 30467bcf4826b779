use swf_metadata::batch::{process_batch, BatchEntry};
use swf_metadata::decompress::{decompress, FormatError};
use swf_metadata::pipeline::extract_metadata;

fn chars(v: Vec<char>) -> String {
    v.into_iter().collect()
}

/// A small most-significant-bit-first bit writer for building rectangles.
struct BitWriter {
    bytes: Vec<u8>,
    bit: u8,
}

impl BitWriter {
    fn new() -> BitWriter {
        BitWriter { bytes: Vec::new(), bit: 0 }
    }

    fn push_bits(&mut self, value: u32, count: u8) {
        for k in (0..count).rev() {
            if self.bit == 0 {
                self.bytes.push(0);
            }
            let b = ((value >> k) & 1) as u8;
            let last = self.bytes.len() - 1;
            self.bytes[last] |= b << (7 - self.bit);
            self.bit = (self.bit + 1) % 8;
        }
    }
}

/// The uncompressed header body for a stage of the given twip extents.
fn header_body(x_max: u32, y_max: u32, frames: u16, rate_fixed: u16) -> Vec<u8> {
    let mut w = BitWriter::new();
    w.push_bits(15, 5);
    w.push_bits(0, 15);
    w.push_bits(x_max, 15);
    w.push_bits(0, 15);
    w.push_bits(y_max, 15);
    let mut body = w.bytes;
    body.push((rate_fixed & 0xff) as u8);
    body.push((rate_fixed >> 8) as u8);
    body.push((frames & 0xff) as u8);
    body.push((frames >> 8) as u8);
    body
}

fn container(sig: &[u8; 3], body: &[u8]) -> Vec<u8> {
    let mut file = sig.to_vec();
    file.push(6);
    let total = (8 + body.len()) as u32;
    file.extend_from_slice(&total.to_le_bytes());
    file.extend_from_slice(body);
    file
}

/// A valid uncompressed SWF: 800x600 pixel stage, 100 frames, 30 fps.
fn good_swf_bytes() -> Vec<u8> {
    container(b"FWS", &header_body(16000, 12000, 100, 30 << 8))
}

const GOOD_JSON: &str =
    "{\"file_name\":\"good.swf\",\"stage_size\":[800,600],\"no_of_frames\":100,\"frame_rate\":30}";

#[test]
fn test_extract_uncompressed() {
    let bytes = good_swf_bytes();
    let out = extract_metadata("good.swf", &bytes, "json").unwrap();
    assert_eq!(chars(out), GOOD_JSON);
}

#[test]
fn test_extract_zlib() {
    let body = header_body(16000, 12000, 100, 30 << 8);
    let mut enc =
        flate2::write::ZlibEncoder::new(Vec::new(), flate2::Compression::default());
    std::io::Write::write_all(&mut enc, &body).unwrap();
    let compressed = enc.finish().unwrap();
    let mut file = b"CWS".to_vec();
    file.push(6);
    let total = (8 + body.len()) as u32;
    file.extend_from_slice(&total.to_le_bytes());
    file.extend_from_slice(&compressed);
    let out = extract_metadata("good.swf", &file, "json").unwrap();
    assert_eq!(chars(out), GOOD_JSON);
}

#[test]
fn test_extract_lzma() {
    let body = header_body(16000, 12000, 100, 30 << 8);
    let mut compressed: Vec<u8> = Vec::new();
    let mut input: &[u8] = &body;
    lzma_rs::lzma_compress(&mut input, &mut compressed).unwrap();
    // lzma_compress writes 5 property bytes and an 8-byte size; the SWF
    // framing keeps the properties and drops the size field.
    let props = &compressed[..5];
    let stream = &compressed[13..];
    let mut file = b"ZWS".to_vec();
    file.push(13);
    let total = (8 + body.len()) as u32;
    file.extend_from_slice(&total.to_le_bytes());
    file.extend_from_slice(&(stream.len() as u32).to_le_bytes());
    file.extend_from_slice(props);
    file.extend_from_slice(stream);
    let out = extract_metadata("good.swf", &file, "json").unwrap();
    assert_eq!(chars(out), GOOD_JSON);
}

#[test]
fn test_unknown_signature() {
    let bytes = vec![1u8, 2, 3, 4, 5, 6, 7, 8, 9];
    match decompress(&bytes) {
        Err(FormatError::UnknownSignature) => {}
        other => panic!("expected UnknownSignature, got {:?}", other.map(|s| s.data)),
    }
    // Never silently empty data: the same stream through the pipeline also
    // fails.
    assert!(extract_metadata("x.swf", &bytes, "json").is_err());
}

#[test]
fn test_unknown_signature_on_short_input() {
    let bytes = vec![70u8, 87];
    assert!(matches!(decompress(&bytes), Err(FormatError::UnknownSignature)));
}

#[test]
fn test_decompression_failed() {
    // A zlib container whose payload is garbage.
    let mut file = b"CWS".to_vec();
    file.push(6);
    file.extend_from_slice(&100u32.to_le_bytes());
    file.extend_from_slice(&[0xde, 0xad, 0xbe, 0xef]);
    assert!(matches!(
        decompress(&file),
        Err(FormatError::DecompressionFailed(_))
    ));
}

#[test]
fn test_truncated_header() {
    // A valid container whose decompressed stream is too short.
    let file = container(b"FWS", &[0xff]);
    assert!(matches!(
        extract_metadata("x.swf", &file, "json"),
        Err(FormatError::TruncatedHeader)
    ));
}

#[test]
fn test_batch_scenario() {
    let entries = vec![
        BatchEntry { path: "good.swf".to_string(), bytes: good_swf_bytes() },
        BatchEntry { path: "bad.swf".to_string(), bytes: b"FWS corrupt".to_vec() },
        BatchEntry { path: "ignored.txt".to_string(), bytes: vec![] },
    ];
    let result = process_batch(&entries, "json");
    assert_eq!(result.processed, 1);
    assert_eq!(result.outputs.len(), 1);
    let (out_path, content) = &result.outputs[0];
    assert_eq!(chars(out_path.clone()), "good.swf.json");
    assert_eq!(chars(content.clone()), GOOD_JSON);
    assert_eq!(result.failures.len(), 1);
    assert_eq!(chars(result.failures[0].0.clone()), "bad.swf");
}

#[test]
fn test_batch_case_insensitive_selection() {
    let entries = vec![
        BatchEntry { path: "a.swf".to_string(), bytes: good_swf_bytes() },
        BatchEntry { path: "a.SWF".to_string(), bytes: good_swf_bytes() },
        BatchEntry { path: "a.SwF".to_string(), bytes: good_swf_bytes() },
        BatchEntry { path: "a.swfx".to_string(), bytes: good_swf_bytes() },
    ];
    let result = process_batch(&entries, "yaml");
    assert_eq!(result.processed, 3);
    assert_eq!(result.outputs.len(), 3);
    assert_eq!(chars(result.outputs[0].0.clone()), "a.swf.yaml");
    assert_eq!(chars(result.outputs[1].0.clone()), "a.swf.yaml");
    assert_eq!(chars(result.outputs[2].0.clone()), "a.swf.yaml");
}

#[test]
fn test_frame_rate_truncates() {
    // 12.5 fps truncates to 12 whole frames per second.
    let bytes = container(b"FWS", &header_body(16000, 12000, 7, (12 << 8) | 128));
    let out = extract_metadata("t.swf", &bytes, "json").unwrap();
    assert!(chars(out).contains("\"frame_rate\":12"));
}

#[test]
fn test_stage_size_truncates() {
    // 16010 twips is 800.5 pixels; the output truncates to 800.
    let bytes = container(b"FWS", &header_body(16010, 12000, 7, 30 << 8));
    let out = extract_metadata("t.swf", &bytes, "json").unwrap();
    assert!(chars(out).contains("\"stage_size\":[800,600]"));
}

#[test]
fn test_decompress_version_and_length() {
    let bytes = good_swf_bytes();
    let stream = decompress(&bytes).unwrap();
    assert_eq!(stream.version, 6);
    assert_eq!(stream.declared_len as usize, bytes.len());
    assert_eq!(stream.data.len(), bytes.len() - 8);
}
