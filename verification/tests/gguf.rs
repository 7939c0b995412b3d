use humla::gguf::{quant_label, read_string, read_u32, read_u64, skip_value, sniff_bytes, GgufError};

fn push_string(f: &mut Vec<u8>, s: &[u8]) {
    f.extend_from_slice(&(s.len() as u64).to_le_bytes());
    f.extend_from_slice(s);
}

fn minimal_gguf(arch: &str, file_type: u32) -> Vec<u8> {
    let mut f = Vec::new();
    f.extend_from_slice(b"GGUF");
    f.extend_from_slice(&3u32.to_le_bytes());
    f.extend_from_slice(&0u64.to_le_bytes());
    f.extend_from_slice(&2u64.to_le_bytes());
    push_string(&mut f, b"general.architecture");
    f.extend_from_slice(&8u32.to_le_bytes());
    push_string(&mut f, arch.as_bytes());
    push_string(&mut f, b"general.file_type");
    f.extend_from_slice(&4u32.to_le_bytes());
    f.extend_from_slice(&file_type.to_le_bytes());
    f
}

fn header(version: u32, kv_count: u64) -> Vec<u8> {
    let mut f = Vec::new();
    f.extend_from_slice(b"GGUF");
    f.extend_from_slice(&version.to_le_bytes());
    f.extend_from_slice(&7u64.to_le_bytes());
    f.extend_from_slice(&kv_count.to_le_bytes());
    f
}

#[test]
fn parses_gemma_q4_k_m() {
    let f = minimal_gguf("gemma3", 15);
    let info = sniff_bytes(&f).unwrap();
    assert_eq!(info.architecture, "gemma3");
    assert_eq!(info.quantization, "Q4_K_M");
}

#[test]
fn parses_qwen_q8_0() {
    let f = minimal_gguf("qwen3", 7);
    let info = sniff_bytes(&f).unwrap();
    assert_eq!(info.architecture, "qwen3");
    assert_eq!(info.quantization, "Q8_0");
}

#[test]
fn rejects_non_gguf() {
    let f = b"NOT_GGUF_AT_ALL_NO_WAY".to_vec();
    assert!(sniff_bytes(&f).is_err());
    assert_eq!(sniff_bytes(&f), Err(GgufError::NotGguf));
}

#[test]
fn minimal_header_has_no_parameter_count() {
    let info = sniff_bytes(&minimal_gguf("llama", 1)).unwrap();
    assert_eq!(info.parameter_count, None);
    assert_eq!(info.quantization, "F16");
}

#[test]
fn trailing_bytes_do_not_change_result() {
    let mut f = minimal_gguf("gemma3", 15);
    let before = sniff_bytes(&f);
    f.extend_from_slice(&[0xAB; 100]);
    assert_eq!(sniff_bytes(&f), before);
}

#[test]
fn truncated_file_runs_out_of_data() {
    let f = minimal_gguf("gemma3", 15);
    assert_eq!(sniff_bytes(&f[..f.len() - 1]), Err(GgufError::UnexpectedEof));
    assert_eq!(sniff_bytes(&f[..3]), Err(GgufError::UnexpectedEof));
    assert_eq!(sniff_bytes(b"GGUF"), Err(GgufError::UnexpectedEof));
}

#[test]
fn rejects_other_versions() {
    assert_eq!(sniff_bytes(&header(1, 0)), Err(GgufError::UnsupportedVersion(1)));
    assert_eq!(sniff_bytes(&header(4, 0)), Err(GgufError::UnsupportedVersion(4)));
    assert_eq!(sniff_bytes(&header(2, 0)), Err(GgufError::MissingArchitecture));
}

#[test]
fn missing_architecture_is_an_error() {
    let mut f = header(3, 1);
    push_string(&mut f, b"general.file_type");
    f.extend_from_slice(&4u32.to_le_bytes());
    f.extend_from_slice(&2u32.to_le_bytes());
    assert_eq!(sniff_bytes(&f), Err(GgufError::MissingArchitecture));
}

#[test]
fn architecture_without_file_type_is_unknown_quantization() {
    let mut f = header(2, 2);
    push_string(&mut f, b"general.parameter_count");
    f.extend_from_slice(&11u32.to_le_bytes());
    f.extend_from_slice(&7_000_000_000u64.to_le_bytes());
    push_string(&mut f, b"general.architecture");
    f.extend_from_slice(&8u32.to_le_bytes());
    push_string(&mut f, b"mistral");
    let info = sniff_bytes(&f).unwrap();
    assert_eq!(info.architecture, "mistral");
    assert_eq!(info.quantization, "unknown");
    assert_eq!(info.parameter_count, Some(7_000_000_000));
}

#[test]
fn skips_other_entries_and_arrays() {
    let mut f = header(3, 5);
    // u8 entry
    push_string(&mut f, b"x.u8");
    f.extend_from_slice(&0u32.to_le_bytes());
    f.push(9);
    // string entry
    push_string(&mut f, b"x.name");
    f.extend_from_slice(&8u32.to_le_bytes());
    push_string(&mut f, b"hello");
    // array of two arrays of u16
    push_string(&mut f, b"x.nested");
    f.extend_from_slice(&9u32.to_le_bytes());
    f.extend_from_slice(&9u32.to_le_bytes());
    f.extend_from_slice(&2u64.to_le_bytes());
    for _ in 0..2 {
        f.extend_from_slice(&2u32.to_le_bytes());
        f.extend_from_slice(&3u64.to_le_bytes());
        f.extend_from_slice(&[1, 0, 2, 0, 3, 0]);
    }
    // architecture key with the wrong type is skipped
    push_string(&mut f, b"general.architecture");
    f.extend_from_slice(&4u32.to_le_bytes());
    f.extend_from_slice(&1u32.to_le_bytes());
    push_string(&mut f, b"general.architecture");
    f.extend_from_slice(&8u32.to_le_bytes());
    push_string(&mut f, b"phi3");
    let info = sniff_bytes(&f).unwrap();
    assert_eq!(info.architecture, "phi3");
    assert_eq!(info.quantization, "unknown");
}

#[test]
fn stops_after_architecture_and_file_type() {
    let mut f = minimal_gguf("gemma3", 18);
    // claim more entries than present; the scan stops before reading them
    f[16..24].copy_from_slice(&5u64.to_le_bytes());
    let info = sniff_bytes(&f).unwrap();
    assert_eq!(info.quantization, "Q6_K");
    // a parameter count after both is never read
    push_string(&mut f, b"general.parameter_count");
    f.extend_from_slice(&11u32.to_le_bytes());
    f.extend_from_slice(&5u64.to_le_bytes());
    assert_eq!(sniff_bytes(&f).unwrap().parameter_count, None);
}

#[test]
fn unknown_value_type_is_an_error() {
    let mut f = header(3, 1);
    push_string(&mut f, b"x");
    f.extend_from_slice(&13u32.to_le_bytes());
    assert_eq!(sniff_bytes(&f), Err(GgufError::UnknownValueType(13)));
}

#[test]
fn overlong_string_is_an_error() {
    let mut f = header(3, 1);
    f.extend_from_slice(&1_048_577u64.to_le_bytes());
    assert_eq!(sniff_bytes(&f), Err(GgufError::StringTooLong(1_048_577)));
    let mut ok = vec![0u8; 8];
    ok[..8].copy_from_slice(&1_048_576u64.to_le_bytes());
    assert_eq!(read_string(&ok, 0), Err(GgufError::UnexpectedEof));
}

#[test]
fn invalid_utf8_is_an_error() {
    let mut f = header(3, 1);
    push_string(&mut f, &[0xff, 0xfe]);
    assert_eq!(sniff_bytes(&f), Err(GgufError::InvalidUtf8));
}

#[test]
fn utf8_strings_decode() {
    let mut b = Vec::new();
    push_string(&mut b, "blå".as_bytes());
    assert_eq!(read_string(&b, 0), Ok(("blå".to_string(), 12)));
}

#[test]
fn trailing_skip_past_end_is_not_an_error() {
    let mut f = header(3, 2);
    push_string(&mut f, b"general.architecture");
    f.extend_from_slice(&8u32.to_le_bytes());
    push_string(&mut f, b"gpt2");
    push_string(&mut f, b"x.count");
    f.extend_from_slice(&12u32.to_le_bytes());
    // the 8-byte value is missing, but nothing is read after stepping over it
    assert_eq!(sniff_bytes(&f).unwrap().architecture, "gpt2");
}

#[test]
fn little_endian_reads() {
    let b = [1u8, 2, 3, 4, 5, 6, 7, 8, 9];
    assert_eq!(read_u32(&b, 0), Ok((0x0403_0201, 4)));
    assert_eq!(read_u64(&b, 1), Ok((0x0908_0706_0504_0302, 9)));
    assert_eq!(read_u32(&b, 6), Err(GgufError::UnexpectedEof));
    assert_eq!(read_u64(&b, 100), Err(GgufError::UnexpectedEof));
}

#[test]
fn skip_widths() {
    let b = [0u8; 4];
    assert_eq!(skip_value(&b, 0, 0), Ok(1));
    assert_eq!(skip_value(&b, 0, 3), Ok(2));
    assert_eq!(skip_value(&b, 0, 6), Ok(4));
    assert_eq!(skip_value(&b, 0, 10), Ok(8));
    assert_eq!(skip_value(&b, 0, 8), Err(GgufError::UnexpectedEof));
    assert_eq!(skip_value(&b, 0x7fff_ffff_ffff_fffc, 11), Err(GgufError::OffsetOverflow));
}

#[test]
fn quant_labels() {
    let expected = [
        (0, "F32"), (1, "F16"), (2, "Q4_0"), (3, "Q4_1"), (7, "Q8_0"), (14, "Q4_K_S"),
        (15, "Q4_K_M"), (16, "Q5_K_S"), (17, "Q5_K_M"), (18, "Q6_K"), (4, "other"), (99, "other"),
    ];
    for (ft, name) in expected {
        assert_eq!(quant_label(ft), name);
    }
}
