//! GGUF header sniffer. Reads just enough of a GGUF model file to identify
//! its architecture and quantization without touching the tensor data.
//!
//! Layout (little endian): the magic `GGUF`, a `u32` version (2 or 3 are
//! accepted), a `u64` tensor count, a `u64` metadata entry count, and then
//! the metadata entries. Each entry is a string key, a `u32` value type and
//! a value. Strings are a `u64` byte length followed by UTF-8 bytes.
//!
//! The reader walks the byte image of a file front to back. Fixed-width
//! values that are not of interest are stepped over without being read, so
//! stepping past the end of the available bytes is not by itself an error
//! (only a later read is); an offset is limited to `MAX_OFFSET`, the largest
//! offset a file position can take.

use vstd::prelude::*;
use vstd::utf8::{decode_utf8, valid_utf8};
use std::string::FromUtf8Error;
use crate::text::str_eq;

verus! {

/// Longest string the reader accepts (1 MiB). Chat templates and tokenizer
/// regexes are far below this; a garbage length field is far above it.
pub const MAX_STRING_LEN: u64 = 1_048_576;

/// Largest offset a file position can take.
pub const MAX_OFFSET: u64 = 0x7fff_ffff_ffff_ffff;

/// GGUF metadata value type codes used by the reader.
pub const TYPE_UINT32: u32 = 4;
pub const TYPE_STRING: u32 = 8;
pub const TYPE_ARRAY: u32 = 9;
/// Code 11 is GGUF's signed 64-bit integer type. The parameter count is
/// stored under it and read back as the same eight little-endian bytes, as
/// an unsigned count.
pub const TYPE_INT64: u32 = 11;

/// Why a header could not be read.
#[derive(Debug, Clone, Copy, PartialEq, Eq, Structural)]
pub enum GgufError {
    /// A read needed bytes past the end of the data.
    UnexpectedEof,
    /// The first four bytes are not `GGUF`.
    NotGguf,
    /// The version field is neither 2 nor 3.
    UnsupportedVersion(u32),
    /// A string length field exceeds `MAX_STRING_LEN`.
    StringTooLong(u64),
    /// A string's bytes are not valid UTF-8.
    InvalidUtf8,
    /// A value carries a type code the format does not define.
    UnknownValueType(u32),
    /// No `general.architecture` string entry was found.
    MissingArchitecture,
    /// Stepping over a value would move past `MAX_OFFSET`.
    OffsetOverflow,
}

/// What the sniffer reports about a model file.
#[derive(Debug, Clone, PartialEq)]
pub struct GgufInfo {
    pub architecture: String,
    pub quantization: String,
    pub parameter_count: Option<u64>,
}

/// Mathematical view of `GgufInfo`.
pub struct HeaderInfo {
    pub architecture: Seq<char>,
    pub quantization: Seq<char>,
    pub parameter_count: Option<u64>,
}

impl View for GgufInfo {
    type V = HeaderInfo;

    open spec fn view(&self) -> HeaderInfo {
        HeaderInfo {
            architecture: self.architecture@,
            quantization: self.quantization@,
            parameter_count: self.parameter_count,
        }
    }
}

/// The metadata collected while scanning the entries.
pub struct ScanState {
    pub architecture: Option<Seq<char>>,
    pub file_type: Option<u32>,
    pub parameter_count: Option<u64>,
}

// ---------------------------------------------------------------------------
// Specification
// ---------------------------------------------------------------------------

pub open spec fn le_u32(s: Seq<u8>, pos: int) -> u32 {
    (s[pos] as u32) | (s[pos + 1] as u32) << 8 | (s[pos + 2] as u32) << 16 | (s[pos + 3] as u32) << 24
}

pub open spec fn le_u64(s: Seq<u8>, pos: int) -> u64 {
    (s[pos] as u64) | (s[pos + 1] as u64) << 8 | (s[pos + 2] as u64) << 16 | (s[pos + 3] as u64) << 24
        | (s[pos + 4] as u64) << 32 | (s[pos + 5] as u64) << 40 | (s[pos + 6] as u64) << 48 | (s[pos
        + 7] as u64) << 56
}

/// Reading a little-endian `u32` at `pos`; on success the value and the
/// position after it.
pub open spec fn spec_read_u32(s: Seq<u8>, pos: int) -> Result<(u32, int), GgufError> {
    if 0 <= pos && pos + 4 <= s.len() {
        Ok((le_u32(s, pos), pos + 4))
    } else {
        Err(GgufError::UnexpectedEof)
    }
}

pub open spec fn spec_read_u64(s: Seq<u8>, pos: int) -> Result<(u64, int), GgufError> {
    if 0 <= pos && pos + 8 <= s.len() {
        Ok((le_u64(s, pos), pos + 8))
    } else {
        Err(GgufError::UnexpectedEof)
    }
}

/// Reading a length-prefixed UTF-8 string at `pos`.
pub open spec fn spec_read_string(s: Seq<u8>, pos: int) -> Result<(Seq<char>, int), GgufError> {
    match spec_read_u64(s, pos) {
        Err(e) => Err(e),
        Ok((len, p)) => {
            if len > MAX_STRING_LEN {
                Err(GgufError::StringTooLong(len))
            } else if p + len > s.len() {
                Err(GgufError::UnexpectedEof)
            } else if !valid_utf8(s.subrange(p, p + len)) {
                Err(GgufError::InvalidUtf8)
            } else {
                Ok((decode_utf8(s.subrange(p, p + len)), p + len))
            }
        },
    }
}

/// Stepping `n` bytes forward without reading them.
pub open spec fn spec_step(pos: int, n: int) -> Result<int, GgufError> {
    if pos + n <= MAX_OFFSET {
        Ok(pos + n)
    } else {
        Err(GgufError::OffsetOverflow)
    }
}

/// Width in bytes of the fixed-width value types, 0 for the others.
pub open spec fn fixed_width(value_type: u32) -> int {
    if value_type == 0 || value_type == 1 || value_type == 7 {
        1
    } else if value_type == 2 || value_type == 3 {
        2
    } else if value_type == 4 || value_type == 5 || value_type == 6 {
        4
    } else if value_type == 10 || value_type == 11 || value_type == 12 {
        8
    } else {
        0
    }
}

pub open spec fn in_domain(s: Seq<u8>, pos: int) -> bool {
    0 <= pos <= MAX_OFFSET && s.len() <= MAX_OFFSET
}

/// Stepping over one value of type `value_type` that starts at `pos`;
/// on success the position after it.
pub open spec fn spec_skip_value(s: Seq<u8>, pos: int, value_type: u32) -> Result<int, GgufError>
    decreases MAX_OFFSET - pos, 0int, 0int,
    when in_domain(s, pos)
{
    if fixed_width(value_type) > 0 {
        spec_step(pos, fixed_width(value_type))
    } else if value_type == TYPE_STRING {
        match spec_read_string(s, pos) {
            Err(e) => Err(e),
            Ok((_, p)) => Ok(p),
        }
    } else if value_type == TYPE_ARRAY {
        match spec_read_u32(s, pos) {
            Err(e) => Err(e),
            Ok((elem_type, p1)) => match spec_read_u64(s, p1) {
                Err(e) => Err(e),
                Ok((count, p2)) => spec_skip_array(s, p2, elem_type, count as nat),
            },
        }
    } else {
        Err(GgufError::UnknownValueType(value_type))
    }
}

/// Stepping over `count` consecutive values of type `elem_type`. Every value
/// occupies at least one byte, which the recursion relies on.
pub open spec fn spec_skip_array(s: Seq<u8>, pos: int, elem_type: u32, count: nat) -> Result<
    int,
    GgufError,
>
    decreases MAX_OFFSET - pos, 1int, count,
    when in_domain(s, pos)
{
    if count == 0 {
        Ok(pos)
    } else {
        match spec_skip_value(s, pos, elem_type) {
            Err(e) => Err(e),
            Ok(p) => if pos < p <= MAX_OFFSET {
                spec_skip_array(s, p, elem_type, (count - 1) as nat)
            } else {
                Err(GgufError::OffsetOverflow)
            },
        }
    }
}

/// Processing one metadata entry at `pos`: the three keys of interest are
/// taken when they carry their expected type, every other entry is stepped
/// over. On success the position after the entry and the updated state.
pub open spec fn spec_entry(s: Seq<u8>, pos: int, st: ScanState) -> Result<(int, ScanState), GgufError> {
    match spec_read_string(s, pos) {
        Err(e) => Err(e),
        Ok((key, p1)) => match spec_read_u32(s, p1) {
            Err(e) => Err(e),
            Ok((value_type, p2)) => {
                if key == "general.architecture"@ && value_type == TYPE_STRING {
                    match spec_read_string(s, p2) {
                        Err(e) => Err(e),
                        Ok((a, p3)) => Ok((p3, ScanState { architecture: Some(a), ..st })),
                    }
                } else if key == "general.file_type"@ && value_type == TYPE_UINT32 {
                    match spec_read_u32(s, p2) {
                        Err(e) => Err(e),
                        Ok((f, p3)) => Ok((p3, ScanState { file_type: Some(f), ..st })),
                    }
                } else if key == "general.parameter_count"@ && value_type == TYPE_INT64 {
                    match spec_read_u64(s, p2) {
                        Err(e) => Err(e),
                        Ok((c, p3)) => Ok((p3, ScanState { parameter_count: Some(c), ..st })),
                    }
                } else {
                    match spec_skip_value(s, p2, value_type) {
                        Err(e) => Err(e),
                        Ok(p3) => Ok((p3, st)),
                    }
                }
            },
        },
    }
}

pub open spec fn scan_done(st: ScanState) -> bool {
    st.architecture is Some && st.file_type is Some
}

/// Processing at most `remaining` entries from `pos`, stopping early once
/// both the architecture and the file type are known.
pub open spec fn spec_scan(s: Seq<u8>, pos: int, remaining: nat, st: ScanState) -> Result<
    ScanState,
    GgufError,
>
    decreases remaining,
{
    if remaining == 0 {
        Ok(st)
    } else {
        match spec_entry(s, pos, st) {
            Err(e) => Err(e),
            Ok((p, st2)) => if scan_done(st2) {
                Ok(st2)
            } else {
                spec_scan(s, p, (remaining - 1) as nat, st2)
            },
        }
    }
}

/// Display name of a llama.cpp file type code (a subset of `llama_ftype`).
pub open spec fn quant_name(file_type: u32) -> &'static str {
    if file_type == 0 {
        "F32"
    } else if file_type == 1 {
        "F16"
    } else if file_type == 2 {
        "Q4_0"
    } else if file_type == 3 {
        "Q4_1"
    } else if file_type == 7 {
        "Q8_0"
    } else if file_type == 14 {
        "Q4_K_S"
    } else if file_type == 15 {
        "Q4_K_M"
    } else if file_type == 16 {
        "Q5_K_S"
    } else if file_type == 17 {
        "Q5_K_M"
    } else if file_type == 18 {
        "Q6_K"
    } else {
        "other"
    }
}

pub open spec fn spec_finish(st: ScanState) -> Result<HeaderInfo, GgufError> {
    match st.architecture {
        None => Err(GgufError::MissingArchitecture),
        Some(a) => Ok(
            HeaderInfo {
                architecture: a,
                quantization: match st.file_type {
                    Some(f) => quant_name(f)@,
                    None => "unknown"@,
                },
                parameter_count: st.parameter_count,
            },
        ),
    }
}

pub open spec fn empty_scan() -> ScanState {
    ScanState { architecture: None, file_type: None, parameter_count: None }
}

pub open spec fn is_magic(s: Seq<u8>) -> bool {
    s[0] == 0x47u8 && s[1] == 0x47u8 && s[2] == 0x55u8 && s[3] == 0x46u8
}

/// What reading the header of the byte image `s` yields.
pub open spec fn spec_sniff(s: Seq<u8>) -> Result<HeaderInfo, GgufError> {
    if s.len() < 4 {
        Err(GgufError::UnexpectedEof)
    } else if !is_magic(s) {
        Err(GgufError::NotGguf)
    } else {
        match spec_read_u32(s, 4) {
            Err(e) => Err(e),
            Ok((version, p1)) => if !(2 <= version <= 3) {
                Err(GgufError::UnsupportedVersion(version))
            } else {
                match spec_read_u64(s, p1) {
                    Err(e) => Err(e),
                    Ok((_tensor_count, p2)) => match spec_read_u64(s, p2) {
                        Err(e) => Err(e),
                        Ok((kv_count, p3)) => match spec_scan(s, p3, kv_count as nat, empty_scan()) {
                            Err(e) => Err(e),
                            Ok(st) => spec_finish(st),
                        },
                    },
                }
            },
        }
    }
}

/// A position paired with an executable result, seen with an integer position.
pub open spec fn at_pos<T>(r: Result<(T, u64), GgufError>) -> Result<(T, int), GgufError> {
    match r {
        Ok((v, p)) => Ok((v, p as int)),
        Err(e) => Err(e),
    }
}

pub open spec fn pos_of(r: Result<u64, GgufError>) -> Result<int, GgufError> {
    match r {
        Ok(p) => Ok(p as int),
        Err(e) => Err(e),
    }
}

pub open spec fn text_at_pos(r: Result<(String, u64), GgufError>) -> Result<(Seq<char>, int), GgufError> {
    match r {
        Ok((v, p)) => Ok((v@, p as int)),
        Err(e) => Err(e),
    }
}

pub open spec fn info_view(r: Result<GgufInfo, GgufError>) -> Result<HeaderInfo, GgufError> {
    match r {
        Ok(i) => Ok(i@),
        Err(e) => Err(e),
    }
}

// ---------------------------------------------------------------------------
// Trusted items
// ---------------------------------------------------------------------------

/// `std::string::FromUtf8Error`, the error of `String::from_utf8`, carried
/// through opaquely.
#[verifier::external_type_specification]
#[verifier::external_body]
pub struct ExFromUtf8Error(FromUtf8Error);

/// `String::from_utf8`: succeeds exactly when the bytes are valid UTF-8, and
/// then holds the characters those bytes encode.
#[verifier::external_body]
fn string_from_utf8(bytes: Vec<u8>) -> (r: Result<String, FromUtf8Error>)
    ensures
        r is Ok <==> valid_utf8(bytes@),
        r matches Ok(s) ==> s@ == decode_utf8(bytes@),
{
    String::from_utf8(bytes)
}

// ---------------------------------------------------------------------------
// Implementation
// ---------------------------------------------------------------------------

/// Reads a little-endian `u32` at `pos`.
pub fn read_u32(data: &[u8], pos: u64) -> (r: Result<(u32, u64), GgufError>)
    ensures
        at_pos(r) == spec_read_u32(data@, pos as int),
{
    let len: u64 = data.len() as u64;
    if pos > len || len - pos < 4 {
        return Err(GgufError::UnexpectedEof);
    }
    let i: usize = pos as usize;
    let v: u32 = (data[i] as u32) | (data[i + 1] as u32) << 8 | (data[i + 2] as u32) << 16 | (data[i
        + 3] as u32) << 24;
    Ok((v, pos + 4))
}

/// Reads a little-endian `u64` at `pos`.
pub fn read_u64(data: &[u8], pos: u64) -> (r: Result<(u64, u64), GgufError>)
    ensures
        at_pos(r) == spec_read_u64(data@, pos as int),
{
    let len: u64 = data.len() as u64;
    if pos > len || len - pos < 8 {
        return Err(GgufError::UnexpectedEof);
    }
    let i: usize = pos as usize;
    let v: u64 = (data[i] as u64) | (data[i + 1] as u64) << 8 | (data[i + 2] as u64) << 16 | (data[i
        + 3] as u64) << 24 | (data[i + 4] as u64) << 32 | (data[i + 5] as u64) << 40 | (data[i
        + 6] as u64) << 48 | (data[i + 7] as u64) << 56;
    Ok((v, pos + 8))
}

/// Reads a length-prefixed UTF-8 string at `pos`.
pub fn read_string(data: &[u8], pos: u64) -> (r: Result<(String, u64), GgufError>)
    ensures
        text_at_pos(r) == spec_read_string(data@, pos as int),
{
    let (len, p) = read_u64(data, pos)?;
    if len > MAX_STRING_LEN {
        return Err(GgufError::StringTooLong(len));
    }
    let total: u64 = data.len() as u64;
    if p > total || total - p < len {
        return Err(GgufError::UnexpectedEof);
    }
    let start: usize = p as usize;
    let end: usize = (p + len) as usize;
    let bytes = vstd::slice::slice_to_vec(vstd::slice::slice_subrange(data, start, end));
    match string_from_utf8(bytes) {
        Ok(s) => Ok((s, p + len)),
        Err(_) => Err(GgufError::InvalidUtf8),
    }
}

/// Steps `n` bytes forward from `pos`.
fn step(pos: u64, n: u64) -> (r: Result<u64, GgufError>)
    requires
        pos <= MAX_OFFSET,
        n <= 8,
    ensures
        pos_of(r) == spec_step(pos as int, n as int),
{
    if MAX_OFFSET - pos < n {
        Err(GgufError::OffsetOverflow)
    } else {
        Ok(pos + n)
    }
}

/// Every value skipped moves the position forward and stays within
/// `MAX_OFFSET`.
pub proof fn lemma_skip_progress(s: Seq<u8>, pos: int, value_type: u32)
    requires
        in_domain(s, pos),
    ensures
        spec_skip_value(s, pos, value_type) matches Ok(p) ==> pos < p <= MAX_OFFSET,
    decreases MAX_OFFSET - pos, 0int, 0int,
{
    if fixed_width(value_type) == 0 && value_type == TYPE_ARRAY {
        if let Ok((elem_type, p1)) = spec_read_u32(s, pos) {
            if let Ok((count, p2)) = spec_read_u64(s, p1) {
                lemma_skip_array_progress(s, p2, elem_type, count as nat);
            }
        }
    }
}

pub proof fn lemma_skip_array_progress(s: Seq<u8>, pos: int, elem_type: u32, count: nat)
    requires
        in_domain(s, pos),
    ensures
        spec_skip_array(s, pos, elem_type, count) matches Ok(p) ==> pos <= p <= MAX_OFFSET,
    decreases MAX_OFFSET - pos, 1int, count,
{
    if count > 0 {
        lemma_skip_progress(s, pos, elem_type);
        if let Ok(p) = spec_skip_value(s, pos, elem_type) {
            lemma_skip_array_progress(s, p, elem_type, (count - 1) as nat);
        }
    }
}

/// Steps over one value of type `value_type` starting at `pos`, returning
/// the position after it.
pub fn skip_value(data: &[u8], pos: u64, value_type: u32) -> (r: Result<u64, GgufError>)
    requires
        pos <= MAX_OFFSET,
        data@.len() <= MAX_OFFSET,
    ensures
        pos_of(r) == spec_skip_value(data@, pos as int, value_type),
    decreases MAX_OFFSET - pos,
{
    match value_type {
        0 | 1 | 7 => step(pos, 1),
        2 | 3 => step(pos, 2),
        4 | 5 | 6 => step(pos, 4),
        10 | 11 | 12 => step(pos, 8),
        8 => {
            let (_, p) = read_string(data, pos)?;
            Ok(p)
        },
        9 => {
            let (elem_type, p1) = read_u32(data, pos)?;
            let (count, p2) = read_u64(data, p1)?;
            let mut p = p2;
            let mut i: u64 = 0;
            while i < count
                invariant
                    data@.len() <= MAX_OFFSET,
                    pos < p <= MAX_OFFSET,
                    i <= count,
                    spec_skip_array(data@, p as int, elem_type, (count - i) as nat)
                        == spec_skip_value(data@, pos as int, value_type),
                decreases count - i,
            {
                let next = skip_value(data, p, elem_type)?;
                proof {
                    lemma_skip_progress(data@, p as int, elem_type);
                }
                p = next;
                i += 1;
            }
            Ok(p)
        },
        _ => Err(GgufError::UnknownValueType(value_type)),
    }
}

/// Display name of a llama.cpp file type code.
pub fn quant_str(file_type: u32) -> (r: &'static str)
    ensures
        r == quant_name(file_type),
{
    match file_type {
        0 => "F32",
        1 => "F16",
        2 => "Q4_0",
        3 => "Q4_1",
        7 => "Q8_0",
        14 => "Q4_K_S",
        15 => "Q4_K_M",
        16 => "Q5_K_S",
        17 => "Q5_K_M",
        18 => "Q6_K",
        _ => "other",
    }
}

/// Display name of a llama.cpp file type code, as an owned string.
pub fn quant_label(file_type: u32) -> (r: String)
    ensures
        r@ == quant_name(file_type)@,
{
    quant_str(file_type).to_owned()
}

pub open spec fn opt_text(o: Option<String>) -> Option<Seq<char>> {
    match o {
        Some(s) => Some(s@),
        None => None,
    }
}

fn finish(architecture: Option<String>, file_type: Option<u32>, parameter_count: Option<u64>) -> (r:
    Result<GgufInfo, GgufError>)
    ensures
        info_view(r) == spec_finish(
            ScanState { architecture: opt_text(architecture), file_type, parameter_count },
        ),
{
    match architecture {
        None => Err(GgufError::MissingArchitecture),
        Some(a) => {
            let quantization = match file_type {
                Some(f) => quant_label(f),
                None => "unknown".to_owned(),
            };
            Ok(GgufInfo { architecture: a, quantization, parameter_count })
        },
    }
}

/// Reads the header of the byte image `data` of a GGUF file.
pub fn sniff_bytes(data: &[u8]) -> (r: Result<GgufInfo, GgufError>)
    requires
        data@.len() <= MAX_OFFSET,
    ensures
        info_view(r) == spec_sniff(data@),
{
    if data.len() < 4 {
        return Err(GgufError::UnexpectedEof);
    }
    if !(data[0] == 0x47 && data[1] == 0x47 && data[2] == 0x55 && data[3] == 0x46) {
        return Err(GgufError::NotGguf);
    }
    let (version, p1) = read_u32(data, 4)?;
    if !(2 <= version && version <= 3) {
        return Err(GgufError::UnsupportedVersion(version));
    }
    let (_tensor_count, p2) = read_u64(data, p1)?;
    let (kv_count, p3) = read_u64(data, p2)?;

    let ghost s = data@;
    let ghost target = spec_scan(s, p3 as int, kv_count as nat, empty_scan());
    assert(spec_sniff(s) == match target {
        Err(e) => Err(e),
        Ok(st) => spec_finish(st),
    });
    let mut architecture: Option<String> = None;
    let mut file_type: Option<u32> = None;
    let mut parameter_count: Option<u64> = None;
    let mut pos = p3;
    let mut i: u64 = 0;
    while i < kv_count
        invariant
            s == data@,
            s.len() <= MAX_OFFSET,
            pos <= MAX_OFFSET,
            i <= kv_count,
            spec_scan(
                s,
                pos as int,
                (kv_count - i) as nat,
                ScanState { architecture: opt_text(architecture), file_type, parameter_count },
            ) == target,
            spec_sniff(s) == match target {
                Err(e) => Err(e),
                Ok(st) => spec_finish(st),
            },
        decreases kv_count - i,
    {
        let (p, a, f, c) = read_entry(data, pos, architecture, file_type, parameter_count)?;
        architecture = a;
        file_type = f;
        parameter_count = c;
        pos = p;
        if architecture.is_some() && file_type.is_some() {
            return finish(architecture, file_type, parameter_count);
        }
        i += 1;
    }
    finish(architecture, file_type, parameter_count)
}

pub open spec fn entry_view(r: Result<(u64, Option<String>, Option<u32>, Option<u64>), GgufError>) -> Result<
    (int, ScanState),
    GgufError,
> {
    match r {
        Ok((p, a, f, c)) => Ok(
            (p as int, ScanState { architecture: opt_text(a), file_type: f, parameter_count: c }),
        ),
        Err(e) => Err(e),
    }
}

/// Processes one metadata entry at `pos`, updating what was collected so far.
fn read_entry(
    data: &[u8],
    pos: u64,
    architecture: Option<String>,
    file_type: Option<u32>,
    parameter_count: Option<u64>,
) -> (r: Result<(u64, Option<String>, Option<u32>, Option<u64>), GgufError>)
    requires
        data@.len() <= MAX_OFFSET,
        pos <= MAX_OFFSET,
    ensures
        entry_view(r) == spec_entry(
            data@,
            pos as int,
            ScanState { architecture: opt_text(architecture), file_type, parameter_count },
        ),
        r matches Ok((p, _, _, _)) ==> p <= MAX_OFFSET,
{
    let (key, p_key) = read_string(data, pos)?;
    let (value_type, p_type) = read_u32(data, p_key)?;
    if str_eq(key.as_str(), "general.architecture") && value_type == TYPE_STRING {
        let (a, p) = read_string(data, p_type)?;
        Ok((p, Some(a), file_type, parameter_count))
    } else if str_eq(key.as_str(), "general.file_type") && value_type == TYPE_UINT32 {
        let (f, p) = read_u32(data, p_type)?;
        Ok((p, architecture, Some(f), parameter_count))
    } else if str_eq(key.as_str(), "general.parameter_count") && value_type == TYPE_INT64 {
        let (c, p) = read_u64(data, p_type)?;
        Ok((p, architecture, file_type, Some(c)))
    } else {
        let p = skip_value(data, p_type, value_type)?;
        proof {
            lemma_skip_progress(data@, p_type as int, value_type);
        }
        Ok((p, architecture, file_type, parameter_count))
    }
}

// ---------------------------------------------------------------------------
// Laws
// ---------------------------------------------------------------------------

/// A result that more bytes at the end of the image could not change: every
/// outcome except running out of data.
pub open spec fn settled<T>(r: Result<T, GgufError>) -> bool {
    !(r matches Err(GgufError::UnexpectedEof))
}

proof fn lemma_read_u32_extend(s: Seq<u8>, t: Seq<u8>, pos: int)
    requires
        settled(spec_read_u32(s, pos)),
    ensures
        spec_read_u32(s + t, pos) == spec_read_u32(s, pos),
{
}

proof fn lemma_read_u64_extend(s: Seq<u8>, t: Seq<u8>, pos: int)
    requires
        settled(spec_read_u64(s, pos)),
    ensures
        spec_read_u64(s + t, pos) == spec_read_u64(s, pos),
{
}

proof fn lemma_read_string_extend(s: Seq<u8>, t: Seq<u8>, pos: int)
    requires
        settled(spec_read_string(s, pos)),
    ensures
        spec_read_string(s + t, pos) == spec_read_string(s, pos),
{
    lemma_read_u64_extend(s, t, pos);
    if let Ok((len, p)) = spec_read_u64(s, pos) {
        if len <= MAX_STRING_LEN && p + len <= s.len() {
            assert((s + t).subrange(p, p + len) =~= s.subrange(p, p + len));
        }
    }
}

proof fn lemma_skip_value_extend(s: Seq<u8>, t: Seq<u8>, pos: int, value_type: u32)
    requires
        in_domain(s + t, pos),
        settled(spec_skip_value(s, pos, value_type)),
    ensures
        spec_skip_value(s + t, pos, value_type) == spec_skip_value(s, pos, value_type),
    decreases MAX_OFFSET - pos, 0int, 0int,
{
    if fixed_width(value_type) == 0 {
        if value_type == TYPE_STRING {
            lemma_read_string_extend(s, t, pos);
        } else if value_type == TYPE_ARRAY {
            lemma_read_u32_extend(s, t, pos);
            if let Ok((elem_type, p1)) = spec_read_u32(s, pos) {
                lemma_read_u64_extend(s, t, p1);
                if let Ok((count, p2)) = spec_read_u64(s, p1) {
                    lemma_skip_array_extend(s, t, p2, elem_type, count as nat);
                }
            }
        }
    }
}

proof fn lemma_skip_array_extend(s: Seq<u8>, t: Seq<u8>, pos: int, elem_type: u32, count: nat)
    requires
        in_domain(s + t, pos),
        settled(spec_skip_array(s, pos, elem_type, count)),
    ensures
        spec_skip_array(s + t, pos, elem_type, count) == spec_skip_array(s, pos, elem_type, count),
    decreases MAX_OFFSET - pos, 1int, count,
{
    if count > 0 {
        lemma_skip_value_extend(s, t, pos, elem_type);
        if let Ok(p) = spec_skip_value(s, pos, elem_type) {
            if pos < p <= MAX_OFFSET {
                lemma_skip_array_extend(s, t, p, elem_type, (count - 1) as nat);
            }
        }
    }
}

proof fn lemma_entry_extend(s: Seq<u8>, t: Seq<u8>, pos: int, st: ScanState)
    requires
        (s + t).len() <= MAX_OFFSET,
        settled(spec_entry(s, pos, st)),
    ensures
        spec_entry(s + t, pos, st) == spec_entry(s, pos, st),
{
    lemma_read_string_extend(s, t, pos);
    if let Ok((key, p1)) = spec_read_string(s, pos) {
        lemma_read_u32_extend(s, t, p1);
        if let Ok((value_type, p2)) = spec_read_u32(s, p1) {
            if key == "general.architecture"@ && value_type == TYPE_STRING {
                lemma_read_string_extend(s, t, p2);
            } else if key == "general.file_type"@ && value_type == TYPE_UINT32 {
                lemma_read_u32_extend(s, t, p2);
            } else if key == "general.parameter_count"@ && value_type == TYPE_INT64 {
                lemma_read_u64_extend(s, t, p2);
            } else {
                lemma_skip_value_extend(s, t, p2, value_type);
            }
        }
    }
}

proof fn lemma_scan_extend(s: Seq<u8>, t: Seq<u8>, pos: int, remaining: nat, st: ScanState)
    requires
        (s + t).len() <= MAX_OFFSET,
        settled(spec_scan(s, pos, remaining, st)),
    ensures
        spec_scan(s + t, pos, remaining, st) == spec_scan(s, pos, remaining, st),
    decreases remaining,
{
    if remaining > 0 {
        lemma_entry_extend(s, t, pos, st);
        if let Ok((p, st2)) = spec_entry(s, pos, st) {
            if !scan_done(st2) {
                lemma_scan_extend(s, t, p, (remaining - 1) as nat, st2);
            }
        }
    }
}

/// Reading a header only ever depends on the bytes it has read: whatever the
/// result on a prefix of a file, unless that prefix ran out of bytes, the
/// whole file (any bytes appended to the prefix) gives the same result.
pub proof fn law_sniff_prefix_stable(s: Seq<u8>, t: Seq<u8>)
    requires
        (s + t).len() <= MAX_OFFSET,
        settled(spec_sniff(s)),
    ensures
        spec_sniff(s + t) == spec_sniff(s),
{
    if s.len() >= 4 {
        assert((s + t)[0] == s[0] && (s + t)[1] == s[1] && (s + t)[2] == s[2] && (s + t)[3] == s[3]);
        if is_magic(s) {
            lemma_read_u32_extend(s, t, 4);
            if let Ok((version, p1)) = spec_read_u32(s, 4) {
                if 2 <= version <= 3 {
                    lemma_read_u64_extend(s, t, p1);
                    if let Ok((_tc, p2)) = spec_read_u64(s, p1) {
                        lemma_read_u64_extend(s, t, p2);
                        if let Ok((kv_count, p3)) = spec_read_u64(s, p2) {
                            lemma_scan_extend(s, t, p3, kv_count as nat, empty_scan());
                        }
                    }
                }
            }
        }
    }
}

/// Little-endian encoding of a `u32`.
pub open spec fn encode_u32(x: u32) -> Seq<u8> {
    seq![x as u8, (x >> 8) as u8, (x >> 16) as u8, (x >> 24) as u8]
}

/// Little-endian encoding of a `u64`.
pub open spec fn encode_u64(x: u64) -> Seq<u8> {
    seq![
        x as u8,
        (x >> 8) as u8,
        (x >> 16) as u8,
        (x >> 24) as u8,
        (x >> 32) as u8,
        (x >> 40) as u8,
        (x >> 48) as u8,
        (x >> 56) as u8,
    ]
}

/// Length-prefixed UTF-8 encoding of a string.
pub open spec fn encode_string(text: Seq<char>) -> Seq<u8> {
    encode_u64(vstd::utf8::encode_utf8(text).len() as u64) + vstd::utf8::encode_utf8(text)
}

pub open spec fn gguf_magic() -> Seq<u8> {
    seq![0x47u8, 0x47u8, 0x55u8, 0x46u8]
}

/// The fixed start of a header: magic, version, tensor count, entry count.
pub open spec fn header_start(version: u32, tensor_count: u64, entry_count: u64) -> Seq<u8> {
    gguf_magic() + encode_u32(version) + encode_u64(tensor_count) + encode_u64(entry_count)
}

/// A metadata entry holding a string.
pub open spec fn string_entry(key: Seq<char>, value: Seq<char>) -> Seq<u8> {
    encode_string(key) + encode_u32(TYPE_STRING) + encode_string(value)
}

/// A metadata entry holding a `u32`.
pub open spec fn u32_entry(key: Seq<char>, value: u32) -> Seq<u8> {
    encode_string(key) + encode_u32(TYPE_UINT32) + encode_u32(value)
}

/// The smallest header that names an architecture and a file type: two
/// entries, `general.architecture` then `general.file_type`.
pub open spec fn minimal_header(version: u32, tensor_count: u64, architecture: Seq<char>, file_type: u32) -> Seq<u8> {
    header_start(version, tensor_count, 2) + string_entry("general.architecture"@, architecture)
        + u32_entry("general.file_type"@, file_type)
}

proof fn lemma_concat3(x: Seq<u8>, y: Seq<u8>, z: Seq<u8>)
    ensures
        (x + y + z).len() == x.len() + y.len() + z.len(),
        (x + y + z).subrange(0, x.len() as int) == x,
        (x + y + z).subrange(x.len() as int, (x.len() + y.len()) as int) == y,
        (x + y + z).subrange((x.len() + y.len()) as int, (x.len() + y.len() + z.len()) as int) == z,
{
    assert((x + y + z).subrange(0, x.len() as int) =~= x);
    assert((x + y + z).subrange(x.len() as int, (x.len() + y.len()) as int) =~= y);
    assert((x + y + z).subrange((x.len() + y.len()) as int, (x.len() + y.len() + z.len()) as int) =~= z);
}

proof fn lemma_decode_u32(x: u32)
    ensures
        ((x as u8) as u32) | (((x >> 8) as u8) as u32) << 8 | (((x >> 16) as u8) as u32) << 16 | (((x
            >> 24) as u8) as u32) << 24 == x,
{
    assert(((x as u8) as u32) | (((x >> 8) as u8) as u32) << 8 | (((x >> 16) as u8) as u32) << 16 | (((x
        >> 24) as u8) as u32) << 24 == x) by (bit_vector);
}

proof fn lemma_decode_u64(x: u64)
    ensures
        ((x as u8) as u64) | (((x >> 8) as u8) as u64) << 8 | (((x >> 16) as u8) as u64) << 16 | (((x
            >> 24) as u8) as u64) << 24 | (((x >> 32) as u8) as u64) << 32 | (((x >> 40) as u8) as u64)
            << 40 | (((x >> 48) as u8) as u64) << 48 | (((x >> 56) as u8) as u64) << 56 == x,
{
    assert(((x as u8) as u64) | (((x >> 8) as u8) as u64) << 8 | (((x >> 16) as u8) as u64) << 16 | (((x
        >> 24) as u8) as u64) << 24 | (((x >> 32) as u8) as u64) << 32 | (((x >> 40) as u8) as u64)
        << 40 | (((x >> 48) as u8) as u64) << 48 | (((x >> 56) as u8) as u64) << 56 == x) by (bit_vector);
}

proof fn lemma_read_encoded_u32(s: Seq<u8>, pos: int, x: u32)
    requires
        0 <= pos,
        pos + 4 <= s.len(),
        s.subrange(pos, pos + 4) == encode_u32(x),
    ensures
        spec_read_u32(s, pos) == Ok::<(u32, int), GgufError>((x, pos + 4)),
{
    assert(s[pos] == s.subrange(pos, pos + 4)[0]);
    assert(s[pos + 1] == s.subrange(pos, pos + 4)[1]);
    assert(s[pos + 2] == s.subrange(pos, pos + 4)[2]);
    assert(s[pos + 3] == s.subrange(pos, pos + 4)[3]);
    lemma_decode_u32(x);
}

proof fn lemma_read_encoded_u64(s: Seq<u8>, pos: int, x: u64)
    requires
        0 <= pos,
        pos + 8 <= s.len(),
        s.subrange(pos, pos + 8) == encode_u64(x),
    ensures
        spec_read_u64(s, pos) == Ok::<(u64, int), GgufError>((x, pos + 8)),
{
    let e = s.subrange(pos, pos + 8);
    assert(s[pos] == e[0] && s[pos + 1] == e[1] && s[pos + 2] == e[2] && s[pos + 3] == e[3]);
    assert(s[pos + 4] == e[4] && s[pos + 5] == e[5] && s[pos + 6] == e[6] && s[pos + 7] == e[7]);
    lemma_decode_u64(x);
}

proof fn lemma_subrange_of_subrange(s: Seq<u8>, a: int, b: int, c: int, d: int)
    requires
        0 <= a <= b <= s.len(),
        0 <= c <= d <= b - a,
    ensures
        s.subrange(a, b).subrange(c, d) == s.subrange(a + c, a + d),
{
    assert(s.subrange(a, b).subrange(c, d) =~= s.subrange(a + c, a + d));
}

proof fn lemma_read_encoded_string(s: Seq<u8>, pos: int, text: Seq<char>)
    requires
        0 <= pos,
        vstd::utf8::encode_utf8(text).len() <= MAX_STRING_LEN,
        pos + encode_string(text).len() <= s.len(),
        s.subrange(pos, pos + encode_string(text).len()) == encode_string(text),
    ensures
        spec_read_string(s, pos) == Ok::<(Seq<char>, int), GgufError>(
            (text, pos + encode_string(text).len()),
        ),
{
    let bytes = vstd::utf8::encode_utf8(text);
    let n: int = bytes.len() as int;
    let e = encode_string(text);
    assert(e.len() == 8 + n);
    lemma_subrange_of_subrange(s, pos, pos + 8 + n, 0, 8);
    assert(e.subrange(0, 8) =~= encode_u64(n as u64));
    lemma_read_encoded_u64(s, pos, n as u64);
    assert(e.len() == 8 + n);
    lemma_subrange_of_subrange(s, pos, pos + e.len(), 8, 8 + n);
    assert(e.subrange(8, 8 + n) =~= bytes);
    vstd::utf8::encode_utf8_valid_utf8(text);
    vstd::utf8::encode_utf8_decode_utf8(text);
}

proof fn lemma_key_lengths()
    ensures
        vstd::utf8::encode_utf8("general.architecture"@).len() == 20,
        vstd::utf8::encode_utf8("general.file_type"@).len() == 17,
        "general.architecture"@ != "general.file_type"@,
{
    reveal_strlit("general.architecture");
    reveal_strlit("general.file_type");
    assert(vstd::utf8::is_ascii_chars("general.architecture"@));
    assert(vstd::utf8::is_ascii_chars("general.file_type"@));
    vstd::utf8::is_ascii_chars_encode_utf8("general.architecture"@);
    vstd::utf8::is_ascii_chars_encode_utf8("general.file_type"@);
}

proof fn lemma_read_string_entry(s: Seq<u8>, pos: int, key: Seq<char>, value: Seq<char>)
    requires
        0 <= pos,
        vstd::utf8::encode_utf8(key).len() <= MAX_STRING_LEN,
        vstd::utf8::encode_utf8(value).len() <= MAX_STRING_LEN,
        pos + string_entry(key, value).len() <= s.len(),
        s.subrange(pos, pos + string_entry(key, value).len()) == string_entry(key, value),
    ensures
        ({
            let k = encode_string(key).len() as int;
            &&& spec_read_string(s, pos) == Ok::<(Seq<char>, int), GgufError>((key, pos + k))
            &&& spec_read_u32(s, pos + k) == Ok::<(u32, int), GgufError>((TYPE_STRING, pos + k + 4))
            &&& spec_read_string(s, pos + k + 4) == Ok::<(Seq<char>, int), GgufError>(
                (value, pos + string_entry(key, value).len()),
            )
        }),
{
    let x = encode_string(key);
    let y = encode_u32(TYPE_STRING);
    let z = encode_string(value);
    let e = string_entry(key, value);
    lemma_concat3(x, y, z);
    let k = x.len() as int;
    lemma_subrange_of_subrange(s, pos, pos + e.len(), 0, k);
    lemma_read_encoded_string(s, pos, key);
    lemma_subrange_of_subrange(s, pos, pos + e.len(), k, k + 4);
    lemma_read_encoded_u32(s, pos + k, TYPE_STRING);
    lemma_subrange_of_subrange(s, pos, pos + e.len(), k + 4, e.len() as int);
    lemma_read_encoded_string(s, pos + k + 4, value);
}

proof fn lemma_read_u32_entry(s: Seq<u8>, pos: int, key: Seq<char>, value: u32)
    requires
        0 <= pos,
        vstd::utf8::encode_utf8(key).len() <= MAX_STRING_LEN,
        pos + u32_entry(key, value).len() <= s.len(),
        s.subrange(pos, pos + u32_entry(key, value).len()) == u32_entry(key, value),
    ensures
        ({
            let k = encode_string(key).len() as int;
            &&& spec_read_string(s, pos) == Ok::<(Seq<char>, int), GgufError>((key, pos + k))
            &&& spec_read_u32(s, pos + k) == Ok::<(u32, int), GgufError>((TYPE_UINT32, pos + k + 4))
            &&& spec_read_u32(s, pos + k + 4) == Ok::<(u32, int), GgufError>(
                (value, pos + u32_entry(key, value).len()),
            )
        }),
{
    let x = encode_string(key);
    let y = encode_u32(TYPE_UINT32);
    let z = encode_u32(value);
    let e = u32_entry(key, value);
    lemma_concat3(x, y, z);
    let k = x.len() as int;
    lemma_subrange_of_subrange(s, pos, pos + e.len(), 0, k);
    lemma_read_encoded_string(s, pos, key);
    lemma_subrange_of_subrange(s, pos, pos + e.len(), k, k + 4);
    lemma_read_encoded_u32(s, pos + k, TYPE_UINT32);
    lemma_subrange_of_subrange(s, pos, pos + e.len(), k + 4, e.len() as int);
    lemma_read_encoded_u32(s, pos + k + 4, value);
}

proof fn lemma_read_header_start(s: Seq<u8>, version: u32, tensor_count: u64, entry_count: u64)
    requires
        24 <= s.len(),
        s.subrange(0, 24) == header_start(version, tensor_count, entry_count),
    ensures
        is_magic(s),
        spec_read_u32(s, 4) == Ok::<(u32, int), GgufError>((version, 8)),
        spec_read_u64(s, 8) == Ok::<(u64, int), GgufError>((tensor_count, 16)),
        spec_read_u64(s, 16) == Ok::<(u64, int), GgufError>((entry_count, 24)),
{
    let h = header_start(version, tensor_count, entry_count);
    assert(s[0] == h[0] && s[1] == h[1] && s[2] == h[2] && s[3] == h[3]);
    assert(h.subrange(4, 8) =~= encode_u32(version));
    lemma_subrange_of_subrange(s, 0, 24, 4, 8);
    lemma_read_encoded_u32(s, 4, version);
    assert(h.subrange(8, 16) =~= encode_u64(tensor_count));
    lemma_subrange_of_subrange(s, 0, 24, 8, 16);
    lemma_read_encoded_u64(s, 8, tensor_count);
    assert(h.subrange(16, 24) =~= encode_u64(entry_count));
    lemma_subrange_of_subrange(s, 0, 24, 16, 24);
    lemma_read_encoded_u64(s, 16, entry_count);
}

proof fn lemma_entry_architecture(s: Seq<u8>, pos: int, p1: int, p2: int, p3: int, value: Seq<char>, st: ScanState)
    requires
        spec_read_string(s, pos) == Ok::<(Seq<char>, int), GgufError>(("general.architecture"@, p1)),
        spec_read_u32(s, p1) == Ok::<(u32, int), GgufError>((TYPE_STRING, p2)),
        spec_read_string(s, p2) == Ok::<(Seq<char>, int), GgufError>((value, p3)),
    ensures
        spec_entry(s, pos, st) == Ok::<(int, ScanState), GgufError>(
            (p3, ScanState { architecture: Some(value), ..st }),
        ),
{
}

proof fn lemma_entry_file_type(s: Seq<u8>, pos: int, p1: int, p2: int, p3: int, value: u32, st: ScanState)
    requires
        "general.architecture"@ != "general.file_type"@,
        spec_read_string(s, pos) == Ok::<(Seq<char>, int), GgufError>(("general.file_type"@, p1)),
        spec_read_u32(s, p1) == Ok::<(u32, int), GgufError>((TYPE_UINT32, p2)),
        spec_read_u32(s, p2) == Ok::<(u32, int), GgufError>((value, p3)),
    ensures
        spec_entry(s, pos, st) == Ok::<(int, ScanState), GgufError>(
            (p3, ScanState { file_type: Some(value), ..st }),
        ),
{
}

proof fn lemma_two_entry_scan(s: Seq<u8>, p0: int, p1: int, p2: int, st1: ScanState, st2: ScanState)
    requires
        spec_entry(s, p0, empty_scan()) == Ok::<(int, ScanState), GgufError>((p1, st1)),
        !scan_done(st1),
        spec_entry(s, p1, st1) == Ok::<(int, ScanState), GgufError>((p2, st2)),
        scan_done(st2),
    ensures
        spec_scan(s, p0, 2, empty_scan()) == Ok::<ScanState, GgufError>(st2),
{
    reveal_with_fuel(spec_scan, 2);
}

#[verifier::rlimit(40)]
proof fn lemma_minimal_header_sniff(version: u32, tensor_count: u64, architecture: Seq<char>, file_type: u32)
    requires
        2 <= version <= 3,
        vstd::utf8::encode_utf8(architecture).len() <= MAX_STRING_LEN,
    ensures
        spec_sniff(minimal_header(version, tensor_count, architecture, file_type)) == Ok::<
            HeaderInfo,
            GgufError,
        >(
            HeaderInfo {
                architecture,
                quantization: quant_name(file_type)@,
                parameter_count: None,
            },
        ),
{
    let h = minimal_header(version, tensor_count, architecture, file_type);
    lemma_key_lengths();
    let x = header_start(version, tensor_count, 2);
    let y = string_entry("general.architecture"@, architecture);
    let z = u32_entry("general.file_type"@, file_type);
    lemma_concat3(x, y, z);
    assert(x.len() == 24);
    lemma_read_header_start(h, version, tensor_count, 2);
    lemma_read_string_entry(h, 24, "general.architecture"@, architecture);
    let p: int = 24 + y.len() as int;
    lemma_read_u32_entry(h, p, "general.file_type"@, file_type);
    let k1 = encode_string("general.architecture"@).len() as int;
    let k2 = encode_string("general.file_type"@).len() as int;
    let st1 = ScanState { architecture: Some(architecture), file_type: None, parameter_count: None };
    lemma_entry_architecture(h, 24, 24 + k1, 28 + k1, p, architecture, empty_scan());
    let st2 = ScanState {
        architecture: Some(architecture),
        file_type: Some(file_type),
        parameter_count: None,
    };
    lemma_entry_file_type(h, p, p + k2, p + k2 + 4, p + z.len(), file_type, st1);
    lemma_two_entry_scan(h, 24, p, p + z.len(), st1, st2);
    assert(spec_sniff(h) == spec_finish(st2));
}

/// Reading back what was written: a file that starts with the minimal
/// header for an architecture and a file type (whatever follows it) reads as
/// that architecture, the display name of that file type, and no parameter
/// count.
pub proof fn law_sniff_reads_minimal_header(
    version: u32,
    tensor_count: u64,
    architecture: Seq<char>,
    file_type: u32,
    rest: Seq<u8>,
)
    requires
        2 <= version <= 3,
        vstd::utf8::encode_utf8(architecture).len() <= MAX_STRING_LEN,
        (minimal_header(version, tensor_count, architecture, file_type) + rest).len() <= MAX_OFFSET,
    ensures
        spec_sniff(minimal_header(version, tensor_count, architecture, file_type) + rest) == Ok::<
            HeaderInfo,
            GgufError,
        >(
            HeaderInfo {
                architecture,
                quantization: quant_name(file_type)@,
                parameter_count: None,
            },
        ),
{
    let h = minimal_header(version, tensor_count, architecture, file_type);
    lemma_minimal_header_sniff(version, tensor_count, architecture, file_type);
    law_sniff_prefix_stable(h, rest);
}

/// The file type codes that have a label of their own.
pub open spec fn labelled_file_type(file_type: u32) -> bool {
    file_type == 0 || file_type == 1 || file_type == 2 || file_type == 3 || file_type == 7 || (14
        <= file_type && file_type <= 18)
}

/// Quantization labels follow llama.cpp's file type codes: each label names
/// exactly one code (F32 is 0, F16 is 1, Q4_0 is 2, Q4_1 is 3, Q8_0 is 7,
/// Q4_K_S to Q6_K are 14 to 18), and every other code reads as `other`.
pub proof fn law_quant_label_names_one_code(file_type: u32)
    ensures
        quant_name(file_type)@ == "other"@ <==> !labelled_file_type(file_type),
        quant_name(file_type)@ == "F32"@ <==> file_type == 0,
        quant_name(file_type)@ == "F16"@ <==> file_type == 1,
        quant_name(file_type)@ == "Q4_0"@ <==> file_type == 2,
        quant_name(file_type)@ == "Q4_1"@ <==> file_type == 3,
        quant_name(file_type)@ == "Q8_0"@ <==> file_type == 7,
        quant_name(file_type)@ == "Q4_K_S"@ <==> file_type == 14,
        quant_name(file_type)@ == "Q4_K_M"@ <==> file_type == 15,
        quant_name(file_type)@ == "Q5_K_S"@ <==> file_type == 16,
        quant_name(file_type)@ == "Q5_K_M"@ <==> file_type == 17,
        quant_name(file_type)@ == "Q6_K"@ <==> file_type == 18,
{
    reveal_strlit("other");
    reveal_strlit("F32");
    reveal_strlit("F16");
    reveal_strlit("Q4_0");
    reveal_strlit("Q4_1");
    reveal_strlit("Q8_0");
    reveal_strlit("Q4_K_S");
    reveal_strlit("Q4_K_M");
    reveal_strlit("Q5_K_S");
    reveal_strlit("Q5_K_M");
    reveal_strlit("Q6_K");
    assert("other"@.len() == 5);
    assert("F32"@.len() == 3);
    assert("F16"@.len() == 3);
    assert("Q4_0"@.len() == 4);
    assert("Q4_1"@.len() == 4);
    assert("Q8_0"@.len() == 4);
    assert("Q4_K_S"@.len() == 6);
    assert("Q4_K_M"@.len() == 6);
    assert("Q5_K_S"@.len() == 6);
    assert("Q5_K_M"@.len() == 6);
    assert("Q6_K"@.len() == 4);
    assert("F32"@ != "F16"@) by {
        assert("F32"@[1] != "F16"@[1]);
    }
    assert("Q4_0"@ != "Q4_1"@) by {
        assert("Q4_0"@[3] != "Q4_1"@[3]);
    }
    assert("Q4_0"@ != "Q8_0"@) by {
        assert("Q4_0"@[1] != "Q8_0"@[1]);
    }
    assert("Q4_0"@ != "Q6_K"@) by {
        assert("Q4_0"@[1] != "Q6_K"@[1]);
    }
    assert("Q4_1"@ != "Q8_0"@) by {
        assert("Q4_1"@[1] != "Q8_0"@[1]);
    }
    assert("Q4_1"@ != "Q6_K"@) by {
        assert("Q4_1"@[1] != "Q6_K"@[1]);
    }
    assert("Q8_0"@ != "Q6_K"@) by {
        assert("Q8_0"@[1] != "Q6_K"@[1]);
    }
    assert("Q4_K_S"@ != "Q4_K_M"@) by {
        assert("Q4_K_S"@[5] != "Q4_K_M"@[5]);
    }
    assert("Q4_K_S"@ != "Q5_K_S"@) by {
        assert("Q4_K_S"@[1] != "Q5_K_S"@[1]);
    }
    assert("Q4_K_S"@ != "Q5_K_M"@) by {
        assert("Q4_K_S"@[1] != "Q5_K_M"@[1]);
    }
    assert("Q4_K_M"@ != "Q5_K_S"@) by {
        assert("Q4_K_M"@[1] != "Q5_K_S"@[1]);
    }
    assert("Q4_K_M"@ != "Q5_K_M"@) by {
        assert("Q4_K_M"@[1] != "Q5_K_M"@[1]);
    }
    assert("Q5_K_S"@ != "Q5_K_M"@) by {
        assert("Q5_K_S"@[5] != "Q5_K_M"@[5]);
    }
    if file_type == 0 {
        assert(quant_name(file_type) == "F32");
    } else if file_type == 1 {
        assert(quant_name(file_type) == "F16");
    } else if file_type == 2 {
        assert(quant_name(file_type) == "Q4_0");
    } else if file_type == 3 {
        assert(quant_name(file_type) == "Q4_1");
    } else if file_type == 7 {
        assert(quant_name(file_type) == "Q8_0");
    } else if file_type == 14 {
        assert(quant_name(file_type) == "Q4_K_S");
    } else if file_type == 15 {
        assert(quant_name(file_type) == "Q4_K_M");
    } else if file_type == 16 {
        assert(quant_name(file_type) == "Q5_K_S");
    } else if file_type == 17 {
        assert(quant_name(file_type) == "Q5_K_M");
    } else if file_type == 18 {
        assert(quant_name(file_type) == "Q6_K");
    } else {
        assert(quant_name(file_type) == "other");
    }
}

} // verus!
