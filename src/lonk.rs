//! Progress notifications ("LONK" messages) about series being received:
//! their byte encoding and the subject they are published on.
use vstd::prelude::*;
use vstd::utf8::{encode_utf8, valid_utf8};
use crate::sanitize::{sanitize_subject_part, sanitized_subject_part};
use crate::types::SeriesKey;

verus! {

/// First byte of a progress message.
pub const MESSAGE_NDICOM: u8 = 1;

/// First byte of an error message.
pub const MESSAGE_ERROR: u8 = 2;

/// The one byte of a done message.
pub const MESSAGE_DONE: u8 = 0;

/// A notification about a series.
pub struct Lonk {
    pub series: SeriesKey,
    pub message: LonkMessage,
}

/// What a notification says.
#[derive(Clone, Debug, PartialEq, Eq)]
pub enum LonkMessage {
    /// The series is complete: no more messages follow for it.
    Done,
    /// This many instances of the series have been stored.
    Ndicom(u32),
    /// Something went wrong with an instance of the series.
    Error(String),
}

impl Lonk {
    pub fn done(series: SeriesKey) -> (r: Lonk)
        ensures
            r.series == series,
            r.message == LonkMessage::Done,
    {
        Lonk { series, message: LonkMessage::Done }
    }

    pub fn ndicom(series: SeriesKey, ndicom: u32) -> (r: Lonk)
        ensures
            r.series == series,
            r.message == LonkMessage::Ndicom(ndicom),
    {
        Lonk { series, message: LonkMessage::Ndicom(ndicom) }
    }

    pub fn error(series: SeriesKey, error: String) -> (r: Lonk)
        ensures
            r.series == series,
            r.message == LonkMessage::Error(error),
    {
        Lonk { series, message: LonkMessage::Error(error) }
    }
}

/// `n` as four little-endian bytes.
pub open spec fn le_bytes(n: u32) -> Seq<u8> {
    seq![
        (n & 0xff) as u8,
        ((n >> 8u32) & 0xff) as u8,
        ((n >> 16u32) & 0xff) as u8,
        ((n >> 24u32) & 0xff) as u8,
    ]
}

/// The number that four little-endian bytes write.
pub open spec fn le_value(b0: u8, b1: u8, b2: u8, b3: u8) -> u32 {
    (b0 as u32) | ((b1 as u32) << 8u32) | ((b2 as u32) << 16u32) | ((b3 as u32) << 24u32)
}

/// The encoding of a message: `0x00` for done; `0x01` and the count as a
/// little-endian `u32` for progress; `0x02` and the UTF-8 text for an error.
pub open spec fn lonk_bytes(m: LonkMessage) -> Seq<u8> {
    match m {
        LonkMessage::Done => seq![MESSAGE_DONE],
        LonkMessage::Ndicom(n) => seq![MESSAGE_NDICOM] + le_bytes(n),
        LonkMessage::Error(e) => seq![MESSAGE_ERROR] + encode_utf8(e@),
    }
}

/// The encoded done message.
pub fn done_message() -> (r: Vec<u8>)
    ensures
        r@ == lonk_bytes(LonkMessage::Done),
{
    let mut v: Vec<u8> = Vec::new();
    v.push(MESSAGE_DONE);
    v
}

/// The encoded progress message for `ndicom` stored instances.
pub fn progress_message(ndicom: u32) -> (r: Vec<u8>)
    ensures
        r@ == lonk_bytes(LonkMessage::Ndicom(ndicom)),
{
    let mut v: Vec<u8> = Vec::new();
    v.push(MESSAGE_NDICOM);
    v.push((ndicom & 0xff) as u8);
    v.push(((ndicom >> 8u32) & 0xff) as u8);
    v.push(((ndicom >> 16u32) & 0xff) as u8);
    v.push(((ndicom >> 24u32) & 0xff) as u8);
    assert(v@ == seq![MESSAGE_NDICOM] + le_bytes(ndicom));
    v
}

/// The encoded error message carrying `error`.
pub fn error_message(error: &str) -> (r: Vec<u8>)
    ensures
        r@ == seq![MESSAGE_ERROR] + encode_utf8(error@),
{
    let text = error.as_bytes_vec();
    let mut v: Vec<u8> = Vec::new();
    v.push(MESSAGE_ERROR);
    let mut i: usize = 0;
    while i < text.len()
        invariant
            i <= text@.len(),
            v@ == seq![MESSAGE_ERROR] + text@.subrange(0, i as int),
        decreases text@.len() - i,
    {
        v.push(text[i]);
        i = i + 1;
        assert(text@.subrange(0, i as int) == text@.subrange(0, i - 1).push(text@[i - 1]));
    }
    assert(text@.subrange(0, text@.len() as int) == text@);
    v
}

impl LonkMessage {
    /// The bytes published for this message.
    pub fn into_bytes(self) -> (r: Vec<u8>)
        ensures
            r@ == lonk_bytes(self),
    {
        match self {
            LonkMessage::Done => done_message(),
            LonkMessage::Ndicom(n) => progress_message(n),
            LonkMessage::Error(e) => error_message(e.as_str()),
        }
    }
}

/// Relies on `String::from_utf8`: it succeeds exactly on valid UTF-8, and
/// the string then holds those bytes.
#[verifier::external_body]
fn utf8_text(b: &[u8]) -> (r: Option<String>)
    ensures
        r is Some == valid_utf8(b@),
        r matches Some(s) ==> encode_utf8(s@) == b@,
{
    String::from_utf8(b.to_vec()).ok()
}

/// Decodes a published payload. `None` for bytes that no message encodes
/// to (an error message whose text is not UTF-8 included).
pub fn decode_lonk(b: &[u8]) -> (r: Option<LonkMessage>)
    ensures
        b@ == seq![MESSAGE_DONE] ==> r == Some(LonkMessage::Done),
        b@.len() == 5 && b@[0] == MESSAGE_NDICOM ==> r == Some(
            LonkMessage::Ndicom(le_value(b@[1], b@[2], b@[3], b@[4])),
        ),
        b@.len() >= 1 && b@[0] == MESSAGE_ERROR ==> (r is Some == valid_utf8(b@.drop_first())) && (
        r matches Some(m) ==> m matches LonkMessage::Error(e) && encode_utf8(e@)
            == b@.drop_first()),
        !(b@ == seq![MESSAGE_DONE]) && !(b@.len() == 5 && b@[0] == MESSAGE_NDICOM) && !(b@.len()
            >= 1 && b@[0] == MESSAGE_ERROR) ==> r is None,
{
    if b.len() == 0 {
        return None;
    }
    let kind = b[0];
    if kind == MESSAGE_DONE && b.len() == 1 {
        assert(b@ == seq![MESSAGE_DONE]);
        Some(LonkMessage::Done)
    } else if kind == MESSAGE_NDICOM && b.len() == 5 {
        let n = (b[1] as u32) | ((b[2] as u32) << 8u32) | ((b[3] as u32) << 16u32) | ((b[4] as u32)
            << 24u32);
        Some(LonkMessage::Ndicom(n))
    } else if kind == MESSAGE_ERROR {
        let rest = vstd::slice::slice_subrange(b, 1, b.len());
        assert(rest@ == b@.drop_first());
        match utf8_text(rest) {
            Some(s) => Some(LonkMessage::Error(s)),
            None => None,
        }
    } else {
        None
    }
}

/// Decoding the encoding of a progress message gives back its count.
pub proof fn lemma_progress_round_trip(n: u32)
    ensures
        ({
            let b = lonk_bytes(LonkMessage::Ndicom(n));
            b.len() == 5 && b[0] == MESSAGE_NDICOM && le_value(b[1], b[2], b[3], b[4]) == n
        }),
{
    let b = lonk_bytes(LonkMessage::Ndicom(n));
    assert(b[1] == (n & 0xff) as u8);
    assert(b[4] == ((n >> 24u32) & 0xff) as u8);
    assert(le_value(
        (n & 0xff) as u8,
        ((n >> 8u32) & 0xff) as u8,
        ((n >> 16u32) & 0xff) as u8,
        ((n >> 24u32) & 0xff) as u8,
    ) == n) by (bit_vector);
}

/// The subject of a series: `<root>.<pacs_name>.<SeriesInstanceUID>`, the
/// last two sanitized.
pub open spec fn subject_text(root: Seq<char>, series: SeriesKey) -> Seq<char> {
    root + "."@ + sanitized_subject_part(series.pacs_name@) + "."@ + sanitized_subject_part(
        series.series_instance_uid@,
    )
}

/// The message-bus subject on which notifications about `series` are published.
pub fn subject_of(root_subject: &str, series: &SeriesKey) -> (r: String)
    ensures
        r@ == subject_text(root_subject@, *series),
{
    let mut s = String::from_str(root_subject);
    s.append(".");
    let p = sanitize_subject_part(series.pacs_name.as_str());
    s.append(p.as_str());
    s.append(".");
    let u = sanitize_subject_part(series.series_instance_uid.as_str());
    s.append(u.as_str());
    s
}

} // verus!
