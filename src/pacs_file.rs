//! From the tags of a received DICOM instance to the metadata of its
//! series and the path under which the instance is stored.
use vstd::prelude::*;
use crate::numbers::{all_digits, digits_value, parse_digits, parse_u32, u32_text_value, Digits};
use crate::patient_age::{age_days, parse_age};
use crate::sanitize::{push_sanitized, sanitized_component, strip_nul};
use crate::text::{
    chars_of, decimal_text, hex_text, push_all, push_decimal, push_hex, push_zero_padded,
    string_of, zero_padded,
};
use crate::types::{is_calendar_date, AETitle, CalendarDate, DicomInfo};

verus! {

/// The DICOM tags that this library reads by name.
#[derive(Clone, Copy, Debug, PartialEq, Eq, Hash)]
pub enum DicomTag {
    StudyInstanceUID,
    SeriesInstanceUID,
    SOPInstanceUID,
    PatientID,
    StudyDate,
    PatientAge,
}

impl DicomTag {
    /// The keyword of the tag in the DICOM data dictionary.
    pub fn name(&self) -> (r: &'static str)
        ensures
            r@ == tag_name(*self),
    {
        match self {
            DicomTag::StudyInstanceUID => "StudyInstanceUID",
            DicomTag::SeriesInstanceUID => "SeriesInstanceUID",
            DicomTag::SOPInstanceUID => "SOPInstanceUID",
            DicomTag::PatientID => "PatientID",
            DicomTag::StudyDate => "StudyDate",
            DicomTag::PatientAge => "PatientAge",
        }
    }
}

/// The string values of the tags of one DICOM instance that the library
/// reads, each with surrounding whitespace trimmed; `None` where the
/// instance has no such element or its value is not text.
#[derive(Clone, Debug, PartialEq, Eq, Default)]
pub struct DicomTags {
    pub study_instance_uid: Option<String>,
    pub series_instance_uid: Option<String>,
    pub sop_instance_uid: Option<String>,
    pub patient_id: Option<String>,
    pub study_date: Option<String>,
    pub patient_name: Option<String>,
    pub patient_birth_date: Option<String>,
    pub patient_age: Option<String>,
    pub patient_sex: Option<String>,
    pub accession_number: Option<String>,
    pub modality: Option<String>,
    pub protocol_name: Option<String>,
    pub study_description: Option<String>,
    pub series_description: Option<String>,
    pub series_number: Option<String>,
    pub instance_number: Option<String>,
}

/// A tag whose value could not be used.
#[derive(Clone, Debug, PartialEq, Eq)]
pub struct BadTag {
    pub tag: DicomTag,
    pub value: Option<String>,
}

/// Why an instance cannot be stored: a required tag is absent or unusable.
#[derive(Clone, Debug, PartialEq, Eq)]
pub enum RequiredTagError {
    Missing(DicomTag),
    Bad(BadTag),
}

pub open spec fn tag_name(t: DicomTag) -> Seq<char> {
    match t {
        DicomTag::StudyInstanceUID => "StudyInstanceUID"@,
        DicomTag::SeriesInstanceUID => "SeriesInstanceUID"@,
        DicomTag::SOPInstanceUID => "SOPInstanceUID"@,
        DicomTag::PatientID => "PatientID"@,
        DicomTag::StudyDate => "StudyDate"@,
        DicomTag::PatientAge => "PatientAge"@,
    }
}

/// The text that reports a required-tag error.
pub open spec fn required_tag_message(e: RequiredTagError) -> Seq<char> {
    match e {
        RequiredTagError::Missing(t) => "DICOM file does not have the required tag: "@ + tag_name(t),
        RequiredTagError::Bad(b) => bad_tag_message(b.tag, opt_view(b.value)),
    }
}

/// The text that reports an unusable value of a tag.
pub open spec fn bad_tag_message(tag: DicomTag, value: Option<Seq<char>>) -> Seq<char> {
    match value {
        Some(v) => "Illegal value for tag "@ + tag_name(tag) + "=\""@ + v + "\""@,
        None => "Illegal value for tag "@ + tag_name(tag),
    }
}

impl RequiredTagError {
    /// A short text that says what is wrong.
    pub fn message(&self) -> (r: String)
        ensures
            r@ == required_tag_message(*self),
    {
        match self {
            RequiredTagError::Missing(t) => {
                let mut s = String::from_str("DICOM file does not have the required tag: ");
                s.append(t.name());
                s
            },
            RequiredTagError::Bad(b) => {
                let mut s = String::from_str("Illegal value for tag ");
                s.append(b.tag.name());
                match &b.value {
                    Some(v) => {
                        s.append("=\"");
                        s.append(v.as_str());
                        s.append("\"");
                    },
                    None => {},
                }
                s
            },
        }
    }
}

/// A number that should be an unsigned integer, kept as text when it is not.
#[derive(Clone, Debug, PartialEq, Eq)]
pub enum MaybeU32 {
    U32(u32),
    String(String),
}

impl MaybeU32 {
    /// The number that `value` writes, or `value` itself when it writes none.
    pub fn parse(value: &str) -> (r: MaybeU32)
        ensures
            match u32_text_value(value@) {
                Some(v) => r == MaybeU32::U32(v as u32),
                None => r matches MaybeU32::String(s) && s@ == value@,
            },
    {
        let cs = chars_of(value);
        match parse_u32(&cs) {
            Some(v) => MaybeU32::U32(v),
            None => MaybeU32::String(value.to_owned()),
        }
    }
}

/// How a number tag appears in a path: its decimal digits when it is a
/// number, its sanitized text otherwise, `placeholder` when it is absent.
pub open spec fn number_text(o: Option<String>, placeholder: Seq<char>) -> Seq<char> {
    match o {
        Some(s) => match u32_text_value(s@) {
            Some(v) => decimal_text(v),
            None => sanitized_component(s@),
        },
        None => placeholder,
    }
}

/// The value of an optional tag, or `placeholder` when it is absent.
pub open spec fn or_placeholder(o: Option<String>, placeholder: Seq<char>) -> Seq<char> {
    match o {
        Some(s) => s@,
        None => placeholder,
    }
}

/// The value of an optional tag with NUL characters removed.
pub open spec fn opt_stripped(o: Option<String>) -> Option<Seq<char>> {
    match o {
        Some(s) => Some(strip_nul(s@)),
        None => None,
    }
}

pub open spec fn opt_view(o: Option<String>) -> Option<Seq<char>> {
    match o {
        Some(s) => Some(s@),
        None => None,
    }
}

/// A name for the value of SeaHash over the UTF-8 bytes of a text.
pub uninterp spec fn seahash_of(text: Seq<char>) -> u64;

/// Relies on `seahash::hash` over the UTF-8 bytes of `s`: the value depends
/// on those bytes alone.
#[verifier::external_body]
fn seahash_text(s: &str) -> (r: u64)
    ensures
        r == seahash_of(s@),
{
    seahash::hash(s.as_bytes())
}

/// Relies on `time::Date::from_calendar_date` (the month through
/// `time::Month::try_from`): it succeeds exactly on days of the proleptic
/// Gregorian calendar.
#[verifier::external_body]
fn calendar_date_exists(year: i32, month: u8, day: u8) -> (r: bool)
    requires
        0 <= year <= 9999,
    ensures
        r == is_calendar_date(year as int, month as int, day as int),
{
    match time::Month::try_from(month) {
        Ok(m) => time::Date::from_calendar_date(year, m, day).is_ok(),
        Err(_) => false,
    }
}

/// The first seven hexadecimal digits of a hash (all of them when fewer).
pub open spec fn hash7(h: u64) -> Seq<char> {
    if hex_text(h as nat).len() <= 7 {
        hex_text(h as nat)
    } else {
        hex_text(h as nat).subrange(0, 7)
    }
}

/// Year, month and day written as `YYYYMMDD` (a DICOM DA value) or as
/// `YYYY-MM-DD`.
pub open spec fn date_fields(s: Seq<char>) -> Option<(nat, nat, nat)> {
    if s.len() == 8 && all_digits(s) {
        Some(
            (
                digits_value(s.subrange(0, 4)),
                digits_value(s.subrange(4, 6)),
                digits_value(s.subrange(6, 8)),
            ),
        )
    } else if s.len() == 10 && s[4] == '-' && s[7] == '-' && all_digits(s.subrange(0, 4))
        && all_digits(s.subrange(5, 7)) && all_digits(s.subrange(8, 10)) {
        Some(
            (
                digits_value(s.subrange(0, 4)),
                digits_value(s.subrange(5, 7)),
                digits_value(s.subrange(8, 10)),
            ),
        )
    } else {
        None
    }
}

/// The calendar date that a StudyDate value gives, if any.
pub open spec fn study_date_of(s: Seq<char>) -> Option<CalendarDate> {
    match date_fields(s) {
        Some((y, m, d)) => if is_calendar_date(y as int, m as int, d as int) {
            Some(CalendarDate { year: y as u16, month: m as u8, day: d as u8 })
        } else {
            None
        },
        None => None,
    }
}

proof fn lemma_all_digits_sub(s: Seq<char>, lo: int, hi: int)
    requires
        0 <= lo <= hi <= s.len(),
        all_digits(s),
    ensures
        all_digits(s.subrange(lo, hi)),
{
    assert forall|i: int| 0 <= i < hi - lo implies crate::numbers::is_digit(
        #[trigger] s.subrange(lo, hi)[i],
    ) by {
        assert(s.subrange(lo, hi)[i] == s[lo + i]);
    }
}

proof fn lemma_digits_join(s: Seq<char>)
    requires
        s.len() == 8,
        all_digits(s.subrange(0, 4)),
        all_digits(s.subrange(4, 6)),
        all_digits(s.subrange(6, 8)),
    ensures
        all_digits(s),
{
    assert forall|i: int| 0 <= i < 8 implies crate::numbers::is_digit(#[trigger] s[i]) by {
        if i < 4 {
            assert(s.subrange(0, 4)[i] == s[i]);
        } else if i < 6 {
            assert(s.subrange(4, 6)[i - 4] == s[i]);
        } else {
            assert(s.subrange(6, 8)[i - 6] == s[i]);
        }
    }
}

/// Reads `cs[lo..hi]`, at most four characters, as digits.
fn small_number(cs: &Vec<char>, lo: usize, hi: usize) -> (r: Option<u64>)
    requires
        lo <= hi <= cs@.len(),
        hi - lo <= 4,
    ensures
        match r {
            Some(v) => all_digits(cs@.subrange(lo as int, hi as int)) && v == digits_value(
                cs@.subrange(lo as int, hi as int),
            ) && v < crate::numbers::pow10((hi - lo) as nat),
            None => !all_digits(cs@.subrange(lo as int, hi as int)),
        },
{
    proof {
        if all_digits(cs@.subrange(lo as int, hi as int)) {
            crate::numbers::lemma_digits_value_bound(cs@.subrange(lo as int, hi as int));
            assert(crate::numbers::pow10((hi - lo) as nat) <= 10000) by {
                reveal_with_fuel(crate::numbers::pow10, 5);
            }
        }
    }
    match parse_digits(cs, lo, hi) {
        Digits::Value(v) => Some(v),
        _ => None,
    }
}

/// Parses a StudyDate value: `YYYYMMDD`, or `YYYY-MM-DD` as a fallback, that
/// names a day of the calendar.
pub fn parse_study_date(s: &str) -> (r: Option<CalendarDate>)
    ensures
        r == study_date_of(s@),
        r matches Some(d) ==> d.wf(),
{
    let cs = chars_of(s);
    let n = cs.len();
    let (ylo, yhi, mlo, mhi, dlo, dhi): (usize, usize, usize, usize, usize, usize) = if n == 8 {
        (0, 4, 4, 6, 6, 8)
    } else if n == 10 && cs[4] == '-' && cs[7] == '-' {
        (0, 4, 5, 7, 8, 10)
    } else {
        return None;
    };
    assert(crate::numbers::pow10(2) == 100 && crate::numbers::pow10(4) == 10000) by {
        reveal_with_fuel(crate::numbers::pow10, 5);
    }
    let y = small_number(&cs, ylo, yhi);
    let m = small_number(&cs, mlo, mhi);
    let d = small_number(&cs, dlo, dhi);
    proof {
        if n == 8 {
            if all_digits(cs@) {
                lemma_all_digits_sub(cs@, 0, 4);
                lemma_all_digits_sub(cs@, 4, 6);
                lemma_all_digits_sub(cs@, 6, 8);
            }
            if y is Some && m is Some && d is Some {
                lemma_digits_join(cs@);
            }
        }
    }
    match (y, m, d) {
        (Some(y), Some(m), Some(d)) => {
            if calendar_date_exists(y as i32, m as u8, d as u8) {
                Some(CalendarDate { year: y as u16, month: m as u8, day: d as u8 })
            } else {
                None
            }
        },
        _ => None,
    }
}

/// Appends the first seven hexadecimal digits of `h` to `out`.
fn push_hash7(out: &mut Vec<char>, h: u64)
    ensures
        final(out)@ == old(out)@ + hash7(h),
{
    let mut hex: Vec<char> = Vec::new();
    push_hex(&mut hex, h);
    assert(hex@ == hex_text(h as nat));
    let mut i: usize = 0;
    let ghost start = out@;
    while i < hex.len() && i < 7
        invariant
            i <= hex@.len(),
            i <= 7,
            out@ == start + hex@.subrange(0, i as int),
        decreases hex@.len() - i,
    {
        out.push(hex[i]);
        i = i + 1;
        assert(hex@.subrange(0, i as int) == hex@.subrange(0, i - 1).push(hex@[i - 1]));
    }
    assert(hex@.subrange(0, hex@.len() as int) == hex@);
}

/// Appends the literal `s`.
fn push_str(out: &mut Vec<char>, s: &str)
    ensures
        final(out)@ == old(out)@ + s@,
{
    let cs = chars_of(s);
    push_all(out, &cs);
}

/// Appends the sanitized value of an optional tag, or `placeholder`
/// sanitized when it is absent.
fn push_sanitized_or(out: &mut Vec<char>, o: &Option<String>, placeholder: &str)
    ensures
        final(out)@ == old(out)@ + sanitized_component(or_placeholder(*o, placeholder@)),
{
    match o {
        Some(v) => push_sanitized(out, v.as_str()),
        None => push_sanitized(out, placeholder),
    }
}

/// Appends a number tag as it appears in a path, padded with `'0'` to `width`.
fn push_number(out: &mut Vec<char>, o: &Option<String>, placeholder: &str, width: usize)
    ensures
        final(out)@ == old(out)@ + zero_padded(number_text(*o, placeholder@), width as nat),
{
    let mut t: Vec<char> = Vec::new();
    match o {
        Some(v) => match MaybeU32::parse(v.as_str()) {
            MaybeU32::U32(n) => push_decimal(&mut t, n as u64),
            MaybeU32::String(s) => push_sanitized(&mut t, s.as_str()),
        },
        None => push_str(&mut t, placeholder),
    }
    assert(t@ == number_text(*o, placeholder@));
    push_zero_padded(out, &t, width);
}

/// The directory of a series:
/// `SERVICES/PACS/<pacs>/<PatientID>-<PatientName>-<PatientBirthDate>/`
/// `<StudyDescription>-<AccessionNumber>-<StudyDate>/`
/// `<SeriesNumber:05>-<SeriesDescription>-<hash7(SeriesInstanceUID)>`,
/// every component sanitized.
pub open spec fn series_dir_text(pacs: Seq<char>, t: DicomTags) -> Seq<char> {
    "SERVICES/PACS/"@ + sanitized_component(pacs) + "/"@ + sanitized_component(
        t.patient_id.unwrap()@,
    ) + "-"@ + sanitized_component(or_placeholder(t.patient_name, "PatientName"@)) + "-"@
        + sanitized_component(or_placeholder(t.patient_birth_date, "PatientBirthDate"@)) + "/"@
        + sanitized_component(or_placeholder(t.study_description, "StudyDescription"@)) + "-"@
        + sanitized_component(or_placeholder(t.accession_number, "AccessionNumber"@)) + "-"@
        + sanitized_component(t.study_date.unwrap()@) + "/"@ + zero_padded(
        number_text(t.series_number, "SeriesNumber"@),
        5,
    ) + "-"@ + sanitized_component(or_placeholder(t.series_description, "SeriesDescription"@))
        + "-"@ + hash7(seahash_of(strip_nul(t.series_instance_uid.unwrap()@)))
}

/// The file name of an instance: `<InstanceNumber:04>-<SOPInstanceUID>.dcm`.
pub open spec fn file_name_text(t: DicomTags) -> Seq<char> {
    zero_padded(number_text(t.instance_number, "InstanceNumber"@), 4) + "-"@ + sanitized_component(
        t.sop_instance_uid.unwrap()@,
    ) + ".dcm"@
}

/// The first required tag that the instance lacks, in the order
/// StudyInstanceUID, SeriesInstanceUID, SOPInstanceUID, PatientID, StudyDate.
pub open spec fn missing_required(t: DicomTags) -> Option<DicomTag> {
    if t.study_instance_uid is None {
        Some(DicomTag::StudyInstanceUID)
    } else if t.series_instance_uid is None {
        Some(DicomTag::SeriesInstanceUID)
    } else if t.sop_instance_uid is None {
        Some(DicomTag::SOPInstanceUID)
    } else if t.patient_id is None {
        Some(DicomTag::PatientID)
    } else if t.study_date is None {
        Some(DicomTag::StudyDate)
    } else {
        None
    }
}

/// The PatientAge in days that the instance gives, if its value is usable.
pub open spec fn age_of(t: DicomTags) -> Option<i32> {
    match t.patient_age {
        Some(a) => match age_days(a@) {
            Some(d) => if d <= i32::MAX {
                Some(d as i32)
            } else {
                None
            },
            None => None,
        },
        None => None,
    }
}

/// A received instance that can be stored: the metadata of its series and
/// the path of its file, both relative to the storage root.
#[derive(Clone, Debug, PartialEq, Eq)]
pub struct PacsFile {
    pub info: DicomInfo,
    pub file_path: String,
}

/// What `pacs_file_of` yields for an instance whose required tags are
/// present and whose StudyDate parses to `date`.
pub open spec fn is_pacs_file_of(f: PacsFile, pacs_name: AETitle, t: DicomTags) -> bool {
    let i = f.info;
    &&& Some(i.study_date) == study_date_of(strip_nul(t.study_date.unwrap()@))
    &&& i.patient_id@ == strip_nul(t.patient_id.unwrap()@)
    &&& i.study_instance_uid@ == strip_nul(t.study_instance_uid.unwrap()@)
    &&& i.series_instance_uid@ == strip_nul(t.series_instance_uid.unwrap()@)
    &&& i.pacs_name == pacs_name
    &&& i.path@ == series_dir_text(pacs_name@, t)
    &&& f.file_path@ == series_dir_text(pacs_name@, t) + "/"@ + file_name_text(t)
    &&& opt_view(i.patient_name) == opt_stripped(t.patient_name)
    &&& opt_view(i.patient_birth_date) == opt_stripped(t.patient_birth_date)
    &&& i.patient_age == age_of(t)
    &&& opt_view(i.patient_sex) == opt_stripped(t.patient_sex)
    &&& opt_view(i.accession_number) == opt_stripped(t.accession_number)
    &&& opt_view(i.modality) == opt_stripped(t.modality)
    &&& opt_view(i.protocol_name) == opt_stripped(t.protocol_name)
    &&& opt_view(i.study_description) == opt_stripped(t.study_description)
    &&& opt_view(i.series_description) == opt_stripped(t.series_description)
}

/// The bad-tag warnings for an instance: its PatientAge when present and
/// unusable.
pub open spec fn bad_tags_ok(bad: Seq<BadTag>, t: DicomTags) -> bool {
    match t.patient_age {
        Some(a) => if age_of(t) is None {
            bad.len() == 1 && bad[0].tag == DicomTag::PatientAge && opt_view(bad[0].value) == Some(
                a@,
            )
        } else {
            bad.len() == 0
        },
        None => bad.len() == 0,
    }
}

/// `s` without its NUL characters.
pub fn without_nul(s: &str) -> (r: String)
    ensures
        r@ == strip_nul(s@),
{
    let cs = chars_of(s);
    let mut out: Vec<char> = Vec::new();
    let mut i: usize = 0;
    while i < cs.len()
        invariant
            i <= cs@.len(),
            cs@ == s@,
            out@ == strip_nul(cs@.subrange(0, i as int)),
        decreases cs@.len() - i,
    {
        assert(cs@.subrange(0, i + 1).drop_last() == cs@.subrange(0, i as int));
        if cs[i] != '\0' {
            out.push(cs[i]);
        }
        i = i + 1;
    }
    assert(cs@.subrange(0, cs@.len() as int) == cs@);
    string_of(&out)
}

fn opt_without_nul(o: &Option<String>) -> (r: Option<String>)
    ensures
        opt_view(r) == opt_stripped(*o),
{
    match o {
        Some(s) => Some(without_nul(s.as_str())),
        None => None,
    }
}

/// Reads the series metadata and the storage path of a received instance.
///
/// Fails with the first required tag that is missing, or with the StudyDate
/// when it is neither `YYYYMMDD` nor `YYYY-MM-DD` of a real day. An unusable
/// PatientAge is no failure: it is reported among the bad tags and left out.
pub fn pacs_file_of(pacs_name: AETitle, t: &DicomTags) -> (r: Result<
    (PacsFile, Vec<BadTag>),
    RequiredTagError,
>)
    ensures
        match missing_required(*t) {
            Some(tag) => r == Err::<(PacsFile, Vec<BadTag>), RequiredTagError>(
                RequiredTagError::Missing(tag),
            ),
            None => match study_date_of(strip_nul(t.study_date.unwrap()@)) {
                None => r matches Err(RequiredTagError::Bad(b)) && b.tag == DicomTag::StudyDate
                    && opt_view(b.value) == Some(strip_nul(t.study_date.unwrap()@)),
                Some(_) => r matches Ok((f, bad)) && is_pacs_file_of(f, pacs_name, *t)
                    && bad_tags_ok(bad@, *t),
            },
        },
{
    let study_instance_uid = match &t.study_instance_uid {
        Some(v) => without_nul(v.as_str()),
        None => {
            return Err(RequiredTagError::Missing(DicomTag::StudyInstanceUID));
        },
    };
    let series_instance_uid = match &t.series_instance_uid {
        Some(v) => without_nul(v.as_str()),
        None => {
            return Err(RequiredTagError::Missing(DicomTag::SeriesInstanceUID));
        },
    };
    let sop_instance_uid: &String = match &t.sop_instance_uid {
        Some(v) => v,
        None => {
            return Err(RequiredTagError::Missing(DicomTag::SOPInstanceUID));
        },
    };
    let patient_id_raw: &String = match &t.patient_id {
        Some(v) => v,
        None => {
            return Err(RequiredTagError::Missing(DicomTag::PatientID));
        },
    };
    let study_date_raw: &String = match &t.study_date {
        Some(v) => v,
        None => {
            return Err(RequiredTagError::Missing(DicomTag::StudyDate));
        },
    };
    let study_date_text = without_nul(study_date_raw.as_str());
    let study_date = match parse_study_date(study_date_text.as_str()) {
        Some(d) => d,
        None => {
            return Err(
                RequiredTagError::Bad(BadTag { tag: DicomTag::StudyDate, value: Some(study_date_text) }),
            );
        },
    };

    let mut bad_tags: Vec<BadTag> = Vec::new();
    let patient_age: Option<i32> = match &t.patient_age {
        Some(a) => match parse_age(a.as_str()) {
            Some(d) if d <= 2147483647 => Some(d as i32),
            _ => {
                bad_tags.push(BadTag { tag: DicomTag::PatientAge, value: Some(a.clone()) });
                None
            },
        },
        None => None,
    };

    let mut dir: Vec<char> = Vec::new();
    push_str(&mut dir, "SERVICES/PACS/");
    push_sanitized(&mut dir, pacs_name.as_str());
    push_str(&mut dir, "/");
    push_sanitized(&mut dir, patient_id_raw.as_str());
    push_str(&mut dir, "-");
    push_sanitized_or(&mut dir, &t.patient_name, "PatientName");
    push_str(&mut dir, "-");
    push_sanitized_or(&mut dir, &t.patient_birth_date, "PatientBirthDate");
    push_str(&mut dir, "/");
    push_sanitized_or(&mut dir, &t.study_description, "StudyDescription");
    push_str(&mut dir, "-");
    push_sanitized_or(&mut dir, &t.accession_number, "AccessionNumber");
    push_str(&mut dir, "-");
    push_sanitized(&mut dir, study_date_raw.as_str());
    push_str(&mut dir, "/");
    push_number(&mut dir, &t.series_number, "SeriesNumber", 5);
    push_str(&mut dir, "-");
    push_sanitized_or(&mut dir, &t.series_description, "SeriesDescription");
    push_str(&mut dir, "-");
    let h = seahash_text(series_instance_uid.as_str());
    push_hash7(&mut dir, h);
    assert(dir@ == series_dir_text(pacs_name@, *t));

    let mut file: Vec<char> = Vec::new();
    push_all(&mut file, &dir);
    push_str(&mut file, "/");
    push_number(&mut file, &t.instance_number, "InstanceNumber", 4);
    push_str(&mut file, "-");
    push_sanitized(&mut file, sop_instance_uid.as_str());
    push_str(&mut file, ".dcm");
    assert(file@ == series_dir_text(pacs_name@, *t) + "/"@ + file_name_text(*t));

    let info = DicomInfo {
        patient_id: without_nul(patient_id_raw.as_str()),
        study_date,
        study_instance_uid,
        series_instance_uid,
        pacs_name,
        path: string_of(&dir),
        patient_name: opt_without_nul(&t.patient_name),
        patient_birth_date: opt_without_nul(&t.patient_birth_date),
        patient_age,
        patient_sex: opt_without_nul(&t.patient_sex),
        accession_number: opt_without_nul(&t.accession_number),
        modality: opt_without_nul(&t.modality),
        protocol_name: opt_without_nul(&t.protocol_name),
        study_description: opt_without_nul(&t.study_description),
        series_description: opt_without_nul(&t.series_description),
    };
    Ok((PacsFile { info, file_path: string_of(&file) }, bad_tags))
}

} // verus!

verus! {

/// Characters that may appear in a storage path.
pub open spec fn is_path_char(c: char) -> bool {
    crate::sanitize::is_component_char(c) || c == '/'
}

/// Every character of `s` may appear in a storage path.
pub open spec fn all_path_chars(s: Seq<char>) -> bool {
    forall|i: int| 0 <= i < s.len() ==> is_path_char(#[trigger] s[i])
}

pub broadcast proof fn lemma_path_chars_concat(a: Seq<char>, b: Seq<char>)
    requires
        all_path_chars(a),
        all_path_chars(b),
    ensures
        #[trigger] all_path_chars(a + b),
{
    assert forall|i: int| 0 <= i < (a + b).len() implies is_path_char(#[trigger] (a + b)[i]) by {
        if i < a.len() {
            assert((a + b)[i] == a[i]);
        } else {
            assert((a + b)[i] == b[i - a.len()]);
        }
    }
}

proof fn lemma_component_path_chars(s: Seq<char>)
    ensures
        all_path_chars(sanitized_component(s)),
{
    crate::sanitize::lemma_sanitized_component_chars(s);
}

proof fn lemma_padded_number_path_chars(o: Option<String>, placeholder: Seq<char>, width: nat)
    requires
        all_path_chars(placeholder),
    ensures
        all_path_chars(zero_padded(number_text(o, placeholder), width)),
{
    broadcast use lemma_path_chars_concat;

    let t = number_text(o, placeholder);
    match o {
        Some(s) => match u32_text_value(s@) {
            Some(v) => {
                crate::text::lemma_decimal_text_chars(v);
            },
            None => {
                lemma_component_path_chars(s@);
            },
        },
        None => {},
    }
    assert(all_path_chars(t));
    if t.len() < width {
        let zeros = Seq::new((width - t.len()) as nat, |i: int| '0');
        assert(all_path_chars(zeros));
    }
}

proof fn lemma_hash7_path_chars(h: u64)
    ensures
        all_path_chars(hash7(h)),
{
    crate::text::lemma_hex_text_chars(h as nat);
    let x = hex_text(h as nat);
    if x.len() > 7 {
        assert forall|i: int| 0 <= i < 7 implies is_path_char(#[trigger] x.subrange(0, 7)[i]) by {
            assert(x.subrange(0, 7)[i] == x[i]);
        }
    }
}

/// Every storage path derived from an instance's tags holds only characters
/// of `[A-Za-z0-9._/-]`, whatever the tags hold.
pub proof fn lemma_storage_path_chars(pacs: Seq<char>, t: DicomTags)
    requires
        missing_required(t) is None,
    ensures
        all_path_chars(series_dir_text(pacs, t)),
        all_path_chars(series_dir_text(pacs, t) + "/"@ + file_name_text(t)),
{
    broadcast use lemma_path_chars_concat;

    reveal_strlit("SERVICES/PACS/");
    reveal_strlit("/");
    reveal_strlit("-");
    reveal_strlit(".dcm");
    reveal_strlit("SeriesNumber");
    reveal_strlit("InstanceNumber");
    lemma_component_path_chars(pacs);
    lemma_component_path_chars(t.patient_id.unwrap()@);
    lemma_component_path_chars(or_placeholder(t.patient_name, "PatientName"@));
    lemma_component_path_chars(or_placeholder(t.patient_birth_date, "PatientBirthDate"@));
    lemma_component_path_chars(or_placeholder(t.study_description, "StudyDescription"@));
    lemma_component_path_chars(or_placeholder(t.accession_number, "AccessionNumber"@));
    lemma_component_path_chars(t.study_date.unwrap()@);
    lemma_component_path_chars(or_placeholder(t.series_description, "SeriesDescription"@));
    lemma_component_path_chars(t.sop_instance_uid.unwrap()@);
    assert(all_path_chars("SeriesNumber"@));
    assert(all_path_chars("InstanceNumber"@));
    lemma_padded_number_path_chars(t.series_number, "SeriesNumber"@, 5);
    lemma_padded_number_path_chars(t.instance_number, "InstanceNumber"@, 4);
    lemma_hash7_path_chars(seahash_of(strip_nul(t.series_instance_uid.unwrap()@)));
    assert(all_path_chars("SERVICES/PACS/"@));
    assert(all_path_chars("/"@));
    assert(all_path_chars("-"@));
    assert(all_path_chars(".dcm"@));
}

} // verus!

verus! {

pub broadcast proof fn lemma_component_chars_concat(a: Seq<char>, b: Seq<char>)
    requires
        crate::sanitize::all_component_chars(a),
        crate::sanitize::all_component_chars(b),
    ensures
        #[trigger] crate::sanitize::all_component_chars(a + b),
{
    assert forall|i: int| 0 <= i < (a + b).len() implies crate::sanitize::is_component_char(
        #[trigger] (a + b)[i],
    ) by {
        if i < a.len() {
            assert((a + b)[i] == a[i]);
        } else {
            assert((a + b)[i] == b[i - a.len()]);
        }
    }
}

/// The storage path of an instance is `SERVICES/PACS/` followed by five
/// segments joined by `/` (PACS; patient; study; series; file), and no
/// segment holds a `/`: the only `/` are the template's separators.
pub proof fn lemma_storage_path_segments(pacs: Seq<char>, t: DicomTags)
    requires
        missing_required(t) is None,
    ensures
        exists|s1: Seq<char>, s2: Seq<char>, s3: Seq<char>, s4: Seq<char>, s5: Seq<char>|
            crate::sanitize::all_component_chars(s1) && crate::sanitize::all_component_chars(s2)
                && crate::sanitize::all_component_chars(s3) && crate::sanitize::all_component_chars(
                s4,
            ) && crate::sanitize::all_component_chars(s5) && series_dir_text(pacs, t) == "SERVICES/PACS/"@
                + s1 + "/"@ + s2 + "/"@ + s3 + "/"@ + s4 && file_name_text(t) == s5,
{
    broadcast use lemma_component_chars_concat;

    reveal_strlit("-");
    reveal_strlit(".dcm");
    reveal_strlit("SeriesNumber");
    reveal_strlit("InstanceNumber");
    let s1 = sanitized_component(pacs);
    let s2 = sanitized_component(t.patient_id.unwrap()@) + "-"@ + sanitized_component(
        or_placeholder(t.patient_name, "PatientName"@),
    ) + "-"@ + sanitized_component(or_placeholder(t.patient_birth_date, "PatientBirthDate"@));
    let s3 = sanitized_component(or_placeholder(t.study_description, "StudyDescription"@)) + "-"@
        + sanitized_component(or_placeholder(t.accession_number, "AccessionNumber"@)) + "-"@
        + sanitized_component(t.study_date.unwrap()@);
    let s4 = zero_padded(number_text(t.series_number, "SeriesNumber"@), 5) + "-"@
        + sanitized_component(or_placeholder(t.series_description, "SeriesDescription"@)) + "-"@
        + hash7(seahash_of(strip_nul(t.series_instance_uid.unwrap()@)));
    let s5 = file_name_text(t);
    crate::sanitize::lemma_sanitized_component_chars(pacs);
    crate::sanitize::lemma_sanitized_component_chars(t.patient_id.unwrap()@);
    crate::sanitize::lemma_sanitized_component_chars(or_placeholder(t.patient_name, "PatientName"@));
    crate::sanitize::lemma_sanitized_component_chars(
        or_placeholder(t.patient_birth_date, "PatientBirthDate"@),
    );
    crate::sanitize::lemma_sanitized_component_chars(
        or_placeholder(t.study_description, "StudyDescription"@),
    );
    crate::sanitize::lemma_sanitized_component_chars(
        or_placeholder(t.accession_number, "AccessionNumber"@),
    );
    crate::sanitize::lemma_sanitized_component_chars(t.study_date.unwrap()@);
    crate::sanitize::lemma_sanitized_component_chars(
        or_placeholder(t.series_description, "SeriesDescription"@),
    );
    crate::sanitize::lemma_sanitized_component_chars(t.sop_instance_uid.unwrap()@);
    assert(crate::sanitize::all_component_chars("-"@));
    assert(crate::sanitize::all_component_chars(".dcm"@));
    assert(crate::sanitize::all_component_chars("SeriesNumber"@));
    assert(crate::sanitize::all_component_chars("InstanceNumber"@));
    lemma_padded_number_component_chars(t.series_number, "SeriesNumber"@, 5);
    lemma_padded_number_component_chars(t.instance_number, "InstanceNumber"@, 4);
    lemma_hash7_component_chars(seahash_of(strip_nul(t.series_instance_uid.unwrap()@)));
    assert(series_dir_text(pacs, t) == "SERVICES/PACS/"@ + s1 + "/"@ + s2 + "/"@ + s3 + "/"@ + s4);
    assert(crate::sanitize::all_component_chars(s5));
}

proof fn lemma_padded_number_component_chars(o: Option<String>, placeholder: Seq<char>, width: nat)
    requires
        crate::sanitize::all_component_chars(placeholder),
    ensures
        crate::sanitize::all_component_chars(zero_padded(number_text(o, placeholder), width)),
{
    broadcast use lemma_component_chars_concat;

    let t = number_text(o, placeholder);
    match o {
        Some(s) => match u32_text_value(s@) {
            Some(v) => {
                crate::text::lemma_decimal_text_chars(v);
            },
            None => {
                crate::sanitize::lemma_sanitized_component_chars(s@);
            },
        },
        None => {},
    }
    assert(crate::sanitize::all_component_chars(t));
    if t.len() < width {
        let zeros = Seq::new((width - t.len()) as nat, |i: int| '0');
        assert(crate::sanitize::all_component_chars(zeros));
    }
}

proof fn lemma_hash7_component_chars(h: u64)
    ensures
        crate::sanitize::all_component_chars(hash7(h)),
{
    crate::text::lemma_hex_text_chars(h as nat);
    let x = hex_text(h as nat);
    if x.len() > 7 {
        assert forall|i: int| 0 <= i < 7 implies crate::sanitize::is_component_char(
            #[trigger] x.subrange(0, 7)[i],
        ) by {
            assert(x.subrange(0, 7)[i] == x[i]);
        }
    }
}

} // verus!
