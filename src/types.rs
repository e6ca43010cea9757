//! The data that flows between the stages: AE titles, series keys,
//! calendar dates and the per-series metadata.
use vstd::prelude::*;
use crate::text::{decimal_text, push_decimal, push_zero_padded, string_of, zero_padded};

verus! {

/// The AE title of a peer PACS pushing DICOM instances to us.
#[derive(Clone, Debug, PartialEq, Eq, Hash)]
pub struct AETitle {
    pub name: String,
}

impl View for AETitle {
    type V = Seq<char>;

    open spec fn view(&self) -> Seq<char> {
        self.name@
    }
}

impl AETitle {
    pub fn new(name: String) -> (r: AETitle)
        ensures
            r.name == name,
    {
        AETitle { name }
    }

    pub fn as_str(&self) -> (r: &str)
        ensures
            r@ == self@,
    {
        self.name.as_str()
    }

    /// A copy of this title.
    pub fn copied(&self) -> (r: AETitle)
        ensures
            r == *self,
    {
        AETitle { name: self.name.clone() }
    }
}

/// The identity of a series as seen downstream: the SeriesInstanceUID, the
/// AE title of the PACS that sent it, and the association that carried it.
/// Two associations pushing the same series have different keys.
#[derive(Clone, Debug, PartialEq, Eq, Hash)]
pub struct SeriesKey {
    pub series_instance_uid: String,
    pub pacs_name: AETitle,
    /// Identifier of the association (a 128-bit ULID).
    pub association: u128,
}

/// What identifies a series key: its three components.
pub type SeriesId = (Seq<char>, Seq<char>, u128);

impl View for SeriesKey {
    type V = SeriesId;

    open spec fn view(&self) -> SeriesId {
        (self.series_instance_uid@, self.pacs_name@, self.association)
    }
}

impl SeriesKey {
    pub fn new(series_instance_uid: String, pacs_name: AETitle, association: u128) -> (r: SeriesKey)
        ensures
            r.series_instance_uid == series_instance_uid,
            r.pacs_name == pacs_name,
            r.association == association,
    {
        SeriesKey { series_instance_uid, pacs_name, association }
    }

    /// A copy of this key.
    pub fn copied(&self) -> (r: SeriesKey)
        ensures
            r == *self,
    {
        SeriesKey {
            series_instance_uid: self.series_instance_uid.clone(),
            pacs_name: self.pacs_name.copied(),
            association: self.association,
        }
    }

    /// Whether both keys name the same series under the same association.
    pub fn same_as(&self, other: &SeriesKey) -> (r: bool)
        ensures
            r == (self@ == other@),
    {
        self.association == other.association && self.series_instance_uid
            == other.series_instance_uid && self.pacs_name.name == other.pacs_name.name
    }
}

/// Whether `year` is a leap year of the proleptic Gregorian calendar.
pub open spec fn is_leap_year(year: int) -> bool {
    (year % 4 == 0 && year % 100 != 0) || year % 400 == 0
}

/// Number of days of `month` (1 to 12) in `year`.
pub open spec fn days_in_month(year: int, month: int) -> int {
    if month == 2 {
        if is_leap_year(year) {
            29
        } else {
            28
        }
    } else if month == 4 || month == 6 || month == 9 || month == 11 {
        30
    } else {
        31
    }
}

/// Whether year, month and day name a day of the proleptic Gregorian calendar.
pub open spec fn is_calendar_date(year: int, month: int, day: int) -> bool {
    -9999 <= year <= 9999 && 1 <= month <= 12 && 1 <= day <= days_in_month(year, month)
}

/// A calendar date with a four-digit year.
#[derive(Clone, Copy, Debug, PartialEq, Eq, Hash)]
pub struct CalendarDate {
    pub year: u16,
    pub month: u8,
    pub day: u8,
}

/// `"YYYY-MM-DD"`.
pub open spec fn iso_date_text(year: nat, month: nat, day: nat) -> Seq<char> {
    zero_padded(decimal_text(year), 4) + seq!['-'] + zero_padded(decimal_text(month), 2) + seq!['-']
        + zero_padded(decimal_text(day), 2)
}

impl CalendarDate {
    pub open spec fn wf(&self) -> bool {
        self.year <= 9999 && is_calendar_date(self.year as int, self.month as int, self.day as int)
    }

    /// The date as `YYYY-MM-DD`.
    pub fn iso(&self) -> (r: String)
        ensures
            r@ == iso_date_text(self.year as nat, self.month as nat, self.day as nat),
    {
        let mut out: Vec<char> = Vec::new();
        let mut y: Vec<char> = Vec::new();
        push_decimal(&mut y, self.year as u64);
        push_zero_padded(&mut out, &y, 4);
        out.push('-');
        let mut m: Vec<char> = Vec::new();
        push_decimal(&mut m, self.month as u64);
        push_zero_padded(&mut out, &m, 2);
        out.push('-');
        let mut d: Vec<char> = Vec::new();
        push_decimal(&mut d, self.day as u64);
        push_zero_padded(&mut out, &d, 2);
        string_of(&out)
    }
}

/// An event in the life of a series: an instance arrived (with a payload
/// that says how its storage went), or the series is complete.
#[derive(Debug, PartialEq, Eq)]
pub enum SeriesEvent<T, F> {
    Instance(T),
    Finish(F),
}

/// Metadata of a DICOM series that the registration of the series needs.
/// `path` is the directory of the series under the storage root.
#[derive(Clone, Debug, PartialEq, Eq)]
pub struct DicomInfo {
    pub patient_id: String,
    pub study_date: CalendarDate,
    pub study_instance_uid: String,
    pub series_instance_uid: String,
    pub pacs_name: AETitle,
    pub path: String,
    pub patient_name: Option<String>,
    pub patient_birth_date: Option<String>,
    /// Patient age in days.
    pub patient_age: Option<i32>,
    pub patient_sex: Option<String>,
    pub accession_number: Option<String>,
    pub modality: Option<String>,
    pub protocol_name: Option<String>,
    pub study_description: Option<String>,
    pub series_description: Option<String>,
}

impl DicomInfo {
    /// The study date as `YYYY-MM-DD`, as the registration task carries it.
    pub fn study_date_iso(&self) -> (r: String)
        ensures
            r@ == iso_date_text(
                self.study_date.year as nat,
                self.study_date.month as nat,
                self.study_date.day as nat,
            ),
    {
        self.study_date.iso()
    }
}

} // verus!
