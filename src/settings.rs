//! Defaults of the service's settings.
use vstd::prelude::*;

verus! {

/// Settings of the DICOM upper layer.
#[derive(Clone, Debug, PartialEq, Eq)]
pub struct DicomRsSettings {
    /// Our AE title.
    pub aet: String,
    /// Whether received PDUs must not exceed the maximum PDU length.
    pub strict: bool,
    /// Whether only uncompressed transfer syntaxes are accepted.
    pub uncompressed_only: bool,
    /// Whether unknown abstract syntaxes are accepted too.
    pub promiscuous: bool,
}

/// Our AE title unless configured: `ChRIS`.
pub fn default_aet() -> (r: String)
    ensures
        r@ == "ChRIS"@,
{
    String::from_str("ChRIS")
}

/// Queue of the registration tasks unless configured: `main2`.
pub fn default_queue_name() -> (r: String)
    ensures
        r@ == "main2"@,
{
    String::from_str("main2")
}

/// Number of associations served at once unless configured.
pub fn default_listener_threads() -> (r: usize)
    ensures
        r == 8,
{
    8
}

/// TCP port listened on unless configured.
pub fn default_listener_port() -> (r: u16)
    ensures
        r == 11112,
{
    11112
}

/// Minimum interval between two optional progress notifications of a
/// series, in nanoseconds, unless configured: 1 ns, which limits nothing.
pub fn default_progress_interval() -> (r: u64)
    ensures
        r == 1,
{
    1
}

/// Maximum PDU length unless configured.
pub fn default_max_pdu_length() -> (r: usize)
    ensures
        r == 16384,
{
    16384
}

impl DicomRsSettings {
    /// Settings with every option at its default.
    pub fn defaults() -> (r: DicomRsSettings)
        ensures
            r.aet@ == "ChRIS"@,
            !r.strict,
            !r.uncompressed_only,
            !r.promiscuous,
    {
        DicomRsSettings {
            aet: default_aet(),
            strict: false,
            uncompressed_only: false,
            promiscuous: false,
        }
    }
}

} // verus!
