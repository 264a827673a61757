//! Trusted declarations for the pattern-matching crate: one matcher
//! per widget, each over its fixed pattern.
use vstd::prelude::*;

verus! {

/// The capture groups of the battery status pattern on a text: the
/// leftmost match's groups, or None when the pattern does not match.
/// The result is a function of the text alone, the pattern being fixed.
pub uninterp spec fn acpi_captures_of(text: Seq<char>) -> Option<Seq<Option<Seq<char>>>>;

/// The capture groups of the memory status pattern on a text.
pub uninterp spec fn free_captures_of(text: Seq<char>) -> Option<Seq<Option<Seq<char>>>>;

/// Relies on regex::Regex::new and regex::Regex::captures, on the fixed
/// battery status pattern: the captures of the leftmost match, each
/// group's text as an owned string, deterministic in the text. The
/// pattern is a valid literal, so the unwrap cannot fail.
#[verifier::external_body]
pub(crate) fn battery_captures(text: &str) -> (r: Option<Vec<Option<String>>>)
    ensures
        r.deep_view() == acpi_captures_of(text@),
{
    let re = regex::Regex::new(
        "Battery \\d: (\\S+), (\\d+)%, (?:(\\d+):(\\d+):(\\d+)|discharging at zero rate)",
    )
    .unwrap();
    re.captures(text).map(|caps| caps.iter().map(|m| m.map(|g| g.as_str().to_string())).collect())
}

/// Relies on regex::Regex::new and regex::Regex::captures, on the fixed
/// memory status pattern; otherwise as `battery_captures`.
#[verifier::external_body]
pub(crate) fn memory_captures(text: &str) -> (r: Option<Vec<Option<String>>>)
    ensures
        r.deep_view() == free_captures_of(text@),
{
    let re = regex::Regex::new("Mem:\\s+(\\d+)\\s+(\\d+)\\s+(\\d+)").unwrap();
    re.captures(text).map(|caps| caps.iter().map(|m| m.map(|g| g.as_str().to_string())).collect())
}

} // verus!
