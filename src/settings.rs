//! Reading of boolean settings and of the peak resident set size.
use vstd::prelude::*;

use crate::text::copy_str;

verus! {

/// What `str::to_lowercase` makes of a string.
pub uninterp spec fn lower_of(s: Seq<char>) -> Seq<char>;

/// Relies on `str::to_lowercase`: the result depends on the characters alone.
#[verifier::external_body]
fn lowercase(s: &str) -> (r: String)
    ensures
        r@ == lower_of(s@),
{
    s.to_lowercase()
}

/// The value of a boolean word: `1`, `true`, `on` or `0`, `false`, `off`.
pub open spec fn bool_word_value(w: Seq<char>) -> Option<bool> {
    if w == "1"@ || w == "true"@ || w == "on"@ {
        Some(true)
    } else if w == "0"@ || w == "false"@ || w == "off"@ {
        Some(false)
    } else {
        None
    }
}

fn same_text(a: &str, b: &str) -> (r: bool)
    ensures
        r == (a@ == b@),
{
    copy_str(a) == copy_str(b)
}

/// Reads an already lower-cased boolean word; `None` for anything else.
pub fn bool_word(lowered: &str) -> (r: Option<bool>)
    ensures
        r == bool_word_value(lowered@),
{
    if same_text(lowered, "1") || same_text(lowered, "true") || same_text(lowered, "on") {
        Some(true)
    } else if same_text(lowered, "0") || same_text(lowered, "false") || same_text(lowered, "off") {
        Some(false)
    } else {
        None
    }
}

/// Reads a boolean setting, in any letter case; `None` where it is not one.
pub fn bool_setting(value: &str) -> (r: Option<bool>)
    ensures
        r == bool_word_value(lower_of(value@)),
{
    let lowered = lowercase(value);
    bool_word(lowered.as_str())
}

/// The unit in which the operating system reports the peak resident set size.
#[derive(Clone, Copy, Debug, PartialEq, Eq, Structural)]
pub enum RssUnit {
    /// Kilobytes (Linux).
    Kilobytes,
    /// Bytes (macOS and the BSDs).
    Bytes,
    /// Not known: no figure is given, rather than a wrong one.
    Unknown,
}

/// The peak resident set size in mebibytes (rounded down); a negative figure
/// counts as none.
pub fn max_rss_mib(max_rss: i64, unit: RssUnit) -> (r: i64)
    ensures
        max_rss < 0 ==> r == 0,
        max_rss >= 0 ==> r == match unit {
            RssUnit::Kilobytes => max_rss / 1024,
            RssUnit::Bytes => max_rss / 1024 / 1024,
            RssUnit::Unknown => 0,
        },
{
    if max_rss < 0 {
        return 0;
    }
    match unit {
        RssUnit::Kilobytes => max_rss / 1024,
        RssUnit::Bytes => max_rss / 1024 / 1024,
        RssUnit::Unknown => 0,
    }
}

} // verus!
