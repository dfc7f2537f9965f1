//! Output styles of the structured logger, chosen by name.
use vstd::prelude::*;

use crate::text::same_text;

verus! {

/// How log lines are laid out.
#[derive(Debug, Clone, Copy, PartialEq, Eq, Structural)]
pub enum LogStyle {
    Plain,
    Compact,
    Pretty,
    Json,
}

/// What `str::to_lowercase` yields for a text.
pub uninterp spec fn lower_of(s: Seq<char>) -> Seq<char>;

/// Relies on `str::to_lowercase`: the lower-case mapping of each character;
/// an empty text stays empty.
#[verifier::external_body]
fn lowercase(s: &str) -> (r: String)
    ensures
        r@ == lower_of(s@),
        s@.len() == 0 ==> r@.len() == 0,
{
    s.to_lowercase()
}

/// The style that an already lower-cased name selects, or `fallback` for any
/// other name.
pub open spec fn style_named(lowered: Seq<char>, fallback: LogStyle) -> LogStyle {
    if lowered == "plain"@ {
        LogStyle::Plain
    } else if lowered == "compact"@ {
        LogStyle::Compact
    } else if lowered == "pretty"@ {
        LogStyle::Pretty
    } else if lowered == "json"@ {
        LogStyle::Json
    } else {
        fallback
    }
}

impl LogStyle {
    /// The style that an already lower-cased name selects, or `fallback`.
    pub fn from_lowered(lowered: &str, fallback: LogStyle) -> (r: LogStyle)
        ensures
            r == style_named(lowered@, fallback),
    {
        if same_text(lowered, "plain") {
            LogStyle::Plain
        } else if same_text(lowered, "compact") {
            LogStyle::Compact
        } else if same_text(lowered, "pretty") {
            LogStyle::Pretty
        } else if same_text(lowered, "json") {
            LogStyle::Json
        } else {
            fallback
        }
    }

    /// The style named by `s`, compared without regard to case, or `fallback`
    /// for any other name (`auto` among them).
    pub fn from_str_or(s: &str, fallback: LogStyle) -> (r: LogStyle)
        ensures
            r == style_named(lower_of(s@), fallback),
    {
        let lowered = lowercase(s);
        LogStyle::from_lowered(lowered.as_str(), fallback)
    }

    /// The style named by `s`, compared without regard to case; any other name
    /// selects the development default, `Pretty`.
    pub fn from_str(s: &str) -> (r: LogStyle)
        ensures
            r == style_named(lower_of(s@), LogStyle::Pretty),
    {
        LogStyle::from_str_or(s, LogStyle::Pretty)
    }
}

} // verus!
