//! The closed set of wake words the detector is trained on, and the
//! stable string identifier of each.

use vstd::prelude::*;

verus! {

/// A wake word supported by the detection engine. The string identifier
/// of a keyword is used both for menu display and for matching keyword
/// asset file names.
#[derive(PartialEq, Eq, Clone, Copy, Debug, Structural)]
pub enum Keywords {
    Position,
}

/// The identifier of a keyword, as it appears at the front of a keyword
/// asset file name.
pub open spec fn keyword_id(k: Keywords) -> Seq<char> {
    match k {
        Keywords::Position => "position"@,
    }
}

/// What parsing an identifier yields: the keyword with that identifier,
/// or nothing when no keyword has it.
pub open spec fn parse_keyword(s: Seq<char>) -> Option<Keywords> {
    if s == "position"@ {
        Some(Keywords::Position)
    } else {
        None
    }
}

impl Keywords {
    /// The stable string identifier of this keyword.
    pub fn to_str(&self) -> (r: &'static str)
        ensures
            r@ == keyword_id(*self),
    {
        match self {
            Keywords::Position => "position",
        }
    }

    /// Parses a string identifier back into a keyword; every identifier
    /// returned by `to_str` parses to the keyword it came from.
    pub fn from_str(s: &str) -> (r: Result<Keywords, ()>)
        ensures
            r matches Ok(k) ==> parse_keyword(s@) == Some(k),
            r is Err ==> parse_keyword(s@) is None,
    {
        if crate::strutil::str_equal(s, "position") {
            Ok(Keywords::Position)
        } else {
            Err(())
        }
    }

    /// The identifiers of all supported keywords, in the order they are
    /// offered for selection.
    pub fn options() -> (r: Vec<&'static str>)
        ensures
            r@.len() == 1,
            r@[0]@ == "position"@,
    {
        vec!["position"]
    }
}

} // verus!
