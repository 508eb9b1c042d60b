//! The call site of a downgradable operation.

use vstd::prelude::*;

use crate::rt::{Location, Place};
use crate::text::laws::law_split_is_at_the_last_colon;
use crate::text::{
    is_digit, parse_u32, parsed_u32, rsplit_colon, same_text, split_at_last_colon,
    unsigned_digits,
};

verus! {

/// The call site of a downgradable operation, i.e. the location `#[track_caller]` reports
/// for it. The column disambiguates two operations sharing a line, and the file prevents a
/// line number from matching in another one.
#[derive(Debug)]
pub struct Site {
    pub file: String,
    pub line: u32,
    pub column: u32,
}

impl View for Site {
    type V = Place;

    open spec fn view(&self) -> Place {
        Place { file: self.file@, line: self.line, column: self.column }
    }
}

/// The place that a `<file>:<line>:<column>` text stands for. The file is what precedes the
/// last two fields, and can contain a `:`.
pub open spec fn site_in(s: Seq<char>) -> Option<Place> {
    match split_at_last_colon(s) {
        Some((rest, column)) => match split_at_last_colon(rest) {
            Some((file, line)) => match (parsed_u32(line), parsed_u32(column)) {
                (Some(line), Some(column)) => Some(Place { file, line, column }),
                _ => None,
            },
            None => None,
        },
        None => None,
    }
}

impl Site {
    /// Parses a `<file>:<line>:<column>` site. It parses from the right, because a Windows
    /// path can contain a ':'.
    pub fn parse(s: &str) -> (site: Option<Site>)
        ensures
            match site {
                Some(site) => site_in(s@) == Some(site@),
                None => site_in(s@) is None,
            },
    {
        let (rest, column) = match rsplit_colon(s) {
            Some(parts) => parts,
            None => return None,
        };
        let (file, line) = match rsplit_colon(rest) {
            Some(parts) => parts,
            None => return None,
        };
        match (parse_u32(line), parse_u32(column)) {
            (Some(line), Some(column)) => Some(Site { file: file.to_owned(), line, column }),
            _ => None,
        }
    }

    /// Whether an operation at that location is at this site.
    pub fn matches(&self, location: &Location<'_>) -> (same: bool)
        ensures
            same == (self@ == location@),
            same == (self.file@ == location.file@ && self.line == location.line && self.column
                == location.column),
    {
        self.line == location.line && self.column == location.column && same_text(
            self.file.as_str(),
            location.file,
        )
    }
}

/// A text is a site exactly when it is a file, a line and a column with a `:` between two of
/// them, the last two being numbers, and it is the site with these fields.
pub proof fn law_site_has_the_format(s: Seq<char>, place: Place)
    ensures
        site_in(s) == Some(place) <==> exists|line: Seq<char>, column: Seq<char>|
            s == place.file + seq![':'] + line + seq![':'] + column && #[trigger] parsed_u32(line)
                == Some(place.line) && #[trigger] parsed_u32(column) == Some(place.column),
{
    if site_in(s) == Some(place) {
        let (rest, column) = split_at_last_colon(s)->0;
        let (file, line) = split_at_last_colon(rest)->0;
        law_split_is_at_the_last_colon(s, rest, column);
        law_split_is_at_the_last_colon(rest, file, line);
        assert(s == place.file + seq![':'] + line + seq![':'] + column);
        assert(parsed_u32(line) == Some(place.line));
        assert(parsed_u32(column) == Some(place.column));
    }
    if exists|line: Seq<char>, column: Seq<char>|
        s == place.file + seq![':'] + line + seq![':'] + column && #[trigger] parsed_u32(line)
            == Some(place.line) && #[trigger] parsed_u32(column) == Some(place.column) {
        let (line, column) = choose|line: Seq<char>, column: Seq<char>|
            s == place.file + seq![':'] + line + seq![':'] + column && #[trigger] parsed_u32(line)
                == Some(place.line) && #[trigger] parsed_u32(column) == Some(place.column);
        lemma_number_has_no_colon(line);
        lemma_number_has_no_colon(column);
        let rest = place.file + seq![':'] + line;
        law_split_is_at_the_last_colon(s, rest, column);
        law_split_is_at_the_last_colon(rest, place.file, line);
    }
}

/// A written number has no `:`.
proof fn lemma_number_has_no_colon(s: Seq<char>)
    requires
        parsed_u32(s) is Some,
    ensures
        !s.contains(':'),
{
    let digits = unsigned_digits(s);
    assert forall|i: int| 0 <= i < s.len() implies s[i] != ':' by {
        if s[0] == '+' {
            if i > 0 {
                assert(s[i] == digits[i - 1]);
                assert(is_digit(digits[i - 1]));
            }
        } else {
            assert(is_digit(digits[i]));
        }
    }
}

} // verus!
