//! What the front end shares with the runtime that executes a model.

use vstd::prelude::*;

use crate::text::{
    decimal, is_digit, is_one_line, lemma_decimal, lemma_decimal_is_one_line,
    lemma_one_line_concat, push_decimal,
};

verus! {

/// A place in the source code.
#[verifier::ext_equal]
pub struct Place {
    pub file: Seq<char>,
    pub line: u32,
    pub column: u32,
}

/// The location of an operation in the tested code, i.e. the call site that
/// `#[track_caller]` reports for it.
#[derive(Debug, Copy, Clone)]
pub struct Location<'a> {
    pub file: &'a str,
    pub line: u32,
    pub column: u32,
}

impl<'a> View for Location<'a> {
    type V = Place;

    open spec fn view(&self) -> Place {
        Place { file: self.file@, line: self.line, column: self.column }
    }
}

/// A place as `<file>:<line>:<column>`.
pub open spec fn place_text(place: Place) -> Seq<char> {
    place.file + ":"@ + decimal(place.line as nat) + ":"@ + decimal(place.column as nat)
}

/// Appends a place as `<file>:<line>:<column>`.
pub fn push_place(out: &mut String, file: &str, line: u32, column: u32)
    ensures
        final(out)@ == old(out)@ + place_text(Place { file: file@, line, column }),
{
    out.append(file);
    out.append(":");
    push_decimal(out, line as u64);
    out.append(":");
    push_decimal(out, column as u64);
    proof {
        assert(out@ =~= old(out)@ + place_text(Place { file: file@, line, column }));
    }
}

/// A value that an atomic object can hold: an integer or a boolean.
pub trait Numeric: Copy {
    /// The `Debug` text of the value.
    spec fn debug(self) -> Seq<char>;

    /// Whether two values are the same.
    fn equals(self, other: Self) -> (same: bool)
        ensures
            same == (self == other),
    ;

    /// Appends the `Debug` text of the value.
    fn push_debug(self, out: &mut String)
        ensures
            final(out)@ == old(out)@ + self.debug(),
    ;

    /// The `Debug` text is part of one line.
    proof fn lemma_debug_is_one_line(self)
        ensures
            is_one_line(self.debug()),
    ;

    /// The `Debug` text can be told from what surrounds it in a call.
    proof fn lemma_debug_is_plain(self)
        ensures
            is_plain(self.debug()),
    ;

    /// The `Debug` text is that of one value only.
    proof fn lemma_debug_determines(self, other: Self)
        requires
            self.debug() == other.debug(),
        ensures
            self == other,
    ;
}

/// Whether a text has no character that separates the parts of a call.
pub open spec fn is_plain(s: Seq<char>) -> bool {
    !s.contains('(') && !s.contains(',') && !s.contains(')')
}

/// An integer in decimal, with a `-` if it is negative.
pub open spec fn signed_decimal(n: int) -> Seq<char> {
    if n < 0 {
        "-"@ + decimal((-n) as nat)
    } else {
        decimal(n as nat)
    }
}

/// Appends an integer in decimal.
fn push_signed_decimal(out: &mut String, n: i64)
    ensures
        final(out)@ == old(out)@ + signed_decimal(n as int),
{
    if n < 0 {
        out.append("-");
        push_decimal(out, (-(n + 1)) as u64 + 1);
        proof {
            assert(out@ =~= old(out)@ + signed_decimal(n as int));
        }
    } else {
        push_decimal(out, n as u64);
    }
}

proof fn lemma_signed_decimal_is_one_line(n: int)
    ensures
        is_one_line(signed_decimal(n)),
{
    reveal_strlit("-");
    if n < 0 {
        lemma_decimal_is_one_line((-n) as nat);
        assert(is_one_line("-"@));
        lemma_one_line_concat("-"@, decimal((-n) as nat));
    } else {
        lemma_decimal_is_one_line(n as nat);
    }
}

/// Digits can be told from what surrounds them in a call.
proof fn lemma_decimal_is_plain(n: nat)
    ensures
        is_plain(decimal(n)),
        !decimal(n).contains('-'),
{
    lemma_decimal(n);
    let s = decimal(n);
    assert forall|i: int| 0 <= i < s.len() implies s[i] != '(' && s[i] != ',' && s[i] != ')' && s[i]
        != '-' by {
        assert(is_digit(s[i]));
    }
}

/// Two numbers are not written alike.
proof fn lemma_decimal_determines(a: nat, b: nat)
    requires
        decimal(a) == decimal(b),
    ensures
        a == b,
{
    lemma_decimal(a);
    lemma_decimal(b);
}

proof fn lemma_signed_decimal_is_plain(n: int)
    ensures
        is_plain(signed_decimal(n)),
{
    reveal_strlit("-");
    if n < 0 {
        let digits = decimal((-n) as nat);
        lemma_decimal_is_plain((-n) as nat);
        let s = signed_decimal(n);
        assert forall|i: int| 0 <= i < s.len() implies s[i] != '(' && s[i] != ',' && s[i]
            != ')' by {
            if i > 0 {
                assert(s[i] == digits[i - 1]);
            }
        }
    } else {
        lemma_decimal_is_plain(n as nat);
    }
}

proof fn lemma_signed_decimal_determines(a: int, b: int)
    requires
        signed_decimal(a) == signed_decimal(b),
    ensures
        a == b,
{
    reveal_strlit("-");
    lemma_decimal(if a < 0 { (-a) as nat } else { a as nat });
    lemma_decimal(if b < 0 { (-b) as nat } else { b as nat });
    lemma_decimal_is_plain(if a < 0 { (-a) as nat } else { a as nat });
    lemma_decimal_is_plain(if b < 0 { (-b) as nat } else { b as nat });
    if a < 0 && b < 0 {
        assert(signed_decimal(a).skip(1) =~= decimal((-a) as nat));
        assert(signed_decimal(b).skip(1) =~= decimal((-b) as nat));
    } else if a < 0 {
        assert(signed_decimal(a)[0] == '-');
        assert(decimal(b as nat)[0] == '-');
    } else if b < 0 {
        assert(signed_decimal(b)[0] == '-');
        assert(decimal(a as nat)[0] == '-');
    }
}

impl Numeric for u8 {
    open spec fn debug(self) -> Seq<char> {
        decimal(self as nat)
    }

    fn equals(self, other: Self) -> (same: bool) {
        self == other
    }

    fn push_debug(self, out: &mut String) {
        push_decimal(out, self as u64);
    }

    proof fn lemma_debug_is_one_line(self) {
        lemma_decimal_is_one_line(self as nat);
    }

    proof fn lemma_debug_is_plain(self) {
        lemma_decimal_is_plain(self as nat);
    }

    proof fn lemma_debug_determines(self, other: Self) {
        lemma_decimal_determines(self as nat, other as nat);
    }
}

impl Numeric for u16 {
    open spec fn debug(self) -> Seq<char> {
        decimal(self as nat)
    }

    fn equals(self, other: Self) -> (same: bool) {
        self == other
    }

    fn push_debug(self, out: &mut String) {
        push_decimal(out, self as u64);
    }

    proof fn lemma_debug_is_one_line(self) {
        lemma_decimal_is_one_line(self as nat);
    }

    proof fn lemma_debug_is_plain(self) {
        lemma_decimal_is_plain(self as nat);
    }

    proof fn lemma_debug_determines(self, other: Self) {
        lemma_decimal_determines(self as nat, other as nat);
    }
}

impl Numeric for u32 {
    open spec fn debug(self) -> Seq<char> {
        decimal(self as nat)
    }

    fn equals(self, other: Self) -> (same: bool) {
        self == other
    }

    fn push_debug(self, out: &mut String) {
        push_decimal(out, self as u64);
    }

    proof fn lemma_debug_is_one_line(self) {
        lemma_decimal_is_one_line(self as nat);
    }

    proof fn lemma_debug_is_plain(self) {
        lemma_decimal_is_plain(self as nat);
    }

    proof fn lemma_debug_determines(self, other: Self) {
        lemma_decimal_determines(self as nat, other as nat);
    }
}

impl Numeric for u64 {
    open spec fn debug(self) -> Seq<char> {
        decimal(self as nat)
    }

    fn equals(self, other: Self) -> (same: bool) {
        self == other
    }

    fn push_debug(self, out: &mut String) {
        push_decimal(out, self as u64);
    }

    proof fn lemma_debug_is_one_line(self) {
        lemma_decimal_is_one_line(self as nat);
    }

    proof fn lemma_debug_is_plain(self) {
        lemma_decimal_is_plain(self as nat);
    }

    proof fn lemma_debug_determines(self, other: Self) {
        lemma_decimal_determines(self as nat, other as nat);
    }
}

impl Numeric for usize {
    open spec fn debug(self) -> Seq<char> {
        decimal(self as nat)
    }

    fn equals(self, other: Self) -> (same: bool) {
        self == other
    }

    fn push_debug(self, out: &mut String) {
        push_decimal(out, self as u64);
    }

    proof fn lemma_debug_is_one_line(self) {
        lemma_decimal_is_one_line(self as nat);
    }

    proof fn lemma_debug_is_plain(self) {
        lemma_decimal_is_plain(self as nat);
    }

    proof fn lemma_debug_determines(self, other: Self) {
        lemma_decimal_determines(self as nat, other as nat);
    }
}

impl Numeric for i8 {
    open spec fn debug(self) -> Seq<char> {
        signed_decimal(self as int)
    }

    fn equals(self, other: Self) -> (same: bool) {
        self == other
    }

    fn push_debug(self, out: &mut String) {
        push_signed_decimal(out, self as i64);
    }

    proof fn lemma_debug_is_one_line(self) {
        lemma_signed_decimal_is_one_line(self as int);
    }

    proof fn lemma_debug_is_plain(self) {
        lemma_signed_decimal_is_plain(self as int);
    }

    proof fn lemma_debug_determines(self, other: Self) {
        lemma_signed_decimal_determines(self as int, other as int);
    }
}

impl Numeric for i16 {
    open spec fn debug(self) -> Seq<char> {
        signed_decimal(self as int)
    }

    fn equals(self, other: Self) -> (same: bool) {
        self == other
    }

    fn push_debug(self, out: &mut String) {
        push_signed_decimal(out, self as i64);
    }

    proof fn lemma_debug_is_one_line(self) {
        lemma_signed_decimal_is_one_line(self as int);
    }

    proof fn lemma_debug_is_plain(self) {
        lemma_signed_decimal_is_plain(self as int);
    }

    proof fn lemma_debug_determines(self, other: Self) {
        lemma_signed_decimal_determines(self as int, other as int);
    }
}

impl Numeric for i32 {
    open spec fn debug(self) -> Seq<char> {
        signed_decimal(self as int)
    }

    fn equals(self, other: Self) -> (same: bool) {
        self == other
    }

    fn push_debug(self, out: &mut String) {
        push_signed_decimal(out, self as i64);
    }

    proof fn lemma_debug_is_one_line(self) {
        lemma_signed_decimal_is_one_line(self as int);
    }

    proof fn lemma_debug_is_plain(self) {
        lemma_signed_decimal_is_plain(self as int);
    }

    proof fn lemma_debug_determines(self, other: Self) {
        lemma_signed_decimal_determines(self as int, other as int);
    }
}

impl Numeric for i64 {
    open spec fn debug(self) -> Seq<char> {
        signed_decimal(self as int)
    }

    fn equals(self, other: Self) -> (same: bool) {
        self == other
    }

    fn push_debug(self, out: &mut String) {
        push_signed_decimal(out, self as i64);
    }

    proof fn lemma_debug_is_one_line(self) {
        lemma_signed_decimal_is_one_line(self as int);
    }

    proof fn lemma_debug_is_plain(self) {
        lemma_signed_decimal_is_plain(self as int);
    }

    proof fn lemma_debug_determines(self, other: Self) {
        lemma_signed_decimal_determines(self as int, other as int);
    }
}

impl Numeric for isize {
    open spec fn debug(self) -> Seq<char> {
        signed_decimal(self as int)
    }

    fn equals(self, other: Self) -> (same: bool) {
        self == other
    }

    fn push_debug(self, out: &mut String) {
        push_signed_decimal(out, self as i64);
    }

    proof fn lemma_debug_is_one_line(self) {
        lemma_signed_decimal_is_one_line(self as int);
    }

    proof fn lemma_debug_is_plain(self) {
        lemma_signed_decimal_is_plain(self as int);
    }

    proof fn lemma_debug_determines(self, other: Self) {
        lemma_signed_decimal_determines(self as int, other as int);
    }
}

impl Numeric for bool {
    open spec fn debug(self) -> Seq<char> {
        if self {
            "true"@
        } else {
            "false"@
        }
    }

    fn equals(self, other: Self) -> (same: bool) {
        self == other
    }

    fn push_debug(self, out: &mut String) {
        out.append(if self { "true" } else { "false" });
    }

    proof fn lemma_debug_is_one_line(self) {
        reveal_strlit("true");
        reveal_strlit("false");
    }

    proof fn lemma_debug_is_plain(self) {
        reveal_strlit("true");
        reveal_strlit("false");
    }

    proof fn lemma_debug_determines(self, other: Self) {
        reveal_strlit("true");
        reveal_strlit("false");
        assert("true"@.len() == 4 && "false"@.len() == 5);
    }
}

/// A location is the place with its file, its line and its column, so two locations are the same
/// place exactly when all of these are the same.
pub proof fn law_location_is_its_fields(a: Location<'_>, b: Location<'_>)
    ensures
        a@.file == a.file@ && a@.line == a.line && a@.column == a.column,
        a@ == b@ <==> a.file@ == b.file@ && a.line == b.line && a.column == b.column,
{
}

/// A place is written as its file, its line and its column, with a `:` between two of them.
pub proof fn law_place_is_written_as_its_fields(place: Place)
    ensures
        place_text(place) == place.file + seq![':'] + decimal(place.line as nat) + seq![':']
            + decimal(place.column as nat),
{
    reveal_strlit(":");
    assert(":"@ =~= seq![':']);
}

/// An unsigned integer is traced in decimal.
pub proof fn law_unsigned_integers_are_written_in_decimal(a: u8, b: u16, c: u32, d: u64, e: usize)
    ensures
        a.debug() == decimal(a as nat),
        b.debug() == decimal(b as nat),
        c.debug() == decimal(c as nat),
        d.debug() == decimal(d as nat),
        e.debug() == decimal(e as nat),
{
}

/// A signed integer is traced as its absolute value in decimal, after a `-` exactly when it is
/// negative.
pub proof fn law_signed_integers_are_written_in_decimal(a: i8, b: i16, c: i32, d: i64, e: isize)
    ensures
        a.debug() == sign(a as int) + decimal(vstd::math::abs(a as int)),
        b.debug() == sign(b as int) + decimal(vstd::math::abs(b as int)),
        c.debug() == sign(c as int) + decimal(vstd::math::abs(c as int)),
        d.debug() == sign(d as int) + decimal(vstd::math::abs(d as int)),
        e.debug() == sign(e as int) + decimal(vstd::math::abs(e as int)),
{
    lemma_sign(a as int);
    lemma_sign(b as int);
    lemma_sign(c as int);
    lemma_sign(d as int);
    lemma_sign(e as int);
}

/// What precedes the digits of an integer.
pub open spec fn sign(n: int) -> Seq<char> {
    if n < 0 {
        seq!['-']
    } else {
        seq![]
    }
}

proof fn lemma_sign(n: int)
    ensures
        signed_decimal(n) == sign(n) + decimal(vstd::math::abs(n)),
{
    reveal_strlit("-");
    assert("-"@ =~= seq!['-']);
    assert(signed_decimal(n) =~= sign(n) + decimal(vstd::math::abs(n)));
}

/// A boolean is traced as `true` or `false`.
pub proof fn law_booleans_are_written_out(b: bool)
    ensures
        b.debug() == "true"@ <==> b,
        b.debug() == "false"@ <==> !b,
{
    reveal_strlit("true");
    reveal_strlit("false");
    assert("true"@.len() == 4 && "false"@.len() == 5);
}

} // verus!
