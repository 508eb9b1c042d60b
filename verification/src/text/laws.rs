//! What holds of text as a whole.

use vstd::arithmetic::div_mod::lemma_div_denominator;
use vstd::arithmetic::power::{lemma_pow0, lemma_pow_positive, pow};
use vstd::prelude::*;

use crate::text::{
    all_digits, byte_length, bytes_before, decimal, digit_char, is_digit, is_text_before,
    lemma_byte_length_concat, lemma_decimal, lemma_decimal_reads_back, lemma_text_irreflexive,
    lemma_text_total, lemma_text_transitive, number, parse_u32, parsed_u32, push_decimal, repeated,
    rsplit_colon, same_text, split_at_last_colon, text_before, unsigned_digits,
};

verus! {

/// A power of ten is ten times the previous one.
proof fn lemma_next_power(k: nat)
    ensures
        pow(10, k + 1) == 10 * pow(10, k),
        pow(10, k) > 0,
{
    reveal(pow);
    lemma_pow_positive(10, k);
}

/// A number is written with as many digits as it needs, the first one being that of the highest
/// power of ten: digit `i` from the left tells how often the power of its position goes into
/// the number, of which the last digit counts.
pub proof fn law_decimal_is_positional(n: nat, i: int)
    requires
        0 <= i < decimal(n).len(),
    ensures
        n < pow(10, decimal(n).len()),
        decimal(n).len() > 1 ==> pow(10, (decimal(n).len() - 1) as nat) <= n,
        decimal(n)[i] as int == '0' as int + (n as int / pow(
            10,
            (decimal(n).len() - 1 - i) as nat,
        )) % 10,
    decreases n,
{
    lemma_decimal(n);
    lemma_pow0(10);
    lemma_next_power(0);
    if n >= 10 {
        let head = decimal(n / 10);
        lemma_decimal(n / 10);
        let j = if i < head.len() {
            i
        } else {
            0
        };
        law_decimal_is_positional(n / 10, j);
        lemma_next_power(head.len());
        lemma_next_power((head.len() - 1) as nat);
        if i < head.len() {
            let k = (head.len() - 1 - i) as nat;
            lemma_next_power(k);
            lemma_div_denominator(n as int, 10, pow(10, k));
            assert((decimal(n).len() - 1 - i) as nat == k + 1);
            assert(decimal(n)[i] == head[i]);
        } else {
            assert((decimal(n).len() - 1 - i) as nat == 0);
            assert(decimal(n)[i] == digit_char(n % 10));
            assert(n as int / 1 == n);
        }
    } else {
        assert((decimal(n).len() - 1 - i) as nat == 0);
        assert(decimal(n)[i] == digit_char(n));
        assert(n as int / 1 == n);
    }
}

/// A sequence of digits stands for the sum of what its parts stand for, the first part being
/// moved to the left by the other one; a digit stands for its distance from `0`.
pub proof fn law_number_is_positional(a: Seq<char>, b: Seq<char>, digit: char)
    requires
        '0' <= digit <= '9',
    ensures
        number(a + b) == number(a) * pow(10, b.len()) + number(b),
        number(seq![digit]) == digit as int - '0' as int,
    decreases b.len(),
{
    lemma_pow0(10);
    assert(seq![digit].drop_last() =~= Seq::<char>::empty());
    assert(number(seq![digit].drop_last()) == 0);
    if b.len() == 0 {
        assert(a + b =~= a);
    } else {
        let head = b.drop_last();
        law_number_is_positional(a, head, digit);
        lemma_next_power(head.len());
        assert((a + b).drop_last() =~= a + head);
        assert((a + b).last() == b.last());
        let p = pow(10, head.len());
        assert(number(a) * (10 * p) == (number(a) * p) * 10) by (nonlinear_arith);
    }
}

/// `n` times a character is that character at each of `n` positions.
pub proof fn law_repeated_is_that_character(c: char, n: nat)
    ensures
        repeated(c, n).len() == n,
        forall|i: int| 0 <= i < n ==> #[trigger] repeated(c, n)[i] == c,
{
}

/// Zeros in front of digits change nothing.
proof fn lemma_zeros(zeros: nat, digits: Seq<char>)
    ensures
        number(repeated('0', zeros) + digits) == number(digits),
    decreases zeros,
{
    let all = repeated('0', zeros) + digits;
    if zeros == 0 {
        assert(all =~= digits);
    } else {
        let fewer = (zeros - 1) as nat;
        let rest = repeated('0', fewer) + digits;
        assert(all =~= seq!['0'] + rest);
        lemma_zeros(fewer, digits);
        law_number_is_positional(seq!['0'], rest, '0');
        assert(0 * pow(10, rest.len()) == 0);
    }
}

/// Digits are those of the number that they stand for, but for zeros in front.
proof fn lemma_canonical(digits: Seq<char>)
    requires
        digits.len() > 0,
        all_digits(digits),
    ensures
        exists|zeros: nat| digits == #[trigger] repeated('0', zeros) + decimal(number(digits)),
    decreases digits.len(),
{
    let head = digits.drop_last();
    let d = (digits.last() as int - 48) as nat;
    let m = number(head);
    let n = number(digits);
    assert(is_digit(digits[digits.len() - 1]));
    assert(digits.last() == digit_char(d));
    assert(n == m * 10 + d);
    if digits.len() == 1 {
        assert(head =~= Seq::<char>::empty());
        assert(m == 0);
        assert(digits =~= repeated('0', 0) + decimal(n));
    } else {
        assert forall|i: int| 0 <= i < head.len() implies is_digit(#[trigger] head[i]) by {
            assert(is_digit(digits[i]));
        }
        lemma_canonical(head);
        let zeros = choose|zeros: nat| head == #[trigger] repeated('0', zeros) + decimal(m);
        assert(digits =~= head.push(digit_char(d)));
        if m == 0 {
            assert(digit_char(0) == '0');
            assert(digits =~= repeated('0', zeros + 1) + decimal(n));
        } else {
            assert(n / 10 == m && n % 10 == d);
            assert(digits =~= repeated('0', zeros) + decimal(n));
        }
    }
}

/// A text is read as a number exactly when it is that number in decimal, possibly after zeros,
/// and after a `+`.
pub proof fn law_numbers_are_read_in_decimal(s: Seq<char>, n: u32)
    ensures
        parsed_u32(s) == Some(n) <==> exists|zeros: nat|
            {
                ||| s == #[trigger] repeated('0', zeros) + decimal(n as nat)
                ||| s == seq!['+'] + (repeated('0', zeros) + decimal(n as nat))
            },
{
    let digits = unsigned_digits(s);
    if parsed_u32(s) == Some(n) {
        lemma_canonical(digits);
        let zeros = choose|zeros: nat|
            digits == #[trigger] repeated('0', zeros) + decimal(n as nat);
        assert(digits == repeated('0', zeros) + decimal(n as nat));
        if s[0] == '+' {
            assert(s =~= seq!['+'] + digits);
        }
    }
    if exists|zeros: nat|
        {
            ||| s == #[trigger] repeated('0', zeros) + decimal(n as nat)
            ||| s == seq!['+'] + (repeated('0', zeros) + decimal(n as nat))
        } {
        let zeros = choose|zeros: nat|
            {
                ||| s == #[trigger] repeated('0', zeros) + decimal(n as nat)
                ||| s == seq!['+'] + (repeated('0', zeros) + decimal(n as nat))
            };
        let written = repeated('0', zeros) + decimal(n as nat);
        lemma_decimal(n as nat);
        lemma_zeros(zeros, decimal(n as nat));
        assert forall|i: int| 0 <= i < written.len() implies is_digit(#[trigger] written[i]) by {
            if i >= zeros {
                assert(is_digit(decimal(n as nat)[i - zeros]));
            }
        }
        assert(is_digit(written[0]));
        assert((seq!['+'] + written).skip(1) =~= written);
        assert(digits == written);
    }
}

/// A text is split into what precedes and what follows a `:`, the latter containing none, and
/// is not split exactly when it contains none itself.
pub proof fn law_split_is_at_the_last_colon(
    s: Seq<char>,
    before: Seq<char>,
    after: Seq<char>,
)
    ensures
        split_at_last_colon(s) == Some((before, after)) <==> s == before + seq![':'] + after
            && !after.contains(':'),
        split_at_last_colon(s) is None <==> !s.contains(':'),
{
    s.index_of_last_ensures(':');
    if split_at_last_colon(s) == Some((before, after)) {
        assert(s =~= before + seq![':'] + after);
    }
    if s == before + seq![':'] + after && !after.contains(':') {
        let i = before.len() as int;
        assert(s[i] == ':');
        assert forall|j: int| i < j < s.len() implies s[j] != ':' by {
            assert(s[j] == after[j - i - 1]);
        }
        crate::text::lemma_last_colon(s, i);
        assert(s.take(i) =~= before);
        assert(s.skip(i + 1) =~= after);
    }
}

/// Whether two sequences agree up to a position at which the first one ends, or is smaller.
pub open spec fn differs_at(a: Seq<u8>, b: Seq<u8>, k: int) -> bool {
    &&& 0 <= k <= a.len()
    &&& k < b.len()
    &&& a.take(k) == b.take(k)
    &&& k == a.len() || a[k] < b[k]
}

/// Moving both sequences moves the position.
proof fn lemma_differs_later(a: Seq<u8>, b: Seq<u8>, k: int)
    requires
        a.len() > 0,
        b.len() > 0,
        a[0] == b[0],
        k >= 1,
    ensures
        differs_at(a, b, k) <==> differs_at(a.drop_first(), b.drop_first(), k - 1),
{
    if k <= a.len() && k <= b.len() {
        let x = a.drop_first();
        let y = b.drop_first();
        assert(x.take(k - 1) =~= a.take(k).drop_first());
        assert(y.take(k - 1) =~= b.take(k).drop_first());
        assert(a.take(k) =~= seq![a[0]] + x.take(k - 1));
        assert(b.take(k) =~= seq![b[0]] + y.take(k - 1));
    }
}

proof fn lemma_bytes_differ(a: Seq<u8>, b: Seq<u8>)
    ensures
        bytes_before(a, b) <==> exists|k: int| differs_at(a, b, k),
    decreases a.len(),
{
    if a.len() > 0 && b.len() > 0 && a[0] == b[0] {
        let x = a.drop_first();
        let y = b.drop_first();
        lemma_bytes_differ(x, y);
        if bytes_before(a, b) {
            let k = choose|k: int| differs_at(x, y, k);
            lemma_differs_later(a, b, k + 1);
            assert(differs_at(a, b, k + 1));
        }
        if exists|k: int| differs_at(a, b, k) {
            let k = choose|k: int| differs_at(a, b, k);
            assert(k >= 1);
            lemma_differs_later(a, b, k);
            assert(differs_at(x, y, k - 1));
        }
    } else {
        if bytes_before(a, b) {
            assert(a.take(0) =~= b.take(0));
            assert(differs_at(a, b, 0));
        }
        if exists|k: int| differs_at(a, b, k) {
            let k = choose|k: int| differs_at(a, b, k);
            if k > 0 {
                assert(a.take(k)[0] == b.take(k)[0]);
            }
        }
    }
}

/// A text comes before another one exactly when their bytes agree up to a position at which the
/// first one ends, or has the smaller byte.
pub proof fn law_texts_are_ordered_by_their_bytes(a: Seq<char>, b: Seq<char>)
    ensures
        text_before(a, b) <==> exists|k: int|
            differs_at(vstd::utf8::encode_utf8(a), vstd::utf8::encode_utf8(b), k),
{
    lemma_bytes_differ(vstd::utf8::encode_utf8(a), vstd::utf8::encode_utf8(b));
}

/// A text takes as many bytes as its parts, and a character takes as many as UTF-8 gives it.
pub proof fn law_bytes_are_those_of_the_characters(a: Seq<char>, b: Seq<char>, c: char)
    ensures
        byte_length(Seq::empty()) == 0,
        byte_length(a + b) == byte_length(a) + byte_length(b),
        byte_length(seq![c]) == if (c as u32) < 0x80 {
            1nat
        } else if (c as u32) < 0x800 {
            2
        } else if (c as u32) < 0x10000 {
            3
        } else {
            4
        },
{
    lemma_byte_length_concat(a, b);
    assert(seq![c].drop_first() =~= Seq::<char>::empty());
    assert(vstd::utf8::encode_utf8(Seq::<char>::empty()).len() == 0);
}

/// A number that is written is read back as itself, and what is written follows what is there.
pub proof fn law_written_number_is_read_back(
    out: &mut String,
    n: u32,
    s: &str,
    read: Option<u32>,
)
    requires
        old(out)@.len() == 0,
        call_ensures(push_decimal, (out, n as u64), ()),
        s@ == final(out)@,
        call_ensures(parse_u32, (s,), read),
    ensures
        read == Some(n),
{
    assert(final(out)@ =~= decimal(n as nat));
    lemma_decimal_reads_back(n);
}

/// Of two texts, they are the same, or one of them comes before the other one, and not both.
pub proof fn law_texts_are_compared<'a>(
    a: &'a str,
    b: &'a str,
    same: bool,
    before: bool,
    after: bool,
)
    requires
        call_ensures(same_text, (a, b), same),
        call_ensures(is_text_before, (a, b), before),
        call_ensures(is_text_before, (b, a), after),
    ensures
        same <==> a@ == b@,
        same || before || after,
        !(same && before) && !(same && after) && !(before && after),
        before <==> exists|k: int|
            differs_at(vstd::utf8::encode_utf8(a@), vstd::utf8::encode_utf8(b@), k),
{
    lemma_text_total(a@, b@);
    lemma_text_irreflexive(a@);
    if before && after {
        lemma_text_transitive(a@, b@, a@);
    }
    law_texts_are_ordered_by_their_bytes(a@, b@);
}

/// A text is split at its last `:`, so putting the parts together with a `:` gives it back.
pub proof fn law_split_parts_make_up_the_text<'a>(
    s: &'a str,
    parts: Option<(&'a str, &'a str)>,
)
    requires
        call_ensures(rsplit_colon, (s,), parts),
    ensures
        parts is None <==> !s@.contains(':'),
        parts matches Some((before, after)) ==> s@ == before@ + seq![':'] + after@
            && !after@.contains(':'),
{
    law_split_is_at_the_last_colon(s@, seq![], seq![]);
    if let Some((before, after)) = parts {
        law_split_is_at_the_last_colon(s@, before@, after@);
    }
}

} // verus!
