//! Small helpers on strings.

use vstd::prelude::*;

verus! {

/// The lower-case form of a text, as `str::to_lowercase` of the standard
/// library gives it.
pub uninterp spec fn lowercase_text(text: Seq<char>) -> Seq<char>;

/// `str::to_lowercase`: each character replaced by its Unicode lower-case
/// form.
#[verifier::external_body]
pub(crate) fn to_lowercase(text: &str) -> (lower: String)
    ensures
        lower@ == lowercase_text(text@),
{
    text.to_lowercase()
}

/// Whether `text` reads exactly as `literal`.
pub fn text_is(text: &String, literal: &str) -> (same: bool)
    ensures
        same == (text@ == literal@),
{
    let owned = literal.to_owned();
    *text == owned
}

/// The characters of a text.
pub fn chars_of(text: &str) -> (chars: Vec<char>)
    ensures
        chars@ == text@,
{
    let mut chars: Vec<char> = Vec::new();
    for c in it: text.chars()
        invariant
            chars@ == it.seq().take(it.index() as int),
            it.seq() == text@,
    {
        chars.push(c);
    }
    chars
}

/// Whether a character is white space, as Unicode defines it.
pub open spec fn is_white_space(c: char) -> bool {
    let code = c as u32;
    ||| 0x09 <= code <= 0x0D
    ||| code == 0x20
    ||| code == 0x85
    ||| code == 0xA0
    ||| code == 0x1680
    ||| 0x2000 <= code <= 0x200A
    ||| code == 0x2028
    ||| code == 0x2029
    ||| code == 0x202F
    ||| code == 0x205F
    ||| code == 0x3000
}

/// Whether a character is white space, as Unicode defines it.
pub fn white_space(c: char) -> (r: bool)
    ensures
        r == is_white_space(c),
{
    let code = c as u32;
    (0x09 <= code && code <= 0x0D) || code == 0x20 || code == 0x85 || code == 0xA0 || code
        == 0x1680 || (0x2000 <= code && code <= 0x200A) || code == 0x2028 || code == 0x2029
        || code == 0x202F || code == 0x205F || code == 0x3000
}

/// The number of white-space characters at the start of a text.
pub open spec fn leading_space(text: Seq<char>) -> nat
    decreases text.len(),
{
    if text.len() > 0 && is_white_space(text[0]) {
        1 + leading_space(text.skip(1))
    } else {
        0
    }
}

/// The number of white-space characters at the end of a text.
pub open spec fn trailing_space(text: Seq<char>) -> nat
    decreases text.len(),
{
    if text.len() > 0 && is_white_space(text.last()) {
        1 + trailing_space(text.drop_last())
    } else {
        0
    }
}

/// A text without the white space at its start and at its end.
pub open spec fn trimmed(text: Seq<char>) -> Seq<char> {
    let rest = text.skip(leading_space(text) as int);
    rest.take(rest.len() - trailing_space(rest))
}

/// The bounds of the part of `chars` between `from` and `to` without the
/// white space at its start and at its end.
pub fn trim_bounds(chars: &Vec<char>, from: usize, to: usize) -> (bounds: (usize, usize))
    requires
        from <= to <= chars@.len(),
    ensures
        from <= bounds.0 <= bounds.1 <= to,
        chars@.subrange(bounds.0 as int, bounds.1 as int) == trimmed(
            chars@.subrange(from as int, to as int),
        ),
{
    let ghost piece = chars@.subrange(from as int, to as int);
    let mut lo = from;
    while lo < to && white_space(chars[lo])
        invariant
            from <= lo <= to <= chars@.len(),
            piece == chars@.subrange(from as int, to as int),
            leading_space(piece) == (lo - from) + leading_space(
                chars@.subrange(lo as int, to as int),
            ),
        decreases to - lo,
    {
        proof {
            let here = chars@.subrange(lo as int, to as int);
            assert(here[0] == chars@[lo as int]);
            assert(here.skip(1) =~= chars@.subrange(lo as int + 1, to as int));
        }
        lo = lo + 1;
    }
    proof {
        let here = chars@.subrange(lo as int, to as int);
        if lo < to {
            assert(here[0] == chars@[lo as int]);
        }
        assert(leading_space(here) == 0);
        assert(piece.skip((lo - from) as int) =~= here);
    }
    let ghost rest = chars@.subrange(lo as int, to as int);
    let mut hi = to;
    while hi > lo && white_space(chars[hi - 1])
        invariant
            from <= lo <= hi <= to <= chars@.len(),
            rest == chars@.subrange(lo as int, to as int),
            trailing_space(rest) == (to - hi) + trailing_space(chars@.subrange(lo as int, hi as int)),
        decreases hi - lo,
    {
        proof {
            let here = chars@.subrange(lo as int, hi as int);
            assert(here.last() == chars@[hi as int - 1]);
            assert(here.drop_last() =~= chars@.subrange(lo as int, hi as int - 1));
        }
        hi = hi - 1;
    }
    proof {
        let here = chars@.subrange(lo as int, hi as int);
        if hi > lo {
            assert(here.last() == chars@[hi as int - 1]);
        }
        assert(trailing_space(here) == 0);
        assert(rest.take(rest.len() - (to - hi)) =~= here);
    }
    (lo, hi)
}

/// Whether a character is a decimal digit.
pub open spec fn is_digit(c: char) -> bool {
    '0' <= c <= '9'
}

/// The number that a run of decimal digits writes.
pub open spec fn digits_value(digits: Seq<char>) -> nat
    decreases digits.len(),
{
    if digits.len() == 0 {
        0
    } else {
        digits_value(digits.drop_last()) * 10 + (digits.last() as nat - '0' as nat) as nat
    }
}

/// Whether a text is a run of decimal digits.
pub open spec fn all_digits(text: Seq<char>) -> bool {
    forall|i: int| 0 <= i < text.len() ==> is_digit(#[trigger] text[i])
}

/// The number that a text writes: decimal digits, at least one, behind an
/// optional plus sign. Any other text writes no number.
pub open spec fn unsigned_value(text: Seq<char>) -> Option<nat> {
    let digits = if text.len() > 0 && text[0] == '+' {
        text.skip(1)
    } else {
        text
    };
    if digits.len() > 0 && all_digits(digits) {
        Some(digits_value(digits))
    } else {
        None
    }
}

/// The number that a text writes, if it writes one that is at most `max`.
pub open spec fn bounded_value(text: Seq<char>, max: u64) -> Option<u64> {
    match unsigned_value(text) {
        Some(value) => if value <= max {
            Some(value as u64)
        } else {
            None
        },
        None => None,
    }
}

/// Reads the number that the part of `chars` between `from` and `to`
/// writes, if it writes one that is at most `max`.
pub fn parse_unsigned(chars: &Vec<char>, from: usize, to: usize, max: u64) -> (r: Option<u64>)
    requires
        from <= to <= chars@.len(),
    ensures
        r == bounded_value(chars@.subrange(from as int, to as int), max),
{
    let ghost text = chars@.subrange(from as int, to as int);
    let mut start = from;
    if start < to && chars[start] == '+' {
        start = start + 1;
    }
    let ghost digits = chars@.subrange(start as int, to as int);
    proof {
        if from < to {
            assert(text[0] == chars@[from as int]);
        }
        if start > from {
            assert(text.skip(1) =~= digits);
        } else {
            assert(text =~= digits);
        }
    }
    if start == to {
        return None;
    }
    let mut value: u64 = 0;
    let mut over = false;
    let mut i = start;
    proof {
        assert(digits.take(0) =~= Seq::<char>::empty());
    }
    while i < to
        invariant
            start <= i <= to <= chars@.len(),
            start < to,
            digits == chars@.subrange(start as int, to as int),
            unsigned_value(chars@.subrange(from as int, to as int)) == if all_digits(digits) {
                Some(digits_value(digits))
            } else {
                None
            },
            all_digits(digits.take(i - start)),
            over ==> digits_value(digits.take(i - start)) > max,
            !over ==> value == digits_value(digits.take(i - start)) && value <= max,
        decreases to - i,
    {
        let c = chars[i];
        let ghost seen = digits.take(i - start);
        let ghost next = digits.take(i - start + 1);
        proof {
            assert(digits[i - start] == c);
            assert(next.drop_last() =~= seen);
            assert(next.last() == c);
        }
        if c < '0' || c > '9' {
            proof {
                assert(!is_digit(digits[i - start]));
                assert(!all_digits(digits));
            }
            return None;
        }
        let digit: u64 = (c as u32 - '0' as u32) as u64;
        proof {
            assert forall|k: int| 0 <= k < next.len() implies is_digit(#[trigger] next[k]) by {
                if k < seen.len() {
                    assert(next[k] == seen[k]);
                }
            }
            assert(digits_value(next) == digits_value(seen) * 10 + digit);
        }
        if !over {
            let wide: u128 = (value as u128) * 10 + (digit as u128);
            if wide > max as u128 {
                over = true;
            } else {
                value = wide as u64;
            }
        }
        i = i + 1;
    }
    proof {
        assert(digits.take(to - start) =~= digits);
    }
    if over {
        None
    } else {
        Some(value)
    }
}

/// The place of the first comma of a text, or its length where it has none.
pub open spec fn comma_at(text: Seq<char>) -> nat
    decreases text.len(),
{
    if text.len() == 0 || text[0] == ',' {
        0
    } else {
        1 + comma_at(text.skip(1))
    }
}

/// The numbers that a comma-separated list writes: each piece, without the
/// white space around it, writes a number of at most `max`. A list with a
/// piece that writes no such number writes nothing. The empty text is a
/// list of one empty piece.
pub open spec fn number_list(text: Seq<char>, max: u64) -> Option<Seq<u64>>
    decreases text.len(),
{
    let cut = comma_at(text);
    if cut >= text.len() {
        match bounded_value(trimmed(text), max) {
            Some(value) => Some(seq![value]),
            None => None,
        }
    } else {
        match bounded_value(trimmed(text.take(cut as int)), max) {
            Some(value) => match number_list(text.skip(cut as int + 1), max) {
                Some(rest) => Some(seq![value] + rest),
                None => None,
            },
            None => None,
        }
    }
}

/// The numbers read so far, followed by those that the rest of a list writes.
pub open spec fn continued(read: Seq<u64>, rest: Option<Seq<u64>>) -> Option<Seq<u64>> {
    match rest {
        Some(more) => Some(read + more),
        None => None,
    }
}

/// Reads the numbers that a comma-separated list writes.
pub fn parse_number_list(text: &str, max: u64) -> (r: Option<Vec<u64>>)
    ensures
        match r {
            Some(numbers) => number_list(text@, max) == Some(numbers@),
            None => number_list(text@, max) is None,
        },
{
    let chars = chars_of(text);
    let mut numbers: Vec<u64> = Vec::new();
    let mut from: usize = 0;
    proof {
        assert(chars@.skip(0) =~= chars@);
        assert(Seq::<u64>::empty() + number_list(chars@, max)->Some_0 =~= number_list(
            chars@,
            max,
        )->Some_0);
    }
    loop
        invariant
            from <= chars@.len(),
            chars@ == text@,
            number_list(chars@, max) == continued(numbers@, number_list(chars@.skip(from as int), max)),
        decreases chars@.len() - from,
    {
        let ghost rest = chars@.skip(from as int);
        let mut cut = from;
        while cut < chars.len() && chars[cut] != ','
            invariant
                from <= cut <= chars@.len(),
                rest == chars@.skip(from as int),
                comma_at(rest) == (cut - from) + comma_at(chars@.skip(cut as int)),
            decreases chars@.len() - cut,
        {
            proof {
                let here = chars@.skip(cut as int);
                assert(here[0] == chars@[cut as int]);
                assert(here.skip(1) =~= chars@.skip(cut as int + 1));
            }
            cut = cut + 1;
        }
        proof {
            let here = chars@.skip(cut as int);
            if cut < chars@.len() {
                assert(here[0] == chars@[cut as int]);
            }
            assert(comma_at(here) == 0);
            assert(rest.take(cut - from) =~= chars@.subrange(from as int, cut as int));
            if cut == chars@.len() {
                assert(rest =~= chars@.subrange(from as int, cut as int));
            }
        }
        let (lo, hi) = trim_bounds(&chars, from, cut);
        let value = match parse_unsigned(&chars, lo, hi, max) {
            Some(value) => value,
            None => {
                return None;
            },
        };
        let ghost before = numbers@;
        numbers.push(value);
        if cut == chars.len() {
            proof {
                assert(before + seq![value] =~= numbers@);
            }
            return Some(numbers);
        }
        proof {
            assert(rest.skip(cut - from + 1) =~= chars@.skip(cut as int + 1));
            let tail = number_list(chars@.skip(cut as int + 1), max);
            if tail is Some {
                assert(before + (seq![value] + tail->Some_0) =~= numbers@ + tail->Some_0);
            }
        }
        from = cut + 1;
    }
}

} // verus!
