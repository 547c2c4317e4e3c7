//! Numbers as they are written in fields: signed decimal integers, which are
//! read exactly, and float literals, which are recognised and kept as text.

use crate::text::chars_of;
use vstd::prelude::*;

verus! {

/// Why the text of a field is not a value of the type that the field declares.
#[derive(Clone, Copy, Debug, PartialEq, Eq, Structural)]
pub enum Fault {
    /// The field is empty.
    Empty,
    /// An integer field holds a character that is not a digit, or only a sign.
    InvalidDigit,
    /// An integer field holds a number above the largest 64-bit integer.
    PosOverflow,
    /// An integer field holds a number below the smallest 64-bit integer.
    NegOverflow,
    /// The field is not written in the notation that its type asks for.
    Malformed,
    /// The field is well written but its value lies outside what can be
    /// represented as an instant, a UTC offset or a duration.
    OutOfRange,
}

impl Fault {
    /// The fault in words.
    pub open spec fn message_spec(&self) -> Seq<char> {
        match *self {
            Fault::Empty => "empty field"@,
            Fault::InvalidDigit => "invalid digit found in string"@,
            Fault::PosOverflow => "number too large to fit in target type"@,
            Fault::NegOverflow => "number too small to fit in target type"@,
            Fault::Malformed => "malformed value"@,
            Fault::OutOfRange => "value out of range"@,
        }
    }

    /// The fault in words.
    pub fn message(&self) -> (message: &'static str)
        ensures
            message@ == self.message_spec(),
    {
        match self {
            Fault::Empty => "empty field",
            Fault::InvalidDigit => "invalid digit found in string",
            Fault::PosOverflow => "number too large to fit in target type",
            Fault::NegOverflow => "number too small to fit in target type",
            Fault::Malformed => "malformed value",
            Fault::OutOfRange => "value out of range",
        }
    }
}

/// Whether `c` is one of the ten ASCII digits.
pub open spec fn is_digit(c: char) -> bool {
    '0' <= c && c <= '9'
}

/// The number that the digit `c` stands for.
pub open spec fn digit_value(c: char) -> int {
    c as int - '0' as int
}

/// Whether every character of `s` is a digit.
pub open spec fn all_digits(s: Seq<char>) -> bool {
    forall|i: int| 0 <= i < s.len() ==> is_digit(#[trigger] s[i])
}

/// Length of the longest prefix of `s` that is made of digits.
pub open spec fn digit_run(s: Seq<char>) -> int
    decreases s.len(),
{
    if s.len() == 0 || !is_digit(s[0]) {
        0
    } else {
        1 + digit_run(s.skip(1))
    }
}

/// The number written by `digits` in base ten; zero for no digits.
pub open spec fn decimal_value(digits: Seq<char>) -> int
    decreases digits.len(),
{
    if digits.len() == 0 {
        0
    } else {
        10 * decimal_value(digits.drop_last()) + digit_value(digits.last())
    }
}

/// Whether `s` starts with a minus sign.
pub open spec fn is_negative(s: Seq<char>) -> bool {
    s.len() > 0 && s[0] == '-'
}

/// `s` without its leading sign, if it has one.
pub open spec fn unsigned_part(s: Seq<char>) -> Seq<char> {
    if s.len() > 0 && (s[0] == '-' || s[0] == '+') {
        s.skip(1)
    } else {
        s
    }
}

/// What `s` means as a signed 64-bit integer: an optional sign followed by one
/// or more digits, whose value must fit. Reading goes from left to right, so a
/// number that leaves the range before a bad character is reached is reported
/// as an overflow.
pub open spec fn parse_int(s: Seq<char>) -> Result<i64, Fault> {
    let body = unsigned_part(s);
    let run = body.take(digit_run(body));
    let magnitude = decimal_value(run);
    if s.len() == 0 {
        Err(Fault::Empty)
    } else if body.len() == 0 {
        Err(Fault::InvalidDigit)
    } else if is_negative(s) && -magnitude < i64::MIN {
        Err(Fault::NegOverflow)
    } else if !is_negative(s) && magnitude > i64::MAX {
        Err(Fault::PosOverflow)
    } else if run.len() < body.len() {
        Err(Fault::InvalidDigit)
    } else if is_negative(s) {
        Ok((-magnitude) as i64)
    } else {
        Ok(magnitude as i64)
    }
}

/// The digit run lies within the sequence, covers digits only, and stops at
/// the first character that is not a digit.
pub proof fn lemma_digit_run_bounds(s: Seq<char>)
    ensures
        0 <= digit_run(s) <= s.len(),
        forall|i: int| 0 <= i < digit_run(s) ==> is_digit(#[trigger] s[i]),
        digit_run(s) < s.len() ==> !is_digit(s[digit_run(s)]),
    decreases s.len(),
{
    if !(s.len() == 0 || !is_digit(s[0])) {
        let rest = s.skip(1);
        lemma_digit_run_bounds(rest);
        assert forall|i: int| 0 <= i < digit_run(s) implies is_digit(#[trigger] s[i]) by {
            if i > 0 {
                assert(rest[i - 1] == s[i]);
            }
        }
        if digit_run(s) < s.len() {
            assert(rest[digit_run(rest)] == s[digit_run(s)]);
        }
    }
}

/// A prefix of digits that ends at a non-digit, or at the end, is the digit run.
pub proof fn lemma_digit_run_is(s: Seq<char>, end: int)
    requires
        0 <= end <= s.len(),
        forall|i: int| 0 <= i < end ==> is_digit(#[trigger] s[i]),
        end == s.len() || !is_digit(s[end]),
    ensures
        digit_run(s) == end,
{
    lemma_digit_run_bounds(s);
    let run = digit_run(s);
    if run < end {
        assert(is_digit(s[run]));
    } else if run > end {
        assert(is_digit(s[end]));
    }
}

/// Appending one digit multiplies the value by ten and adds the digit.
pub proof fn lemma_decimal_value_step(s: Seq<char>, k: int)
    requires
        0 <= k < s.len(),
    ensures
        decimal_value(s.take(k + 1)) == 10 * decimal_value(s.take(k)) + digit_value(s[k]),
{
    assert(s.take(k + 1).drop_last() =~= s.take(k));
}

/// The value of a run of digits is not negative and does not shrink when the
/// run is extended.
pub proof fn lemma_decimal_value_grows(s: Seq<char>, shorter: int, longer: int)
    requires
        0 <= shorter <= longer <= s.len(),
        forall|i: int| 0 <= i < longer ==> is_digit(#[trigger] s[i]),
    ensures
        0 <= decimal_value(s.take(shorter)) <= decimal_value(s.take(longer)),
    decreases longer,
{
    if longer == 0 {
        assert(s.take(0).len() == 0);
    } else if shorter == longer {
        lemma_decimal_value_grows(s, 0, longer - 1);
        lemma_decimal_value_step(s, longer - 1);
        assert(is_digit(s[longer - 1]));
    } else {
        lemma_decimal_value_grows(s, shorter, longer - 1);
        lemma_decimal_value_step(s, longer - 1);
        assert(is_digit(s[longer - 1]));
    }
}

/// Whether `c` is a digit.
pub fn digit(c: char) -> (yes: bool)
    ensures
        yes == is_digit(c),
{
    '0' <= c && c <= '9'
}

/// The number that the digit `c` stands for.
pub fn digit_number(c: char) -> (value: i64)
    requires
        is_digit(c),
    ensures
        value == digit_value(c),
        0 <= value <= 9,
{
    (c as u32 - '0' as u32) as i64
}

/// Reads `text` as a signed 64-bit integer in base ten.
pub fn read_int(text: &str) -> (out: Result<i64, Fault>)
    ensures
        out == parse_int(text@),
{
    let chars = chars_of(text);
    let n = chars.len();
    if n == 0 {
        return Err(Fault::Empty);
    }
    let negative = chars[0] == '-';
    let start: usize = if chars[0] == '-' || chars[0] == '+' {
        1
    } else {
        0
    };
    if start == n {
        return Err(Fault::InvalidDigit);
    }
    let ghost body = text@.skip(start as int);
    assert(body =~= unsigned_part(text@));
    let mut acc: i64 = 0;
    let mut i: usize = start;
    assert(body.take(0).len() == 0);
    while i < n
        invariant
            chars@ == text@,
            n == chars.len(),
            start <= i <= n,
            start < n,
            body == text@.skip(start as int),
            body == unsigned_part(text@),
            negative == is_negative(text@),
            forall|j: int| 0 <= j < i - start ==> is_digit(#[trigger] body[j]),
            negative ==> acc == -decimal_value(body.take(i - start)),
            !negative ==> acc == decimal_value(body.take(i - start)),
        decreases n - i,
    {
        let c = chars[i];
        let ghost k = i - start;
        assert(body[k] == c);
        if !digit(c) {
            proof {
                lemma_digit_run_is(body, k);
            }
            return Err(Fault::InvalidDigit);
        }
        let d = digit_number(c);
        proof {
            lemma_decimal_value_step(body, k);
            lemma_digit_run_bounds(body);
            let run = digit_run(body);
            if run < k + 1 {
                assert(is_digit(body[run]));
            }
            lemma_decimal_value_grows(body, k, k + 1);
            lemma_decimal_value_grows(body, k + 1, run);
        }
        let scaled = match acc.checked_mul(10) {
            Some(m) => m,
            None => {
                return Err(
                    if negative {
                        Fault::NegOverflow
                    } else {
                        Fault::PosOverflow
                    },
                );
            },
        };
        let next = if negative {
            scaled.checked_sub(d)
        } else {
            scaled.checked_add(d)
        };
        match next {
            Some(v) => {
                acc = v;
            },
            None => {
                return Err(
                    if negative {
                        Fault::NegOverflow
                    } else {
                        Fault::PosOverflow
                    },
                );
            },
        }
        i += 1;
    }
    proof {
        lemma_digit_run_is(body, body.len() as int);
        assert(body.take(body.len() as int) =~= body);
    }
    Ok(acc)
}

/// Whether `s` spells the word given by `lower` and `upper`, letter by letter,
/// in either case.
pub open spec fn spells(s: Seq<char>, lower: Seq<char>, upper: Seq<char>) -> bool {
    &&& s.len() == lower.len()
    &&& forall|i: int| 0 <= i < s.len() ==> s[i] == lower[i] || s[i] == upper[i]
}

/// Whether `s` names an infinity or a not-a-number value.
pub open spec fn is_special_value(s: Seq<char>) -> bool {
    ||| spells(s, seq!['i', 'n', 'f'], seq!['I', 'N', 'F'])
    ||| spells(s, seq!['n', 'a', 'n'], seq!['N', 'A', 'N'])
    ||| spells(
        s,
        seq!['i', 'n', 'f', 'i', 'n', 'i', 't', 'y'],
        seq!['I', 'N', 'F', 'I', 'N', 'I', 'T', 'Y'],
    )
}

/// Whether `s` is an exponent: the letter `e` in either case, an optional
/// sign, and one or more digits.
pub open spec fn is_exponent(s: Seq<char>) -> bool {
    let digits = unsigned_part(s.skip(1));
    &&& s.len() > 0
    &&& (s[0] == 'e' || s[0] == 'E')
    &&& digits.len() > 0
    &&& all_digits(digits)
}

/// Whether `s` is an unsigned decimal number: digits, optionally a point and
/// more digits, with at least one digit on either side of the point, and
/// optionally an exponent.
pub open spec fn is_decimal_number(s: Seq<char>) -> bool {
    let whole = digit_run(s);
    let after_whole = s.skip(whole);
    let dotted = after_whole.len() > 0 && after_whole[0] == '.';
    let after_point = if dotted {
        after_whole.skip(1)
    } else {
        after_whole
    };
    let fraction = digit_run(after_point);
    let rest = after_point.skip(fraction);
    &&& whole + fraction > 0
    &&& (rest.len() == 0 || is_exponent(rest))
}

/// Whether `s` is a float literal: an optional sign followed by a decimal
/// number or by the name of a special value.
pub open spec fn is_float_literal(s: Seq<char>) -> bool {
    is_decimal_number(unsigned_part(s)) || is_special_value(unsigned_part(s))
}

/// What `s` means as a float field: its own text where it is a float literal.
pub open spec fn parse_float(s: Seq<char>) -> Result<Seq<char>, Fault> {
    if is_float_literal(s) {
        Ok(s)
    } else if s.len() == 0 {
        Err(Fault::Empty)
    } else {
        Err(Fault::Malformed)
    }
}

/// End of the run of digits that starts at `from`.
fn skip_digits(chars: &Vec<char>, from: usize) -> (to: usize)
    requires
        from <= chars.len(),
    ensures
        from <= to <= chars.len(),
        to == from + digit_run(chars@.skip(from as int)),
{
    let mut to: usize = from;
    while to < chars.len() && digit(chars[to])
        invariant
            from <= to <= chars.len(),
            forall|j: int| from <= j < to ==> is_digit(#[trigger] chars@[j]),
        decreases chars.len() - to,
    {
        to += 1;
    }
    proof {
        let tail = chars@.skip(from as int);
        assert forall|i: int| 0 <= i < to - from implies is_digit(#[trigger] tail[i]) by {
            assert(tail[i] == chars@[from + i]);
        }
        lemma_digit_run_is(tail, to - from);
    }
    to
}

/// Whether the characters from `from` on spell the given word.
fn spells_from(chars: &Vec<char>, from: usize, lower: &Vec<char>, upper: &Vec<char>) -> (yes: bool)
    requires
        from <= chars.len(),
        lower.len() == upper.len(),
    ensures
        yes == spells(chars@.skip(from as int), lower@, upper@),
{
    let ghost tail = chars@.skip(from as int);
    if chars.len() - from != lower.len() {
        return false;
    }
    let mut i: usize = 0;
    while i < lower.len()
        invariant
            from <= chars.len(),
            tail == chars@.skip(from as int),
            chars.len() - from == lower.len(),
            lower.len() == upper.len(),
            i <= lower.len(),
            forall|j: int| 0 <= j < i ==> tail[j] == lower@[j] || tail[j] == upper@[j],
        decreases lower.len() - i,
    {
        let c = chars[from + i];
        assert(tail[i as int] == c);
        if c != lower[i] && c != upper[i] {
            return false;
        }
        i += 1;
    }
    true
}

/// Whether the characters from `from` on name a special value.
fn special_from(chars: &Vec<char>, from: usize) -> (yes: bool)
    requires
        from <= chars.len(),
    ensures
        yes == is_special_value(chars@.skip(from as int)),
{
    let inf = spells_from(chars, from, &vec!['i', 'n', 'f'], &vec!['I', 'N', 'F']);
    let nan = spells_from(chars, from, &vec!['n', 'a', 'n'], &vec!['N', 'A', 'N']);
    let infinity = spells_from(
        chars,
        from,
        &vec!['i', 'n', 'f', 'i', 'n', 'i', 't', 'y'],
        &vec!['I', 'N', 'F', 'I', 'N', 'I', 'T', 'Y'],
    );
    inf || nan || infinity
}

/// Whether the characters from `from` on are a decimal number.
fn decimal_from(chars: &Vec<char>, from: usize) -> (yes: bool)
    requires
        from <= chars.len(),
    ensures
        yes == is_decimal_number(chars@.skip(from as int)),
{
    let n = chars.len();
    let ghost body = chars@.skip(from as int);
    let whole_end = skip_digits(chars, from);
    let dotted = whole_end < n && chars[whole_end] == '.';
    let fraction_start: usize = if dotted {
        whole_end + 1
    } else {
        whole_end
    };
    let fraction_end = skip_digits(chars, fraction_start);
    proof {
        let after_whole = body.skip(whole_end - from);
        assert(after_whole =~= chars@.skip(whole_end as int));
        if dotted {
            assert(after_whole[0] == chars@[whole_end as int]);
            assert(after_whole.skip(1) =~= chars@.skip(fraction_start as int));
        }
        assert(chars@.skip(fraction_start as int).skip(fraction_end - fraction_start)
            =~= chars@.skip(fraction_end as int));
    }
    if (whole_end - from) + (fraction_end - fraction_start) == 0 {
        return false;
    }
    if fraction_end == n {
        return true;
    }
    let ghost rest = chars@.skip(fraction_end as int);
    assert(rest[0] == chars@[fraction_end as int]);
    if chars[fraction_end] != 'e' && chars[fraction_end] != 'E' {
        return false;
    }
    let sign_at = fraction_end + 1;
    let signed = sign_at < n && (chars[sign_at] == '-' || chars[sign_at] == '+');
    let digits_start: usize = if signed {
        sign_at + 1
    } else {
        sign_at
    };
    let digits_end = skip_digits(chars, digits_start);
    proof {
        let after_letter = rest.skip(1);
        assert(after_letter =~= chars@.skip(sign_at as int));
        if sign_at < n {
            assert(after_letter[0] == chars@[sign_at as int]);
        }
        let digits = unsigned_part(after_letter);
        assert(digits =~= chars@.skip(digits_start as int));
        lemma_digit_run_bounds(digits);
        if digits_end == n {
            assert(all_digits(digits));
        } else {
            assert(!is_digit(digits[digit_run(digits)]));
        }
    }
    digits_start < n && digits_end == n
}

/// A float literal, kept as the text that was read. The text is what a field
/// of float type has to hold; no value is computed from it here.
#[derive(Debug, PartialEq, Eq)]
pub struct FloatLiteral {
    text: String,
}

impl View for FloatLiteral {
    type V = Seq<char>;

    closed spec fn view(&self) -> Seq<char> {
        self.text@
    }
}

impl Clone for FloatLiteral {
    fn clone(&self) -> (copy: Self)
        ensures
            copy@ == self@,
    {
        FloatLiteral { text: self.text.clone() }
    }
}

impl FloatLiteral {
    /// Whether the text held is a float literal. Every value made by the
    /// functions of this type is well formed.
    pub open spec fn wf(&self) -> bool {
        is_float_literal(self@)
    }

    /// Reads `text` as a float literal.
    pub fn parse(text: &str) -> (out: Result<FloatLiteral, Fault>)
        ensures
            match out {
                Ok(literal) => parse_float(text@) == Ok::<Seq<char>, Fault>(literal@),
                Err(fault) => parse_float(text@) == Err::<Seq<char>, Fault>(fault),
            },
            out matches Ok(literal) ==> literal.wf(),
    {
        let chars = chars_of(text);
        let n = chars.len();
        let start: usize = if n > 0 && (chars[0] == '-' || chars[0] == '+') {
            1
        } else {
            0
        };
        assert(chars@.skip(start as int) =~= unsigned_part(text@));
        if decimal_from(&chars, start) || special_from(&chars, start) {
            Ok(FloatLiteral { text: text.to_owned() })
        } else if n == 0 {
            Err(Fault::Empty)
        } else {
            Err(Fault::Malformed)
        }
    }

    /// The literal for zero.
    pub fn zero() -> (literal: FloatLiteral)
        ensures
            literal@ == seq!['0'],
            literal.wf(),
    {
        proof {
            reveal_strlit("0");
            lemma_zero_is_float_literal();
        }
        let text = "0".to_owned();
        assert(text@ =~= seq!['0']);
        FloatLiteral { text }
    }

    /// The text of the literal.
    pub fn as_str(&self) -> (text: &str)
        ensures
            text@ == self@,
    {
        self.text.as_str()
    }
}

/// The single digit zero is a float literal.
pub proof fn lemma_zero_is_float_literal()
    ensures
        is_float_literal(seq!['0']),
{
    let s = seq!['0'];
    assert(unsigned_part(s) == s);
    assert(is_digit(s[0]));
    lemma_digit_run_is(s, 1);
    assert(s.skip(1).len() == 0);
    lemma_digit_run_is(s.skip(1), 0);
    assert(s.skip(1).skip(0).len() == 0);
}

} // verus!
