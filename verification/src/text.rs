//! Text helpers shared by the request validators and the notification payload parsers:
//! blank detection, decimal parsing of `i64` values and decimal formatting of `i64` values.

use vstd::prelude::*;
use vstd::string::StringExecFns;

verus! {

/// The Unicode `White_Space` property of a character (Unicode's PropList.txt), which
/// `char::is_whitespace` reports: tab, line feed, vertical tab, form feed, carriage return,
/// space, next line, no-break space, ogham space mark, the spaces U+2000 to U+200A, line and
/// paragraph separators, narrow no-break space, medium mathematical space and ideographic space.
pub open spec fn white_space(c: char) -> bool {
    let u = c as int;
    ||| 0x9 <= u <= 0xD
    ||| u == 0x20
    ||| u == 0x85
    ||| u == 0xA0
    ||| u == 0x1680
    ||| 0x2000 <= u <= 0x200A
    ||| u == 0x2028
    ||| u == 0x2029
    ||| u == 0x202F
    ||| u == 0x205F
    ||| u == 0x3000
}

/// Calls `char::is_whitespace`, whose documentation says that it reports whether the character
/// has the Unicode `White_Space` property; the contract states that property as `white_space`.
#[verifier::external_body]
fn char_is_whitespace(c: char) -> (r: bool)
    ensures
        r == white_space(c),
{
    c.is_whitespace()
}

/// Whether `c` has the Unicode `White_Space` property.
pub fn is_white_space(c: char) -> (r: bool)
    ensures
        r == white_space(c),
{
    char_is_whitespace(c)
}

/// Calls `String::push`, whose documentation says that it appends the character to the end of
/// the string; the contract states that.
#[verifier::external_body]
pub(crate) fn push_char(s: &mut String, c: char)
    ensures
        final(s)@ == old(s)@.push(c),
{
    s.push(c)
}

/// A text is blank when every character of it is white space (the empty text included). This is
/// exactly when trimming white space from both ends leaves nothing.
pub open spec fn blank(s: Seq<char>) -> bool {
    forall|i: int| 0 <= i < s.len() ==> white_space(#[trigger] s[i])
}

/// True when `s` is empty or consists of white space only.
pub fn is_blank(s: &str) -> (r: bool)
    ensures
        r == blank(s@),
{
    broadcast use vstd::string::axiom_spec_iter;
    for c in it: s.chars()
        invariant
            it.seq() == s@,
            forall|j: int| 0 <= j < it.index() ==> white_space(#[trigger] s@[j]),
    {
        if !char_is_whitespace(c) {
            return false;
        }
    }
    true
}


// ---------------------------------------------------------------------------------------------
// Decimal integers
// ---------------------------------------------------------------------------------------------

/// An ASCII decimal digit.
pub open spec fn is_digit(c: char) -> bool {
    '0' <= c && c <= '9'
}

/// The value of a decimal digit character.
pub open spec fn digit_value(c: char) -> int {
    (c as int) - ('0' as int)
}

/// The value of a run of decimal digits, most significant first (0 for the empty run).
pub open spec fn digits_value(d: Seq<char>) -> int
    decreases d.len(),
{
    if d.len() == 0 {
        0
    } else {
        digits_value(d.drop_last()) * 10 + digit_value(d.last())
    }
}

/// The length of the longest prefix of `d` made of decimal digits.
pub open spec fn digit_prefix_len(d: Seq<char>) -> nat
    decreases d.len(),
{
    if d.len() > 0 && is_digit(d[0]) {
        1 + digit_prefix_len(d.drop_first())
    } else {
        0
    }
}

/// Why a text is not a decimal `i64`, in the terms `i64::from_str` uses.
#[derive(PartialEq, Eq, Structural, Clone, Copy, Debug)]
pub enum IntErrorKind {
    /// The text is empty.
    Empty,
    /// The text holds a character that is not a digit (or is a sign alone).
    InvalidDigit,
    /// The value is above `i64::MAX`.
    PosOverflow,
    /// The value is below `i64::MIN`.
    NegOverflow,
}

/// The text without its leading `+` or `-` sign, if it has one.
pub open spec fn unsigned_part(s: Seq<char>) -> Seq<char> {
    if s.len() > 0 && (s[0] == '+' || s[0] == '-') {
        s.drop_first()
    } else {
        s
    }
}

/// What parsing `s` as a decimal `i64` gives: an optional sign followed by one or more digits whose
/// value fits `i64`. Digits are read from the left; a value that leaves the range of `i64` before
/// the first non-digit is an overflow, otherwise a non-digit is an invalid digit.
pub open spec fn parse_i64_spec(s: Seq<char>) -> Result<int, IntErrorKind> {
    if s.len() == 0 {
        Err(IntErrorKind::Empty)
    } else {
        let neg = s[0] == '-';
        let body = unsigned_part(s);
        let k = digit_prefix_len(body);
        let v = digits_value(body.take(k as int));
        if body.len() == 0 {
            Err(IntErrorKind::InvalidDigit)
        } else if !neg && v > i64::MAX {
            Err(IntErrorKind::PosOverflow)
        } else if neg && -v < i64::MIN {
            Err(IntErrorKind::NegOverflow)
        } else if k < body.len() {
            Err(IntErrorKind::InvalidDigit)
        } else if neg {
            Ok(-v)
        } else {
            Ok(v)
        }
    }
}

/// `parse_i64_spec` with the value taken as an `i64`.
pub open spec fn parse_i64_result(s: Seq<char>) -> Result<i64, IntErrorKind> {
    match parse_i64_spec(s) {
        Ok(v) => Ok(v as i64),
        Err(e) => Err(e),
    }
}

proof fn lemma_digit_prefix_len(d: Seq<char>, i: int)
    requires
        0 <= i <= d.len(),
        forall|j: int| 0 <= j < i ==> is_digit(#[trigger] d[j]),
        i == d.len() || !is_digit(d[i]),
    ensures
        digit_prefix_len(d) == i,
    decreases i,
{
    if i > 0 {
        let t = d.drop_first();
        assert forall|j: int| 0 <= j < i - 1 implies is_digit(#[trigger] t[j]) by {
            assert(t[j] == d[j + 1]);
        }
        if i - 1 < t.len() {
            assert(t[i - 1] == d[i]);
        }
        lemma_digit_prefix_len(t, i - 1);
    }
}

proof fn lemma_digits_value_step(d: Seq<char>, i: int)
    requires
        0 <= i < d.len(),
    ensures
        digits_value(d.take(i + 1)) == digits_value(d.take(i)) * 10 + digit_value(d[i]),
{
    assert(d.take(i + 1).drop_last() =~= d.take(i));
}

proof fn lemma_digits_value_monotone(d: Seq<char>, i: int, j: int)
    requires
        0 <= i <= j <= d.len(),
        forall|k: int| 0 <= k < j ==> is_digit(#[trigger] d[k]),
    ensures
        0 <= digits_value(d.take(i)) <= digits_value(d.take(j)),
    decreases j,
{
    if j == 0 {
        assert(d.take(0) =~= Seq::<char>::empty());
    } else {
        lemma_digits_value_monotone(d, if i == j { j - 1 } else { i }, j - 1);
        lemma_digits_value_step(d, j - 1);
        assert(is_digit(d[j - 1]));
    }
}

/// Parses `s` as a decimal `i64`, as `i64::from_str` does.
pub fn parse_i64(s: &str) -> (r: Result<i64, IntErrorKind>)
    ensures
        r == parse_i64_result(s@),
{
    let chars = chars_of(s);
    let n = chars.len();
    if n == 0 {
        return Err(IntErrorKind::Empty);
    }
    let first = chars[0];
    let neg = first == '-';
    let start: usize = if first == '+' || first == '-' { 1 } else { 0 };
    let ghost body = unsigned_part(s@);
    assert(body =~= s@.subrange(start as int, n as int));
    if start == n {
        return Err(IntErrorKind::InvalidDigit);
    }
    let mut acc: i64 = 0;
    let mut i: usize = start;
    assert(body.take(0) =~= Seq::<char>::empty());
    while i < n
        invariant
            chars@ == s@,
            n == s@.len(),
            start <= i <= n,
            start < n,
            neg == (s@[0] == '-'),
            body == unsigned_part(s@),
            body =~= s@.subrange(start as int, n as int),
            forall|j: int| 0 <= j < i - start ==> is_digit(#[trigger] body[j]),
            neg ==> acc == -digits_value(body.take(i - start)),
            !neg ==> acc == digits_value(body.take(i - start)),
        decreases n - i,
    {
        let c = chars[i];
        let ghost m = i - start;
        assert(body[m] == c);
        if !('0' <= c && c <= '9') {
            proof {
                lemma_digit_prefix_len(body, m);
                lemma_digits_value_monotone(body, m, m);
            }
            return Err(IntErrorKind::InvalidDigit);
        }
        let d = (c as u32 - '0' as u32) as i64;
        proof {
            lemma_digits_value_step(body, m);
            lemma_digits_value_monotone(body, m, m);
        }
        let ghost k = digit_prefix_len(body);
        if neg {
            let step = acc.checked_mul(10);
            if step.is_none() {
                proof {
                    lemma_k_after(body, m);
                    lemma_digits_value_monotone(body, m + 1, k as int);
                }
                return Err(IntErrorKind::NegOverflow);
            }
            let next = step.unwrap().checked_sub(d);
            if next.is_none() {
                proof {
                    lemma_k_after(body, m);
                    lemma_digits_value_monotone(body, m + 1, k as int);
                }
                return Err(IntErrorKind::NegOverflow);
            }
            acc = next.unwrap();
        } else {
            let step = acc.checked_mul(10);
            if step.is_none() {
                proof {
                    lemma_k_after(body, m);
                    lemma_digits_value_monotone(body, m + 1, k as int);
                }
                return Err(IntErrorKind::PosOverflow);
            }
            let next = step.unwrap().checked_add(d);
            if next.is_none() {
                proof {
                    lemma_k_after(body, m);
                    lemma_digits_value_monotone(body, m + 1, k as int);
                }
                return Err(IntErrorKind::PosOverflow);
            }
            acc = next.unwrap();
        }
        i = i + 1;
    }
    proof {
        lemma_digit_prefix_len(body, body.len() as int);
        assert(body.take(body.len() as int) =~= body);
    }
    Ok(acc)
}

/// When the first `m + 1` characters of `d` are digits, the digit prefix is at least that long
/// and all of it is digits.
proof fn lemma_k_after(d: Seq<char>, m: int)
    requires
        0 <= m < d.len(),
        forall|j: int| 0 <= j <= m ==> is_digit(#[trigger] d[j]),
    ensures
        m + 1 <= digit_prefix_len(d) <= d.len(),
        forall|j: int| 0 <= j < digit_prefix_len(d) ==> is_digit(#[trigger] d[j]),
    decreases d.len(),
{
    lemma_digit_prefix_len_props(d);
    if m > 0 {
        let t = d.drop_first();
        assert forall|j: int| 0 <= j <= m - 1 implies is_digit(#[trigger] t[j]) by {
            assert(t[j] == d[j + 1]);
        }
        lemma_k_after(t, m - 1);
    }
}

proof fn lemma_digit_prefix_len_props(d: Seq<char>)
    ensures
        digit_prefix_len(d) <= d.len(),
        forall|j: int| 0 <= j < digit_prefix_len(d) ==> is_digit(#[trigger] d[j]),
    decreases d.len(),
{
    if d.len() > 0 && is_digit(d[0]) {
        let t = d.drop_first();
        lemma_digit_prefix_len_props(t);
        assert forall|j: int| 0 <= j < digit_prefix_len(d) implies is_digit(#[trigger] d[j]) by {
            if j > 0 {
                assert(d[j] == t[j - 1]);
            }
        }
    }
}

/// True when `a` and `b` hold the same characters.
pub fn text_eq(a: &str, b: &str) -> (r: bool)
    ensures
        r == (a@ == b@),
{
    let x = chars_of(a);
    let y = chars_of(b);
    if x.len() != y.len() {
        return false;
    }
    let mut i: usize = 0;
    while i < x.len()
        invariant
            x@ == a@,
            y@ == b@,
            x.len() == y.len(),
            0 <= i <= x.len(),
            forall|j: int| 0 <= j < i ==> x@[j] == y@[j],
        decreases x.len() - i,
    {
        if x[i] != y[i] {
            return false;
        }
        i = i + 1;
    }
    assert(a@ =~= b@);
    true
}

/// The characters of `s`, in order.
pub fn chars_of(s: &str) -> (v: Vec<char>)
    ensures
        v@ == s@,
{
    broadcast use vstd::string::axiom_spec_iter;
    let mut v: Vec<char> = Vec::new();
    for c in it: s.chars()
        invariant
            it.seq() == s@,
            v@ == s@.take(it.index() as int),
    {
        v.push(c);
        assert(v@ =~= s@.take(it.index() + 1));
    }
    assert(v@ =~= s@);
    v
}


/// The character of a decimal digit `d < 10`.
pub open spec fn digit_char(d: nat) -> char {
    if d == 0 {
        '0'
    } else if d == 1 {
        '1'
    } else if d == 2 {
        '2'
    } else if d == 3 {
        '3'
    } else if d == 4 {
        '4'
    } else if d == 5 {
        '5'
    } else if d == 6 {
        '6'
    } else if d == 7 {
        '7'
    } else if d == 8 {
        '8'
    } else {
        '9'
    }
}

/// The decimal text of a natural number, without leading zeros.
pub open spec fn nat_text(n: nat) -> Seq<char>
    decreases n,
{
    if n < 10 {
        seq![digit_char(n)]
    } else {
        nat_text(n / 10).push(digit_char(n % 10))
    }
}

/// The decimal text of an integer, as `i64`'s `Display` writes it: a `-` before negative values.
pub open spec fn int_text(v: int) -> Seq<char> {
    if v < 0 {
        seq!['-'] + nat_text((-v) as nat)
    } else {
        nat_text(v as nat)
    }
}

fn digit_str(d: u64) -> (r: &'static str)
    requires
        d < 10,
    ensures
        r@ == seq![digit_char(d as nat)],
{
    if d == 0 {
        proof { reveal_strlit("0"); }
        "0"
    } else if d == 1 {
        proof { reveal_strlit("1"); }
        "1"
    } else if d == 2 {
        proof { reveal_strlit("2"); }
        "2"
    } else if d == 3 {
        proof { reveal_strlit("3"); }
        "3"
    } else if d == 4 {
        proof { reveal_strlit("4"); }
        "4"
    } else if d == 5 {
        proof { reveal_strlit("5"); }
        "5"
    } else if d == 6 {
        proof { reveal_strlit("6"); }
        "6"
    } else if d == 7 {
        proof { reveal_strlit("7"); }
        "7"
    } else if d == 8 {
        proof { reveal_strlit("8"); }
        "8"
    } else {
        proof { reveal_strlit("9"); }
        "9"
    }
}

/// Appends the decimal text of `n` to `s`.
pub fn push_nat_text(s: &mut String, n: u64)
    ensures
        final(s)@ == old(s)@ + nat_text(n as nat),
    decreases n,
{
    if n >= 10 {
        push_nat_text(s, n / 10);
    }
    s.append(digit_str(n % 10));
    proof {
        if n >= 10 {
            assert(final(s)@ =~= old(s)@ + nat_text(n as nat));
        } else {
            assert(final(s)@ =~= old(s)@ + nat_text(n as nat));
        }
    }
}

/// Appends the decimal text of `v` to `s`, as `write!(s, "{}", v)` does.
pub fn push_i64_text(s: &mut String, v: i64)
    ensures
        final(s)@ == old(s)@ + int_text(v as int),
{
    if v < 0 {
        proof { reveal_strlit("-"); }
        s.append("-");
        let magnitude: u64 = (-(v as i128)) as u64;
        push_nat_text(s, magnitude);
        assert(final(s)@ =~= old(s)@ + int_text(v as int));
    } else {
        push_nat_text(s, v as u64);
    }
}

/// The decimal text of `v`, as `v.to_string()` gives it.
pub fn i64_to_string(v: i64) -> (r: String)
    ensures
        r@ == int_text(v as int),
{
    let mut s = String::new();
    push_i64_text(&mut s, v);
    assert(s@ =~= int_text(v as int));
    s
}

proof fn lemma_digit_char(d: nat)
    requires
        d < 10,
    ensures
        is_digit(digit_char(d)),
        digit_value(digit_char(d)) == d,
{
    assert('0' as int == 48 && '1' as int == 49 && '2' as int == 50 && '3' as int == 51);
    assert('4' as int == 52 && '5' as int == 53 && '6' as int == 54 && '7' as int == 55);
    assert('8' as int == 56 && '9' as int == 57);
}

proof fn lemma_nat_text(n: nat)
    ensures
        nat_text(n).len() > 0,
        forall|j: int| 0 <= j < nat_text(n).len() ==> is_digit(#[trigger] nat_text(n)[j]),
        digits_value(nat_text(n)) == n,
    decreases n,
{
    if n >= 10 {
        lemma_nat_text(n / 10);
        lemma_digit_char(n % 10);
        let t = nat_text(n / 10);
        assert(nat_text(n).drop_last() =~= t);
        assert(nat_text(n).last() == digit_char(n % 10));
        assert(digits_value(nat_text(n)) == digits_value(t) * 10 + digit_value(digit_char(n % 10)));
        assert(n == (n / 10) * 10 + n % 10);
    } else {
        lemma_digit_char(n);
        assert(nat_text(n).drop_last() =~= Seq::<char>::empty());
        assert(digits_value(Seq::<char>::empty()) == 0);
        assert(nat_text(n).last() == digit_char(n));
    }
}

/// The decimal text of an `i64` parses back to the same value.
pub proof fn lemma_parse_int_text(v: i64)
    ensures
        parse_i64_spec(int_text(v as int)) == Ok::<int, IntErrorKind>(v as int),
        parse_i64_result(int_text(v as int)) == Ok::<i64, IntErrorKind>(v),
{
    let t = int_text(v as int);
    let mag: nat = if v < 0 { (-v) as nat } else { v as nat };
    lemma_nat_text(mag);
    let digits = nat_text(mag);
    assert(is_digit(digits[0]));
    assert(unsigned_part(t) =~= digits);
    lemma_digit_prefix_len(digits, digits.len() as int);
    assert(digits.take(digits.len() as int) =~= digits);
}

} // verus!
