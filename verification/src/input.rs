//! Tokenizing one line of user input: surrounding whitespace is dropped,
//! ASCII letters are folded to lower case, and the remainder is recognized
//! as a menu keyword, a non-negative decimal numeral, or invalid.

use vstd::prelude::*;

verus! {

/// Whitespace as `str::trim` removes it: the characters with the Unicode
/// `White_Space` property.
pub open spec fn is_ws(c: char) -> bool {
    ('\u{9}' <= c && c <= '\u{d}') || c == ' ' || c == '\u{85}' || c == '\u{a0}' || c == '\u{1680}'
        || ('\u{2000}' <= c && c <= '\u{200a}') || c == '\u{2028}' || c == '\u{2029}'
        || c == '\u{202f}' || c == '\u{205f}' || c == '\u{3000}'
}

/// The sequence with leading whitespace removed.
pub open spec fn trim_front(s: Seq<char>) -> Seq<char>
    decreases s.len(),
{
    if s.len() == 0 {
        s
    } else if is_ws(s[0]) {
        trim_front(s.drop_first())
    } else {
        s
    }
}

/// The sequence with trailing whitespace removed.
pub open spec fn trim_back(s: Seq<char>) -> Seq<char>
    decreases s.len(),
{
    if s.len() == 0 {
        s
    } else if is_ws(s.last()) {
        trim_back(s.drop_last())
    } else {
        s
    }
}

/// The sequence with surrounding whitespace removed.
pub open spec fn trim_of(s: Seq<char>) -> Seq<char> {
    trim_back(trim_front(s))
}

/// An upper-case ASCII letter folded to lower case; anything else unchanged.
pub open spec fn lower_char(c: char) -> char {
    if 'A' <= c && c <= 'Z' {
        ((c as u8) + 32) as char
    } else {
        c
    }
}

/// Every character folded to lower case.
pub open spec fn lower_seq(s: Seq<char>) -> Seq<char> {
    Seq::new(s.len(), |i: int| lower_char(s[i]))
}

/// A line of input, normalized: trimmed of surrounding whitespace and folded
/// to lower case.
pub open spec fn norm_of(s: Seq<char>) -> Seq<char> {
    lower_seq(trim_of(s))
}

/// A decimal digit.
pub open spec fn is_digit(c: char) -> bool {
    '0' <= c && c <= '9'
}

/// Every character is a decimal digit.
pub open spec fn all_digits(s: Seq<char>) -> bool {
    forall|i: int| 0 <= i < s.len() ==> is_digit(s[i])
}

/// The numeric value of one digit.
pub open spec fn digit_of(c: char) -> int {
    (c as int) - ('0' as int)
}

/// The value of a digit string read in base ten.
pub open spec fn digits_val(s: Seq<char>) -> int
    decreases s.len(),
{
    if s.len() == 0 {
        0
    } else {
        10 * digits_val(s.drop_last()) + digit_of(s.last())
    }
}

/// A numeral as unsigned decimal parsing accepts it: an optional leading
/// plus sign followed by one or more digits.
pub open spec fn is_numeral(s: Seq<char>) -> bool {
    if s.len() > 0 && s[0] == '+' {
        s.len() > 1 && all_digits(s.skip(1))
    } else {
        s.len() > 0 && all_digits(s)
    }
}

/// The digits of a numeral, the optional sign dropped.
pub open spec fn numeral_digits(s: Seq<char>) -> Seq<char> {
    if s.len() > 0 && s[0] == '+' {
        s.skip(1)
    } else {
        s
    }
}

/// The value of a numeral read in base ten.
pub open spec fn numeral_val(s: Seq<char>) -> int {
    digits_val(numeral_digits(s))
}

/// What one normalized line of input means to the controller.
#[derive(Clone, Copy, Debug, PartialEq, Eq, Structural)]
pub enum Token {
    Buy,
    Fill,
    Take,
    Remaining,
    Exit,
    Back,
    Number(usize),
    Invalid,
}

/// The meaning of a raw input line: its normalization matched against the
/// menu keywords, then read as a non-negative decimal numeral, and invalid
/// when it is neither (or the value does not fit the machine word).
pub open spec fn spec_token(s: Seq<char>) -> Token {
    let t = norm_of(s);
    if t == "buy"@ {
        Token::Buy
    } else if t == "fill"@ {
        Token::Fill
    } else if t == "take"@ {
        Token::Take
    } else if t == "remaining"@ {
        Token::Remaining
    } else if t == "exit"@ {
        Token::Exit
    } else if t == "back"@ {
        Token::Back
    } else if is_numeral(t) && numeral_val(t) <= usize::MAX {
        Token::Number(numeral_val(t) as usize)
    } else {
        Token::Invalid
    }
}

proof fn lemma_digits_val_nonneg(s: Seq<char>)
    requires
        all_digits(s),
    ensures
        digits_val(s) >= 0,
    decreases s.len(),
{
    if s.len() > 0 {
        assert(all_digits(s.drop_last()));
        lemma_digits_val_nonneg(s.drop_last());
    }
}

/// A digit string is worth no less than any of its prefixes.
proof fn lemma_digits_val_prefix_le(s: Seq<char>, k: int)
    requires
        all_digits(s),
        0 <= k <= s.len(),
    ensures
        digits_val(s.take(k)) <= digits_val(s),
    decreases s.len() - k,
{
    if k < s.len() {
        assert(s.take(k + 1).drop_last() =~= s.take(k));
        assert(all_digits(s.take(k)));
        lemma_digits_val_nonneg(s.take(k));
        assert(digits_val(s.take(k + 1)) == 10 * digits_val(s.take(k)) + digit_of(s[k]));
        lemma_digits_val_prefix_le(s, k + 1);
        assert(s.take(s.len() as int) =~= s);
    } else {
        assert(s.take(k) =~= s);
    }
}

/// Folding to lower case moves no character into or out of the digits, and
/// leaves a digit string unchanged.
proof fn lemma_lower_digits(s: Seq<char>)
    ensures
        all_digits(lower_seq(s)) == all_digits(s),
        all_digits(s) ==> lower_seq(s) == s,
{
    assert forall|i: int| 0 <= i < s.len() implies is_digit(lower_seq(s)[i]) == is_digit(s[i]) by {
        assert(lower_seq(s)[i] == lower_char(s[i]));
    }
    if all_digits(lower_seq(s)) {
        assert forall|i: int| 0 <= i < s.len() implies is_digit(s[i]) by {
            assert(is_digit(lower_seq(s)[i]));
        }
    }
    if all_digits(s) {
        assert(lower_seq(s) =~= s);
    }
}

/// Folding to lower case also fixes the plus sign, so it moves no string
/// into or out of the numerals and leaves a numeral unchanged.
proof fn lemma_lower_numeral(s: Seq<char>)
    ensures
        is_numeral(lower_seq(s)) == is_numeral(s),
        is_numeral(s) ==> lower_seq(s) == s,
{
    let l = lower_seq(s);
    lemma_lower_digits(s);
    if s.len() > 0 {
        assert(l[0] == lower_char(s[0]));
        assert((l[0] == '+') == (s[0] == '+'));
        assert forall|i: int| 0 <= i < s.len() - 1 implies #[trigger] l.skip(1)[i] == lower_seq(
            s.skip(1),
        )[i] by {
            assert(l.skip(1)[i] == lower_char(s[i + 1]));
            assert(lower_seq(s.skip(1))[i] == lower_char(s.skip(1)[i]));
        }
        assert(l.skip(1) =~= lower_seq(s.skip(1)));
        lemma_lower_digits(s.skip(1));
    }
    if is_numeral(s) {
        assert forall|i: int| 0 <= i < s.len() implies l[i] == s[i] by {
            assert(l[i] == lower_char(s[i]));
            if s[0] == '+' && i > 0 {
                assert(is_digit(s.skip(1)[i - 1]));
            }
        }
        assert(l =~= s);
    }
}

/// Whether `c` is whitespace.
fn is_ws_char(c: char) -> (r: bool)
    ensures
        r == is_ws(c),
{
    ('\u{9}' <= c && c <= '\u{d}') || c == ' ' || c == '\u{85}' || c == '\u{a0}' || c == '\u{1680}'
        || ('\u{2000}' <= c && c <= '\u{200a}') || c == '\u{2028}' || c == '\u{2029}'
        || c == '\u{202f}' || c == '\u{205f}' || c == '\u{3000}'
}

/// `c` folded to lower case.
fn char_lower(c: char) -> (r: char)
    ensures
        r == lower_char(c),
{
    if 'A' <= c && c <= 'Z' {
        ((c as u8) + 32) as char
    } else {
        c
    }
}

/// The slice of `s` with surrounding whitespace removed.
pub fn trimmed<'a>(s: &'a str) -> (t: &'a str)
    ensures
        t@ == trim_of(s@),
{
    let n = s.unicode_len();
    proof {
        assert(s@.skip(0) =~= s@);
    }
    let mut start: usize = 0;
    while start < n && is_ws_char(s.get_char(start))
        invariant
            n == s@.len(),
            start <= n,
            trim_front(s@) == trim_front(s@.skip(start as int)),
        decreases n - start,
    {
        proof {
            assert(s@.skip(start as int).drop_first() =~= s@.skip(start as int + 1));
        }
        start = start + 1;
    }
    proof {
        assert(trim_front(s@.skip(start as int)) == s@.skip(start as int));
    }
    let mut end: usize = n;
    while end > start && is_ws_char(s.get_char(end - 1))
        invariant
            n == s@.len(),
            start <= end <= n,
            trim_front(s@) == s@.skip(start as int),
            trim_back(trim_front(s@)) == trim_back(s@.subrange(start as int, end as int)),
        decreases end,
    {
        proof {
            assert(s@.subrange(start as int, end as int).last() == s@[end - 1]);
            assert(s@.subrange(start as int, end as int).drop_last() =~= s@.subrange(
                start as int,
                end as int - 1,
            ));
        }
        end = end - 1;
    }
    proof {
        assert(s@.skip(start as int) =~= s@.subrange(start as int, n as int));
        assert(trim_back(s@.subrange(start as int, end as int)) == s@.subrange(
            start as int,
            end as int,
        ));
    }
    s.substring_char(start, end)
}

/// Whether `t`, folded to lower case, equals `kw` exactly.
fn eq_lower(t: &str, kw: &str) -> (r: bool)
    ensures
        r == (lower_seq(t@) == kw@),
{
    let nt = t.unicode_len();
    let nk = kw.unicode_len();
    if nt != nk {
        proof {
            assert(lower_seq(t@).len() == t@.len());
        }
        return false;
    }
    let mut i: usize = 0;
    while i < nt
        invariant
            nt == t@.len(),
            nt == kw@.len(),
            i <= nt,
            forall|j: int| 0 <= j < i ==> lower_seq(t@)[j] == kw@[j],
        decreases nt - i,
    {
        let c = char_lower(t.get_char(i));
        let k = kw.get_char(i);
        if c != k {
            proof {
                assert(lower_seq(t@)[i as int] != kw@[i as int]);
            }
            return false;
        }
        proof {
            assert(lower_seq(t@)[i as int] == kw@[i as int]);
        }
        i = i + 1;
    }
    proof {
        assert(lower_seq(t@) =~= kw@);
    }
    true
}

/// Reads `t` as a non-negative decimal numeral — an optional leading plus
/// sign, then one or more digits, as unsigned parsing accepts it. Returns
/// the value when it fits the machine word; `None` otherwise.
pub fn parse_number(t: &str) -> (r: Option<usize>)
    ensures
        r is Some <==> (is_numeral(t@) && numeral_val(t@) <= usize::MAX),
        r matches Some(n) ==> n == numeral_val(t@),
{
    let n = t.unicode_len();
    let mut start: usize = 0;
    if n > 0 && t.get_char(0) == '+' {
        start = 1;
    }
    if start == n {
        // empty, or a bare sign with no digits
        return None;
    }
    let ghost d = numeral_digits(t@);
    proof {
        if start == 0 {
            assert(t@.skip(0) =~= t@);
        }
        assert(d == t@.skip(start as int));
    }
    let mut i: usize = start;
    let mut acc: usize = 0;
    while i < n
        invariant
            n == t@.len(),
            start <= i <= n,
            start < n,
            start == 1 ==> t@[0] == '+',
            start == 0 ==> t@[0] != '+',
            d == numeral_digits(t@),
            d == t@.skip(start as int),
            all_digits(d.take(i - start)),
            acc == digits_val(d.take(i - start)),
        decreases n - i,
    {
        let c = t.get_char(i);
        proof {
            assert(d[i - start] == t@[i as int]);
        }
        if c < '0' || c > '9' {
            proof {
                assert(!is_digit(d[i - start]));
            }
            return None;
        }
        let dv: usize = ((c as u8) - 48) as usize;
        if acc > usize::MAX / 10 || (acc == usize::MAX / 10 && dv > usize::MAX % 10) {
            proof {
                assert(d.take(i - start + 1).drop_last() =~= d.take(i - start));
                assert(d.take(i - start + 1).last() == d[i - start]);
                assert(all_digits(d.take(i - start + 1)));
                assert(digits_val(d.take(i - start + 1)) == 10 * acc + dv);
                assert(10 * acc + dv > usize::MAX);
                if all_digits(d) {
                    lemma_digits_val_prefix_le(d, i - start + 1);
                }
            }
            return None;
        }
        proof {
            assert(d.take(i - start + 1).drop_last() =~= d.take(i - start));
            assert(d.take(i - start + 1).last() == d[i - start]);
        }
        acc = acc * 10 + dv;
        i = i + 1;
    }
    proof {
        assert(d.take(n - start) =~= d);
    }
    Some(acc)
}

/// Tokenizes one raw input line: the executable counterpart of
/// [`spec_token`].
pub fn tokenize(s: &str) -> (tok: Token)
    ensures
        tok == spec_token(s@),
{
    let t = trimmed(s);
    if eq_lower(t, "buy") {
        Token::Buy
    } else if eq_lower(t, "fill") {
        Token::Fill
    } else if eq_lower(t, "take") {
        Token::Take
    } else if eq_lower(t, "remaining") {
        Token::Remaining
    } else if eq_lower(t, "exit") {
        Token::Exit
    } else if eq_lower(t, "back") {
        Token::Back
    } else {
        proof {
            lemma_lower_numeral(trim_of(s@));
        }
        match parse_number(t) {
            Some(number) => Token::Number(number),
            None => Token::Invalid,
        }
    }
}

} // verus!
