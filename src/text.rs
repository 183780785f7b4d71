//! Character-level text handling for the plain-text configuration format and
//! for command-line values: whitespace, trimming, splitting and decimal
//! numbers, each stated as a function on sequences of characters.
use vstd::prelude::*;

verus! {

/// Unicode whitespace (the `White_Space` property), as `char::is_whitespace`
/// defines it.
pub open spec fn is_ws(c: char) -> bool {
    ||| c == ' '
    ||| ('\t' <= c && c <= '\r')
    ||| c == '\u{85}'
    ||| c == '\u{a0}'
    ||| c == '\u{1680}'
    ||| ('\u{2000}' <= c && c <= '\u{200a}')
    ||| c == '\u{2028}'
    ||| c == '\u{2029}'
    ||| c == '\u{202f}'
    ||| c == '\u{205f}'
    ||| c == '\u{3000}'
}

/// `s` without its leading whitespace.
pub open spec fn trim_start(s: Seq<char>) -> Seq<char>
    decreases s.len(),
{
    if s.len() > 0 && is_ws(s[0]) {
        trim_start(s.drop_first())
    } else {
        s
    }
}

/// `s` without its trailing whitespace.
pub open spec fn trim_end(s: Seq<char>) -> Seq<char>
    decreases s.len(),
{
    if s.len() > 0 && is_ws(s.last()) {
        trim_end(s.drop_last())
    } else {
        s
    }
}

/// `s` without leading and trailing whitespace.
pub open spec fn trim(s: Seq<char>) -> Seq<char> {
    trim_end(trim_start(s))
}

/// The pieces of `s` between occurrences of `sep`; there is always one more
/// piece than there are separators.
pub open spec fn split(s: Seq<char>, sep: char) -> Seq<Seq<char>>
    decreases s.len(),
{
    if s.len() == 0 {
        seq![seq![]]
    } else {
        let p = split(s.drop_last(), sep);
        if s.last() == sep {
            p.push(seq![])
        } else {
            p.update(p.len() - 1, p.last().push(s.last()))
        }
    }
}

/// The maximal runs of non-whitespace characters of `s`, in order.
pub open spec fn words(s: Seq<char>) -> Seq<Seq<char>>
    decreases s.len(),
{
    if s.len() == 0 {
        seq![]
    } else {
        let p = words(s.drop_last());
        let c = s.last();
        if is_ws(c) {
            p
        } else if s.len() >= 2 && !is_ws(s[s.len() - 2]) {
            p.update(p.len() - 1, p.last().push(c))
        } else {
            p.push(seq![c])
        }
    }
}

/// `p` is a prefix of `s`.
pub open spec fn starts_with(s: Seq<char>, p: Seq<char>) -> bool {
    p.len() <= s.len() && s.subrange(0, p.len() as int) == p
}

/// `p` occurs in `s`.
pub open spec fn contains(s: Seq<char>, p: Seq<char>) -> bool {
    exists|i: int| 0 <= i <= s.len() - p.len() && #[trigger] s.subrange(i, i + p.len()) == p
}

/// The ASCII decimal digits.
pub open spec fn is_digit(c: char) -> bool {
    '0' <= c && c <= '9'
}

/// The value of a string of decimal digits.
pub open spec fn digits_value(s: Seq<char>) -> int
    decreases s.len(),
{
    if s.len() == 0 {
        0
    } else {
        digits_value(s.drop_last()) * 10 + (s.last() as int - '0' as int)
    }
}

/// `s` without one leading `+`, if it has one.
pub open spec fn unsigned_digits(s: Seq<char>) -> Seq<char> {
    if s.len() > 0 && s[0] == '+' {
        s.drop_first()
    } else {
        s
    }
}

/// Every character of `d` is a decimal digit.
pub open spec fn all_digits(d: Seq<char>) -> bool {
    forall|i: int| 0 <= i < d.len() ==> is_digit(#[trigger] d[i])
}

/// Why a text is not an unsigned 16-bit number.
#[derive(Debug, Clone, Copy, PartialEq, Eq, Structural)]
pub enum ParseError {
    /// The text is empty.
    Empty,
    /// The text holds a character that is no decimal digit, or only a sign.
    InvalidDigit,
    /// The number does not fit in 16 bits.
    PosOverflow,
}

/// The value of the decimal digit `c`.
pub open spec fn digit_value(c: char) -> int {
    c as int - '0' as int
}

/// Reads the first `k` characters of `d` as decimal digits, from the left:
/// the first non-digit, or the first digit that takes the value beyond 16
/// bits, ends the reading with an error.
pub open spec fn scan_digits(d: Seq<char>, k: int) -> Result<int, ParseError>
    decreases k,
{
    if k <= 0 {
        Ok(0)
    } else {
        match scan_digits(d, k - 1) {
            Err(e) => Err(e),
            Ok(v) => if !is_digit(d[k - 1]) {
                Err(ParseError::InvalidDigit)
            } else if v * 10 + digit_value(d[k - 1]) > 0xffff {
                Err(ParseError::PosOverflow)
            } else {
                Ok(v * 10 + digit_value(d[k - 1]))
            },
        }
    }
}

/// The unsigned 16-bit number that `s` writes in decimal, with an optional
/// leading `+`, or why it writes none, as `u16::from_str` reads it.
pub open spec fn parse_u16_result(s: Seq<char>) -> Result<u16, ParseError> {
    if s.len() == 0 {
        Err(ParseError::Empty)
    } else {
        let d = unsigned_digits(s);
        if d.len() == 0 {
            Err(ParseError::InvalidDigit)
        } else {
            match scan_digits(d, d.len() as int) {
                Ok(v) => Ok(v as u16),
                Err(e) => Err(e),
            }
        }
    }
}

/// The unsigned 16-bit number that `s` writes in decimal, if any.
pub open spec fn parse_u16(s: Seq<char>) -> Option<u16> {
    match parse_u16_result(s) {
        Ok(v) => Some(v),
        Err(_) => None,
    }
}

/// The description of a parse error.
pub open spec fn parse_error_text(e: ParseError) -> Seq<char> {
    match e {
        ParseError::Empty => "cannot parse integer from empty string"@,
        ParseError::InvalidDigit => "invalid digit found in string"@,
        ParseError::PosOverflow => "number too large to fit in target type"@,
    }
}

/// The decimal digits, in order of value.
pub open spec fn digit_chars() -> Seq<char> {
    seq!['0', '1', '2', '3', '4', '5', '6', '7', '8', '9']
}

/// The decimal text of `n`, without leading zeros.
pub open spec fn decimal(n: nat) -> Seq<char>
    decreases n,
{
    if n < 10 {
        seq![digit_chars()[n as int]]
    } else {
        decimal(n / 10).push(digit_chars()[(n % 10) as int])
    }
}

/// The decimal text of `n`, with a `-` before a negative number.
pub open spec fn signed_decimal(n: int) -> Seq<char> {
    if n < 0 {
        seq!['-'] + decimal((-n) as nat)
    } else {
        decimal(n as nat)
    }
}

/// `q` occurs in `x + q`.
pub proof fn lemma_contains_end(x: Seq<char>, q: Seq<char>)
    ensures
        contains(x + q, q),
{
    let i = x.len() as int;
    assert((x + q).subrange(i, i + q.len()) =~= q);
}

/// What occurs in `x` occurs in `x + y`.
pub proof fn lemma_contains_extend(x: Seq<char>, y: Seq<char>, q: Seq<char>)
    requires
        contains(x, q),
    ensures
        contains(x + y, q),
{
    let i = choose|i: int| 0 <= i <= x.len() - q.len() && #[trigger] x.subrange(i, i + q.len()) == q;
    assert((x + y).subrange(i, i + q.len()) =~= x.subrange(i, i + q.len()));
}

/// Whether `c` is whitespace.
pub fn is_whitespace(c: char) -> (r: bool)
    ensures
        r == is_ws(c),
{
    c == ' ' || ('\t' <= c && c <= '\r') || c == '\u{85}' || c == '\u{a0}' || c == '\u{1680}' || (
    '\u{2000}' <= c && c <= '\u{200a}') || c == '\u{2028}' || c == '\u{2029}' || c == '\u{202f}'
        || c == '\u{205f}' || c == '\u{3000}'
}

/// The characters of `s`.
pub fn chars_of(s: &str) -> (r: Vec<char>)
    ensures
        r@ == s@,
{
    let n = s.unicode_len();
    let mut r: Vec<char> = Vec::new();
    let mut i: usize = 0;
    while i < n
        invariant
            n == s@.len(),
            i <= n,
            r@ == s@.subrange(0, i as int),
        decreases n - i,
    {
        let c = s.get_char(i);
        r.push(c);
        i = i + 1;
        assert(r@ =~= s@.subrange(0, i as int));
    }
    assert(r@ =~= s@);
    r
}

/// The characters of `s` from `a` up to `b`.
fn copy_range(s: &Vec<char>, a: usize, b: usize) -> (r: Vec<char>)
    requires
        a <= b <= s@.len(),
    ensures
        r@ == s@.subrange(a as int, b as int),
{
    let mut r: Vec<char> = Vec::new();
    let mut i: usize = a;
    while i < b
        invariant
            a <= i <= b <= s@.len(),
            r@ == s@.subrange(a as int, i as int),
        decreases b - i,
    {
        r.push(s[i]);
        i = i + 1;
        assert(r@ =~= s@.subrange(a as int, i as int));
    }
    r
}

/// `s` without leading and trailing whitespace.
pub fn trim_chars(s: &Vec<char>) -> (r: Vec<char>)
    ensures
        r@ == trim(s@),
{
    let n = s.len();
    let mut a: usize = 0;
    assert(s@.subrange(0, n as int) =~= s@);
    while a < n && is_whitespace(s[a])
        invariant
            a <= n == s@.len(),
            trim_start(s@) == trim_start(s@.subrange(a as int, n as int)),
        decreases n - a,
    {
        assert(s@.subrange(a as int, n as int).drop_first() =~= s@.subrange(a + 1, n as int));
        a = a + 1;
    }
    let mut b: usize = n;
    while b > a && is_whitespace(s[b - 1])
        invariant
            a <= b <= n == s@.len(),
            trim(s@) == trim_end(s@.subrange(a as int, b as int)),
        decreases b,
    {
        assert(s@.subrange(a as int, b as int).drop_last() =~= s@.subrange(a as int, b - 1));
        b = b - 1;
    }
    copy_range(s, a, b)
}

/// The pieces of `s` between occurrences of `sep`.
pub fn split_chars(s: &Vec<char>, sep: char) -> (r: Vec<Vec<char>>)
    ensures
        r@.len() == split(s@, sep).len(),
        forall|i: int| 0 <= i < r@.len() ==> #[trigger] r@[i]@ == split(s@, sep)[i],
{
    let n = s.len();
    let mut pieces: Vec<Vec<char>> = Vec::new();
    let mut cur: Vec<char> = Vec::new();
    let mut j: usize = 0;
    assert(s@.subrange(0, 0) =~= Seq::<char>::empty());
    while j < n
        invariant
            j <= n == s@.len(),
            split(s@.subrange(0, j as int), sep).len() == pieces@.len() + 1,
            forall|i: int|
                0 <= i < pieces@.len() ==> #[trigger] pieces@[i]@ == split(
                    s@.subrange(0, j as int),
                    sep,
                )[i],
            cur@ == split(s@.subrange(0, j as int), sep).last(),
        decreases n - j,
    {
        let c = s[j];
        assert(s@.subrange(0, j + 1).drop_last() =~= s@.subrange(0, j as int));
        if c == sep {
            pieces.push(cur);
            cur = Vec::new();
        } else {
            cur.push(c);
        }
        j = j + 1;
    }
    assert(s@.subrange(0, n as int) =~= s@);
    pieces.push(cur);
    pieces
}

/// The maximal runs of non-whitespace characters of `s`.
pub fn words_of(s: &Vec<char>) -> (r: Vec<Vec<char>>)
    ensures
        r@.len() == words(s@).len(),
        forall|i: int| 0 <= i < r@.len() ==> #[trigger] r@[i]@ == words(s@)[i],
{
    let n = s.len();
    let mut pieces: Vec<Vec<char>> = Vec::new();
    let mut cur: Vec<char> = Vec::new();
    let mut j: usize = 0;
    assert(s@.subrange(0, 0) =~= Seq::<char>::empty());
    while j < n
        invariant
            j <= n == s@.len(),
            cur@.len() > 0 <==> (j > 0 && !is_ws(s@[j - 1])),
            words(s@.subrange(0, j as int)).len() == pieces@.len() + if cur@.len() > 0 {
                1int
            } else {
                0int
            },
            forall|i: int|
                0 <= i < pieces@.len() ==> #[trigger] pieces@[i]@ == words(
                    s@.subrange(0, j as int),
                )[i],
            cur@.len() > 0 ==> cur@ == words(s@.subrange(0, j as int)).last(),
        decreases n - j,
    {
        let c = s[j];
        let ghost pre = s@.subrange(0, j as int);
        let ghost next = s@.subrange(0, j + 1);
        assert(next.drop_last() =~= pre);
        assert(j > 0 ==> next[next.len() - 2] == s@[j - 1]);
        if is_whitespace(c) {
            if cur.len() > 0 {
                pieces.push(cur);
                cur = Vec::new();
            }
        } else {
            cur.push(c);
        }
        j = j + 1;
    }
    assert(s@.subrange(0, n as int) =~= s@);
    if cur.len() > 0 {
        pieces.push(cur);
    }
    pieces
}

/// Whether `p` is a prefix of `s`.
pub fn starts_with_chars(s: &Vec<char>, p: &Vec<char>) -> (r: bool)
    ensures
        r == starts_with(s@, p@),
{
    if p.len() > s.len() {
        return false;
    }
    let mut i: usize = 0;
    while i < p.len()
        invariant
            p@.len() <= s@.len(),
            i <= p@.len(),
            s@.subrange(0, i as int) == p@.subrange(0, i as int),
        decreases p@.len() - i,
    {
        if s[i] != p[i] {
            assert(s@.subrange(0, p@.len() as int)[i as int] != p@[i as int]);
            return false;
        }
        i = i + 1;
        assert(s@.subrange(0, i as int) =~= p@.subrange(0, i as int));
    }
    assert(p@.subrange(0, p@.len() as int) =~= p@);
    true
}

/// Whether `p` matches `s` at position `at`.
fn matches_at(s: &Vec<char>, p: &Vec<char>, at: usize) -> (r: bool)
    requires
        at + p@.len() <= s@.len(),
    ensures
        r == (s@.subrange(at as int, at + p@.len()) == p@),
{
    let n = s.len();
    let mut i: usize = 0;
    while i < p.len()
        invariant
            n == s@.len(),
            at + p@.len() <= s@.len(),
            i <= p@.len(),
            s@.subrange(at as int, at + i) == p@.subrange(0, i as int),
        decreases p@.len() - i,
    {
        if s[at + i] != p[i] {
            assert(s@.subrange(at as int, at + p@.len())[i as int] != p@[i as int]);
            return false;
        }
        i = i + 1;
        assert(s@.subrange(at as int, at + i) =~= p@.subrange(0, i as int));
    }
    assert(p@.subrange(0, p@.len() as int) =~= p@);
    true
}

/// Whether `p` occurs in `s`.
pub fn contains_chars(s: &Vec<char>, p: &Vec<char>) -> (r: bool)
    ensures
        r == contains(s@, p@),
{
    if p.len() > s.len() {
        return false;
    }
    if p.len() == 0 {
        assert(s@.subrange(0, 0 + p@.len() as int) =~= p@);
        return true;
    }
    let n = s.len();
    let last = n - p.len();
    let mut at: usize = 0;
    while at <= last
        invariant
            p@.len() <= s@.len(),
            n == s@.len(),
            p@.len() > 0,
            last == s@.len() - p@.len(),
            at <= last + 1,
            forall|i: int| 0 <= i < at ==> #[trigger] s@.subrange(i, i + p@.len()) != p@,
        decreases last + 1 - at,
    {
        if matches_at(s, p, at) {
            return true;
        }
        at = at + 1;
    }
    false
}

/// Once the reading of digits fails, reading more digits fails the same way.
proof fn lemma_scan_fails_on(d: Seq<char>, k: int, m: int)
    requires
        0 <= k <= m,
        scan_digits(d, k) is Err,
    ensures
        scan_digits(d, m) == scan_digits(d, k),
    decreases m - k,
{
    if k < m {
        lemma_scan_fails_on(d, k, m - 1);
    }
}

/// The unsigned 16-bit number that `s` writes in decimal, or why it writes
/// none.
pub fn parse_u16_checked(s: &Vec<char>) -> (r: Result<u16, ParseError>)
    ensures
        r == parse_u16_result(s@),
{
    let n = s.len();
    if n == 0 {
        return Err(ParseError::Empty);
    }
    let start: usize = if s[0] == '+' {
        1
    } else {
        0
    };
    let ghost d = s@.subrange(start as int, n as int);
    assert(d =~= unsigned_digits(s@));
    if start == n {
        return Err(ParseError::InvalidDigit);
    }
    let mut value: u32 = 0;
    let mut i: usize = start;
    while i < n
        invariant
            start <= i <= n == s@.len(),
            d == s@.subrange(start as int, n as int),
            d == unsigned_digits(s@),
            d.len() > 0,
            scan_digits(d, i - start) == Ok::<int, ParseError>(value as int),
            value <= 0xffff,
        decreases n - i,
    {
        let c = s[i];
        let ghost k = i - start;
        assert(d[k] == c);
        if !('0' <= c && c <= '9') {
            assert(scan_digits(d, k + 1) == Err::<int, ParseError>(ParseError::InvalidDigit));
            proof {
                lemma_scan_fails_on(d, k + 1, d.len() as int);
            }
            return Err(ParseError::InvalidDigit);
        }
        let digit: u32 = (c as u32) - ('0' as u32);
        let next: u32 = value * 10 + digit;
        if next > 0xffff {
            assert(scan_digits(d, k + 1) == Err::<int, ParseError>(ParseError::PosOverflow));
            proof {
                lemma_scan_fails_on(d, k + 1, d.len() as int);
            }
            return Err(ParseError::PosOverflow);
        }
        value = next;
        i = i + 1;
    }
    Ok(value as u16)
}

/// The unsigned 16-bit number that `s` writes in decimal, if any.
pub fn parse_u16_chars(s: &Vec<char>) -> (r: Option<u16>)
    ensures
        r == parse_u16(s@),
{
    match parse_u16_checked(s) {
        Ok(v) => Some(v),
        Err(_) => None,
    }
}

impl ParseError {
    /// The description of the error.
    pub fn message(&self) -> (r: &'static str)
        ensures
            r@ == parse_error_text(*self),
    {
        match self {
            ParseError::Empty => "cannot parse integer from empty string",
            ParseError::InvalidDigit => "invalid digit found in string",
            ParseError::PosOverflow => "number too large to fit in target type",
        }
    }
}

/// The decimal digit of value `d`.
fn digit_char(d: u64) -> (r: char)
    requires
        d < 10,
    ensures
        r == digit_chars()[d as int],
{
    let table: Vec<char> = vec!['0', '1', '2', '3', '4', '5', '6', '7', '8', '9'];
    assert(table@ =~= digit_chars());
    table[d as usize]
}

/// The decimal text of `n`.
pub fn decimal_chars(n: u64) -> (r: Vec<char>)
    ensures
        r@ == decimal(n as nat),
    decreases n,
{
    let d = digit_char(n % 10);
    if n < 10 {
        let r: Vec<char> = vec![d];
        assert(r@ =~= decimal(n as nat));
        r
    } else {
        let mut r = decimal_chars(n / 10);
        r.push(d);
        r
    }
}

/// The decimal text of `n`.
pub fn decimal_string(n: u64) -> (r: String)
    ensures
        r@ == decimal(n as nat),
{
    string_of(&decimal_chars(n))
}

/// The decimal text of `n`, with a `-` before a negative number.
pub fn signed_decimal_string(n: i32) -> (r: String)
    ensures
        r@ == signed_decimal(n as int),
{
    if n < 0 {
        let mut r = String::from_str("-");
        proof {
            reveal_strlit("-");
        }
        let m: i64 = -(n as i64);
        r.append(decimal_string(m as u64).as_str());
        assert(r@ =~= signed_decimal(n as int));
        r
    } else {
        decimal_string(n as u64)
    }
}

/// Relies on `char`'s `to_string` (its `Display`): the text of a single
/// character is that character.
#[verifier::external_body]
fn char_text(c: char) -> (r: String)
    ensures
        r@ == seq![c],
{
    c.to_string()
}

/// The characters of `s` as a `String`.
pub fn string_of(s: &Vec<char>) -> (r: String)
    ensures
        r@ == s@,
{
    let mut r = String::new();
    let mut i: usize = 0;
    while i < s.len()
        invariant
            i <= s@.len(),
            r@ == s@.subrange(0, i as int),
        decreases s@.len() - i,
    {
        let c = char_text(s[i]);
        r.append(c.as_str());
        i = i + 1;
        assert(r@ =~= s@.subrange(0, i as int));
    }
    r
}

} // verus!
