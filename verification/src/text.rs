//! Character-level helpers: conversions between `str` and character
//! vectors, decimal and hexadecimal rendering, decimal parsing with the
//! rules of Rust's unsigned `from_str`, ASCII case folding and prefixes.

use vstd::prelude::*;

verus! {

/// Appends one character (`String::push`).
#[verifier::external_body]
fn push_char(s: &mut String, c: char)
    ensures
        final(s)@ == old(s)@.push(c),
{
    s.push(c);
}

/// The characters of `s`, in order.
pub fn chars_of(s: &str) -> (v: Vec<char>)
    ensures
        v@ == s@,
{
    let n = s.unicode_len();
    let mut v: Vec<char> = Vec::new();
    for i in 0..n
        invariant
            n == s@.len(),
            v@ == s@.subrange(0, i as int),
    {
        v.push(s.get_char(i));
        assert(v@ == s@.subrange(0, i + 1));
    }
    assert(v@ == s@);
    v
}

/// A `String` holding exactly the characters `v`.
pub fn string_of(v: &[char]) -> (s: String)
    ensures
        s@ == v@,
{
    let mut s = String::new();
    for i in 0..v.len()
        invariant
            s@ == v@.subrange(0, i as int),
    {
        push_char(&mut s, v[i]);
        assert(s@ == v@.subrange(0, i + 1));
    }
    assert(s@ == v@);
    s
}

/// Appends the characters of `t` to the vector `v`.
pub fn extend_chars(v: &mut Vec<char>, t: &[char])
    ensures
        final(v)@ == old(v)@ + t@,
{
    for i in 0..t.len()
        invariant
            v@ == old(v)@ + t@.subrange(0, i as int),
    {
        v.push(t[i]);
        assert(v@ == old(v)@ + t@.subrange(0, i + 1));
    }
    assert(t@.subrange(0, t@.len() as int) == t@);
}

/// Whether two character sequences are equal.
pub fn chars_equal(a: &[char], b: &[char]) -> (r: bool)
    ensures
        r == (a@ == b@),
{
    if a.len() != b.len() {
        return false;
    }
    for i in 0..a.len()
        invariant
            a@.len() == b@.len(),
            forall|j: int| 0 <= j < i ==> a@[j] == b@[j],
    {
        if a[i] != b[i] {
            return false;
        }
    }
    assert(a@ =~= b@);
    true
}

/// `true` for '0' through '9'.
pub open spec fn is_digit(c: char) -> bool {
    '0' <= c && c <= '9'
}

/// The value of a decimal digit.
pub open spec fn digit_value(c: char) -> nat {
    (c as int - '0' as int) as nat
}

/// The digit character for `d < 10`.
pub open spec fn digit_char(d: nat) -> char {
    if d == 0 {
        '0'
    } else if d == 1 {
        '1'
    } else if d == 2 {
        '2'
    } else if d == 3 {
        '3'
    } else if d == 4 {
        '4'
    } else if d == 5 {
        '5'
    } else if d == 6 {
        '6'
    } else if d == 7 {
        '7'
    } else if d == 8 {
        '8'
    } else {
        '9'
    }
}

/// The value of a sequence of decimal digits, most significant first.
pub open spec fn digits_value(s: Seq<char>) -> nat
    decreases s.len(),
{
    if s.len() == 0 {
        0
    } else {
        digits_value(s.drop_last()) * 10 + digit_value(s.last())
    }
}

pub open spec fn all_digits(s: Seq<char>) -> bool {
    forall|i: int| 0 <= i < s.len() ==> is_digit(#[trigger] s[i])
}

/// What Rust's `from_str` for an unsigned integer type reads from `s`
/// before the range check: an optional '+', then one or more decimal digits.
pub open spec fn unsigned_literal(s: Seq<char>) -> Option<nat> {
    let digits = if s.len() > 0 && s[0] == '+' { s.drop_first() } else { s };
    if digits.len() > 0 && all_digits(digits) {
        Some(digits_value(digits))
    } else {
        None
    }
}

/// Rust's `str::parse::<u64>`, as an `Option`.
pub open spec fn parse_u64_spec(s: Seq<char>) -> Option<u64> {
    match unsigned_literal(s) {
        Some(v) => if v <= u64::MAX { Some(v as u64) } else { None },
        None => None,
    }
}

/// Rust's `str::parse::<u16>`, as an `Option`.
pub open spec fn parse_u16_spec(s: Seq<char>) -> Option<u16> {
    match unsigned_literal(s) {
        Some(v) => if v <= u16::MAX { Some(v as u16) } else { None },
        None => None,
    }
}

/// Parses `s` the way Rust's `str::parse::<u64>` does.
pub fn parse_u64(s: &[char]) -> (r: Option<u64>)
    ensures
        r == parse_u64_spec(s@),
{
    let start: usize = if s.len() > 0 && s[0] == '+' { 1 } else { 0 };
    let ghost digits = if s@.len() > 0 && s@[0] == '+' { s@.drop_first() } else { s@ };
    assert(digits == s@.subrange(start as int, s@.len() as int));
    if start >= s.len() {
        assert(digits.len() == 0);
        assert(unsigned_literal(s@) is None);
        return None;
    }
    let mut acc: u64 = 0;
    let mut overflow = false;
    let mut i = start;
    while i < s.len()
        invariant
            start <= i <= s.len(),
            start < s.len(),
            digits == s@.subrange(start as int, s@.len() as int),
            digits == (if s@.len() > 0 && s@[0] == '+' { s@.drop_first() } else { s@ }),
            forall|j: int| start <= j < i ==> is_digit(#[trigger] s@[j]),
            !overflow ==> acc == digits_value(s@.subrange(start as int, i as int)),
            overflow ==> digits_value(s@.subrange(start as int, i as int)) > u64::MAX,
        decreases s.len() - i,
    {
        let c = s[i];
        if !('0' <= c && c <= '9') {
            assert(!is_digit(digits[i - start]));
            assert(!all_digits(digits));
            assert(unsigned_literal(s@) is None);
            return None;
        }
        let d = (c as u32 - '0' as u32) as u64;
        let ghost prev = s@.subrange(start as int, i as int);
        let ghost next = s@.subrange(start as int, i + 1);
        assert(next.drop_last() == prev);
        assert(digits_value(next) == digits_value(prev) * 10 + d);
        if !overflow {
            if acc > (u64::MAX - d) / 10 {
                overflow = true;
                assert(acc * 10 + d > u64::MAX) by (nonlinear_arith)
                    requires
                        acc > (u64::MAX - d) / 10,
                        d <= 9,
                ;
            } else {
                assert(acc * 10 + d <= u64::MAX) by (nonlinear_arith)
                    requires
                        acc <= (u64::MAX - d) / 10,
                        d <= 9,
                ;
                acc = acc * 10 + d;
            }
        } else {
            assert(digits_value(next) >= digits_value(prev)) by (nonlinear_arith)
                requires
                    digits_value(next) == digits_value(prev) * 10 + d,
            ;
        }
        i = i + 1;
    }
    assert(s@.subrange(start as int, i as int) == digits);
    assert(all_digits(digits));
    if overflow {
        None
    } else {
        Some(acc)
    }
}

/// Parses `s` the way Rust's `str::parse::<u16>` does.
pub fn parse_u16(s: &[char]) -> (r: Option<u16>)
    ensures
        r == parse_u16_spec(s@),
{
    match parse_u64(s) {
        Some(v) => if v <= 65535 {
            Some(v as u16)
        } else {
            None
        },
        None => {
            proof {
                let t = s@;
                let digits = if t.len() > 0 && t[0] == '+' { t.drop_first() } else { t };
                if unsigned_literal(t) is Some {
                    assert(digits_value(digits) > u64::MAX);
                }
            }
            None
        },
    }
}

/// Decimal rendering of `n` with no leading zeros ("0" for zero).
pub open spec fn decimal(n: nat) -> Seq<char>
    decreases n,
{
    if n < 10 {
        seq![digit_char(n)]
    } else {
        decimal(n / 10).push(digit_char(n % 10))
    }
}

/// `decimal(n)` left-padded with '0' to at least `width` characters.
pub open spec fn zero_padded(n: nat, width: nat) -> Seq<char> {
    let d = decimal(n);
    if d.len() >= width {
        d
    } else {
        Seq::new((width - d.len()) as nat, |i: int| '0') + d
    }
}

/// Appends the decimal rendering of `n`.
pub fn push_decimal(out: &mut Vec<char>, n: u64)
    ensures
        final(out)@ == old(out)@ + decimal(n as nat),
    decreases n,
{
    if n >= 10 {
        push_decimal(out, n / 10);
    }
    let d = (n % 10) as u32;
    let c = char_from_digit(d);
    out.push(c);
    proof {
        if n >= 10 {
            assert(decimal(n as nat) == decimal((n / 10) as nat).push(digit_char((n % 10) as nat)));
        }
    }
    assert(final(out)@ =~= old(out)@ + decimal(n as nat)) by {
        if n < 10 {
            assert(decimal(n as nat) == seq![digit_char(n as nat)]);
        }
    }
}

/// The character of a decimal digit.
pub fn char_from_digit(d: u32) -> (c: char)
    requires
        d < 10,
    ensures
        c == digit_char(d as nat),
{
    match d {
        0 => '0',
        1 => '1',
        2 => '2',
        3 => '3',
        4 => '4',
        5 => '5',
        6 => '6',
        7 => '7',
        8 => '8',
        _ => '9',
    }
}

/// Appends `n` in decimal, left-padded with zeros to `width` characters.
pub fn push_zero_padded(out: &mut Vec<char>, n: u64, width: usize)
    ensures
        final(out)@ == old(out)@ + zero_padded(n as nat, width as nat),
{
    let mut digits: Vec<char> = Vec::new();
    push_decimal(&mut digits, n);
    assert(digits@ == decimal(n as nat));
    if digits.len() < width {
        let pad = width - digits.len();
        let ghost before = out@;
        for i in 0..pad
            invariant
                out@ == before + Seq::new(i as nat, |k: int| '0'),
        {
            out.push('0');
            assert(out@ =~= before + Seq::new((i + 1) as nat, |k: int| '0'));
        }
    }
    let ghost mid = out@;
    extend_chars(out, &digits);
    assert(out@ =~= old(out)@ + zero_padded(n as nat, width as nat));
}

/// Lowercase hexadecimal digit for `d < 16`.
pub open spec fn hex_char(d: nat) -> char {
    if d < 10 {
        digit_char(d)
    } else if d == 10 {
        'a'
    } else if d == 11 {
        'b'
    } else if d == 12 {
        'c'
    } else if d == 13 {
        'd'
    } else if d == 14 {
        'e'
    } else {
        'f'
    }
}

/// `n` as exactly `width` lowercase hexadecimal digits (`{:0width$x}` for
/// values that fit), most significant first.
pub open spec fn hex_fixed(n: nat, width: nat) -> Seq<char>
    decreases width,
{
    if width == 0 {
        Seq::empty()
    } else {
        hex_fixed(n / 16, (width - 1) as nat).push(hex_char(n % 16))
    }
}

fn hex_digit_char(d: u64) -> (c: char)
    requires
        d < 16,
    ensures
        c == hex_char(d as nat),
{
    if d < 10 {
        char_from_digit(d as u32)
    } else {
        match d {
            10 => 'a',
            11 => 'b',
            12 => 'c',
            13 => 'd',
            14 => 'e',
            _ => 'f',
        }
    }
}

/// Appends `n` as `width` lowercase hexadecimal digits.
pub fn push_hex_fixed(out: &mut Vec<char>, n: u64, width: u32)
    ensures
        final(out)@ == old(out)@ + hex_fixed(n as nat, width as nat),
    decreases width,
{
    if width > 0 {
        push_hex_fixed(out, n / 16, width - 1);
        out.push(hex_digit_char(n % 16));
    } else {
        assert(final(out)@ =~= old(out)@ + hex_fixed(n as nat, 0));
    }
}

/// ASCII lowercase of one character (other characters are kept).
pub open spec fn ascii_lower(c: char) -> char {
    if 'A' <= c && c <= 'Z' {
        ((c as u32) + 32) as char
    } else {
        c
    }
}

pub open spec fn ascii_lowercase(s: Seq<char>) -> Seq<char> {
    s.map_values(|c: char| ascii_lower(c))
}

pub fn to_ascii_lower_char(c: char) -> (r: char)
    ensures
        r == ascii_lower(c),
{
    if 'A' <= c && c <= 'Z' {
        let code = c as u32 + 32;
        char_from_ascii(code)
    } else {
        c
    }
}

fn char_from_ascii(code: u32) -> (c: char)
    requires
        97 <= code <= 122,
    ensures
        c == code as char,
{
    let b = code as u8;
    b as char
}

/// ASCII lowercase of a character sequence (`str::to_ascii_lowercase`).
pub fn to_ascii_lowercase(s: &[char]) -> (r: Vec<char>)
    ensures
        r@ == ascii_lowercase(s@),
{
    let mut r: Vec<char> = Vec::new();
    for i in 0..s.len()
        invariant
            r@ == ascii_lowercase(s@.subrange(0, i as int)),
    {
        r.push(to_ascii_lower_char(s[i]));
        assert(r@ =~= ascii_lowercase(s@.subrange(0, i + 1)));
    }
    assert(s@.subrange(0, s@.len() as int) == s@);
    r
}

/// Whether `p` is a prefix of `s`.
pub fn starts_with(s: &[char], p: &[char]) -> (r: bool)
    ensures
        r == (p@.len() <= s@.len() && s@.subrange(0, p@.len() as int) == p@),
{
    if p.len() > s.len() {
        return false;
    }
    for i in 0..p.len()
        invariant
            p@.len() <= s@.len(),
            forall|j: int| 0 <= j < i ==> s@[j] == p@[j],
    {
        if s[i] != p[i] {
            assert(s@.subrange(0, p@.len() as int)[i as int] != p@[i as int]);
            return false;
        }
    }
    assert(s@.subrange(0, p@.len() as int) =~= p@);
    true
}

/// The characters of `s` from index `start` on.
pub fn suffix_from(s: &[char], start: usize) -> (r: Vec<char>)
    requires
        start <= s@.len(),
    ensures
        r@ == s@.subrange(start as int, s@.len() as int),
{
    let mut r: Vec<char> = Vec::new();
    let mut i = start;
    while i < s.len()
        invariant
            start <= i <= s@.len(),
            r@ == s@.subrange(start as int, i as int),
        decreases s.len() - i,
    {
        r.push(s[i]);
        i = i + 1;
        assert(r@ =~= s@.subrange(start as int, i as int));
    }
    r
}

/// The characters of `s` in `[start, end)`.
pub fn slice_chars(s: &[char], start: usize, end: usize) -> (r: Vec<char>)
    requires
        start <= end <= s@.len(),
    ensures
        r@ == s@.subrange(start as int, end as int),
{
    let mut r: Vec<char> = Vec::new();
    let mut i = start;
    while i < end
        invariant
            start <= i <= end,
            end <= s@.len(),
            r@ == s@.subrange(start as int, i as int),
        decreases end - i,
    {
        r.push(s[i]);
        i = i + 1;
        assert(r@ =~= s@.subrange(start as int, i as int));
    }
    r
}

/// Unicode White_Space, the characters `char::is_whitespace` accepts and
/// `str::trim` strips: U+0009 to U+000D, space, U+0085, U+00A0, U+1680,
/// U+2000 to U+200A, U+2028, U+2029, U+202F, U+205F and U+3000.
pub open spec fn is_white_space(c: char) -> bool {
    let u = c as u32;
    (9 <= u <= 13) || u == 32 || u == 0x85 || u == 0xa0 || u == 0x1680 || (0x2000 <= u <= 0x200a) || u
        == 0x2028 || u == 0x2029 || u == 0x202f || u == 0x205f || u == 0x3000
}

fn white_space(c: char) -> (r: bool)
    ensures
        r == is_white_space(c),
{
    let u = c as u32;
    (9 <= u && u <= 13) || u == 32 || u == 0x85 || u == 0xa0 || u == 0x1680 || (0x2000 <= u && u <= 0x200a)
        || u == 0x2028 || u == 0x2029 || u == 0x202f || u == 0x205f || u == 0x3000
}

/// `s` without its leading white space.
pub open spec fn trim_start(s: Seq<char>) -> Seq<char>
    decreases s.len(),
{
    if s.len() > 0 && is_white_space(s[0]) {
        trim_start(s.drop_first())
    } else {
        s
    }
}

/// `s` without its trailing white space.
pub open spec fn trim_end(s: Seq<char>) -> Seq<char>
    decreases s.len(),
{
    if s.len() > 0 && is_white_space(s.last()) {
        trim_end(s.drop_last())
    } else {
        s
    }
}

/// The text without leading and trailing white space, as `str::trim`.
pub open spec fn trimmed(s: Seq<char>) -> Seq<char> {
    trim_end(trim_start(s))
}

/// `s` with leading and trailing white space removed.
pub(crate) fn trim_text(s: &str) -> (r: String)
    ensures
        r@ == trimmed(s@),
{
    let c = chars_of(s);
    let n = c.len();
    let mut i: usize = 0;
    assert(c@.subrange(0, n as int) =~= c@);
    while i < n && white_space(c[i])
        invariant
            n == c@.len(),
            i <= n,
            trim_start(c@) == trim_start(c@.subrange(i as int, n as int)),
        decreases n - i,
    {
        assert(c@.subrange(i as int, n as int).drop_first() =~= c@.subrange(i + 1, n as int));
        i = i + 1;
    }
    assert(trim_start(c@) == c@.subrange(i as int, n as int));
    let mut j: usize = n;
    assert(c@.subrange(i as int, j as int) == trim_start(c@));
    while j > i && white_space(c[j - 1])
        invariant
            n == c@.len(),
            i <= j <= n,
            trim_end(trim_start(c@)) == trim_end(c@.subrange(i as int, j as int)),
        decreases j,
    {
        assert(c@.subrange(i as int, j as int).drop_last() =~= c@.subrange(i as int, j - 1));
        j = j - 1;
    }
    let out = slice_chars(&c, i, j);
    string_of(&out)
}

/// Name for what `str::to_lowercase` gives (full Unicode lowercasing).
pub uninterp spec fn lowercased(s: Seq<char>) -> Seq<char>;

/// Wraps `str::to_lowercase`. Trusted: the result is the named lowercase.
#[verifier::external_body]
pub(crate) fn lowercase_text(s: &str) -> (r: String)
    ensures
        r@ == lowercased(s@),
{
    s.to_lowercase()
}

} // verus!
