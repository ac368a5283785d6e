//! Character-level helpers on `Vec<char>` ranges, each proved against a
//! spec function that states the behaviour of the matching `str` operation.

use vstd::prelude::*;

verus! {

/// Unicode `White_Space`, the set that `char::is_whitespace` (and so
/// `str::trim`) uses.
pub open spec fn is_white_space(c: char) -> bool {
    let u = c as u32;
    ||| 0x09 <= u && u <= 0x0d
    ||| u == 0x20
    ||| u == 0x85
    ||| u == 0xa0
    ||| u == 0x1680
    ||| 0x2000 <= u && u <= 0x200a
    ||| u == 0x2028
    ||| u == 0x2029
    ||| u == 0x202f
    ||| u == 0x205f
    ||| u == 0x3000
}

pub fn white_space(c: char) -> (b: bool)
    ensures
        b == is_white_space(c),
{
    let u = c as u32;
    (0x09 <= u && u <= 0x0d) || u == 0x20 || u == 0x85 || u == 0xa0 || u == 0x1680 || (0x2000
        <= u && u <= 0x200a) || u == 0x2028 || u == 0x2029 || u == 0x202f || u == 0x205f || u
        == 0x3000
}

/// `s` without its leading white space.
pub open spec fn trim_start(s: Seq<char>) -> Seq<char>
    decreases s.len(),
{
    if s.len() > 0 && is_white_space(s[0]) {
        trim_start(s.drop_first())
    } else {
        s
    }
}

/// `s` without its trailing white space.
pub open spec fn trim_end(s: Seq<char>) -> Seq<char>
    decreases s.len(),
{
    if s.len() > 0 && is_white_space(s.last()) {
        trim_end(s.drop_last())
    } else {
        s
    }
}

/// What `str::trim` gives back.
pub open spec fn trim(s: Seq<char>) -> Seq<char> {
    trim_end(trim_start(s))
}

/// The bounds of `trim(v[start..end])` within `v`.
pub fn trim_range(v: &Vec<char>, start: usize, end: usize) -> (r: (usize, usize))
    requires
        start <= end <= v.len(),
    ensures
        start <= r.0 <= r.1 <= end,
        v@.subrange(r.0 as int, r.1 as int) == trim(v@.subrange(start as int, end as int)),
{
    let mut a = start;
    while a < end && white_space(v[a])
        invariant
            start <= a <= end,
            end <= v.len(),
            trim_start(v@.subrange(start as int, end as int)) == trim_start(
                v@.subrange(a as int, end as int),
            ),
        decreases end - a,
    {
        assert(v@.subrange(a as int, end as int).drop_first() =~= v@.subrange(
            a + 1,
            end as int,
        ));
        a = a + 1;
    }
    assert(trim_start(v@.subrange(a as int, end as int)) == v@.subrange(a as int, end as int));
    let mut b = end;
    while b > a && white_space(v[b - 1])
        invariant
            start <= a <= b <= end,
            end <= v.len(),
            trim(v@.subrange(start as int, end as int)) == trim_end(
                v@.subrange(a as int, b as int),
            ),
        decreases b - a,
    {
        assert(v@.subrange(a as int, b as int).drop_last() =~= v@.subrange(
            a as int,
            b - 1,
        ));
        b = b - 1;
    }
    (a, b)
}

/// `trim(s)` is `s` without white space at its ends: it starts and ends
/// with no white space, and `s` is white space, then `trim(s)`, then white
/// space.
pub proof fn law_trim_strips_white_space(s: Seq<char>)
    ensures
        trim(s).len() > 0 ==> !is_white_space(trim(s)[0]) && !is_white_space(trim(s).last()),
        exists|a: int, b: int|
            0 <= a <= b <= s.len() && trim(s) == s.subrange(a, b) && (forall|k: int|
                0 <= k < a ==> is_white_space(#[trigger] s[k])) && (forall|k: int|
                b <= k < s.len() ==> is_white_space(#[trigger] s[k])),
{
    let (a, b) = lemma_trim_bounds(s);
}

proof fn lemma_trim_start_bounds(s: Seq<char>) -> (a: int)
    ensures
        0 <= a <= s.len(),
        trim_start(s) == s.skip(a),
        forall|k: int| 0 <= k < a ==> is_white_space(#[trigger] s[k]),
        a < s.len() ==> !is_white_space(s[a]),
    decreases s.len(),
{
    if s.len() > 0 && is_white_space(s[0]) {
        let a1 = lemma_trim_start_bounds(s.drop_first());
        assert(s.drop_first().skip(a1) =~= s.skip(a1 + 1));
        assert forall|k: int| 0 <= k < a1 + 1 implies is_white_space(#[trigger] s[k]) by {
            if k > 0 {
                assert(s[k] == s.drop_first()[k - 1]);
            }
        }
        a1 + 1
    } else {
        assert(s.skip(0) =~= s);
        0
    }
}

proof fn lemma_trim_end_bounds(s: Seq<char>) -> (b: int)
    ensures
        0 <= b <= s.len(),
        trim_end(s) == s.take(b),
        forall|k: int| b <= k < s.len() ==> is_white_space(#[trigger] s[k]),
        b > 0 ==> !is_white_space(s[b - 1]),
    decreases s.len(),
{
    if s.len() > 0 && is_white_space(s.last()) {
        let b1 = lemma_trim_end_bounds(s.drop_last());
        assert(s.drop_last().take(b1) =~= s.take(b1));
        assert forall|k: int| b1 <= k < s.len() implies is_white_space(#[trigger] s[k]) by {
            if k < s.len() - 1 {
                assert(s[k] == s.drop_last()[k]);
            }
        }
        b1
    } else {
        assert(s.take(s.len() as int) =~= s);
        s.len() as int
    }
}

proof fn lemma_trim_bounds(s: Seq<char>) -> (r: (int, int))
    ensures
        0 <= r.0 <= r.1 <= s.len(),
        trim(s) == s.subrange(r.0, r.1),
        forall|k: int| 0 <= k < r.0 ==> is_white_space(#[trigger] s[k]),
        forall|k: int| r.1 <= k < s.len() ==> is_white_space(#[trigger] s[k]),
        r.0 < r.1 ==> !is_white_space(s[r.0]) && !is_white_space(s[r.1 - 1]),
{
    let a = lemma_trim_start_bounds(s);
    let t = s.skip(a);
    let b = lemma_trim_end_bounds(t);
    assert(t.take(b) =~= s.subrange(a, a + b));
    assert forall|k: int| a + b <= k < s.len() implies is_white_space(#[trigger] s[k]) by {
        assert(s[k] == t[k - a]);
    }
    if b > 0 {
        assert(s[a + b - 1] == t[b - 1]);
        assert(s[a] == t[0]);
    }
    (a, a + b)
}

/// A text in which, after an optional leading `+`, some character is no
/// decimal digit never reads as a number.
pub proof fn law_non_digit_is_no_number(s: Seq<char>, max: nat, k: int)
    requires
        0 <= k < s.len(),
        !is_digit(s[k]),
        !(k == 0 && s[0] == '+'),
    ensures
        parse_unsigned(s, max) is Err,
{
    if s.len() > 0 && s[0] == '+' && s.len() > 1 {
        lemma_non_digit_fails(s.drop_first(), max, 0, k - 1);
    } else if s.len() > 1 || !(s[0] == '+' || s[0] == '-') {
        lemma_non_digit_fails(s, max, 0, k);
    }
}

proof fn lemma_non_digit_fails(s: Seq<char>, max: nat, acc: nat, k: int)
    requires
        0 <= k < s.len(),
        !is_digit(s[k]),
    ensures
        parse_digits(s, max, acc) is Err,
    decreases s.len(),
{
    if k > 0 && is_digit(s[0]) && acc * 10 + digit_value(s[0]) <= max {
        assert(s.drop_first()[k - 1] == s[k]);
        lemma_non_digit_fails(s.drop_first(), max, acc * 10 + digit_value(s[0]), k - 1);
    }
}

/// Index of the first `c` in `s` at or after `i`, or `s.len()` where there is none.
pub open spec fn find_from(s: Seq<char>, c: char, i: int) -> int
    decreases s.len() - i,
{
    if i < 0 || i >= s.len() {
        s.len() as int
    } else if s[i] == c {
        i
    } else {
        find_from(s, c, i + 1)
    }
}

pub proof fn lemma_find_from_bounds(s: Seq<char>, c: char, i: int)
    requires
        0 <= i <= s.len(),
    ensures
        i <= find_from(s, c, i) <= s.len(),
        find_from(s, c, i) < s.len() ==> s[find_from(s, c, i)] == c,
    decreases s.len() - i,
{
    if i < s.len() && s[i] != c {
        lemma_find_from_bounds(s, c, i + 1);
    }
}

/// `start` plus the index of the first `c` in `v[start..end]`; `end` where there is none.
pub fn find_in_range(v: &Vec<char>, start: usize, end: usize, c: char) -> (r: usize)
    requires
        start <= end <= v.len(),
    ensures
        start <= r <= end,
        r - start == find_from(v@.subrange(start as int, end as int), c, 0),
{
    let ghost sub = v@.subrange(start as int, end as int);
    let mut j = start;
    while j < end
        invariant
            start <= j <= end,
            end <= v.len(),
            sub == v@.subrange(start as int, end as int),
            find_from(sub, c, 0) == find_from(sub, c, j - start),
        decreases end - j,
    {
        if v[j] == c {
            return j;
        }
        j = j + 1;
    }
    j
}

/// `l` without one trailing carriage return.
pub open spec fn strip_cr(l: Seq<char>) -> Seq<char> {
    if l.len() > 0 && l.last() == '\r' {
        l.drop_last()
    } else {
        l
    }
}

/// What `str::lines` yields: the pieces between line feeds, each without a
/// carriage return that stood right before its line feed; no last empty piece.
pub open spec fn lines(s: Seq<char>) -> Seq<Seq<char>>
    decreases s.len(),
{
    if s.len() == 0 {
        seq![]
    } else {
        proof {
            lemma_find_from_bounds(s, '\n', 0);
        }
        let i = find_from(s, '\n', 0);
        if i < s.len() {
            seq![strip_cr(s.take(i))] + lines(s.skip(i + 1))
        } else {
            seq![s]
        }
    }
}

/// What `str::split_once` gives back for a `char` pattern.
pub open spec fn split_once(s: Seq<char>, c: char) -> Option<(Seq<char>, Seq<char>)> {
    let i = find_from(s, c, 0);
    if i < s.len() {
        Some((s.take(i), s.skip(i + 1)))
    } else {
        None
    }
}

/// What `str::starts_with` gives back.
pub open spec fn starts_with(s: Seq<char>, p: Seq<char>) -> bool {
    p.len() <= s.len() && s.take(p.len() as int) == p
}

/// Whether `v[start..end]` starts with `p`.
pub fn range_starts_with(v: &Vec<char>, start: usize, end: usize, p: &str) -> (b: bool)
    requires
        start <= end <= v.len(),
    ensures
        b == starts_with(v@.subrange(start as int, end as int), p@),
{
    let n = p.unicode_len();
    if n > end - start {
        return false;
    }
    let mut i: usize = 0;
    while i < n
        invariant
            i <= n,
            n == p@.len(),
            start + n <= end <= v.len(),
            forall|k: int| 0 <= k < i ==> v@[start + k] == p@[k],
        decreases n - i,
    {
        if v[start + i] != p.get_char(i) {
            assert(v@.subrange(start as int, end as int).take(n as int)[i as int] != p@[i as int]);
            return false;
        }
        i = i + 1;
    }
    assert(v@.subrange(start as int, end as int).take(n as int) =~= p@);
    true
}

/// Whether `v[start..end]` is exactly `p`.
pub fn range_equals(v: &Vec<char>, start: usize, end: usize, p: &str) -> (b: bool)
    requires
        start <= end <= v.len(),
    ensures
        b == (v@.subrange(start as int, end as int) == p@),
{
    if p.unicode_len() != end - start {
        return false;
    }
    let b = range_starts_with(v, start, end, p);
    assert(v@.subrange(start as int, end as int).take((end - start) as int) =~= v@.subrange(
        start as int,
        end as int,
    ));
    b
}

/// The chars of `s`, one by one.
pub fn chars_of(s: &str) -> (v: Vec<char>)
    ensures
        v@ == s@,
{
    let n = s.unicode_len();
    let mut v: Vec<char> = Vec::new();
    let mut i: usize = 0;
    while i < n
        invariant
            i <= n,
            n == s@.len(),
            v@ == s@.take(i as int),
        decreases n - i,
    {
        v.push(s.get_char(i));
        i = i + 1;
        assert(v@ =~= s@.take(i as int));
    }
    assert(s@.take(n as int) =~= s@);
    v
}


/// The decimal digit `d` (below ten) as a character.
pub open spec fn digit_char(d: nat) -> char {
    (d + 48) as char
}

/// Whether `c` is an ASCII decimal digit.
pub open spec fn is_digit(c: char) -> bool {
    '0' <= c && c <= '9'
}

/// The value of the ASCII decimal digit `c`.
pub open spec fn digit_value(c: char) -> nat {
    (c as u32 - 48) as nat
}

/// The decimal representation of `n`, without sign or leading zeros, as
/// `Display` for unsigned integers writes it.
pub open spec fn decimal(n: nat) -> Seq<char>
    decreases n,
{
    if n < 10 {
        seq![digit_char(n)]
    } else {
        decimal(n / 10).push(digit_char(n % 10))
    }
}

fn digit_str(d: u32) -> (s: &'static str)
    requires
        d < 10,
    ensures
        s@ == seq![digit_char(d as nat)],
{
    proof {
        reveal_strlit("0");
        reveal_strlit("1");
        reveal_strlit("2");
        reveal_strlit("3");
        reveal_strlit("4");
        reveal_strlit("5");
        reveal_strlit("6");
        reveal_strlit("7");
        reveal_strlit("8");
        reveal_strlit("9");
    }
    let s = if d == 0 {
        "0"
    } else if d == 1 {
        "1"
    } else if d == 2 {
        "2"
    } else if d == 3 {
        "3"
    } else if d == 4 {
        "4"
    } else if d == 5 {
        "5"
    } else if d == 6 {
        "6"
    } else if d == 7 {
        "7"
    } else if d == 8 {
        "8"
    } else {
        "9"
    };
    assert(s@ =~= seq![digit_char(d as nat)]);
    s
}

/// Appends the decimal representation of `n` to `s`.
pub fn push_decimal(s: &mut String, n: u32)
    ensures
        final(s)@ == old(s)@ + decimal(n as nat),
    decreases n,
{
    if n >= 10 {
        push_decimal(s, n / 10);
        s.append(digit_str(n % 10));
        assert(old(s)@ + decimal(n as nat) =~= old(s)@ + decimal((n / 10) as nat) + seq![
            digit_char((n % 10) as nat),
        ]);
    } else {
        s.append(digit_str(n));
    }
}

/// The kinds of failure of `str::parse` for an unsigned integer type,
/// as `core::num::IntErrorKind` names them.
#[derive(Debug, Clone, Copy, PartialEq, Eq, Structural)]
pub enum IntErrorKind {
    Empty,
    InvalidDigit,
    PosOverflow,
}

/// Reads the decimal digits of `s` left to right onto `acc`, failing at the
/// first character that is no digit or the first digit that takes the value
/// above `max`, whichever comes first.
pub open spec fn parse_digits(s: Seq<char>, max: nat, acc: nat) -> Result<nat, IntErrorKind>
    decreases s.len(),
{
    if s.len() == 0 {
        Ok(acc)
    } else if !is_digit(s[0]) {
        Err(IntErrorKind::InvalidDigit)
    } else if acc * 10 + digit_value(s[0]) > max {
        Err(IntErrorKind::PosOverflow)
    } else {
        parse_digits(s.drop_first(), max, acc * 10 + digit_value(s[0]))
    }
}

/// What `str::parse` gives back for an unsigned integer type whose largest
/// value is `max`: an optional `+`, then at least one decimal digit.
pub open spec fn parse_unsigned(s: Seq<char>, max: nat) -> Result<nat, IntErrorKind> {
    if s.len() == 0 {
        Err(IntErrorKind::Empty)
    } else if (s[0] == '+' || s[0] == '-') && s.len() == 1 {
        Err(IntErrorKind::InvalidDigit)
    } else if s[0] == '+' {
        parse_digits(s.drop_first(), max, 0)
    } else {
        parse_digits(s, max, 0)
    }
}

proof fn lemma_parse_digits_bound(s: Seq<char>, max: nat, acc: nat)
    requires
        acc <= max,
    ensures
        parse_digits(s, max, acc) matches Ok(n) ==> n <= max,
    decreases s.len(),
{
    if s.len() > 0 && is_digit(s[0]) && acc * 10 + digit_value(s[0]) <= max {
        lemma_parse_digits_bound(s.drop_first(), max, acc * 10 + digit_value(s[0]));
    }
}

/// A number that `parse_unsigned` reads is at most `max`.
pub proof fn lemma_parse_unsigned_bound(s: Seq<char>, max: nat)
    ensures
        parse_unsigned(s, max) matches Ok(n) ==> n <= max,
{
    if s.len() > 0 {
        lemma_parse_digits_bound(s, max, 0);
        lemma_parse_digits_bound(s.drop_first(), max, 0);
    }
}

proof fn lemma_digit_char(d: nat)
    requires
        d < 10,
    ensures
        is_digit(digit_char(d)),
        digit_value(digit_char(d)) == d,
        digit_char(d) != '+',
        digit_char(d) != '-',
{
}

pub proof fn lemma_decimal_digits(n: nat)
    ensures
        decimal(n).len() >= 1,
        forall|i: int| 0 <= i < decimal(n).len() ==> #[trigger] is_digit(decimal(n)[i]),
    decreases n,
{
    if n < 10 {
        lemma_digit_char(n);
    } else {
        lemma_decimal_digits(n / 10);
        lemma_digit_char(n % 10);
    }
}

proof fn lemma_parse_digits_push(s: Seq<char>, c: char, max: nat, acc: nat, r: nat)
    requires
        parse_digits(s, max, acc) == Ok::<nat, IntErrorKind>(r),
        is_digit(c),
        r * 10 + digit_value(c) <= max,
    ensures
        parse_digits(s.push(c), max, acc) == Ok::<nat, IntErrorKind>(r * 10 + digit_value(c)),
    decreases s.len(),
{
    if s.len() == 0 {
        assert(r == acc);
        assert(s.push(c).drop_first() =~= Seq::<char>::empty());
        assert(parse_digits(Seq::<char>::empty(), max, acc * 10 + digit_value(c)) == Ok::<
            nat,
            IntErrorKind,
        >(acc * 10 + digit_value(c)));
        assert(s.push(c)[0] == c);
    } else {
        assert(s.push(c)[0] == s[0]);
        assert(s.push(c).drop_first() =~= s.drop_first().push(c));
        lemma_parse_digits_push(s.drop_first(), c, max, acc * 10 + digit_value(s[0]), r);
    }
}

proof fn lemma_parse_decimal_digits(n: nat, max: nat)
    requires
        n <= max,
    ensures
        parse_digits(decimal(n), max, 0) == Ok::<nat, IntErrorKind>(n),
    decreases n,
{
    if n < 10 {
        lemma_digit_char(n);
        assert(decimal(n) == seq![digit_char(n)]);
        assert(decimal(n)[0] == digit_char(n));
        assert(decimal(n).drop_first() =~= Seq::<char>::empty());
        assert(parse_digits(Seq::<char>::empty(), max, n) == Ok::<nat, IntErrorKind>(n));
    } else {
        assert(n / 10 * 10 + n % 10 == n);
        assert(decimal(n) == decimal(n / 10).push(digit_char(n % 10)));
        lemma_parse_decimal_digits(n / 10, max);
        lemma_digit_char(n % 10);
        lemma_parse_digits_push(decimal(n / 10), digit_char(n % 10), max, 0, n / 10);
    }
}

/// A number up to `max` written in decimal reads back as itself.
pub proof fn law_decimal_reads_back(n: nat, max: nat)
    requires
        n <= max,
    ensures
        parse_unsigned(decimal(n), max) == Ok::<nat, IntErrorKind>(n),
{
    lemma_decimal_digits(n);
    assert(is_digit(decimal(n)[0]));
    lemma_parse_decimal_digits(n, max);
}

/// `parse_unsigned` of `v[start..end]`.
pub fn parse_unsigned_range(v: &Vec<char>, start: usize, end: usize, max: u32) -> (r: Result<
    u32,
    IntErrorKind,
>)
    requires
        start <= end <= v.len(),
        max <= 0xffff,
    ensures
        r matches Ok(n) ==> parse_unsigned(v@.subrange(start as int, end as int), max as nat)
            == Ok::<nat, IntErrorKind>(n as nat) && n <= max,
        r matches Err(e) ==> parse_unsigned(v@.subrange(start as int, end as int), max as nat)
            == Err::<nat, IntErrorKind>(e),
{
    let ghost s = v@.subrange(start as int, end as int);
    if start == end {
        return Err(IntErrorKind::Empty);
    }
    if (v[start] == '+' || v[start] == '-') && end - start == 1 {
        return Err(IntErrorKind::InvalidDigit);
    }
    let mut i = start;
    if v[start] == '+' {
        i = start + 1;
        assert(s.drop_first() =~= v@.subrange(i as int, end as int));
    } else {
        assert(s =~= v@.subrange(i as int, end as int));
    }
    let mut acc: u32 = 0;
    while i < end
        invariant
            start <= i <= end <= v.len(),
            acc <= max <= 0xffff,
            s == v@.subrange(start as int, end as int),
            parse_unsigned(s, max as nat) == parse_digits(
                v@.subrange(i as int, end as int),
                max as nat,
                acc as nat,
            ),
        decreases end - i,
    {
        let c = v[i];
        assert(v@.subrange(i as int, end as int)[0] == c);
        if !('0' <= c && c <= '9') {
            return Err(IntErrorKind::InvalidDigit);
        }
        let d = (c as u32) - 48;
        if acc * 10 + d > max {
            return Err(IntErrorKind::PosOverflow);
        }
        assert(v@.subrange(i as int, end as int).drop_first() =~= v@.subrange(
            i + 1,
            end as int,
        ));
        acc = acc * 10 + d;
        i = i + 1;
    }
    Ok(acc)
}

} // verus!
