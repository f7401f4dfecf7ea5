//! Character-level text utilities with specifications, shared by the
//! command-line, replay, profile and input-device parsers.

use vstd::prelude::*;

verus! {

/// `String::push` from std: appends one character.
pub assume_specification[ String::push ](s: &mut String, ch: char)
    ensures
        final(s)@ == old(s)@.push(ch),
;

/// Unicode `White_Space`, the set `char::is_whitespace` tests.
pub open spec fn is_whitespace(c: char) -> bool {
    let u = c as u32;
    ||| 0x09 <= u <= 0x0d
    ||| u == 0x20
    ||| u == 0x85
    ||| u == 0xa0
    ||| u == 0x1680
    ||| 0x2000 <= u <= 0x200a
    ||| u == 0x2028
    ||| u == 0x2029
    ||| u == 0x202f
    ||| u == 0x205f
    ||| u == 0x3000
}

/// `true` when `c` is Unicode whitespace.
pub fn is_whitespace_char(c: char) -> (r: bool)
    ensures
        r == is_whitespace(c),
{
    let u = c as u32;
    (0x09 <= u && u <= 0x0d) || u == 0x20 || u == 0x85 || u == 0xa0 || u == 0x1680 || (0x2000
        <= u && u <= 0x200a) || u == 0x2028 || u == 0x2029 || u == 0x202f || u == 0x205f || u
        == 0x3000
}

/// The characters of `s`.
pub fn chars_of(s: &str) -> (r: Vec<char>)
    ensures
        r@ == s@,
{
    let mut v: Vec<char> = Vec::new();
    for c in it: s.chars()
        invariant
            v@ == it.history(),
    {
        v.push(c);
    }
    v
}

/// The characters `from..to` of `cs`.
pub fn sub_chars(cs: &Vec<char>, from: usize, to: usize) -> (r: Vec<char>)
    requires
        from <= to <= cs@.len(),
    ensures
        r@ == cs@.subrange(from as int, to as int),
{
    let mut v: Vec<char> = Vec::new();
    let mut i = from;
    while i < to
        invariant
            from <= i <= to <= cs@.len(),
            v@ == cs@.subrange(from as int, i as int),
        decreases to - i,
    {
        v.push(cs[i]);
        i = i + 1;
        assert(v@ =~= cs@.subrange(from as int, i as int));
    }
    v
}

/// Appends the characters `from..to` of `cs` to `out`.
pub fn push_chars(out: &mut String, cs: &Vec<char>, from: usize, to: usize)
    requires
        from <= to <= cs@.len(),
    ensures
        final(out)@ == old(out)@ + cs@.subrange(from as int, to as int),
{
    let ghost start = out@;
    let mut i = from;
    while i < to
        invariant
            from <= i <= to <= cs@.len(),
            out@ == start + cs@.subrange(from as int, i as int),
        decreases to - i,
    {
        out.push(cs[i]);
        i = i + 1;
        assert(out@ =~= start + cs@.subrange(from as int, i as int));
    }
}

/// A `String` holding the characters `from..to` of `cs`.
pub fn string_from(cs: &Vec<char>, from: usize, to: usize) -> (r: String)
    requires
        from <= to <= cs@.len(),
    ensures
        r@ == cs@.subrange(from as int, to as int),
{
    let mut out = String::new();
    push_chars(&mut out, cs, from, to);
    assert(out@ =~= cs@.subrange(from as int, to as int));
    out
}

/// `s` without its leading whitespace.
pub open spec fn trim_start(s: Seq<char>) -> Seq<char>
    decreases s.len(),
{
    if s.len() > 0 && is_whitespace(s[0]) {
        trim_start(s.drop_first())
    } else {
        s
    }
}

/// `s` without its trailing whitespace.
pub open spec fn trim_end(s: Seq<char>) -> Seq<char>
    decreases s.len(),
{
    if s.len() > 0 && is_whitespace(s.last()) {
        trim_end(s.drop_last())
    } else {
        s
    }
}

/// `s` without leading and trailing whitespace (`str::trim`).
pub open spec fn trim(s: Seq<char>) -> Seq<char> {
    trim_end(trim_start(s))
}

/// Removing leading whitespace drops exactly the whitespace run that
/// starts the text.
pub proof fn lemma_trim_start_skip(s: Seq<char>, a: int)
    requires
        0 <= a <= s.len(),
        forall|k: int| 0 <= k < a ==> is_whitespace(#[trigger] s[k]),
        a == s.len() || !is_whitespace(s[a]),
    ensures
        trim_start(s) == s.skip(a),
    decreases a,
{
    if a > 0 {
        let t = s.drop_first();
        assert forall|k: int| 0 <= k < a - 1 implies is_whitespace(#[trigger] t[k]) by {
            assert(t[k] == s[k + 1]);
        }
        assert(is_whitespace(s[0]));
        lemma_trim_start_skip(t, a - 1);
        assert(t.skip(a - 1) =~= s.skip(a));
    } else {
        assert(s.skip(0) =~= s);
    }
}

/// Removing trailing whitespace drops exactly the whitespace run that
/// ends the text.
pub proof fn lemma_trim_end_take(s: Seq<char>, b: int)
    requires
        0 <= b <= s.len(),
        forall|k: int| b <= k < s.len() ==> is_whitespace(#[trigger] s[k]),
        b == 0 || !is_whitespace(s[b - 1]),
    ensures
        trim_end(s) == s.take(b),
    decreases s.len() - b,
{
    if b < s.len() {
        let t = s.drop_last();
        assert(is_whitespace(s[s.len() - 1]));
        assert forall|k: int| b <= k < t.len() implies is_whitespace(#[trigger] t[k]) by {
            assert(t[k] == s[k]);
        }
        lemma_trim_end_take(t, b);
        assert(t.take(b) =~= s.take(b));
    } else {
        assert(s.take(b) =~= s);
    }
}

/// The bounds `(a, b)` of `cs` with leading and trailing whitespace
/// removed.
pub fn trim_bounds(cs: &Vec<char>) -> (r: (usize, usize))
    ensures
        r.0 <= r.1 <= cs@.len(),
        cs@.subrange(r.0 as int, r.1 as int) == trim(cs@),
{
    let n = cs.len();
    let mut a: usize = 0;
    while a < n && is_whitespace_char(cs[a])
        invariant
            a <= n == cs@.len(),
            forall|k: int| 0 <= k < a ==> is_whitespace(#[trigger] cs@[k]),
        decreases n - a,
    {
        a = a + 1;
    }
    proof {
        lemma_trim_start_skip(cs@, a as int);
    }
    let mut b: usize = n;
    while b > a && is_whitespace_char(cs[b - 1])
        invariant
            a <= b <= n == cs@.len(),
            forall|k: int| b <= k < n ==> is_whitespace(#[trigger] cs@[k]),
        decreases b,
    {
        b = b - 1;
    }
    proof {
        let t = cs@.skip(a as int);
        assert forall|k: int| b - a <= k < t.len() implies is_whitespace(#[trigger] t[k]) by {
            assert(t[k] == cs@[k + a]);
        }
        if b > a {
            assert(t[b - a - 1] == cs@[b - 1]);
        }
        lemma_trim_end_take(t, b - a);
        assert(t.take(b - a) =~= cs@.subrange(a as int, b as int));
    }
    (a, b)
}

/// The number of leading non-whitespace characters of `s`.
pub open spec fn word_len(s: Seq<char>) -> nat
    decreases s.len(),
{
    if s.len() == 0 || is_whitespace(s[0]) {
        0
    } else {
        1 + word_len(s.drop_first())
    }
}

proof fn lemma_word_len_bound(s: Seq<char>)
    ensures
        word_len(s) <= s.len(),
        s.len() > 0 && !is_whitespace(s[0]) ==> word_len(s) >= 1,
    decreases s.len(),
{
    if s.len() > 0 {
        lemma_word_len_bound(s.drop_first());
    }
}

/// The whitespace-separated tokens of `s` (`str::split_whitespace`).
pub open spec fn ws_tokens(s: Seq<char>) -> Seq<Seq<char>>
    decreases s.len(),
{
    if s.len() == 0 {
        Seq::empty()
    } else if is_whitespace(s[0]) {
        ws_tokens(s.drop_first())
    } else {
        let n = word_len(s);
        if 0 < n <= s.len() {
            seq![s.take(n as int)] + ws_tokens(s.skip(n as int))
        } else {
            Seq::empty()
        }
    }
}

/// A maximal run of non-whitespace characters starting at `i` has the
/// length [`word_len`] gives.
pub proof fn lemma_word_len_at(s: Seq<char>, i: int, j: int)
    requires
        0 <= i <= j <= s.len(),
        forall|k: int| i <= k < j ==> !is_whitespace(#[trigger] s[k]),
        j == s.len() || is_whitespace(s[j]),
    ensures
        word_len(s.skip(i)) == j - i,
    decreases j - i,
{
    if i < j {
        lemma_word_len_at(s, i + 1, j);
        assert(s.skip(i).drop_first() =~= s.skip(i + 1));
    } else {
        if j < s.len() {
            assert(s.skip(i)[0] == s[j]);
        }
    }
}

/// The whitespace-separated tokens of `cs`, each as a character vector.
pub fn whitespace_tokens(cs: &Vec<char>) -> (r: Vec<Vec<char>>)
    ensures
        r@.len() == ws_tokens(cs@).len(),
        forall|k: int| 0 <= k < r@.len() ==> #[trigger] r@[k]@ == ws_tokens(cs@)[k],
{
    let n = cs.len();
    let mut toks: Vec<Vec<char>> = Vec::new();
    let mut i: usize = 0;
    assert(cs@.skip(0) =~= cs@);
    assert(toks@.map_values(|t: Vec<char>| t@) =~= Seq::<Seq<char>>::empty());
    while i < n
        invariant
            i <= n == cs@.len(),
            toks@.map_values(|t: Vec<char>| t@) + ws_tokens(cs@.skip(i as int)) =~= ws_tokens(
                cs@,
            ),
        decreases n - i,
    {
        let ghost rest = cs@.skip(i as int);
        assert(rest[0] == cs@[i as int]);
        if is_whitespace_char(cs[i]) {
            assert(rest.drop_first() =~= cs@.skip(i + 1));
            i = i + 1;
        } else {
            let mut j = i + 1;
            while j < n && !is_whitespace_char(cs[j])
                invariant
                    i < j <= n == cs@.len(),
                    forall|k: int| i <= k < j ==> !is_whitespace(#[trigger] cs@[k]),
                decreases n - j,
            {
                j = j + 1;
            }
            proof {
                lemma_word_len_at(cs@, i as int, j as int);
                assert(rest.take(j - i) =~= cs@.subrange(i as int, j as int));
                assert(rest.skip(j - i) =~= cs@.skip(j as int));
            }
            let tok = sub_chars(cs, i, j);
            let ghost before = toks@.map_values(|t: Vec<char>| t@);
            toks.push(tok);
            assert(toks@.map_values(|t: Vec<char>| t@) =~= before.push(tok@));
            i = j;
        }
    }
    assert(cs@.skip(n as int) =~= Seq::<char>::empty());
    assert(ws_tokens(Seq::<char>::empty()) =~= Seq::<Seq<char>>::empty());
    assert forall|k: int| 0 <= k < toks@.len() implies #[trigger] toks@[k]@ == ws_tokens(cs@)[k] by {
        assert(toks@.map_values(|t: Vec<char>| t@)[k] == toks@[k]@);
    }
    toks
}

/// `true` when `s` begins with `p`.
pub open spec fn starts_with(s: Seq<char>, p: Seq<char>) -> bool {
    p.len() <= s.len() && s.take(p.len() as int) == p
}

/// `true` when `p` occurs in `s` starting at index `i`.
pub open spec fn occurs_at(s: Seq<char>, p: Seq<char>, i: int) -> bool {
    0 <= i && i + p.len() <= s.len() && s.subrange(i, i + p.len()) == p
}

/// `true` when `p` occurs somewhere in `s` (`str::contains`).
pub open spec fn contains_seq(s: Seq<char>, p: Seq<char>) -> bool {
    exists|i: int| occurs_at(s, p, i)
}

/// `true` when `cs` begins with `p`.
pub fn has_prefix(cs: &Vec<char>, p: &Vec<char>) -> (r: bool)
    ensures
        r == starts_with(cs@, p@),
{
    if p.len() > cs.len() {
        return false;
    }
    let mut i: usize = 0;
    while i < p.len()
        invariant
            i <= p@.len() <= cs@.len(),
            forall|k: int| 0 <= k < i ==> cs@[k] == p@[k],
        decreases p@.len() - i,
    {
        if cs[i] != p[i] {
            assert(cs@.take(p@.len() as int)[i as int] != p@[i as int]);
            return false;
        }
        i = i + 1;
    }
    assert(cs@.take(p@.len() as int) =~= p@);
    true
}

/// `true` when `p` occurs in `cs` at index `at`.
pub fn matches_at(cs: &Vec<char>, p: &Vec<char>, at: usize) -> (r: bool)
    ensures
        r == occurs_at(cs@, p@, at as int),
{
    if at > cs.len() || p.len() > cs.len() - at {
        return false;
    }
    let mut i: usize = 0;
    while i < p.len()
        invariant
            i <= p@.len(),
            at + p@.len() <= cs@.len(),
            cs@.len() <= usize::MAX,
            forall|k: int| 0 <= k < i ==> cs@[at + k] == p@[k],
        decreases p@.len() - i,
    {
        if cs[at + i] != p[i] {
            assert(cs@.subrange(at as int, at + p@.len())[i as int] != p@[i as int]);
            return false;
        }
        i = i + 1;
    }
    assert(cs@.subrange(at as int, at + p@.len()) =~= p@);
    true
}

/// `true` when `p` occurs somewhere in `cs`.
pub fn contains_chars(cs: &Vec<char>, p: &Vec<char>) -> (r: bool)
    ensures
        r == contains_seq(cs@, p@),
{
    if p.len() > cs.len() {
        return false;
    }
    if p.len() == 0 {
        assert(cs@.subrange(0, 0) =~= p@);
        assert(occurs_at(cs@, p@, 0));
        return true;
    }
    let last = cs.len() - p.len();
    let mut i: usize = 0;
    while i <= last
        invariant
            last + p@.len() == cs@.len(),
            p@.len() >= 1,
            cs@.len() <= usize::MAX,
            i <= last + 1,
            forall|k: int| 0 <= k < i ==> !occurs_at(cs@, p@, k),
        decreases last + 1 - i,
    {
        if matches_at(cs, p, i) {
            return true;
        }
        i = i + 1;
    }
    false
}

/// Why an unsigned integer could not be parsed (the kinds of std's
/// `ParseIntError` that an unsigned parse can give).
#[derive(Debug, Clone, Copy, PartialEq, Eq, Structural)]
pub enum IntErrorKind {
    /// The text is empty.
    Empty,
    /// The text holds a character that is not a digit of the radix.
    InvalidDigit,
    /// The value does not fit the target type.
    PosOverflow,
}

/// The message std's `ParseIntError` displays for `kind`.
pub open spec fn int_error_text(kind: IntErrorKind) -> Seq<char> {
    match kind {
        IntErrorKind::Empty => "cannot parse integer from empty string"@,
        IntErrorKind::InvalidDigit => "invalid digit found in string"@,
        IntErrorKind::PosOverflow => "number too large to fit in target type"@,
    }
}

/// The message std's `ParseIntError` displays for `kind`.
pub fn int_error_message(kind: IntErrorKind) -> (r: String)
    ensures
        r@ == int_error_text(kind),
{
    match kind {
        IntErrorKind::Empty => "cannot parse integer from empty string".to_owned(),
        IntErrorKind::InvalidDigit => "invalid digit found in string".to_owned(),
        IntErrorKind::PosOverflow => "number too large to fit in target type".to_owned(),
    }
}

/// The value of `c` as a digit in `radix` (`char::to_digit`, radix at most
/// 36): `0`-`9`, then `a`-`z` or `A`-`Z` for 10 and up.
pub open spec fn digit_value(c: char, radix: nat) -> Option<nat> {
    let u = c as u32;
    let d: int = if 0x30 <= u <= 0x39 {
        u - 0x30
    } else if 0x61 <= u <= 0x7a {
        u - 0x61 + 10
    } else if 0x41 <= u <= 0x5a {
        u - 0x41 + 10
    } else {
        36
    };
    if d < radix {
        Some(d as nat)
    } else {
        None
    }
}

/// Reads the digits `d` after the value `acc` so far, left to right: the
/// first character that is not a digit, or the first digit that takes the
/// value above `max`, decides the error.
pub open spec fn accumulate_digits(d: Seq<char>, acc: nat, radix: nat, max: nat) -> Result<
    nat,
    IntErrorKind,
>
    decreases d.len(),
{
    if d.len() == 0 {
        Ok(acc)
    } else {
        match digit_value(d[0], radix) {
            None => Err(IntErrorKind::InvalidDigit),
            Some(x) => if acc * radix + x > max {
                Err(IntErrorKind::PosOverflow)
            } else {
                accumulate_digits(d.drop_first(), acc * radix + x, radix, max)
            },
        }
    }
}

/// The unsigned integer `s` denotes in `radix`, as std's `from_str_radix`
/// reads it for an unsigned type whose largest value is `max`: an optional
/// leading `+`, then digits only.
pub open spec fn parse_unsigned(s: Seq<char>, radix: nat, max: nat) -> Result<nat, IntErrorKind> {
    if s.len() == 0 {
        Err(IntErrorKind::Empty)
    } else if (s[0] == '+' || s[0] == '-') && s.len() == 1 {
        Err(IntErrorKind::InvalidDigit)
    } else if s[0] == '+' {
        accumulate_digits(s.drop_first(), 0, radix, max)
    } else {
        accumulate_digits(s, 0, radix, max)
    }
}

/// `true` when `r` is `parse_unsigned`'s answer `p` in machine form.
pub open spec fn same_parse(r: Result<u32, IntErrorKind>, p: Result<nat, IntErrorKind>) -> bool {
    match r {
        Ok(v) => p == Ok::<nat, IntErrorKind>(v as nat),
        Err(e) => p == Err::<nat, IntErrorKind>(e),
    }
}

fn digit_of(c: char, radix: u32) -> (r: Option<u32>)
    requires
        radix <= 36,
    ensures
        match r {
            Some(v) => digit_value(c, radix as nat) == Some(v as nat),
            None => digit_value(c, radix as nat) is None,
        },
{
    let u = c as u32;
    let d: u32 = if 0x30 <= u && u <= 0x39 {
        u - 0x30
    } else if 0x61 <= u && u <= 0x7a {
        u - 0x61 + 10
    } else if 0x41 <= u && u <= 0x5a {
        u - 0x41 + 10
    } else {
        36
    };
    if d < radix {
        Some(d)
    } else {
        None
    }
}

/// Parses the characters of `cs` as an unsigned integer in `radix` no
/// larger than `max` (see [`parse_unsigned`]).
pub fn parse_unsigned_chars(cs: &Vec<char>, radix: u32, max: u32) -> (r: Result<u32, IntErrorKind>)
    requires
        2 <= radix <= 36,
        max <= 0xffff,
    ensures
        same_parse(r, parse_unsigned(cs@, radix as nat, max as nat)),
        r matches Ok(v) ==> v <= max,
{
    let n = cs.len();
    if n == 0 {
        return Err(IntErrorKind::Empty);
    }
    if (cs[0] == '+' || cs[0] == '-') && n == 1 {
        return Err(IntErrorKind::InvalidDigit);
    }
    let start: usize = if cs[0] == '+' {
        1
    } else {
        0
    };
    let ghost digits = cs@.skip(start as int);
    proof {
        if start == 1 {
            assert(digits =~= cs@.drop_first());
        } else {
            assert(digits =~= cs@);
        }
    }
    let mut acc: u32 = 0;
    let mut i: usize = start;
    while i < n
        invariant
            start <= i <= n == cs@.len(),
            2 <= radix <= 36,
            max <= 0xffff,
            acc <= max,
            parse_unsigned(cs@, radix as nat, max as nat) == accumulate_digits(
                digits,
                0,
                radix as nat,
                max as nat,
            ),
            accumulate_digits(digits, 0, radix as nat, max as nat) == accumulate_digits(
                cs@.skip(i as int),
                acc as nat,
                radix as nat,
                max as nat,
            ),
        decreases n - i,
    {
        let ghost rest = cs@.skip(i as int);
        assert(rest[0] == cs@[i as int]);
        assert(rest.drop_first() =~= cs@.skip(i + 1));
        match digit_of(cs[i], radix) {
            None => {
                return Err(IntErrorKind::InvalidDigit);
            },
            Some(x) => {
                assert(acc * radix <= 0xffff * 36) by (nonlinear_arith)
                    requires
                        acc <= 0xffff,
                        radix <= 36,
                ;
                let next = acc * radix + x;
                if next > max {
                    return Err(IntErrorKind::PosOverflow);
                }
                acc = next;
            },
        }
        i = i + 1;
    }
    assert(cs@.skip(n as int) =~= Seq::<char>::empty());
    Ok(acc)
}

/// The lowercase hexadecimal digits.
pub open spec fn hex_digits() -> Seq<char> {
    seq!['0', '1', '2', '3', '4', '5', '6', '7', '8', '9', 'a', 'b', 'c', 'd', 'e', 'f']
}

/// The lowercase hexadecimal digit of `n` (below 16).
pub fn hex_digit(n: u8) -> (r: char)
    requires
        n < 16,
    ensures
        r == hex_digits()[n as int],
{
    match n {
        0 => '0',
        1 => '1',
        2 => '2',
        3 => '3',
        4 => '4',
        5 => '5',
        6 => '6',
        7 => '7',
        8 => '8',
        9 => '9',
        10 => 'a',
        11 => 'b',
        12 => 'c',
        13 => 'd',
        14 => 'e',
        _ => 'f',
    }
}

/// `b` as two lowercase hexadecimal digits (`{:02x}`).
pub open spec fn hex2(b: u8) -> Seq<char> {
    seq![hex_digits()[(b / 16) as int], hex_digits()[(b % 16) as int]]
}

/// `v` as four lowercase hexadecimal digits (`{:04x}`).
pub open spec fn hex4(v: u16) -> Seq<char> {
    hex2((v / 256) as u8) + hex2((v % 256) as u8)
}

/// Appends `b` as two lowercase hexadecimal digits.
pub fn push_hex2(out: &mut String, b: u8)
    ensures
        final(out)@ == old(out)@ + hex2(b),
{
    let ghost start = out@;
    out.push(hex_digit(b / 16));
    out.push(hex_digit(b % 16));
    assert(out@ =~= start + hex2(b));
}

/// Appends `v` as four lowercase hexadecimal digits.
pub fn push_hex4(out: &mut String, v: u16)
    ensures
        final(out)@ == old(out)@ + hex4(v),
{
    let ghost start = out@;
    push_hex2(out, (v / 256) as u8);
    push_hex2(out, (v % 256) as u8);
    assert(out@ =~= start + hex4(v));
}

/// The first index at or after `i` where `p` occurs in `s`, if any.
pub open spec fn first_occurrence(s: Seq<char>, p: Seq<char>, i: int) -> Option<int>
    decreases s.len() + 1 - i,
{
    if i < 0 || i + p.len() > s.len() {
        None
    } else if occurs_at(s, p, i) {
        Some(i)
    } else {
        first_occurrence(s, p, i + 1)
    }
}

proof fn lemma_first_occurrence_range(s: Seq<char>, p: Seq<char>, i: int)
    ensures
        first_occurrence(s, p, i) matches Some(k) ==> i <= k && occurs_at(s, p, k),
    decreases s.len() + 1 - i,
{
    if !(i < 0 || i + p.len() > s.len()) && !occurs_at(s, p, i) {
        lemma_first_occurrence_range(s, p, i + 1);
    }
}

/// The first index at or after `from` where `p` occurs in `cs`.
pub fn find_from(cs: &Vec<char>, p: &Vec<char>, from: usize) -> (r: Option<usize>)
    ensures
        match r {
            Some(k) => first_occurrence(cs@, p@, from as int) == Some(k as int),
            None => first_occurrence(cs@, p@, from as int) is None,
        },
{
    if p.len() > cs.len() || from > cs.len() - p.len() {
        return None;
    }
    let last = cs.len() - p.len();
    let mut i = from;
    while i <= last
        invariant
            from <= i,
            last + p@.len() == cs@.len(),
            cs@.len() <= usize::MAX,
            i <= last + 1,
            first_occurrence(cs@, p@, from as int) == first_occurrence(cs@, p@, i as int),
        decreases last + 1 - i,
    {
        if matches_at(cs, p, i) {
            return Some(i);
        }
        if i == last {
            assert(first_occurrence(cs@, p@, i + 1) is None);
            return None;
        }
        i = i + 1;
    }
    None
}

/// The pieces of `s` between the non-overlapping occurrences of `p`, read
/// left to right (`str::split` with a non-empty pattern).
pub open spec fn split_seq(s: Seq<char>, p: Seq<char>) -> Seq<Seq<char>>
    decreases s.len(),
{
    match first_occurrence(s, p, 0) {
        Some(k) => if p.len() > 0 && 0 <= k && k + p.len() <= s.len() {
            seq![s.take(k)] + split_seq(s.skip(k + p.len()), p)
        } else {
            seq![s]
        },
        None => seq![s],
    }
}

/// The views of the character vectors of `v`.
pub open spec fn views(v: Seq<Vec<char>>) -> Seq<Seq<char>> {
    v.map_values(|t: Vec<char>| t@)
}

/// Splits `cs` at the non-overlapping occurrences of `p` (see
/// [`split_seq`]).
pub fn split_on(cs: &Vec<char>, p: &Vec<char>) -> (r: Vec<Vec<char>>)
    requires
        p@.len() > 0,
    ensures
        views(r@) == split_seq(cs@, p@),
{
    let mut pieces: Vec<Vec<char>> = Vec::new();
    let mut rest = sub_chars(cs, 0, cs.len());
    assert(cs@.subrange(0, cs@.len() as int) =~= cs@);
    assert(views(pieces@) =~= Seq::<Seq<char>>::empty());
    loop
        invariant
            p@.len() > 0,
            views(pieces@) + split_seq(rest@, p@) =~= split_seq(cs@, p@),
        decreases rest@.len(),
    {
        match find_from(&rest, p, 0) {
            None => {
                let ghost before = views(pieces@);
                let last = sub_chars(&rest, 0, rest.len());
                assert(last@ =~= rest@);
                pieces.push(last);
                assert(views(pieces@) =~= before.push(rest@));
                return pieces;
            },
            Some(k) => {
                proof {
                    lemma_first_occurrence_range(rest@, p@, 0);
                }
                let ghost before = views(pieces@);
                let ghost old_rest = rest@;
                assert(k + p@.len() <= rest@.len());
                let piece = sub_chars(&rest, 0, k);
                assert(piece@ =~= old_rest.take(k as int));
                pieces.push(piece);
                assert(views(pieces@) =~= before.push(old_rest.take(k as int)));
                let n = rest.len();
                let plen = p.len();
                assert(k + plen <= n);
                rest = sub_chars(&rest, k + plen, n);
                assert(rest@ =~= old_rest.skip(k + p@.len()));
            },
        }
    }
}

/// The lines of `s` (`str::lines`): split at each `\n`, a `\r` just
/// before the `\n` removed, and no final empty line after a trailing
/// `\n`.
pub open spec fn lines_of(s: Seq<char>) -> Seq<Seq<char>>
    decreases s.len(),
{
    if s.len() == 0 {
        Seq::empty()
    } else {
        match first_occurrence(s, seq!['\n'], 0) {
            Some(k) => if 0 <= k < s.len() {
                let line = if k > 0 && s[k - 1] == '\r' {
                    s.take(k - 1)
                } else {
                    s.take(k)
                };
                seq![line] + lines_of(s.skip(k + 1))
            } else {
                seq![s]
            },
            None => seq![s],
        }
    }
}

/// The lines of `cs` (see [`lines_of`]).
pub fn split_lines(cs: &Vec<char>) -> (r: Vec<Vec<char>>)
    ensures
        views(r@) == lines_of(cs@),
{
    let mut newline: Vec<char> = Vec::new();
    newline.push('\n');
    assert(newline@ =~= seq!['\n']);
    let mut lines: Vec<Vec<char>> = Vec::new();
    let mut rest = sub_chars(cs, 0, cs.len());
    assert(cs@.subrange(0, cs@.len() as int) =~= cs@);
    assert(views(lines@) =~= Seq::<Seq<char>>::empty());
    while rest.len() > 0
        invariant
            newline@ == seq!['\n'],
            views(lines@) + lines_of(rest@) =~= lines_of(cs@),
        decreases rest@.len(),
    {
        let ghost before = views(lines@);
        let ghost old_rest = rest@;
        match find_from(&rest, &newline, 0) {
            None => {
                let last = sub_chars(&rest, 0, rest.len());
                assert(last@ =~= rest@);
                lines.push(last);
                assert(views(lines@) =~= before.push(old_rest));
                return lines;
            },
            Some(k) => {
                proof {
                    lemma_first_occurrence_range(rest@, newline@, 0);
                }
                let end = if k > 0 && rest[k - 1] == '\r' {
                    k - 1
                } else {
                    k
                };
                let line = sub_chars(&rest, 0, end);
                assert(line@ =~= old_rest.take(end as int));
                lines.push(line);
                assert(views(lines@) =~= before.push(old_rest.take(end as int)));
                rest = sub_chars(&rest, k + 1, rest.len());
                assert(rest@ =~= old_rest.skip(k + 1));
            },
        }
    }
    assert(lines_of(rest@) =~= Seq::<Seq<char>>::empty());
    lines
}

} // verus!
