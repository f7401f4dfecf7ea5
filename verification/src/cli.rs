//! Parsing and formatting for the adapter's command line and its raw
//! report dumps.

use crate::text::{
    accumulate_digits, chars_of, digit_value, hex2, hex4, hex_digits, int_error_message,
    int_error_text, is_whitespace, lemma_trim_end_take, lemma_trim_start_skip,
    lemma_word_len_at, parse_unsigned, parse_unsigned_chars, push_hex2, push_hex4, sub_chars,
    trim, trim_bounds, whitespace_tokens, word_len, ws_tokens, IntErrorKind,
};
use vstd::prelude::*;

verus! {

/// What [`parse_u16`] accepts: surrounding whitespace is ignored; a `0x`
/// or `0X` prefix selects hexadecimal, otherwise the text is decimal; the
/// digits are read as std's `u16` parsing reads them.
pub open spec fn parse_u16_spec(s: Seq<char>) -> Result<nat, IntErrorKind> {
    let t = trim(s);
    if t.len() >= 2 && t[0] == '0' && (t[1] == 'x' || t[1] == 'X') {
        parse_unsigned(t.skip(2), 16, 0xffff)
    } else {
        parse_unsigned(t, 10, 0xffff)
    }
}

/// Parses a USB vendor/product id given as `0x`-prefixed hexadecimal or as
/// decimal. On failure the error is the message std's `ParseIntError`
/// displays.
pub fn parse_u16(s: &str) -> (r: Result<u16, String>)
    ensures
        match r {
            Ok(v) => parse_u16_spec(s@) == Ok::<nat, IntErrorKind>(v as nat),
            Err(m) => exists|e: IntErrorKind|
                parse_u16_spec(s@) == Err::<nat, IntErrorKind>(e) && m@ == int_error_text(e),
        },
{
    let cs = chars_of(s);
    let (a, b) = trim_bounds(&cs);
    let t = sub_chars(&cs, a, b);
    let parsed = if t.len() >= 2 && t[0] == '0' && (t[1] == 'x' || t[1] == 'X') {
        let digits = sub_chars(&t, 2, t.len());
        assert(digits@ =~= t@.skip(2));
        parse_unsigned_chars(&digits, 16, 0xffff)
    } else {
        parse_unsigned_chars(&t, 10, 0xffff)
    };
    match parsed {
        Ok(v) => Ok(v as u16),
        Err(e) => Err(int_error_message(e)),
    }
}

/// `bytes` as two-digit lowercase hexadecimal numbers separated by single
/// spaces.
pub open spec fn hex_dump(bytes: Seq<u8>) -> Seq<char>
    decreases bytes.len(),
{
    if bytes.len() == 0 {
        Seq::empty()
    } else if bytes.len() == 1 {
        hex2(bytes[0])
    } else {
        hex2(bytes[0]) + seq![' '] + hex_dump(bytes.drop_first())
    }
}

proof fn lemma_hex_dump_push(bytes: Seq<u8>, b: u8)
    requires
        bytes.len() > 0,
    ensures
        hex_dump(bytes.push(b)) == hex_dump(bytes) + seq![' '] + hex2(b),
    decreases bytes.len(),
{
    let t = bytes.push(b);
    assert(t.drop_first() =~= bytes.drop_first().push(b));
    assert(t[0] == bytes[0]);
    if bytes.len() == 1 {
        assert(bytes.drop_first().push(b) =~= seq![b]);
        assert(hex_dump(seq![b]) == hex2(b));
        assert(hex_dump(t) =~= hex_dump(bytes) + seq![' '] + hex2(b));
    } else {
        lemma_hex_dump_push(bytes.drop_first(), b);
        assert(hex_dump(t) =~= hex_dump(bytes) + seq![' '] + hex2(b));
    }
}

/// Formats `bytes` as a raw report dump line (see [`hex_dump`]).
pub fn to_hex(bytes: &[u8]) -> (r: String)
    ensures
        r@ == hex_dump(bytes@),
{
    let mut out = String::new();
    let mut i: usize = 0;
    while i < bytes.len()
        invariant
            i <= bytes@.len(),
            out@ == hex_dump(bytes@.take(i as int)),
        decreases bytes@.len() - i,
    {
        let ghost before = out@;
        assert(bytes@.take(i + 1) =~= bytes@.take(i as int).push(bytes@[i as int]));
        if i > 0 {
            out.push(' ');
        }
        push_hex2(&mut out, bytes[i]);
        proof {
            if i == 0 {
                assert(out@ =~= hex2(bytes@[0]));
            } else {
                lemma_hex_dump_push(bytes@.take(i as int), bytes@[i as int]);
                assert(out@ =~= before + seq![' '] + hex2(bytes@[i as int]));
            }
        }
        i = i + 1;
    }
    assert(bytes@.take(i as int) =~= bytes@);
    out
}

/// The log level for a `-v` count: `info`, `debug` for one, `trace` for
/// two or more.
pub fn log_level(verbosity: u8) -> (r: &'static str)
    ensures
        verbosity == 0 ==> r@ == "info"@,
        verbosity == 1 ==> r@ == "debug"@,
        verbosity >= 2 ==> r@ == "trace"@,
{
    match verbosity {
        0 => "info",
        1 => "debug",
        _ => "trace",
    }
}

/// One line of a report dump, classified for replay.
#[derive(Debug, Clone, PartialEq, Eq)]
pub enum ReplayLine {
    /// A blank line or a `#` comment.
    Skip,
    /// The report bytes the line holds.
    Report(Vec<u8>),
    /// A token is not a hexadecimal byte.
    InvalidHex(IntErrorKind),
}

/// `s` with every leading `0x` removed (`trim_start_matches("0x")`).
pub open spec fn strip_hex_prefixes(s: Seq<char>) -> Seq<char>
    decreases s.len(),
{
    if s.len() >= 2 && s[0] == '0' && s[1] == 'x' {
        strip_hex_prefixes(s.skip(2))
    } else {
        s
    }
}

/// `true` when the replay line `line` is blank or a comment.
pub open spec fn replay_skips(line: Seq<char>) -> bool {
    trim(line).len() == 0 || trim(line)[0] == '#'
}

/// The byte tokens of a replay line: its whitespace-separated tokens,
/// without a leading timestamp column (a first token holding a `.`).
pub open spec fn replay_tokens(line: Seq<char>) -> Seq<Seq<char>> {
    let toks = ws_tokens(trim(line));
    if toks.len() > 0 && toks[0].contains('.') {
        toks.drop_first()
    } else {
        toks
    }
}

/// Each token read as a hexadecimal byte (leading `0x`s ignored); the
/// first token that fails decides the error.
pub open spec fn hex_bytes(toks: Seq<Seq<char>>) -> Result<Seq<u8>, IntErrorKind>
    decreases toks.len(),
{
    if toks.len() == 0 {
        Ok(Seq::empty())
    } else {
        match hex_bytes(toks.drop_last()) {
            Err(e) => Err(e),
            Ok(bs) => match parse_unsigned(strip_hex_prefixes(toks.last()), 16, 0xff) {
                Ok(v) => Ok(bs.push(v as u8)),
                Err(e) => Err(e),
            },
        }
    }
}

fn strip_hex_prefixes_at(cs: &Vec<char>) -> (r: usize)
    ensures
        r <= cs@.len(),
        cs@.skip(r as int) == strip_hex_prefixes(cs@),
{
    let mut k: usize = 0;
    assert(cs@.skip(0) =~= cs@);
    while cs.len() - k >= 2 && cs[k] == '0' && cs[k + 1] == 'x'
        invariant
            k <= cs@.len(),
            strip_hex_prefixes(cs@.skip(k as int)) == strip_hex_prefixes(cs@),
        decreases cs@.len() - k,
    {
        assert(cs@.skip(k as int).skip(2) =~= cs@.skip(k + 2));
        k = k + 2;
    }
    k
}

/// Classifies one line of a report dump: blank and `#` lines are skipped;
/// otherwise the line's tokens (after an optional timestamp column) are
/// read as hexadecimal bytes.
pub fn parse_replay_line(line: &str) -> (r: ReplayLine)
    ensures
        match r {
            ReplayLine::Skip => replay_skips(line@),
            ReplayLine::Report(bytes) => !replay_skips(line@) && hex_bytes(replay_tokens(line@))
                == Ok::<Seq<u8>, IntErrorKind>(bytes@),
            ReplayLine::InvalidHex(e) => !replay_skips(line@) && hex_bytes(replay_tokens(line@))
                == Err::<Seq<u8>, IntErrorKind>(e),
        },
{
    let cs = chars_of(line);
    let (a, b) = trim_bounds(&cs);
    if a == b || cs[a] == '#' {
        return ReplayLine::Skip;
    }
    let t = sub_chars(&cs, a, b);
    assert(t@ == trim(line@));
    assert(trim(line@)[0] == cs@[a as int]);
    assert(!replay_skips(line@));
    let toks = whitespace_tokens(&t);
    let mut first: usize = 0;
    if toks.len() > 0 {
        let mut has_dot = false;
        let mut j: usize = 0;
        while j < toks[0].len()
            invariant
                toks@.len() > 0,
                j <= toks@[0]@.len(),
                has_dot == exists|k: int| 0 <= k < j && toks@[0]@[k] == '.',
            decreases toks@[0]@.len() - j,
        {
            if toks[0][j] == '.' {
                has_dot = true;
            }
            j = j + 1;
        }
        if has_dot {
            first = 1;
        }
    }
    let ghost all = ws_tokens(t@);
    let ghost used = replay_tokens(line@);
    proof {
        if toks@.len() > 0 {
            assert(all[0] == toks@[0]@);
            if first == 1 {
                let k = choose|k: int| 0 <= k < toks@[0]@.len() && toks@[0]@[k] == '.';
                assert(all[0][k] == '.');
                assert(used =~= all.drop_first());
            } else {
                assert(used =~= all);
            }
        } else {
            assert(used =~= all);
        }
    }
    let mut bytes: Vec<u8> = Vec::new();
    let mut i = first;
    while i < toks.len()
        invariant
            first <= i <= toks@.len() == all.len(),
            first <= 1,
            !replay_skips(line@),
            used == replay_tokens(line@),
            used =~= all.skip(first as int),
            forall|k: int| 0 <= k < toks@.len() ==> #[trigger] toks@[k]@ == all[k],
            hex_bytes(used.take(i - first)) == Ok::<Seq<u8>, IntErrorKind>(bytes@),
        decreases toks@.len() - i,
    {
        let ghost prefix = used.take(i - first + 1);
        assert(prefix.drop_last() =~= used.take(i - first));
        assert(prefix.last() == toks@[i as int]@);
        let k = strip_hex_prefixes_at(&toks[i]);
        let digits = sub_chars(&toks[i], k, toks[i].len());
        assert(digits@ =~= toks@[i as int]@.skip(k as int));
        match parse_unsigned_chars(&digits, 16, 0xff) {
            Ok(v) => {
                bytes.push(v as u8);
            },
            Err(e) => {
                assert(hex_bytes(prefix) == Err::<Seq<u8>, IntErrorKind>(e));
                proof {
                    lemma_hex_bytes_error_sticks(used, (i - first + 1) as int);
                }
                return ReplayLine::InvalidHex(e);
            },
        }
        i = i + 1;
    }
    assert(used.take(i - first) =~= used);
    ReplayLine::Report(bytes)
}

proof fn lemma_hex_bytes_error_sticks(toks: Seq<Seq<char>>, n: int)
    requires
        0 <= n <= toks.len(),
        hex_bytes(toks.take(n)) is Err,
    ensures
        hex_bytes(toks) == hex_bytes(toks.take(n)),
    decreases toks.len() - n,
{
    if n < toks.len() {
        assert(toks.take(n + 1).drop_last() =~= toks.take(n));
        lemma_hex_bytes_error_sticks(toks, n + 1);
    } else {
        assert(toks.take(n) =~= toks);
    }
}

proof fn lemma_hex_digit(d: int)
    requires
        0 <= d < 16,
    ensures
        ({
            let c = hex_digits()[d];
            &&& !is_whitespace(c)
            &&& c != '.' && c != '#' && c != 'x' && c != '+' && c != '-'
            &&& digit_value(c, 16) == Some(d as nat)
        }),
{
    let c = hex_digits()[d];
    if d == 0 {
        assert(c == '0');
        assert(c as u32 == 48);
    } else if d == 1 {
        assert(c == '1');
        assert(c as u32 == 49);
    } else if d == 2 {
        assert(c == '2');
        assert(c as u32 == 50);
    } else if d == 3 {
        assert(c == '3');
        assert(c as u32 == 51);
    } else if d == 4 {
        assert(c == '4');
        assert(c as u32 == 52);
    } else if d == 5 {
        assert(c == '5');
        assert(c as u32 == 53);
    } else if d == 6 {
        assert(c == '6');
        assert(c as u32 == 54);
    } else if d == 7 {
        assert(c == '7');
        assert(c as u32 == 55);
    } else if d == 8 {
        assert(c == '8');
        assert(c as u32 == 56);
    } else if d == 9 {
        assert(c == '9');
        assert(c as u32 == 57);
    } else if d == 10 {
        assert(c == 'a');
        assert(c as u32 == 97);
    } else if d == 11 {
        assert(c == 'b');
        assert(c as u32 == 98);
    } else if d == 12 {
        assert(c == 'c');
        assert(c as u32 == 99);
    } else if d == 13 {
        assert(c == 'd');
        assert(c as u32 == 100);
    } else if d == 14 {
        assert(c == 'e');
        assert(c as u32 == 101);
    } else if d == 15 {
        assert(c == 'f');
        assert(c as u32 == 102);
    }
}

/// The characters of a dump are hexadecimal digits and single spaces,
/// starting and ending with a digit.
proof fn lemma_hex_dump_chars(bytes: Seq<u8>)
    requires
        bytes.len() > 0,
    ensures
        ({
            let s = hex_dump(bytes);
            &&& s.len() == 3 * bytes.len() - 1
            &&& s[0] == hex_digits()[(bytes[0] / 16) as int]
            &&& s.last() == hex_digits()[(bytes.last() % 16) as int]
        }),
    decreases bytes.len(),
{
    if bytes.len() > 1 {
        lemma_hex_dump_chars(bytes.drop_first());
    }
}

/// The hexadecimal tokens of `bytes`, one per byte.
pub open spec fn hex_tokens(bytes: Seq<u8>) -> Seq<Seq<char>> {
    Seq::new(bytes.len(), |i: int| hex2(bytes[i]))
}

proof fn lemma_hex_dump_tokens(bytes: Seq<u8>)
    requires
        bytes.len() > 0,
    ensures
        ws_tokens(hex_dump(bytes)) == hex_tokens(bytes),
    decreases bytes.len(),
{
    let s = hex_dump(bytes);
    let b = bytes[0];
    lemma_hex_digit((b / 16) as int);
    lemma_hex_digit((b % 16) as int);
    if bytes.len() == 1 {
        assert(s =~= hex2(b));
        lemma_word_len_at(s, 0, 2);
        assert(s.skip(0) =~= s);
        assert(s.take(2) =~= hex2(b));
        assert(s.skip(2) =~= Seq::<char>::empty());
        assert(ws_tokens(Seq::<char>::empty()) =~= Seq::<Seq<char>>::empty());
        assert(ws_tokens(s) =~= hex_tokens(bytes));
    } else {
        let rest = hex_dump(bytes.drop_first());
        lemma_hex_dump_tokens(bytes.drop_first());
        assert(s =~= hex2(b) + seq![' '] + rest);
        assert(s[2] == ' ');
        lemma_word_len_at(s, 0, 2);
        assert(s.skip(0) =~= s);
        assert(s.take(2) =~= hex2(b));
        let after = s.skip(2);
        assert(after =~= seq![' '] + rest);
        assert(after.drop_first() =~= rest);
        assert(ws_tokens(after) == ws_tokens(rest));
        assert(ws_tokens(s) =~= seq![hex2(b)] + hex_tokens(bytes.drop_first()));
        assert(ws_tokens(s) =~= hex_tokens(bytes));
    }
}

proof fn lemma_hex2_parses(b: u8)
    ensures
        strip_hex_prefixes(hex2(b)) == hex2(b),
        parse_unsigned(hex2(b), 16, 0xff) == Ok::<nat, IntErrorKind>(b as nat),
{
    let hi = (b / 16) as int;
    let lo = (b % 16) as int;
    lemma_hex_digit(hi);
    lemma_hex_digit(lo);
    let s = hex2(b);
    assert(hi * 16 + lo == b as int);
    let rest = s.drop_first();
    assert(rest =~= seq![s[1]]);
    assert(rest.drop_first() =~= Seq::<char>::empty());
    assert(accumulate_digits(rest.drop_first(), (hi * 16 + lo) as nat, 16, 0xff) == Ok::<
        nat,
        IntErrorKind,
    >(b as nat));
    assert(accumulate_digits(rest, hi as nat, 16, 0xff) == Ok::<nat, IntErrorKind>(b as nat));
    assert(accumulate_digits(s, 0, 16, 0xff) == Ok::<nat, IntErrorKind>(b as nat));
}

proof fn lemma_hex_bytes_of_tokens(bytes: Seq<u8>)
    ensures
        hex_bytes(hex_tokens(bytes)) == Ok::<Seq<u8>, IntErrorKind>(bytes),
    decreases bytes.len(),
{
    if bytes.len() > 0 {
        let init = bytes.drop_last();
        lemma_hex_bytes_of_tokens(init);
        assert(hex_tokens(bytes).drop_last() =~= hex_tokens(init));
        lemma_hex2_parses(bytes.last());
        assert(init.push(bytes.last()) =~= bytes);
    } else {
        assert(hex_tokens(bytes) =~= Seq::<Seq<char>>::empty());
        assert(bytes =~= Seq::<u8>::empty());
    }
}

proof fn lemma_bare_dump_replays(bytes: Seq<u8>)
    requires
        bytes.len() > 0,
    ensures
        trim(hex_dump(bytes)) == hex_dump(bytes),
        !replay_skips(hex_dump(bytes)),
        replay_tokens(hex_dump(bytes)) == hex_tokens(bytes),
{
    let d = hex_dump(bytes);
    lemma_hex_dump_chars(bytes);
    lemma_hex_dump_tokens(bytes);
    lemma_hex_digit((bytes[0] / 16) as int);
    lemma_hex_digit((bytes.last() % 16) as int);
    lemma_trim_start_skip(d, 0);
    assert(d.skip(0) =~= d);
    lemma_trim_end_take(d, d.len() as int);
    assert(d.take(d.len() as int) =~= d);
    let t0 = hex_tokens(bytes)[0];
    assert(t0 == hex2(bytes[0]));
    assert(!t0.contains('.')) by {
        lemma_hex_digit((bytes[0] % 16) as int);
        if t0.contains('.') {
            let k = choose|k: int| 0 <= k < t0.len() && t0[k] == '.';
            assert(k == 0 || k == 1);
        }
    }
}

proof fn lemma_stamped_tokens(stamp: Seq<char>, d: Seq<char>)
    requires
        stamp.len() > 0,
        forall|i: int| 0 <= i < stamp.len() ==> !is_whitespace(#[trigger] stamp[i]),
    ensures
        ws_tokens(stamp + seq![' '] + d) == seq![stamp] + ws_tokens(d),
{
    let core = stamp + seq![' '] + d;
    assert forall|k: int| 0 <= k < stamp.len() implies !is_whitespace(#[trigger] core[k]) by {
        assert(core[k] == stamp[k]);
    }
    assert(core[stamp.len() as int] == ' ');
    lemma_word_len_at(core, 0, stamp.len() as int);
    assert(core.skip(0) =~= core);
    assert(word_len(core) == stamp.len());
    assert(core.take(stamp.len() as int) =~= stamp);
    let after = core.skip(stamp.len() as int);
    assert(after =~= seq![' '] + d);
    assert(after[0] == ' ');
    assert(after.drop_first() =~= d);
    assert(ws_tokens(after) == ws_tokens(d));
    assert(core[0] == stamp[0]);
    assert(ws_tokens(core) == seq![core.take(stamp.len() as int)] + ws_tokens(after));
}

/// A dump line replays to the bytes it was dumped from: replaying
/// `hex_dump(bytes)`, or the same line behind a timestamp column (any
/// padding whitespace, then a non-blank stamp holding a `.`, then a space),
/// gives back exactly `bytes`.
pub proof fn lemma_dump_line_replays(pad: Seq<char>, stamp: Seq<char>, bytes: Seq<u8>)
    requires
        bytes.len() > 0,
        forall|i: int| 0 <= i < pad.len() ==> is_whitespace(#[trigger] pad[i]),
        stamp.len() > 0,
        stamp[0] != '#',
        stamp.contains('.'),
        forall|i: int| 0 <= i < stamp.len() ==> !is_whitespace(#[trigger] stamp[i]),
    ensures
        !replay_skips(hex_dump(bytes)),
        hex_bytes(replay_tokens(hex_dump(bytes))) == Ok::<Seq<u8>, IntErrorKind>(bytes),
        !replay_skips(pad + stamp + seq![' '] + hex_dump(bytes)),
        hex_bytes(replay_tokens(pad + stamp + seq![' '] + hex_dump(bytes))) == Ok::<
            Seq<u8>,
            IntErrorKind,
        >(bytes),
{
    let d = hex_dump(bytes);
    lemma_bare_dump_replays(bytes);
    lemma_hex_bytes_of_tokens(bytes);
    lemma_hex_dump_chars(bytes);
    lemma_hex_digit((bytes[0] / 16) as int);
    lemma_hex_digit((bytes.last() % 16) as int);
    let line = pad + stamp + seq![' '] + d;
    let core = stamp + seq![' '] + d;
    assert(line[pad.len() as int] == stamp[0]);
    assert forall|k: int| 0 <= k < pad.len() implies is_whitespace(#[trigger] line[k]) by {
        assert(line[k] == pad[k]);
    }
    lemma_trim_start_skip(line, pad.len() as int);
    assert(line.skip(pad.len() as int) =~= core);
    assert(core.last() == d.last());
    lemma_trim_end_take(core, core.len() as int);
    assert(core.take(core.len() as int) =~= core);
    assert(trim(line) == core);
    assert(core[0] == stamp[0]);
    lemma_stamped_tokens(stamp, d);
    lemma_hex_dump_tokens(bytes);
    assert((seq![stamp] + ws_tokens(d)).drop_first() =~= ws_tokens(d));
    assert(ws_tokens(core)[0] == stamp);
    assert(ws_tokens(core).drop_first() =~= hex_tokens(bytes));
}

/// A USB id as `0x` and four lowercase hexadecimal digits (`{:#06x}`).
pub open spec fn hex_id_text(v: u16) -> Seq<char> {
    "0x"@ + hex4(v)
}

/// Formats a USB vendor/product id the way `--list` shows it (`0x28de`).
pub fn hex_id(v: u16) -> (r: String)
    ensures
        r@ == hex_id_text(v),
{
    let mut s = "0x".to_owned();
    push_hex4(&mut s, v);
    s
}

/// An id shown by [`hex_id`] (as `--list` prints it) is read back by
/// [`parse_u16`] (as `--vid`/`--pid` take it) as the same id.
pub proof fn lemma_hex_id_parses_back(v: u16)
    ensures
        parse_u16_spec(hex_id_text(v)) == Ok::<nat, IntErrorKind>(v as nat),
{
    reveal_strlit("0x");
    let s = hex_id_text(v);
    let hi = (v / 256) as u8;
    let lo = (v % 256) as u8;
    let d0 = (hi / 16) as int;
    let d1 = (hi % 16) as int;
    let d2 = (lo / 16) as int;
    let d3 = (lo % 16) as int;
    lemma_hex_digit(d0);
    lemma_hex_digit(d1);
    lemma_hex_digit(d2);
    lemma_hex_digit(d3);
    assert(s =~= seq!['0', 'x', hex_digits()[d0], hex_digits()[d1], hex_digits()[d2], hex_digits()[d3]]);
    lemma_trim_start_skip(s, 0);
    assert(s.skip(0) =~= s);
    lemma_trim_end_take(s, 6);
    assert(s.take(6) =~= s);
    assert(trim(s) == s);
    let t = s.skip(2);
    assert(t =~= seq![hex_digits()[d0], hex_digits()[d1], hex_digits()[d2], hex_digits()[d3]]);
    assert(((d0 * 16 + d1) * 16 + d2) * 16 + d3 == v as int);
    let t1 = t.drop_first();
    let t2 = t1.drop_first();
    let t3 = t2.drop_first();
    let t4 = t3.drop_first();
    assert(t4 =~= Seq::<char>::empty());
    assert(accumulate_digits(t4, v as nat, 16, 0xffff) == Ok::<nat, IntErrorKind>(v as nat));
    assert(accumulate_digits(t3, ((d0 * 16 + d1) * 16 + d2) as nat, 16, 0xffff) == Ok::<
        nat,
        IntErrorKind,
    >(v as nat));
    assert(accumulate_digits(t2, (d0 * 16 + d1) as nat, 16, 0xffff) == Ok::<nat, IntErrorKind>(
        v as nat,
    ));
    assert(accumulate_digits(t1, d0 as nat, 16, 0xffff) == Ok::<nat, IntErrorKind>(v as nat));
    assert(accumulate_digits(t, 0, 16, 0xffff) == Ok::<nat, IntErrorKind>(v as nat));
}


/// The upper-case hexadecimal digits.
pub open spec fn hex_digits_upper() -> Seq<char> {
    seq!['0', '1', '2', '3', '4', '5', '6', '7', '8', '9', 'A', 'B', 'C', 'D', 'E', 'F']
}

/// The digit character for `d` (below 16), in lower or upper case.
pub open spec fn digit_char(d: nat, upper: bool) -> char {
    if upper {
        hex_digits_upper()[d as int]
    } else {
        hex_digits()[d as int]
    }
}

/// `v` written in `radix` (2 to 16) with no leading zeros, as `{}`, `{:x}`
/// and `{:X}` write it.
pub open spec fn radix_text(v: nat, radix: nat, upper: bool) -> Seq<char>
    decreases v,
{
    if radix < 2 || v < radix {
        seq![digit_char(v, upper)]
    } else {
        proof {
            vstd::arithmetic::div_mod::lemma_div_decreases(v as int, radix as int);
        }
        radix_text(v / radix, radix, upper).push(digit_char(v % radix, upper))
    }
}

proof fn lemma_digit_char(d: nat, upper: bool)
    requires
        d < 16,
    ensures
        digit_value(digit_char(d, upper), 16) == Some(d),
        d < 10 ==> digit_value(digit_char(d, upper), 10) == Some(d),
{
    let c = digit_char(d, upper);
    if d == 0 {
        assert(c == '0' && c as u32 == 48);
    } else if d == 1 {
        assert(c == '1' && c as u32 == 49);
    } else if d == 2 {
        assert(c == '2' && c as u32 == 50);
    } else if d == 3 {
        assert(c == '3' && c as u32 == 51);
    } else if d == 4 {
        assert(c == '4' && c as u32 == 52);
    } else if d == 5 {
        assert(c == '5' && c as u32 == 53);
    } else if d == 6 {
        assert(c == '6' && c as u32 == 54);
    } else if d == 7 {
        assert(c == '7' && c as u32 == 55);
    } else if d == 8 {
        assert(c == '8' && c as u32 == 56);
    } else if d == 9 {
        assert(c == '9' && c as u32 == 57);
    } else if upper {
        if d == 10 {
            assert(c == 'A' && c as u32 == 65);
        } else if d == 11 {
            assert(c == 'B' && c as u32 == 66);
        } else if d == 12 {
            assert(c == 'C' && c as u32 == 67);
        } else if d == 13 {
            assert(c == 'D' && c as u32 == 68);
        } else if d == 14 {
            assert(c == 'E' && c as u32 == 69);
        } else {
            assert(c == 'F' && c as u32 == 70);
        }
    } else {
        if d == 10 {
            assert(c == 'a' && c as u32 == 97);
        } else if d == 11 {
            assert(c == 'b' && c as u32 == 98);
        } else if d == 12 {
            assert(c == 'c' && c as u32 == 99);
        } else if d == 13 {
            assert(c == 'd' && c as u32 == 100);
        } else if d == 14 {
            assert(c == 'e' && c as u32 == 101);
        } else {
            assert(c == 'f' && c as u32 == 102);
        }
    }
}

/// A character that is a digit of a radix up to 16 is no whitespace, no
/// sign and no `x`.
proof fn lemma_digit_is_plain(c: char, r: nat)
    requires
        r <= 16,
        digit_value(c, r) is Some,
    ensures
        !is_whitespace(c),
        c != 'x' && c != 'X' && c != '+' && c != '-',
{
    assert('x' as u32 == 120);
    assert('X' as u32 == 88);
    assert('+' as u32 == 43);
    assert('-' as u32 == 45);
}

proof fn lemma_accumulate_push(s: Seq<char>, c: char, acc: nat, r: nat, max: nat, w: nat, x: nat)
    requires
        accumulate_digits(s, acc, r, max) == Ok::<nat, IntErrorKind>(w),
        digit_value(c, r) == Some(x),
    ensures
        accumulate_digits(s.push(c), acc, r, max) == (if w * r + x > max {
            Err::<nat, IntErrorKind>(IntErrorKind::PosOverflow)
        } else {
            Ok::<nat, IntErrorKind>(w * r + x)
        }),
    decreases s.len(),
{
    let t = s.push(c);
    if s.len() == 0 {
        assert(t.drop_first() =~= Seq::<char>::empty());
        assert(t[0] == c);
        assert(w == acc);
        let n = acc * r + x;
        if n <= max {
            assert(accumulate_digits(t.drop_first(), n, r, max) == Ok::<nat, IntErrorKind>(n));
        }
    } else {
        assert(t[0] == s[0]);
        assert(t.drop_first() =~= s.drop_first().push(c));
        let y = digit_value(s[0], r).unwrap();
        assert(acc * r + y <= max);
        assert(accumulate_digits(s.drop_first(), acc * r + y, r, max) == Ok::<nat, IntErrorKind>(w));
        lemma_accumulate_push(s.drop_first(), c, acc * r + y, r, max, w, x);
        assert(accumulate_digits(t, acc, r, max) == accumulate_digits(t.drop_first(), acc * r + y, r, max));
    }
}

proof fn lemma_radix_text_reads_back(v: nat, r: nat, upper: bool, max: nat)
    requires
        r == 10 || r == 16,
        v <= max,
    ensures
        accumulate_digits(radix_text(v, r, upper), 0, r, max) == Ok::<nat, IntErrorKind>(v),
        radix_text(v, r, upper).len() >= 1,
        forall|i: int|
            0 <= i < radix_text(v, r, upper).len() ==> (digit_value(
                #[trigger] radix_text(v, r, upper)[i],
                r,
            ) is Some),
    decreases v,
{
    let t = radix_text(v, r, upper);
    if v < r {
        lemma_digit_char(v, upper);
        assert(t =~= seq![digit_char(v, upper)]);
        assert(t.drop_first() =~= Seq::<char>::empty());
        assert(t[0] == digit_char(v, upper));
        assert(digit_value(t[0], r) == Some(v));
        assert(0 * r + v == v);
        assert(accumulate_digits(t.drop_first(), v, r, max) == Ok::<nat, IntErrorKind>(v));
    } else {
        vstd::arithmetic::div_mod::lemma_div_decreases(v as int, r as int);
        let q = v / r;
        let d = v % r;
        assert(q * r + d == v) by (nonlinear_arith)
            requires
                r > 0,
                q == v / r,
                d == v % r,
        ;
        assert(d < r) by (nonlinear_arith)
            requires
                r > 0,
                d == v % r,
        ;
        assert(q <= max);
        lemma_radix_text_reads_back(q, r, upper, max);
        lemma_digit_char(d, upper);
        let head = radix_text(q, r, upper);
        assert(t == head.push(digit_char(d, upper)));
        lemma_accumulate_push(head, digit_char(d, upper), 0, r, max, q, d);
        assert forall|i: int| 0 <= i < t.len() implies (digit_value(#[trigger] t[i], r) is Some) by {
            if i < head.len() {
                assert(t[i] == head[i]);
            }
        }
    }
}

proof fn lemma_trim_padded(before: Seq<char>, core: Seq<char>, after: Seq<char>)
    requires
        core.len() > 0,
        !is_whitespace(core[0]),
        !is_whitespace(core.last()),
        forall|i: int| 0 <= i < before.len() ==> is_whitespace(#[trigger] before[i]),
        forall|i: int| 0 <= i < after.len() ==> is_whitespace(#[trigger] after[i]),
    ensures
        trim(before + core + after) == core,
{
    let s = before + core + after;
    assert forall|k: int| 0 <= k < before.len() implies is_whitespace(#[trigger] s[k]) by {
        assert(s[k] == before[k]);
    }
    assert(s[before.len() as int] == core[0]);
    lemma_trim_start_skip(s, before.len() as int);
    let rest = core + after;
    assert(s.skip(before.len() as int) =~= rest);
    assert forall|k: int| core.len() <= k < rest.len() implies is_whitespace(#[trigger] rest[k]) by {
        assert(rest[k] == after[k - core.len()]);
    }
    assert(rest[core.len() - 1] == core.last());
    lemma_trim_end_take(rest, core.len() as int);
    assert(rest.take(core.len() as int) =~= core);
}

/// An id written as `--vid`/`--pid` accept it parses back to itself: in
/// hexadecimal behind `0x` or `0X`, with lower- or upper-case digits and no
/// leading zeros (`{:#x}`, `{:#X}`), or in decimal (`{}`), with any
/// whitespace around it.
pub proof fn lemma_written_ids_parse_back(
    v: u16,
    upper: bool,
    before: Seq<char>,
    after: Seq<char>,
)
    requires
        forall|i: int| 0 <= i < before.len() ==> is_whitespace(#[trigger] before[i]),
        forall|i: int| 0 <= i < after.len() ==> is_whitespace(#[trigger] after[i]),
    ensures
        parse_u16_spec(before + "0x"@ + radix_text(v as nat, 16, upper) + after) == Ok::<
            nat,
            IntErrorKind,
        >(v as nat),
        parse_u16_spec(before + "0X"@ + radix_text(v as nat, 16, upper) + after) == Ok::<
            nat,
            IntErrorKind,
        >(v as nat),
        parse_u16_spec(before + radix_text(v as nat, 10, false) + after) == Ok::<nat, IntErrorKind>(
            v as nat,
        ),
{
    reveal_strlit("0x");
    reveal_strlit("0X");
    let hex = radix_text(v as nat, 16, upper);
    let dec = radix_text(v as nat, 10, false);
    lemma_radix_text_reads_back(v as nat, 16, upper, 0xffff);
    lemma_radix_text_reads_back(v as nat, 10, false, 0xffff);
    lemma_digit_is_plain(hex[0], 16);
    lemma_digit_is_plain(hex[hex.len() - 1], 16);
    lemma_digit_is_plain(dec[0], 10);
    lemma_digit_is_plain(dec[dec.len() - 1], 10);
    assert('0' as u32 == 48);

    let lo = "0x"@ + hex;
    assert(lo[0] == '0' && lo[1] == 'x');
    assert(lo.last() == hex.last());
    lemma_trim_padded(before, lo, after);
    assert(before + "0x"@ + hex + after =~= before + lo + after);
    assert(lo.skip(2) =~= hex);

    let up = "0X"@ + hex;
    assert(up[0] == '0' && up[1] == 'X');
    assert(up.last() == hex.last());
    lemma_trim_padded(before, up, after);
    assert(before + "0X"@ + hex + after =~= before + up + after);
    assert(up.skip(2) =~= hex);

    lemma_trim_padded(before, dec, after);
    if dec.len() >= 2 {
        lemma_digit_is_plain(dec[1], 10);
    }
}

} // verus!
