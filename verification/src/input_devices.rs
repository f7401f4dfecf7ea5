//! Finding the kernel's `evdev` nodes for a HID device in the text of
//! `/proc/bus/input/devices`.
//!
//! The file is a list of blocks separated by blank lines; a block's `I:`
//! line names the device's vendor and product (`Vendor=28de
//! Product=1302`), and its `H: Handlers=` line lists the kernel handlers
//! bound to it (`mouse0 event5`).

use crate::text::{
    chars_of, contains_chars, contains_seq, has_prefix, hex4, lines_of, push_chars, push_hex4,
    split_lines, split_on, split_seq, starts_with, sub_chars, views, whitespace_tokens, ws_tokens,
};
use vstd::prelude::*;

verus! {

/// The text that marks vendor id `vid` in an `I:` line.
pub open spec fn vendor_tag(vid: u16) -> Seq<char> {
    "Vendor="@ + hex4(vid)
}

/// The text that marks product id `pid` in an `I:` line.
pub open spec fn product_tag(pid: u16) -> Seq<char> {
    "Product="@ + hex4(pid)
}

/// The first of `lines` that begins with `p`, if any.
pub open spec fn first_with_prefix(lines: Seq<Seq<char>>, p: Seq<char>) -> Option<Seq<char>>
    decreases lines.len(),
{
    if lines.len() == 0 {
        None
    } else if starts_with(lines[0], p) {
        Some(lines[0])
    } else {
        first_with_prefix(lines.drop_first(), p)
    }
}

/// `true` when the block's first `I:` line names both `vid` and `pid`.
pub open spec fn block_matches(block: Seq<char>, vid: u16, pid: u16) -> bool {
    match first_with_prefix(lines_of(block), "I:"@) {
        Some(l) => contains_seq(l, vendor_tag(vid)) && contains_seq(l, product_tag(pid)),
        None => false,
    }
}

/// The device node of each `eventN` handler token.
pub open spec fn token_events(toks: Seq<Seq<char>>) -> Seq<Seq<char>>
    decreases toks.len(),
{
    if toks.len() == 0 {
        Seq::empty()
    } else {
        let t = toks[0];
        let head: Seq<Seq<char>> = if starts_with(t, "event"@) {
            seq!["/dev/input/event"@ + t.skip("event"@.len() as int)]
        } else {
            Seq::empty()
        };
        head + token_events(toks.drop_first())
    }
}

/// The event device nodes listed on the `H: Handlers=` lines of `lines`.
pub open spec fn line_events(lines: Seq<Seq<char>>) -> Seq<Seq<char>>
    decreases lines.len(),
{
    if lines.len() == 0 {
        Seq::empty()
    } else {
        let l = lines[0];
        let head = if starts_with(l, "H: Handlers="@) {
            token_events(ws_tokens(l.skip("H: Handlers="@.len() as int)))
        } else {
            Seq::empty()
        };
        head + line_events(lines.drop_first())
    }
}

/// The event device nodes of the blocks that match `vid`/`pid`.
pub open spec fn block_events(blocks: Seq<Seq<char>>, vid: u16, pid: u16) -> Seq<Seq<char>>
    decreases blocks.len(),
{
    if blocks.len() == 0 {
        Seq::empty()
    } else {
        let b = blocks[0];
        let head = if block_matches(b, vid, pid) {
            line_events(lines_of(b))
        } else {
            Seq::empty()
        };
        head + block_events(blocks.drop_first(), vid, pid)
    }
}

/// Every `/dev/input/eventN` path that `contents` (the text of
/// `/proc/bus/input/devices`) lists for the device `vid`/`pid`, in order.
pub open spec fn event_device_paths(contents: Seq<char>, vid: u16, pid: u16) -> Seq<Seq<char>> {
    block_events(split_seq(contents, "\n\n"@), vid, pid)
}

/// The views of a sequence of strings.
pub open spec fn string_views(v: Seq<String>) -> Seq<Seq<char>> {
    v.map_values(|s: String| s@)
}

fn first_line_with_prefix(lines: &Vec<Vec<char>>, p: &Vec<char>) -> (r: Option<usize>)
    ensures
        match r {
            Some(j) => j < lines@.len() && first_with_prefix(views(lines@), p@) == Some(
                lines@[j as int]@,
            ),
            None => first_with_prefix(views(lines@), p@) is None,
        },
{
    let mut j: usize = 0;
    assert(views(lines@).skip(0) =~= views(lines@));
    while j < lines.len()
        invariant
            j <= lines@.len(),
            first_with_prefix(views(lines@), p@) == first_with_prefix(
                views(lines@).skip(j as int),
                p@,
            ),
        decreases lines@.len() - j,
    {
        let ghost rest = views(lines@).skip(j as int);
        assert(rest[0] == lines@[j as int]@);
        if has_prefix(&lines[j], p) {
            return Some(j);
        }
        assert(rest.drop_first() =~= views(lines@).skip(j + 1));
        j = j + 1;
    }
    None
}

fn push_token_events(out: &mut Vec<String>, toks: &Vec<Vec<char>>, event: &Vec<char>)
    requires
        event@ == "event"@,
    ensures
        string_views(final(out)@) == string_views(old(out)@) + token_events(views(toks@)),
{
    let ghost start = string_views(out@);
    let mut k: usize = 0;
    assert(views(toks@).skip(0) =~= views(toks@));
    while k < toks.len()
        invariant
            k <= toks@.len(),
            event@ == "event"@,
            string_views(out@) + token_events(views(toks@).skip(k as int)) =~= start
                + token_events(views(toks@)),
        decreases toks@.len() - k,
    {
        let ghost rest = views(toks@).skip(k as int);
        assert(rest[0] == toks@[k as int]@);
        assert(rest.drop_first() =~= views(toks@).skip(k + 1));
        let ghost before = string_views(out@);
        if has_prefix(&toks[k], event) {
            let mut path = "/dev/input/event".to_owned();
            push_chars(&mut path, &toks[k], event.len(), toks[k].len());
            assert(path@ =~= "/dev/input/event"@ + toks@[k as int]@.skip("event"@.len() as int));
            out.push(path);
            assert(string_views(out@) =~= before.push(path@));
        }
        k = k + 1;
    }
    assert(views(toks@).skip(k as int) =~= Seq::<Seq<char>>::empty());
}

fn push_line_events(
    out: &mut Vec<String>,
    lines: &Vec<Vec<char>>,
    handlers: &Vec<char>,
    event: &Vec<char>,
)
    requires
        event@ == "event"@,
        handlers@ == "H: Handlers="@,
    ensures
        string_views(final(out)@) == string_views(old(out)@) + line_events(views(lines@)),
{
    let ghost start = string_views(out@);
    let mut j: usize = 0;
    assert(views(lines@).skip(0) =~= views(lines@));
    while j < lines.len()
        invariant
            j <= lines@.len(),
            event@ == "event"@,
            handlers@ == "H: Handlers="@,
            string_views(out@) + line_events(views(lines@).skip(j as int)) =~= start + line_events(
                views(lines@),
            ),
        decreases lines@.len() - j,
    {
        let ghost rest = views(lines@).skip(j as int);
        assert(rest[0] == lines@[j as int]@);
        assert(rest.drop_first() =~= views(lines@).skip(j + 1));
        if has_prefix(&lines[j], handlers) {
            let list = sub_chars(&lines[j], handlers.len(), lines[j].len());
            let toks = whitespace_tokens(&list);
            assert(views(toks@) =~= ws_tokens(list@));
            push_token_events(out, &toks, event);
        }
        j = j + 1;
    }
    assert(views(lines@).skip(j as int) =~= Seq::<Seq<char>>::empty());
}

fn tag_chars(name: &str, id: u16) -> (r: Vec<char>)
    ensures
        r@ == name@ + hex4(id),
{
    let mut s = name.to_owned();
    push_hex4(&mut s, id);
    chars_of(s.as_str())
}

/// Every `/dev/input/eventN` path listed in `contents` (the text of
/// `/proc/bus/input/devices`) for the device `vid`/`pid`: for each
/// blank-line-separated block whose first `I:` line holds `Vendor=` and
/// `Product=` with the ids as four lowercase hex digits, the `eventN`
/// tokens of its `H: Handlers=` lines.
pub fn find_event_devices(contents: &str, vid: u16, pid: u16) -> (r: Vec<String>)
    ensures
        string_views(r@) == event_device_paths(contents@, vid, pid),
{
    let cs = chars_of(contents);
    let sep = chars_of("\n\n");
    proof {
        reveal_strlit("\n\n");
    }
    let blocks = split_on(&cs, &sep);
    let want_vid = tag_chars("Vendor=", vid);
    let want_pid = tag_chars("Product=", pid);
    let info = chars_of("I:");
    let handlers = chars_of("H: Handlers=");
    let event = chars_of("event");
    let mut out: Vec<String> = Vec::new();
    let ghost all = views(blocks@);
    assert(all.skip(0) =~= all);
    assert(string_views(out@) =~= Seq::<Seq<char>>::empty());
    let mut b: usize = 0;
    while b < blocks.len()
        invariant
            b <= blocks@.len(),
            all == views(blocks@),
            all == split_seq(contents@, "\n\n"@),
            want_vid@ == vendor_tag(vid),
            want_pid@ == product_tag(pid),
            info@ == "I:"@,
            handlers@ == "H: Handlers="@,
            event@ == "event"@,
            string_views(out@) + block_events(all.skip(b as int), vid, pid) =~= block_events(
                all,
                vid,
                pid,
            ),
        decreases blocks@.len() - b,
    {
        let ghost rest = all.skip(b as int);
        assert(rest[0] == blocks@[b as int]@);
        assert(rest.drop_first() =~= all.skip(b + 1));
        let lines = split_lines(&blocks[b]);
        let matched = match first_line_with_prefix(&lines, &info) {
            Some(j) => contains_chars(&lines[j], &want_vid) && contains_chars(&lines[j], &want_pid),
            None => false,
        };
        assert(matched == block_matches(blocks@[b as int]@, vid, pid));
        if matched {
            push_line_events(&mut out, &lines, &handlers, &event);
        }
        b = b + 1;
    }
    assert(all.skip(b as int) =~= Seq::<Seq<char>>::empty());
    out
}

} // verus!
