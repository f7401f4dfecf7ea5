//! File-name rules of the profile store: which file holds a profile, which
//! directory entries are profiles, the order they are listed in, and how
//! the active-profile marker is read. The file I/O lives with the caller.

use crate::text::{chars_of, string_from, sub_chars, trim, trim_bounds};
use vstd::prelude::*;
use vstd::relations::{sorted_by, total_ordering};

verus! {

/// The file name that holds the profile named `name`.
pub open spec fn profile_file_name_spec(name: Seq<char>) -> Seq<char> {
    name + ".toml"@
}

/// The file name that holds the profile named `name` (`{name}.toml`).
pub fn profile_file_name(name: &str) -> (r: String)
    ensures
        r@ == profile_file_name_spec(name@),
{
    name.to_owned().concat(".toml")
}

/// The file name of the marker that records the active profile.
pub fn active_marker_file_name() -> (r: &'static str)
    ensures
        r@ == ".active"@,
{
    ".active"
}

/// The name recorded in the active-profile marker `contents`: the text
/// with surrounding whitespace removed, or `None` when nothing is left.
pub fn active_profile_name(contents: &str) -> (r: Option<String>)
    ensures
        match r {
            Some(name) => trim(contents@).len() > 0 && name@ == trim(contents@),
            None => trim(contents@).len() == 0,
        },
{
    let cs = chars_of(contents);
    let (a, b) = trim_bounds(&cs);
    if a == b {
        None
    } else {
        Some(string_from(&cs, a, b))
    }
}

/// The index of the last `.` in `s`, if any.
pub open spec fn last_dot(s: Seq<char>) -> Option<int>
    decreases s.len(),
{
    if s.len() == 0 {
        None
    } else if s.last() == '.' {
        Some(s.len() - 1)
    } else {
        last_dot(s.drop_last())
    }
}

/// The profile name held by the directory entry `file`, if it is a profile:
/// the file's stem when its extension is `toml`, as `Path::extension` and
/// `Path::file_stem` read a file name (the extension follows the last `.`,
/// and a name whose only `.` leads it, or `..`, has none).
pub open spec fn toml_stem(file: Seq<char>) -> Option<Seq<char>> {
    match last_dot(file) {
        Some(k) => if 0 < k && file != ".."@ && file.skip(k + 1) == "toml"@ {
            Some(file.take(k))
        } else {
            None
        },
        None => None,
    }
}

proof fn lemma_last_dot_range(s: Seq<char>)
    ensures
        last_dot(s) matches Some(k) ==> 0 <= k < s.len() && s[k] == '.' && forall|j: int|
            k < j < s.len() ==> s[j] != '.',
        last_dot(s) is None ==> forall|j: int| 0 <= j < s.len() ==> s[j] != '.',
    decreases s.len(),
{
    if s.len() > 0 && s.last() != '.' {
        lemma_last_dot_range(s.drop_last());
        assert forall|j: int| 0 <= j < s.len() - 1 implies s[j] == s.drop_last()[j] by {}
    }
}

proof fn lemma_last_dot_at(s: Seq<char>, k: int)
    requires
        0 <= k < s.len(),
        s[k] == '.',
        forall|j: int| k < j < s.len() ==> s[j] != '.',
    ensures
        last_dot(s) == Some(k),
    decreases s.len(),
{
    if k < s.len() - 1 {
        lemma_last_dot_at(s.drop_last(), k);
    }
}

/// A profile saved under a non-empty name is listed under that name: the
/// stem of `{name}.toml` is `name`. (An empty name is saved as `.toml`,
/// which has no extension, and is never listed.)
pub proof fn lemma_saved_profile_is_listed(name: Seq<char>)
    requires
        name.len() > 0,
    ensures
        toml_stem(profile_file_name_spec(name)) == Some(name),
{
    reveal_strlit(".toml");
    reveal_strlit("toml");
    reveal_strlit("..");
    let f = profile_file_name_spec(name);
    let k = name.len() as int;
    assert(f[k] == '.');
    lemma_last_dot_at(f, k);
    assert(f.skip(k + 1) =~= "toml"@);
    assert(f.take(k) =~= name);
    if f == ".."@ {
        assert(f.len() == 2);
        assert(f[f.len() - 1] == 'l');
    }
}

fn last_dot_index(cs: &Vec<char>) -> (r: Option<usize>)
    ensures
        match r {
            Some(k) => k < cs@.len() && last_dot(cs@) == Some(k as int),
            None => last_dot(cs@) is None,
        },
{
    let mut i = cs.len();
    while i > 0
        invariant
            i <= cs@.len(),
            forall|j: int| i <= j < cs@.len() ==> cs@[j] != '.',
        decreases i,
    {
        if cs[i - 1] == '.' {
            proof {
                lemma_last_dot_at(cs@, i - 1);
            }
            return Some(i - 1);
        }
        i = i - 1;
    }
    proof {
        lemma_last_dot_range(cs@);
        if last_dot(cs@) is Some {
            let k = last_dot(cs@)->0;
            assert(cs@[k] == '.');
        }
    }
    None
}

fn equals_literal(cs: &Vec<char>, lit: &str) -> (r: bool)
    ensures
        r == (cs@ == lit@),
{
    let l = chars_of(lit);
    if cs.len() != l.len() {
        return false;
    }
    let mut i: usize = 0;
    while i < cs.len()
        invariant
            i <= cs@.len() == l@.len(),
            l@ == lit@,
            forall|j: int| 0 <= j < i ==> cs@[j] == l@[j],
        decreases cs@.len() - i,
    {
        if cs[i] != l[i] {
            return false;
        }
        i = i + 1;
    }
    assert(cs@ =~= l@);
    true
}

fn toml_stem_chars(cs: &Vec<char>) -> (r: Option<Vec<char>>)
    ensures
        match r {
            Some(stem) => toml_stem(cs@) == Some(stem@),
            None => toml_stem(cs@) is None,
        },
{
    match last_dot_index(cs) {
        None => None,
        Some(k) => {
            let n = cs.len();
            let ext = sub_chars(cs, k + 1, n);
            assert(ext@ =~= cs@.skip(k + 1));
            if 0 < k && !equals_literal(cs, "..") && equals_literal(&ext, "toml") {
                let stem = sub_chars(cs, 0, k);
                assert(stem@ =~= cs@.take(k as int));
                Some(stem)
            } else {
                None
            }
        },
    }
}

/// Code-point lexicographic order on texts, the order of `String`'s `Ord`
/// (byte order of UTF-8).
pub open spec fn text_le(a: Seq<char>, b: Seq<char>) -> bool
    decreases a.len(),
{
    if a.len() == 0 {
        true
    } else if b.len() == 0 {
        false
    } else if a[0] != b[0] {
        (a[0] as u32) < (b[0] as u32)
    } else {
        text_le(a.drop_first(), b.drop_first())
    }
}

proof fn lemma_text_le_total(a: Seq<char>, b: Seq<char>)
    ensures
        text_le(a, b) || text_le(b, a),
        text_le(a, b) && text_le(b, a) ==> a == b,
        text_le(a, a),
    decreases a.len(),
{
    if a.len() > 0 && b.len() > 0 {
        lemma_text_le_total(a.drop_first(), b.drop_first());
        vstd::utf8::char_u32_cast(a[0], a[0] as u32);
        vstd::utf8::char_u32_cast(b[0], b[0] as u32);
        if a[0] == b[0] && a.drop_first() == b.drop_first() {
            assert(a =~= seq![a[0]] + a.drop_first());
            assert(b =~= seq![b[0]] + b.drop_first());
        }
    } else if a.len() > 0 {
        lemma_text_le_total(a.drop_first(), a.drop_first());
    } else if b.len() == 0 {
        assert(a =~= b);
    }
}

proof fn lemma_text_le_transitive(a: Seq<char>, b: Seq<char>, c: Seq<char>)
    requires
        text_le(a, b),
        text_le(b, c),
    ensures
        text_le(a, c),
    decreases a.len(),
{
    if a.len() > 0 && b.len() > 0 && c.len() > 0 {
        if a[0] == b[0] && b[0] == c[0] {
            lemma_text_le_transitive(a.drop_first(), b.drop_first(), c.drop_first());
        }
    }
}

/// [`text_le`] is a total order.
pub proof fn lemma_text_le_total_ordering()
    ensures
        total_ordering(|a: Seq<char>, b: Seq<char>| text_le(a, b)),
{
    let le = |a: Seq<char>, b: Seq<char>| text_le(a, b);
    assert forall|a: Seq<char>| #[trigger] le(a, a) by {
        lemma_text_le_total(a, a);
    }
    assert forall|a: Seq<char>, b: Seq<char>| #[trigger] le(a, b) && #[trigger] le(b, a) implies a
        == b by {
        lemma_text_le_total(a, b);
    }
    assert forall|a: Seq<char>, b: Seq<char>, c: Seq<char>|
        #[trigger] le(a, b) && #[trigger] le(b, c) implies le(a, c) by {
        lemma_text_le_transitive(a, b, c);
    }
    assert forall|a: Seq<char>, b: Seq<char>| #[trigger] le(a, b) || le(b, a) by {
        lemma_text_le_total(a, b);
    }
}

fn text_le_chars(a: &Vec<char>, b: &Vec<char>) -> (r: bool)
    ensures
        r == text_le(a@, b@),
{
    let mut i: usize = 0;
    assert(a@.skip(0) =~= a@);
    assert(b@.skip(0) =~= b@);
    while i < a.len() && i < b.len() && a[i] == b[i]
        invariant
            i <= a@.len(),
            i <= b@.len(),
            text_le(a@, b@) == text_le(a@.skip(i as int), b@.skip(i as int)),
        decreases a@.len() - i,
    {
        assert(a@.skip(i as int).drop_first() =~= a@.skip(i + 1));
        assert(b@.skip(i as int).drop_first() =~= b@.skip(i + 1));
        i = i + 1;
    }
    if i == a.len() {
        true
    } else if i == b.len() {
        false
    } else {
        assert(a@.skip(i as int)[0] == a@[i as int]);
        assert(b@.skip(i as int)[0] == b@[i as int]);
        let x = a[i];
        let y = b[i];
        assert(x == a@[i as int]);
        (x as u32) < (y as u32)
    }
}

/// The profile names held by the directory entries `files`.
pub open spec fn listed_stems(files: Seq<Seq<char>>) -> Seq<Seq<char>>
    decreases files.len(),
{
    if files.len() == 0 {
        Seq::empty()
    } else {
        let rest = listed_stems(files.drop_last());
        match toml_stem(files.last()) {
            Some(stem) => rest.push(stem),
            None => rest,
        }
    }
}

/// The views of a sequence of strings.
pub open spec fn string_views(v: Seq<String>) -> Seq<Seq<char>> {
    v.map_values(|s: String| s@)
}

/// The views of a sequence of character vectors.
pub open spec fn char_views(v: Seq<Vec<char>>) -> Seq<Seq<char>> {
    v.map_values(|s: Vec<char>| s@)
}

/// The profiles among the directory entry names `files`: the stems of the
/// names whose extension is `toml`, sorted in `String` order.
pub fn profile_names(files: &Vec<String>) -> (r: Vec<String>)
    ensures
        sorted_by(string_views(r@), |a: Seq<char>, b: Seq<char>| text_le(a, b)),
        string_views(r@).to_multiset() == listed_stems(string_views(files@)).to_multiset(),
{
    broadcast use vstd::seq_lib::to_multiset_insert, vstd::seq_lib::to_multiset_build;

    let ghost le = |a: Seq<char>, b: Seq<char>| text_le(a, b);
    proof {
        lemma_text_le_total_ordering();
    }
    let mut names: Vec<String> = Vec::new();
    let mut keys: Vec<Vec<char>> = Vec::new();
    let mut i: usize = 0;
    assert(string_views(files@).take(0) =~= Seq::<Seq<char>>::empty());
    assert(char_views(keys@) =~= Seq::<Seq<char>>::empty());
    assert(string_views(names@) =~= Seq::<Seq<char>>::empty());
    assert(listed_stems(Seq::<Seq<char>>::empty()) =~= Seq::<Seq<char>>::empty());
    while i < files.len()
        invariant
            i <= files@.len(),
            total_ordering(le),
            le == (|a: Seq<char>, b: Seq<char>| text_le(a, b)),
            keys@.len() == names@.len(),
            char_views(keys@) == string_views(names@),
            sorted_by(char_views(keys@), le),
            char_views(keys@).to_multiset() == listed_stems(
                string_views(files@).take(i as int),
            ).to_multiset(),
        decreases files@.len() - i,
    {
        let ghost prefix = string_views(files@).take(i + 1);
        assert(prefix.drop_last() =~= string_views(files@).take(i as int));
        assert(prefix.last() == files@[i as int]@);
        let file = chars_of(files[i].as_str());
        assert(file@ == prefix.last());
        match toml_stem_chars(&file) {
            None => {
                assert(listed_stems(prefix) == listed_stems(prefix.drop_last()));
            },
            Some(stem) => {
                let mut p: usize = 0;
                while p < keys.len() && text_le_chars(&keys[p], &stem)
                    invariant
                        p <= keys@.len(),
                        le == (|a: Seq<char>, b: Seq<char>| text_le(a, b)),
                        forall|j: int| 0 <= j < p ==> le(keys@[j]@, stem@),
                    decreases keys@.len() - p,
                {
                    p = p + 1;
                }
                let ghost old_keys = char_views(keys@);
                let ghost old_names = string_views(names@);
                let name = string_from(&stem, 0, stem.len());
                assert(stem@.subrange(0, stem@.len() as int) =~= stem@);
                keys.insert(p, stem);
                names.insert(p, name);
                proof {
                    assert(char_views(keys@) =~= old_keys.insert(p as int, stem@));
                    assert(string_views(names@) =~= old_names.insert(p as int, stem@));
                    assert(listed_stems(prefix) == listed_stems(prefix.drop_last()).push(stem@));
                    vstd::seq_lib::to_multiset_insert(old_keys, p as int, stem@);
                    vstd::seq_lib::to_multiset_build(listed_stems(prefix.drop_last()), stem@);
                    assert(char_views(keys@).to_multiset() == old_keys.to_multiset().insert(stem@));
                    let s = char_views(keys@);
                    assert forall|a: int, b: int| 0 <= a < b < s.len() implies le(s[a], s[b]) by {
                        if b == p {
                            assert(le(old_keys[a], stem@));
                        } else if a == p {
                            assert(!le(old_keys[p as int], stem@));
                            assert(le(stem@, old_keys[p as int]));
                            if b - 1 > p {
                                assert(le(old_keys[p as int], old_keys[b - 1]));
                            }
                        } else if a < p && b > p {
                            assert(le(old_keys[a], old_keys[b - 1]));
                        } else if b < p {
                            assert(le(old_keys[a], old_keys[b]));
                        } else {
                            assert(le(old_keys[a - 1], old_keys[b - 1]));
                        }
                    }
                }
            },
        }
        i = i + 1;
    }
    assert(string_views(files@).take(i as int) =~= string_views(files@));
    names
}

} // verus!
