//! The local index of downloaded clips: which clip ids are already on disk.
//!
//! Ids are compared in lower case. They come from the index file, from the index file of an
//! older app, and from WAV files named after a clip id.
use vstd::prelude::*;
use crate::text::{
    chars_lt, lemma_text_lt_asymmetric, lemma_text_lt_irreflexive, lemma_text_lt_total,
    lemma_text_lt_transitive, strictly_sorted, text_lt, ascii_lower, chars_end_with, chars_of, ends_with, slice_chars, string_of, to_lowercase,
    lowercase,
};
use crate::text_set::{texts_of, TextSet};

verus! {

broadcast use Seq::lemma_push_to_set_commute;

/// An ASCII hexadecimal digit, in either case.
pub open spec fn is_hex_char(c: char) -> bool {
    ('0' <= c && c <= '9') || ('a' <= c && c <= 'f') || ('A' <= c && c <= 'F')
}

/// Eight, four, four, four and twelve hexadecimal digits separated by hyphens.
pub open spec fn is_uuid_text(s: Seq<char>) -> bool {
    s.len() == 36 && forall|i: int| 0 <= i < 36 ==> uuid_char_ok(i, #[trigger] s[i])
}

/// The character allowed at position `i` of a clip id: a hyphen at 8, 13, 18 and 23, else a
/// hexadecimal digit.
pub open spec fn uuid_char_ok(i: int, c: char) -> bool {
    if i == 8 || i == 13 || i == 18 || i == 23 {
        c == '-'
    } else {
        is_hex_char(c)
    }
}

/// `.wav` in any letter case.
pub open spec fn is_wav_ext(s: Seq<char>) -> bool {
    ascii_lower(s) == seq!['.', 'w', 'a', 'v']
}

/// The clip id in a file name that ends with `{uuid}.wav` (any letter case), lower-cased.
pub open spec fn legacy_id_of(name: Seq<char>) -> Option<Seq<char>> {
    let n = name.len();
    if n >= 40 && is_uuid_text(name.subrange(n - 40, n - 4)) && is_wav_ext(name.subrange(n - 4, n as int)) {
        Some(ascii_lower(name.subrange(n - 40, n - 4)))
    } else {
        None
    }
}

/// A file name made of any text, then a clip id (36 characters: hexadecimal digits in groups
/// of 8, 4, 4, 4 and 12 separated by hyphens), then `.wav` in any letter case, names that clip:
/// the id read from it is the clip id in lower case. Nothing need precede the id.
pub proof fn lemma_legacy_name_read(prefix: Seq<char>, u: Seq<char>, ext: Seq<char>)
    requires
        u.len() == 36,
        forall|i: int|
            0 <= i < 36 ==> if i == 8 || i == 13 || i == 18 || i == 23 {
                #[trigger] u[i] == '-'
            } else {
                ('0' <= u[i] && u[i] <= '9') || ('a' <= u[i] && u[i] <= 'f') || ('A' <= u[i]
                    && u[i] <= 'F')
            },
        ext.len() == 4,
        ext[0] == '.',
        ext[1] == 'w' || ext[1] == 'W',
        ext[2] == 'a' || ext[2] == 'A',
        ext[3] == 'v' || ext[3] == 'V',
    ensures
        legacy_id_of(prefix + u + ext) == Some(lowercase(u)),
{
    let name = prefix + u + ext;
    let n = name.len();
    assert(name.subrange(n - 40, n - 4) =~= u);
    assert(name.subrange(n - 4, n as int) =~= ext);
    assert forall|i: int| 0 <= i < 36 implies uuid_char_ok(i, #[trigger] u[i]) by {
        assert(u[i] == u[i]);
    }
    assert(is_uuid_text(u));
    assert(('W' as u32) == 87 && ('A' as u32) == 65 && ('V' as u32) == 86);
    assert(ascii_lower(ext) =~= seq!['.', 'w', 'a', 'v']);
    assert forall|i: int| 0 <= i < u.len() implies crate::text::is_ascii_char(#[trigger] u[i]) by {
        assert(u[i] == u[i]);
    }
}

fn char_is_hex(c: char) -> (b: bool)
    ensures
        b == is_hex_char(c),
{
    ('0' <= c && c <= '9') || ('a' <= c && c <= 'f') || ('A' <= c && c <= 'F')
}

fn ascii_lower_of(c: char) -> (r: char)
    ensures
        r == crate::text::ascii_lower_char(c),
{
    if 'A' <= c && c <= 'Z' {
        let b = (c as u32) as u8;
        let r = (b + 32) as char;
        assert((r as u32) == (c as u32) + 32);
        r
    } else {
        c
    }
}

/// The clip id in a legacy file name (see [`legacy_id_of`]).
pub fn legacy_clip_id(file_name: &str) -> (r: Option<String>)
    ensures
        match r {
            Some(id) => legacy_id_of(file_name@) == Some(id@),
            None => legacy_id_of(file_name@) is None,
        },
{
    let v = chars_of(file_name);
    let n = v.len();
    if n < 40 {
        return None;
    }
    let start = n - 40;
    let ghost id_part = v@.subrange(n - 40, n - 4);
    let mut i: usize = 0;
    while i < 36
        invariant
            n == v.len(),
            n >= 40,
            start == n - 40,
            i <= 36,
            id_part == v@.subrange(n - 40, n - 4),
            v@ == file_name@,
            forall|k: int| 0 <= k < i ==> uuid_char_ok(k, #[trigger] id_part[k]),
        decreases 36 - i,
    {
        let c = v[start + i];
        assert(id_part[i as int] == c);
        let ok = if i == 8 || i == 13 || i == 18 || i == 23 {
            c == '-'
        } else {
            char_is_hex(c)
        };
        if !ok {
            assert(!uuid_char_ok(i as int, id_part[i as int]));
            assert(!is_uuid_text(id_part));
            assert(legacy_id_of(file_name@) is None);
            return None;
        }
        i = i + 1;
    }
    assert(is_uuid_text(id_part));
    let e0 = ascii_lower_of(v[n - 4]);
    let e1 = ascii_lower_of(v[n - 3]);
    let e2 = ascii_lower_of(v[n - 2]);
    let e3 = ascii_lower_of(v[n - 1]);
    let ghost ext = v@.subrange(n - 4, n as int);
    assert(ascii_lower(ext) =~= seq![e0, e1, e2, e3]);
    if !(e0 == '.' && e1 == 'w' && e2 == 'a' && e3 == 'v') {
        assert(!is_wav_ext(ext)) by {
            if is_wav_ext(ext) {
                assert(ascii_lower(ext)[0] == seq!['.', 'w', 'a', 'v'][0]);
                assert(ascii_lower(ext)[1] == seq!['.', 'w', 'a', 'v'][1]);
                assert(ascii_lower(ext)[2] == seq!['.', 'w', 'a', 'v'][2]);
                assert(ascii_lower(ext)[3] == seq!['.', 'w', 'a', 'v'][3]);
            }
        }
        return None;
    }
    assert(is_wav_ext(ext));
    let id = slice_chars(&v, start, n - 4);
    let id_text = string_of(&id);
    proof {
        assert forall|k: int| 0 <= k < id@.len() implies crate::text::is_ascii_char(#[trigger] id@[k]) by {
            assert(id@[k] == id_part[k]);
        }
    }
    let lower = to_lowercase(id_text.as_str());
    Some(lower)
}

/// The ids named by legacy WAV file names.
pub open spec fn legacy_ids(names: Seq<Seq<char>>) -> Set<Seq<char>> {
    Set::new(|id: Seq<char>| exists|i: int| 0 <= i < names.len() && legacy_id_of(#[trigger] names[i]) == Some(id))
}

/// The clip ids found in file names (each file's own name, not its folder).
pub fn legacy_ids_from_filenames(names: &Vec<String>) -> (r: TextSet)
    ensures
        r.view() == legacy_ids(texts_of(names@)),
{
    let mut r = TextSet::new();
    let mut i: usize = 0;
    while i < names.len()
        invariant
            i <= names.len(),
            r.view() == legacy_ids(texts_of(names@.take(i as int))),
        decreases names.len() - i,
    {
        let ghost before = texts_of(names@.take(i as int));
        let ghost after = texts_of(names@.take(i + 1));
        assert(after =~= before.push(names@[i as int]@));
        if let Some(id) = legacy_clip_id(names[i].as_str()) {
            r.insert(id);
            assert(r.view() =~= legacy_ids(after)) by {
                assert forall|x: Seq<char>| legacy_ids(after).contains(x) implies r.view().contains(x) by {
                    let k = choose|k: int| 0 <= k < after.len() && legacy_id_of(#[trigger] after[k]) == Some(x);
                    if k < before.len() {
                        assert(before[k] == after[k]);
                    }
                }
                assert forall|x: Seq<char>| r.view().contains(x) implies legacy_ids(after).contains(x) by {
                    if x == id@ {
                        assert(legacy_id_of(after[i as int]) == Some(x));
                    } else {
                        let k = choose|k: int| 0 <= k < before.len() && legacy_id_of(#[trigger] before[k]) == Some(x);
                        assert(after[k] == before[k]);
                    }
                }
            }
        } else {
            assert(r.view() =~= legacy_ids(after)) by {
                assert forall|x: Seq<char>| legacy_ids(after).contains(x) implies r.view().contains(x) by {
                    let k = choose|k: int| 0 <= k < after.len() && legacy_id_of(#[trigger] after[k]) == Some(x);
                    if k < before.len() {
                        assert(before[k] == after[k]);
                    }
                }
                assert forall|x: Seq<char>| r.view().contains(x) implies legacy_ids(after).contains(x) by {
                    let k = choose|k: int| 0 <= k < before.len() && legacy_id_of(#[trigger] before[k]) == Some(x);
                    assert(after[k] == before[k]);
                }
            }
        }
        i = i + 1;
    }
    assert(names@.take(names.len() as int) =~= names@);
    r
}

/// The ids listed in an index file, lower-cased.
pub open spec fn lowered_ids(ids: Seq<Seq<char>>) -> Set<Seq<char>> {
    Set::new(|x: Seq<char>| exists|i: int| 0 <= i < ids.len() && #[trigger] lowercase(ids[i]) == x)
}

/// The lower-cased ids of an index file's list.
pub fn index_ids(clip_ids: &Vec<String>) -> (r: TextSet)
    ensures
        r.view() == lowered_ids(texts_of(clip_ids@)),
{
    let mut r = TextSet::new();
    let mut i: usize = 0;
    while i < clip_ids.len()
        invariant
            i <= clip_ids.len(),
            r.view() == lowered_ids(texts_of(clip_ids@.take(i as int))),
        decreases clip_ids.len() - i,
    {
        let ghost before = texts_of(clip_ids@.take(i as int));
        let ghost after = texts_of(clip_ids@.take(i + 1));
        assert(after =~= before.push(clip_ids@[i as int]@));
        let lower = to_lowercase(clip_ids[i].as_str());
        r.insert(lower);
        assert(r.view() =~= lowered_ids(after)) by {
            assert forall|x: Seq<char>| lowered_ids(after).contains(x) implies r.view().contains(x) by {
                let k = choose|k: int| 0 <= k < after.len() && #[trigger] lowercase(after[k]) == x;
                if k < before.len() {
                    assert(before[k] == after[k]);
                }
            }
            assert forall|x: Seq<char>| r.view().contains(x) implies lowered_ids(after).contains(x) by {
                if x == lower@ {
                    assert(lowercase(after[i as int]) == x);
                } else {
                    let k = choose|k: int| 0 <= k < before.len() && #[trigger] lowercase(before[k]) == x;
                    assert(after[k] == before[k]);
                }
            }
        }
        i = i + 1;
    }
    assert(clip_ids@.take(clip_ids.len() as int) =~= clip_ids@);
    r
}

/// Adds every text of `other` to `into`.
fn add_all(into: &mut TextSet, other: &TextSet)
    ensures
        final(into).view() == old(into).view().union(other.view()),
{
    let items = other.to_vec();
    let ghost start = into.view();
    proof {
        other.lemma_texts_view();
    }
    let mut i: usize = 0;
    while i < items.len()
        invariant
            i <= items.len(),
            texts_of(items@) == other.texts(),
            other.view() == other.texts().to_set(),
            into.view() == start.union(texts_of(items@.take(i as int)).to_set()),
        decreases items.len() - i,
    {
        assert(texts_of(items@.take(i + 1)) =~= texts_of(items@.take(i as int)).push(items@[i as int]@));
        into.insert(items[i].clone());
        i = i + 1;
        assert(into.view() =~= start.union(texts_of(items@.take(i as int)).to_set()));
    }
    assert(items@.take(items.len() as int) =~= items@);
}

/// Merges the ids from the index file, the older app's index file and legacy file names, and
/// says whether the index file must be rewritten: when the file names yield more ids than the
/// index file holds.
pub fn merge_local_index(from_index: &TextSet, from_legacy_index: &TextSet, from_legacy_files: &TextSet) -> (r: (TextSet, bool))
    ensures
        r.0.view() == from_index.view().union(from_legacy_index.view()).union(from_legacy_files.view()),
        r.1 == (from_legacy_files.view().len() > from_index.view().len() && from_legacy_files.view().len() > 0),
{
    let mut merged = TextSet::new();
    add_all(&mut merged, from_index);
    add_all(&mut merged, from_legacy_index);
    add_all(&mut merged, from_legacy_files);
    assert(merged.view() =~= from_index.view().union(from_legacy_index.view()).union(from_legacy_files.view()));
    let files = from_legacy_files.len();
    let index = from_index.len();
    (merged, files > index && files > 0)
}

/// Records a downloaded clip: its id, lower-cased, joins the index.
pub fn mark_clip_downloaded(clip_id: &str, clip_ids: &mut TextSet)
    ensures
        final(clip_ids).view() == old(clip_ids).view().insert(lowercase(clip_id@)),
{
    let lower = to_lowercase(clip_id);
    clip_ids.insert(lower);
}

/// The ids of the index, in ascending order (the order in which the index file lists them).
pub fn sorted_index_ids(ids: &TextSet) -> (r: Vec<String>)
    ensures
        strictly_sorted(texts_of(r@)),
        texts_of(r@).to_set() == ids.view(),
        r@.len() == ids.view().len(),
{
    let items = ids.to_vec();
    let mut out: Vec<String> = Vec::new();
    let mut i: usize = 0;
    while i < items.len()
        invariant
            i <= items.len(),
            texts_of(items@).no_duplicates(),
            strictly_sorted(texts_of(out@)),
            texts_of(out@).to_set() == texts_of(items@.take(i as int)).to_set(),
            out@.len() == i,
        decreases items.len() - i,
    {
        let x = items[i].clone();
        let xc = chars_of(x.as_str());
        let ghost tx = x@;
        let ghost o = texts_of(out@);
        proof {
            assert(texts_of(items@.take(i + 1)) =~= texts_of(items@.take(i as int)).push(tx));
            assert(!texts_of(items@.take(i as int)).contains(tx)) by {
                if texts_of(items@.take(i as int)).contains(tx) {
                    let k = choose|k: int| 0 <= k < i && texts_of(items@.take(i as int))[k] == tx;
                    assert(texts_of(items@)[k] == texts_of(items@)[i as int]);
                }
            }
            assert(!o.contains(tx)) by {
                if o.contains(tx) {
                    assert(o.to_set().contains(tx));
                }
            }
        }
        let mut j: usize = 0;
        while j < out.len() && chars_lt(&chars_of(out[j].as_str()), &xc)
            invariant
                j <= out.len(),
                o == texts_of(out@),
                xc@ == tx,
                forall|k: int| 0 <= k < j ==> text_lt(#[trigger] o[k], tx),
            decreases out.len() - j,
        {
            j = j + 1;
        }
        proof {
            if j < out.len() {
                assert(!text_lt(o[j as int], tx));
                assert(o[j as int] != tx) by {
                    assert(o.contains(o[j as int]));
                }
                lemma_text_lt_total(o[j as int], tx);
            }
        }
        out.insert(j, x);
        proof {
            let n = texts_of(out@);
            assert(n =~= o.insert(j as int, tx));
            assert forall|a: int, b: int| 0 <= a < b < n.len() implies text_lt(#[trigger] n[a], #[trigger] n[b]) by {
                if b < j {
                    assert(n[a] == o[a] && n[b] == o[b]);
                } else if b == j {
                    assert(n[a] == o[a]);
                } else if a == j {
                    assert(n[b] == o[b - 1]);
                    if b - 1 > j {
                        lemma_text_lt_transitive(tx, o[j as int], o[b - 1]);
                    }
                } else if a < j {
                    assert(n[a] == o[a] && n[b] == o[b - 1]);
                } else {
                    assert(n[a] == o[a - 1] && n[b] == o[b - 1]);
                }
            }
            assert forall|y: Seq<char>| n.to_set().contains(y) <==> o.to_set().insert(tx).contains(y) by {
                if n.contains(y) {
                    let k = choose|k: int| 0 <= k < n.len() && n[k] == y;
                    if k < j {
                        assert(o[k] == y);
                    } else if k > j {
                        assert(o[k - 1] == y);
                    }
                }
                if o.contains(y) {
                    let k = choose|k: int| 0 <= k < o.len() && o[k] == y;
                    if k < j {
                        assert(n[k] == y);
                    } else {
                        assert(n[k + 1] == y);
                    }
                }
                if y == tx {
                    assert(n[j as int] == tx);
                }
            }
            assert(n.to_set() =~= o.to_set().insert(tx));
        }
        i = i + 1;
    }
    assert(items@.take(items.len() as int) =~= items@);
    proof {
        texts_of(items@).unique_seq_to_set();
    }
    out
}

/// Writing an index file (the ids of a set, as [`sorted_index_ids`] lists them) and reading it
/// back (as [`index_ids`] does) gives the same set, when each id is already in lower case.
pub proof fn lemma_index_round_trip(ids: Set<Seq<char>>, written: Seq<Seq<char>>)
    requires
        written.to_set() == ids,
        forall|x: Seq<char>| ids.contains(x) ==> #[trigger] lowercase(x) == x,
    ensures
        lowered_ids(written) == ids,
{
    assert forall|x: Seq<char>| lowered_ids(written).contains(x) <==> ids.contains(x) by {
        if lowered_ids(written).contains(x) {
            let i = choose|i: int| 0 <= i < written.len() && #[trigger] lowercase(written[i]) == x;
            assert(written.to_set().contains(written[i]));
        }
        if ids.contains(x) {
            assert(written.to_set().contains(x));
            let i = choose|i: int| 0 <= i < written.len() && written[i] == x;
            assert(lowercase(written[i]) == x);
        }
    }
    assert(lowered_ids(written) =~= ids);
}

/// A WAV file name: lower-cased, it ends with `.wav`.
pub open spec fn is_wav_filename(name: Seq<char>) -> bool {
    ends_with(lowercase(name), seq!['.', 'w', 'a', 'v'])
}

/// The names that are WAV file names.
pub fn wav_filenames(names: &Vec<String>) -> (r: TextSet)
    ensures
        r.view() == texts_of(names@).to_set().filter(|n: Seq<char>| is_wav_filename(n)),
{
    let mut r = TextSet::new();
    let mut i: usize = 0;
    while i < names.len()
        invariant
            i <= names.len(),
            r.view() == texts_of(names@.take(i as int)).to_set().filter(|n: Seq<char>| is_wav_filename(n)),
        decreases names.len() - i,
    {
        let ghost before = texts_of(names@.take(i as int));
        assert(texts_of(names@.take(i + 1)) =~= before.push(names@[i as int]@));
        let lower = to_lowercase(names[i].as_str());
        let lc = chars_of(lower.as_str());
        if chars_end_with(&lc, &['.', 'w', 'a', 'v']) {
            r.insert(names[i].clone());
        }
        i = i + 1;
        assert(r.view() =~= texts_of(names@.take(i as int)).to_set().filter(|n: Seq<char>| is_wav_filename(n)));
    }
    assert(names@.take(names.len() as int) =~= names@);
    r
}

} // verus!
