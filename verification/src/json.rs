//! JSON documents as the library reads them, and the search for a WAV download address in them.
//!
//! An object's entries are kept in the order in which the JSON library walks its map, which is
//! ascending key order.
use vstd::prelude::*;
use crate::text::{
    chars_contain, chars_of, chars_start_with, contains_text, starts_with, string_of, to_lowercase,
    lowercase,
};
use crate::types::Clip;

verus! {

/// A JSON value.
pub enum Json {
    Null,
    Bool(bool),
    /// A number, as the JSON library writes it.
    Number(String),
    Str(String),
    Array(Vec<Json>),
    Object(Vec<(String, Json)>),
}

pub open spec fn http_text() -> Seq<char> {
    seq!['h', 't', 't', 'p']
}

pub open spec fn dot_wav_text() -> Seq<char> {
    seq!['.', 'w', 'a', 'v']
}

/// The object keys that may hold a WAV address, in the order they are tried.
pub open spec fn wav_url_keys() -> Seq<Seq<char>> {
    seq![
        seq!['a', 'u', 'd', 'i', 'o', '_', 'u', 'r', 'l', '_', 'w', 'a', 'v'],
        seq!['w', 'a', 'v', '_', 'u', 'r', 'l'],
        seq!['w', 'a', 'v', '_', 'a', 'u', 'd', 'i', 'o', '_', 'u', 'r', 'l'],
        seq!['m', 'a', 's', 't', 'e', 'r', '_', 'w', 'a', 'v', '_', 'u', 'r', 'l'],
        seq!['p', 'r', 'e', 'v', 'i', 'e', 'w', '_', 'w', 'a', 'v', '_', 'u', 'r', 'l'],
    ]
}

/// A string that looks like a WAV address: lower-cased, it starts with `http` and contains
/// `.wav`.
pub open spec fn is_wav_address(s: Seq<char>) -> bool {
    starts_with(lowercase(s), http_text()) && contains_text(lowercase(s), dot_wav_text())
}

/// The value under `key` in an object's entries, if any.
pub open spec fn lookup(entries: Seq<(Seq<char>, Json)>, key: Seq<char>) -> Option<Json>
    decreases entries.len(),
{
    if entries.len() == 0 {
        None
    } else if entries[0].0 == key {
        Some(entries[0].1)
    } else {
        lookup(entries.drop_first(), key)
    }
}

/// The first of the given keys whose value is a string starting with `http` (lower-cased).
pub open spec fn keyed_wav_url(entries: Seq<(Seq<char>, Json)>, keys: Seq<Seq<char>>) -> Option<
    Seq<char>,
>
    decreases keys.len(),
{
    if keys.len() == 0 {
        None
    } else {
        match lookup(entries, keys[0]) {
            Some(Json::Str(v)) if starts_with(lowercase(v@), http_text()) => Some(v@),
            _ => keyed_wav_url(entries, keys.drop_first()),
        }
    }
}

/// An object's entries with their keys as texts.
pub open spec fn entry_views(entries: Seq<(String, Json)>) -> Seq<(Seq<char>, Json)> {
    entries.map_values(|e: (String, Json)| (e.0@, e.1))
}

/// The WAV address found in a JSON value: a string that looks like one; in an array, the
/// first found in its items; in an object, the value of the first WAV key that starts with
/// `http`, or else the first found in its values.
pub open spec fn found_wav_url(j: Json) -> Option<Seq<char>>
    decreases j,
{
    match j {
        Json::Str(s) => if is_wav_address(s@) {
            Some(s@)
        } else {
            None
        },
        Json::Array(items) => found_in_items(items@),
        Json::Object(entries) => match keyed_wav_url(entry_views(entries@), wav_url_keys()) {
            Some(u) => Some(u),
            None => found_in_values(entries@),
        },
        _ => None,
    }
}

/// The first WAV address found in the items, in order.
pub open spec fn found_in_items(items: Seq<Json>) -> Option<Seq<char>>
    decreases items,
{
    if items.len() == 0 {
        None
    } else {
        match found_wav_url(items[0]) {
            Some(u) => Some(u),
            None => found_in_items(items.subrange(1, items.len() as int)),
        }
    }
}

/// The first WAV address found in the entries' values, in order.
pub open spec fn found_in_values(entries: Seq<(String, Json)>) -> Option<Seq<char>>
    decreases entries,
{
    if entries.len() == 0 {
        None
    } else {
        match found_wav_url(entries[0].1) {
            Some(u) => Some(u),
            None => found_in_values(entries.subrange(1, entries.len() as int)),
        }
    }
}

/// Searching an object's values is searching the array of those values.
pub proof fn lemma_values_as_items(entries: Seq<(String, Json)>)
    ensures
        found_in_values(entries) == found_in_items(entries.map_values(|e: (String, Json)| e.1)),
    decreases entries.len(),
{
    let vals = entries.map_values(|e: (String, Json)| e.1);
    if entries.len() > 0 {
        let rest = entries.subrange(1, entries.len() as int);
        lemma_values_as_items(rest);
        assert(vals.subrange(1, vals.len() as int) =~= rest.map_values(|e: (String, Json)| e.1));
        assert(vals[0] == entries[0].1);
    }
}

/// A string whose lower-cased text starts with `http` and holds `.wav` at some position `i`
/// (anywhere, not only at the end) is itself the WAV address found in it.
pub proof fn lemma_wav_string_found(s: String, i: int)
    requires
        lowercase(s@).len() >= 4,
        lowercase(s@).subrange(0, 4) == seq!['h', 't', 't', 'p'],
        0 <= i,
        i + 4 <= lowercase(s@).len(),
        lowercase(s@).subrange(i, i + 4) == seq!['.', 'w', 'a', 'v'],
    ensures
        found_wav_url(Json::Str(s)) == Some(s@),
{
    assert(crate::text::occurs_at(lowercase(s@), dot_wav_text(), i));
}

/// A string whose lower-cased text does not start with `http` is never a WAV address.
pub proof fn lemma_non_http_string_not_found(s: String)
    requires
        !(lowercase(s@).len() >= 4 && lowercase(s@).subrange(0, 4) == seq!['h', 't', 't', 'p']),
    ensures
        found_wav_url(Json::Str(s)) is None,
{
}

/// The texts of an optional string.
pub open spec fn opt_text(o: Option<String>) -> Option<Seq<char>> {
    match o {
        Some(s) => Some(s@),
        None => None,
    }
}

fn wav_key(k: usize) -> (r: Vec<char>)
    requires
        k < 5,
    ensures
        r@ == wav_url_keys()[k as int],
{
    let r = if k == 0 {
        vec!['a', 'u', 'd', 'i', 'o', '_', 'u', 'r', 'l', '_', 'w', 'a', 'v']
    } else if k == 1 {
        vec!['w', 'a', 'v', '_', 'u', 'r', 'l']
    } else if k == 2 {
        vec!['w', 'a', 'v', '_', 'a', 'u', 'd', 'i', 'o', '_', 'u', 'r', 'l']
    } else if k == 3 {
        vec!['m', 'a', 's', 't', 'e', 'r', '_', 'w', 'a', 'v', '_', 'u', 'r', 'l']
    } else {
        vec!['p', 'r', 'e', 'v', 'i', 'e', 'w', '_', 'w', 'a', 'v', '_', 'u', 'r', 'l']
    };
    assert(r@ =~= wav_url_keys()[k as int]);
    r
}

/// The value under `key` (the first entry with that key).
pub(crate) fn lookup_key<'a>(entries: &'a Vec<(String, Json)>, key: &[char]) -> (r: Option<&'a Json>)
    ensures
        match r {
            Some(v) => lookup(entry_views(entries@), key@) == Some(*v),
            None => lookup(entry_views(entries@), key@) is None,
        },
{
    let n = entries.len();
    let mut i: usize = 0;
    assert(entry_views(entries@).subrange(0, n as int) =~= entry_views(entries@));
    while i < n
        invariant
            n == entries.len(),
            i <= n,
            lookup(entry_views(entries@), key@) == lookup(
                entry_views(entries@).subrange(i as int, n as int),
                key@,
            ),
        decreases n - i,
    {
        let ghost rest = entry_views(entries@).subrange(i as int, n as int);
        assert(rest[0] == entry_views(entries@)[i as int]);
        assert(rest.drop_first() =~= entry_views(entries@).subrange(i + 1, n as int));
        let name = chars_of(entries[i].0.as_str());
        if chars_eq_key(&name, key) {
            return Some(&entries[i].1);
        }
        i = i + 1;
    }
    None
}

fn chars_eq_key(a: &[char], b: &[char]) -> (r: bool)
    ensures
        r == (a@ == b@),
{
    crate::text::chars_eq(a, b)
}

/// Whether `s`, lower-cased, starts with `http`; and whether it also contains `.wav`.
fn http_and_wav(s: &String) -> (r: (bool, bool))
    ensures
        r.0 == starts_with(lowercase(s@), http_text()),
        r.1 == contains_text(lowercase(s@), dot_wav_text()),
{
    let lower = to_lowercase(s.as_str());
    let lc = chars_of(lower.as_str());
    let http = chars_start_with(&lc, &['h', 't', 't', 'p']);
    let wav = chars_contain(&lc, &['.', 'w', 'a', 'v']);
    assert(seq!['h', 't', 't', 'p'] =~= http_text());
    (http, wav)
}

/// Searches a JSON value for a WAV download address (see [`found_wav_url`]).
pub fn find_wav_url(data: &Json) -> (r: Option<String>)
    ensures
        opt_text(r) == found_wav_url(*data),
    decreases data,
{
    match data {
        Json::Str(value) => {
            let (http, wav) = http_and_wav(value);
            if http && wav {
                Some(value.clone())
            } else {
                None
            }
        },
        Json::Array(items) => {
            let n = items.len();
            let mut i: usize = 0;
            assert(items@.subrange(0, n as int) =~= items@);
            while i < n
                invariant
                    n == items.len(),
                    i <= n,
                    *data == Json::Array(*items),
                    found_wav_url(*data) == found_in_items(items@.subrange(i as int, n as int)),
                decreases n - i,
            {
                let ghost rest = items@.subrange(i as int, n as int);
                assert(rest[0] == items@[i as int]);
                assert(rest.subrange(1, rest.len() as int) =~= items@.subrange(i + 1, n as int));
                assert(decreases_to!(*data => items@[i as int]));
                let found = find_wav_url(&items[i]);
                if found.is_some() {
                    return found;
                }
                i = i + 1;
            }
            None
        },
        Json::Object(entries) => {
            let mut k: usize = 0;
            assert(wav_url_keys().subrange(0, 5) =~= wav_url_keys());
            while k < 5
                invariant
                    k <= 5,
                    *data == Json::Object(*entries),
                    keyed_wav_url(entry_views(entries@), wav_url_keys()) == keyed_wav_url(
                        entry_views(entries@),
                        wav_url_keys().subrange(k as int, 5),
                    ),
                decreases 5 - k,
            {
                let ghost rest = wav_url_keys().subrange(k as int, 5);
                assert(rest[0] == wav_url_keys()[k as int]);
                assert(rest.drop_first() =~= wav_url_keys().subrange(k + 1, 5));
                let key = wav_key(k);
                match lookup_key(entries, &key) {
                    Some(Json::Str(value)) => {
                        let (http, _) = http_and_wav(value);
                        if http {
                            return Some(value.clone());
                        }
                    },
                    _ => {},
                }
                k = k + 1;
            }
            assert(wav_url_keys().subrange(5, 5) =~= Seq::<Seq<char>>::empty());
            let n = entries.len();
            let mut i: usize = 0;
            assert(entries@.subrange(0, n as int) =~= entries@);
            while i < n
                invariant
                    n == entries.len(),
                    i <= n,
                    *data == Json::Object(*entries),
                    keyed_wav_url(entry_views(entries@), wav_url_keys()) is None,
                    found_wav_url(*data) == found_in_values(entries@.subrange(i as int, n as int)),
                decreases n - i,
            {
                let ghost rest = entries@.subrange(i as int, n as int);
                assert(rest[0] == entries@[i as int]);
                assert(rest.subrange(1, rest.len() as int) =~= entries@.subrange(i + 1, n as int));
                assert(decreases_to!(*data => entries@[i as int].1));
                let found = find_wav_url(&entries[i].1);
                if found.is_some() {
                    return found;
                }
                i = i + 1;
            }
            None
        },
        _ => None,
    }
}

} // verus!
