//! Safe file names for downloaded clips.
use vstd::prelude::*;
use crate::text::{
    chars_of, char_is_control, char_is_whitespace, decimal, is_control, is_ws, lemma_trim_ends,
    lemma_trim_start_at, lemma_trim_noop, lemma_trim_end_at, slice_chars, decimal_chars, push_chars, lemma_decimal_injective, string_of, trim, trim_chars, trim_end,
};
use crate::text_set::TextSet;

verus! {

/// Longest file stem, in characters, that [`sanitize_filename`] keeps.
pub const MAX_FILENAME_LENGTH: usize = 120;

/// Characters that may not appear in a file name: `/<>:"\|?*`.
pub open spec fn is_invalid_filename_char(c: char) -> bool {
    c == '/' || c == '<' || c == '>' || c == ':' || c == '"' || c == '\\' || c == '|' || c == '?'
        || c == '*'
}

/// A character that survives the first cleaning step: neither a control character nor an
/// invalid file-name character.
pub open spec fn is_kept_char(c: char) -> bool {
    !is_control(c) && !is_invalid_filename_char(c)
}

/// The characters of `s` that are kept, in order.
pub open spec fn kept_chars(s: Seq<char>) -> Seq<char>
    decreases s.len(),
{
    if s.len() == 0 {
        seq![]
    } else if is_kept_char(s.last()) {
        kept_chars(s.drop_last()).push(s.last())
    } else {
        kept_chars(s.drop_last())
    }
}

/// `str::split_whitespace`: the maximal runs of non-white-space characters of `s`, in order.
pub open spec fn words(s: Seq<char>) -> Seq<Seq<char>>
    decreases s.len(),
{
    if s.len() == 0 {
        seq![]
    } else {
        let w = words(s.drop_last());
        let c = s.last();
        if is_ws(c) {
            w
        } else if s.len() >= 2 && !is_ws(s[s.len() - 2]) && w.len() > 0 {
            w.update(w.len() - 1, w.last().push(c))
        } else {
            w.push(seq![c])
        }
    }
}

/// The words joined with a single space between neighbours (`join(" ")`).
pub open spec fn join_space(ws: Seq<Seq<char>>) -> Seq<char>
    decreases ws.len(),
{
    if ws.len() == 0 {
        seq![]
    } else if ws.len() == 1 {
        ws[0]
    } else {
        join_space(ws.drop_last()) + seq![' '] + ws.last()
    }
}

/// The file stem for a clip title: control and invalid characters dropped, white-space runs
/// collapsed to one space, trimmed, `"untitled"` when nothing is left, and cut to 120
/// characters (then trimmed again) when longer.
pub open spec fn sanitized(title: Seq<char>) -> Seq<char> {
    let cleaned = trim(join_space(words(kept_chars(title))));
    if cleaned.len() == 0 {
        untitled()
    } else if cleaned.len() <= MAX_FILENAME_LENGTH {
        cleaned
    } else {
        trim(cleaned.take(MAX_FILENAME_LENGTH as int))
    }
}

pub open spec fn untitled() -> Seq<char> {
    seq!['u', 'n', 't', 'i', 't', 'l', 'e', 'd']
}

pub open spec fn wav_suffix() -> Seq<char> {
    seq!['.', 'w', 'a', 'v']
}

/// `"{base}.wav"`.
pub open spec fn wav_name(base: Seq<char>) -> Seq<char> {
    base + wav_suffix()
}

/// `"{base} ({k}).wav"`.
pub open spec fn numbered_wav_name(base: Seq<char>, k: nat) -> Seq<char> {
    base + seq![' ', '('] + decimal(k) + seq![')'] + wav_suffix()
}

// ---------------------------------------------------------------------------------------------
// Lemmas
// ---------------------------------------------------------------------------------------------
proof fn lemma_join_push(ws: Seq<Seq<char>>, x: Seq<char>)
    ensures
        join_space(ws.push(x)) == (if ws.len() == 0 {
            x
        } else {
            join_space(ws) + seq![' '] + x
        }),
{
    assert(ws.push(x).drop_last() =~= ws);
    if ws.len() == 0 {
        assert(ws.push(x)[0] == x);
    }
}

proof fn lemma_join_extend_last(ws: Seq<Seq<char>>, c: char)
    requires
        ws.len() > 0,
    ensures
        join_space(ws.update(ws.len() - 1, ws.last().push(c))) == join_space(ws).push(c),
{
    let u = ws.update(ws.len() - 1, ws.last().push(c));
    if ws.len() == 1 {
        assert(join_space(u) == u[0]);
    } else {
        assert(u.drop_last() =~= ws.drop_last());
        assert(join_space(u) == join_space(ws.drop_last()) + seq![' '] + u.last());
        assert(join_space(u) =~= join_space(ws).push(c));
    }
}

proof fn lemma_trim_keeps_first(s: Seq<char>)
    requires
        s.len() > 0,
        !is_ws(s[0]),
    ensures
        trim(s).len() > 0,
    decreases s.len(),
{
    lemma_trim_start_at(s, 0);
    assert(s.subrange(0, s.len() as int) =~= s);
    lemma_trim_end_keeps_first(s);
}

proof fn lemma_trim_end_keeps_first(s: Seq<char>)
    requires
        s.len() > 0,
        !is_ws(s[0]),
    ensures
        trim_end(s).len() > 0,
    decreases s.len(),
{
    if is_ws(s.last()) {
        assert(s.len() >= 2);
        assert(s.drop_last()[0] == s[0]);
        lemma_trim_end_keeps_first(s.drop_last());
    }
}

/// Every character of the trimmed text comes from the text.
proof fn lemma_trim_chars_from(s: Seq<char>, p: spec_fn(char) -> bool)
    requires
        forall|k: int| 0 <= k < s.len() ==> p(#[trigger] s[k]),
    ensures
        forall|k: int| 0 <= k < trim(s).len() ==> p(#[trigger] trim(s)[k]),
{
    lemma_trim_ends(s);
    let a = choose|a: int|
        0 <= a && a + trim(s).len() <= s.len() && #[trigger] s.subrange(a, a + trim(s).len())
            == trim(s);
    assert forall|k: int| 0 <= k < trim(s).len() implies p(#[trigger] trim(s)[k]) by {
        assert(trim(s)[k] == s.subrange(a, a + trim(s).len())[k]);
        assert(s[a + k] == trim(s)[k]);
    }
}

proof fn lemma_numbered_injective(base: Seq<char>, a: nat, b: nat)
    requires
        numbered_wav_name(base, a) == numbered_wav_name(base, b),
    ensures
        a == b,
{
    let x = numbered_wav_name(base, a);
    let y = numbered_wav_name(base, b);
    let da = decimal(a);
    let db = decimal(b);
    assert(x.len() == base.len() + 2 + da.len() + 5);
    assert(y.len() == base.len() + 2 + db.len() + 5);
    let lo: int = base.len() + 2int;
    assert(x.subrange(lo, lo + da.len()) =~= da);
    assert(y.subrange(lo, lo + db.len()) =~= db);
    lemma_decimal_injective(a, b);
}

/// If every numbered name from 2 to `m` is taken in `s`, then `s` holds at least `m - 1` texts.
proof fn lemma_taken_names_bound(base: Seq<char>, s: Set<Seq<char>>, m: nat)
    requires
        s.finite(),
        m >= 1,
        forall|j: nat| 2 <= j <= m ==> s.contains(#[trigger] numbered_wav_name(base, j)),
    ensures
        m - 1 <= s.len(),
{
    let q = Seq::new((m - 1) as nat, |i: int| numbered_wav_name(base, (i + 2) as nat));
    assert forall|i: int, j: int| 0 <= i < q.len() && 0 <= j < q.len() && i != j implies q[i]
        != q[j] by {
        if q[i] == q[j] {
            lemma_numbered_injective(base, (i + 2) as nat, (j + 2) as nat);
        }
    }
    q.unique_seq_to_set();
    assert forall|t: Seq<char>| q.to_set().contains(t) implies s.contains(t) by {
        let i = choose|i: int| 0 <= i < q.len() && q[i] == t;
        assert(s.contains(numbered_wav_name(base, (i + 2) as nat)));
    }
    vstd::set_lib::lemma_len_subset(q.to_set(), s);
}

// ---------------------------------------------------------------------------------------------
// Sanitizing twice changes nothing
// ---------------------------------------------------------------------------------------------
/// Every character is kept by the first cleaning step.
pub open spec fn all_kept(s: Seq<char>) -> bool {
    forall|i: int| 0 <= i < s.len() ==> is_kept_char(#[trigger] s[i])
}

/// The only white space is the plain space.
pub open spec fn ws_is_space(s: Seq<char>) -> bool {
    forall|i: int| 0 <= i < s.len() && is_ws(#[trigger] s[i]) ==> s[i] == ' '
}

/// No two white-space characters are next to each other.
pub open spec fn no_double_ws(s: Seq<char>) -> bool {
    forall|i: int, j: int| 0 <= i && j == i + 1 && j < s.len() ==> !(is_ws(#[trigger] s[i]) && is_ws(#[trigger] s[j]))
}

/// A file stem as [`sanitize_filename`] leaves it: kept characters only, single plain spaces
/// between words, none at either end.
pub open spec fn is_clean_stem(s: Seq<char>) -> bool {
    &&& all_kept(s)
    &&& ws_is_space(s)
    &&& no_double_ws(s)
    &&& (s.len() > 0 ==> !is_ws(s[0]) && !is_ws(s.last()))
}

proof fn lemma_kept_chars_all_kept(s: Seq<char>)
    requires
        all_kept(s),
    ensures
        kept_chars(s) == s,
    decreases s.len(),
{
    if s.len() > 0 {
        lemma_kept_chars_all_kept(s.drop_last());
        assert(s.drop_last().push(s.last()) =~= s);
    }
}

proof fn lemma_kept_chars_kept(s: Seq<char>)
    ensures
        all_kept(kept_chars(s)),
    decreases s.len(),
{
    if s.len() > 0 {
        lemma_kept_chars_kept(s.drop_last());
        let k = kept_chars(s.drop_last());
        if is_kept_char(s.last()) {
            assert forall|i: int| 0 <= i < k.push(s.last()).len() implies is_kept_char(#[trigger] k.push(s.last())[i]) by {
                if i < k.len() {
                    assert(k.push(s.last())[i] == k[i]);
                }
            }
        }
    }
}

proof fn lemma_words_nonempty(s: Seq<char>, i: int)
    requires
        0 <= i < s.len(),
        !is_ws(s[i]),
    ensures
        words(s).len() > 0,
    decreases s.len(),
{
    if is_ws(s.last()) {
        assert(s.drop_last()[i] == s[i]);
        lemma_words_nonempty(s.drop_last(), i);
    }
}

/// Each word is non-empty, holds no white space, and only characters kept when the text's are.
proof fn lemma_words_shape(s: Seq<char>)
    ensures
        forall|j: int| 0 <= j < words(s).len() ==> (#[trigger] words(s)[j]).len() > 0,
        forall|j: int, k: int| 0 <= j < words(s).len() && 0 <= k < words(s)[j].len() ==> !is_ws(#[trigger] words(s)[j][k]),
        all_kept(s) ==> forall|j: int, k: int| 0 <= j < words(s).len() && 0 <= k < words(s)[j].len() ==> is_kept_char(#[trigger] words(s)[j][k]),
    decreases s.len(),
{
    if s.len() > 0 {
        let p = s.drop_last();
        lemma_words_shape(p);
        let w = words(p);
        let c = s.last();
        if all_kept(s) {
            assert forall|i: int| 0 <= i < p.len() implies is_kept_char(#[trigger] p[i]) by {
                assert(p[i] == s[i]);
            }
            assert(is_kept_char(s[s.len() - 1]));
        }
        if !is_ws(c) {
            if s.len() >= 2 && !is_ws(s[s.len() - 2]) && w.len() > 0 {
                let u = w.update(w.len() - 1, w.last().push(c));
                assert forall|j: int, k: int| 0 <= j < u.len() && 0 <= k < u[j].len() implies !is_ws(#[trigger] u[j][k]) && (all_kept(s) ==> is_kept_char(u[j][k])) by {
                    if j < w.len() - 1 {
                        assert(u[j] == w[j]);
                    } else if k < w.last().len() {
                        assert(u[j][k] == w[j][k]);
                    }
                }
            } else {
                let u = w.push(seq![c]);
                assert forall|j: int, k: int| 0 <= j < u.len() && 0 <= k < u[j].len() implies !is_ws(#[trigger] u[j][k]) && (all_kept(s) ==> is_kept_char(u[j][k])) by {
                    if j < w.len() {
                        assert(u[j] == w[j]);
                    }
                }
            }
        }
    }
}

/// Words that are non-empty, hold no white space and only kept characters join into a clean
/// stem.
proof fn lemma_join_clean(ws: Seq<Seq<char>>)
    requires
        forall|j: int| 0 <= j < ws.len() ==> (#[trigger] ws[j]).len() > 0,
        forall|j: int, k: int| 0 <= j < ws.len() && 0 <= k < ws[j].len() ==> !is_ws(#[trigger] ws[j][k]),
        forall|j: int, k: int| 0 <= j < ws.len() && 0 <= k < ws[j].len() ==> is_kept_char(#[trigger] ws[j][k]),
    ensures
        is_clean_stem(join_space(ws)),
        ws.len() > 0 ==> join_space(ws).len() > 0,
    decreases ws.len(),
{
    if ws.len() == 1 {
        let x = ws[0];
        assert(join_space(ws) == x);
        assert forall|i: int| 0 <= i < x.len() implies !is_ws(#[trigger] x[i]) && is_kept_char(x[i]) by {
            assert(ws[0][i] == x[i]);
        }
    } else if ws.len() > 1 {
        let d = ws.drop_last();
        assert forall|j: int| 0 <= j < d.len() implies (#[trigger] d[j]).len() > 0 by {
            assert(d[j] == ws[j]);
        }
        assert forall|j: int, k: int| 0 <= j < d.len() && 0 <= k < d[j].len() implies !is_ws(#[trigger] d[j][k]) && is_kept_char(d[j][k]) by {
            assert(d[j] == ws[j]);
        }
        lemma_join_clean(d);
        let a = join_space(d);
        let b = ws.last();
        assert forall|i: int| 0 <= i < b.len() implies !is_ws(#[trigger] b[i]) && is_kept_char(b[i]) by {
            assert(ws[ws.len() - 1][i] == b[i]);
        }
        assert(b.len() > 0);
        let r = a + seq![' '] + b;
        assert(join_space(ws) == r);
        assert forall|i: int| 0 <= i < r.len() implies is_kept_char(#[trigger] r[i]) by {
            if i < a.len() {
                assert(r[i] == a[i]);
            } else if i > a.len() {
                assert(r[i] == b[i - a.len() - 1]);
            }
        }
        assert forall|i: int| 0 <= i < r.len() && is_ws(#[trigger] r[i]) implies r[i] == ' ' by {
            if i < a.len() {
                assert(r[i] == a[i]);
            } else if i > a.len() {
                assert(r[i] == b[i - a.len() - 1]);
            }
        }
        assert forall|i: int, j: int| 0 <= i && j == i + 1 && j < r.len() implies !(is_ws(#[trigger] r[i]) && is_ws(#[trigger] r[j])) by {
            if j < a.len() {
                assert(r[i] == a[i] && r[j] == a[j]);
            } else if j == a.len() {
                assert(r[i] == a[i]);
            } else if i == a.len() {
                assert(r[j] == b[0]);
            } else {
                assert(r[j] == b[j - a.len() - 1]);
            }
        }
        assert(r[0] == a[0]);
        assert(r.last() == b.last());
    }
}

/// For a text without white space at its start, with only plain spaces and never two in a
/// row, splitting into words and joining them gives the text back, less a trailing space.
proof fn lemma_join_words_identity(p: Seq<char>)
    requires
        ws_is_space(p),
        no_double_ws(p),
        p.len() > 0 ==> !is_ws(p[0]),
    ensures
        join_space(words(p)) == if p.len() > 0 && is_ws(p.last()) {
            p.drop_last()
        } else {
            p
        },
    decreases p.len(),
{
    if p.len() > 0 {
        let q = p.drop_last();
        let c = p.last();
        assert forall|i: int| 0 <= i < q.len() && is_ws(#[trigger] q[i]) implies q[i] == ' ' by {
            assert(q[i] == p[i]);
        }
        assert forall|i: int, j: int| 0 <= i && j == i + 1 && j < q.len() implies !(is_ws(#[trigger] q[i]) && is_ws(#[trigger] q[j])) by {
            assert(q[i] == p[i] && q[j] == p[j]);
        }
        if q.len() > 0 {
            assert(q[0] == p[0]);
        }
        lemma_join_words_identity(q);
        if is_ws(c) {
            if q.len() > 0 {
                assert(!is_ws(q.last())) by {
                    assert(q.last() == p[p.len() - 2]);
                    assert(!(is_ws(p[p.len() - 2]) && is_ws(p[p.len() - 1])));
                }
            }
        } else if q.len() == 0 {
            assert(words(p) == seq![seq![c]]);
            assert(p =~= seq![c]);
        } else if !is_ws(q.last()) {
            lemma_words_nonempty(q, q.len() - 1);
            assert(p[p.len() - 2] == q.last());
            lemma_join_extend_last(words(q), c);
            assert(q.push(c) =~= p);
        } else {
            lemma_words_nonempty(q, 0);
            assert(p[p.len() - 2] == q.last());
            lemma_join_push(words(q), seq![c]);
            assert(q.last() == ' ');
            assert(q.drop_last() + seq![' '] + seq![c] =~= p);
        }
    }
}

/// Trimming a prefix of a clean stem leaves a clean stem.
proof fn lemma_trimmed_prefix_clean(s: Seq<char>, n: int)
    requires
        is_clean_stem(s),
        0 < n <= s.len(),
    ensures
        is_clean_stem(trim(s.take(n))),
        trim(s.take(n)).len() > 0,
        trim(s.take(n)).len() <= n,
{
    let t = s.take(n);
    assert(t[0] == s[0]);
    lemma_trim_start_at(t, 0);
    assert(t.subrange(0, t.len() as int) =~= t);
    if is_ws(t.last()) {
        assert(n >= 2);
        assert(t[n - 2] == s[n - 2] && t[n - 1] == s[n - 1]);
        assert(!is_ws(t[n - 2]));
        assert forall|k: int| n - 1 <= k < t.len() implies is_ws(#[trigger] t[k]) by {}
        lemma_trim_end_at(t, n - 1);
    } else {
        lemma_trim_end_at(t, n);
    }
    let r = trim(t);
    assert forall|i: int| 0 <= i < r.len() implies r[i] == s[i] by {}
    assert(r.len() > 0);
    assert forall|i: int| 0 <= i < r.len() implies is_kept_char(#[trigger] r[i]) by {
        assert(r[i] == s[i]);
    }
    assert forall|i: int| 0 <= i < r.len() && is_ws(#[trigger] r[i]) implies r[i] == ' ' by {
        assert(r[i] == s[i]);
    }
    assert forall|i: int, j: int| 0 <= i && j == i + 1 && j < r.len() implies !(is_ws(#[trigger] r[i]) && is_ws(#[trigger] r[j])) by {
        assert(r[i] == s[i] && r[j] == s[j]);
    }
}

proof fn lemma_all_kept(t: Seq<char>)
    requires
        forall|i: int| 0 <= i < t.len() ==> is_kept_char(#[trigger] t[i]),
    ensures
        kept_chars(t) == t,
    decreases t.len(),
{
    if t.len() > 0 {
        let p = t.drop_last();
        assert forall|i: int| 0 <= i < p.len() implies is_kept_char(#[trigger] p[i]) by {
            assert(p[i] == t[i]);
        }
        lemma_all_kept(p);
        assert(is_kept_char(t[t.len() - 1]));
        assert(p.push(t.last()) =~= t);
    }
}

/// Text that starts with a non-white-space character and whose white space is single spaces
/// between other characters splits into words that join back into it (less a final space).
proof fn lemma_single_spaced_words(s: Seq<char>)
    requires
        s.len() > 0 ==> !is_ws(s[0]),
        forall|i: int| 0 <= i < s.len() && is_ws(#[trigger] s[i]) ==> s[i] == ' ',
        forall|i: int| 0 <= i < s.len() - 1 && is_ws(#[trigger] s[i]) ==> !is_ws(s[i + 1]),
    ensures
        s.len() > 0 ==> words(s).len() > 0,
        join_space(words(s)) == (if s.len() > 0 && is_ws(s.last()) {
            s.drop_last()
        } else {
            s
        }),
    decreases s.len(),
{
    if s.len() > 0 {
        let p = s.drop_last();
        let c = s.last();
        let w = words(p);
        let n = s.len();
        assert forall|i: int| 0 <= i < p.len() && is_ws(#[trigger] p[i]) implies p[i] == ' ' by {
            assert(p[i] == s[i]);
        }
        assert forall|i: int| 0 <= i < p.len() - 1 && is_ws(#[trigger] p[i]) implies !is_ws(p[i + 1]) by {
            assert(p[i] == s[i]);
            assert(p[i + 1] == s[i + 1]);
        }
        if p.len() > 0 {
            assert(p[0] == s[0]);
        }
        lemma_single_spaced_words(p);
        if is_ws(c) {
            assert(n >= 2);
            assert(p.last() == s[n - 2]);
            if is_ws(s[n - 2]) {
                assert(!is_ws(s[n - 1]));
            }
        } else if n >= 2 && !is_ws(s[n - 2]) && w.len() > 0 {
            assert(p.last() == s[n - 2]);
            lemma_join_extend_last(w, c);
            assert(p.push(c) =~= s);
        } else if n == 1 {
            assert(p.len() == 0);
            assert(w.len() == 0);
            lemma_join_push(w, seq![c]);
            assert(seq![c] =~= s);
        } else {
            assert(is_ws(s[n - 2]));
            assert(p.last() == s[n - 2]);
            assert(s[n - 2] == ' ');
            assert(n >= 3);
            lemma_join_push(w, seq![c]);
            assert(p.drop_last() + seq![' '] + seq![c] =~= s);
        }
    }
}

/// A title that is already a clean stem stays as it is: at most 120 characters, none of them a
/// control character or one of `/<>:"\|?*` (so every other printable character, such as an
/// apostrophe, is kept), no white space at either end, and white space only as single spaces.
pub proof fn lemma_clean_title_unchanged(t: Seq<char>)
    requires
        1 <= t.len() <= 120,
        forall|i: int|
            0 <= i < t.len() ==> !is_control(#[trigger] t[i]) && t[i] != '/' && t[i] != '<' && t[i]
                != '>' && t[i] != ':' && t[i] != '"' && t[i] != '\\' && t[i] != '|' && t[i] != '?'
                && t[i] != '*',
        !is_ws(t[0]),
        !is_ws(t.last()),
        forall|i: int| 0 <= i < t.len() && is_ws(#[trigger] t[i]) ==> t[i] == ' ',
        forall|i: int| 0 <= i < t.len() - 1 && is_ws(#[trigger] t[i]) ==> !is_ws(t[i + 1]),
    ensures
        sanitized(t) == t,
{
    assert forall|i: int| 0 <= i < t.len() implies is_kept_char(#[trigger] t[i]) by {
        assert(!is_control(t[i]));
    }
    lemma_all_kept(t);
    lemma_single_spaced_words(t);
    lemma_trim_noop(t);
}

/// What [`sanitize_filename`] returns is a clean stem of 1 to 120 characters.
pub proof fn lemma_sanitized_clean(title: Seq<char>)
    ensures
        is_clean_stem(sanitized(title)),
        0 < sanitized(title).len() <= MAX_FILENAME_LENGTH,
{
    let k = kept_chars(title);
    lemma_kept_chars_kept(k);
    lemma_kept_chars_kept(title);
    lemma_words_shape(k);
    lemma_join_clean(words(k));
    let c = join_space(words(k));
    lemma_trim_noop(c);
    if c.len() == 0 {
        let u = untitled();
        assert(u.len() == 8);
        assert(is_clean_stem(u)) by {
            assert forall|i: int| 0 <= i < u.len() implies is_kept_char(#[trigger] u[i]) && !is_ws(u[i]) by {
                assert(u[i] == seq!['u', 'n', 't', 'i', 't', 'l', 'e', 'd'][i]);
            }
        }
    } else if c.len() > MAX_FILENAME_LENGTH {
        lemma_trimmed_prefix_clean(c, MAX_FILENAME_LENGTH as int);
    }
}

/// Sanitizing a file stem a second time changes nothing.
pub proof fn lemma_sanitize_idempotent(title: Seq<char>)
    ensures
        sanitized(sanitized(title)) == sanitized(title),
{
    let s = sanitized(title);
    lemma_sanitized_clean(title);
    lemma_kept_chars_all_kept(s);
    lemma_join_words_identity(s);
    lemma_trim_noop(s);
}

// ---------------------------------------------------------------------------------------------
// Executable code
// ---------------------------------------------------------------------------------------------
fn char_is_kept(c: char) -> (b: bool)
    ensures
        b == is_kept_char(c),
{
    !char_is_control(c) && !(c == '/' || c == '<' || c == '>' || c == ':' || c == '"' || c == '\\'
        || c == '|' || c == '?' || c == '*')
}

fn keep_chars(v: &[char]) -> (r: Vec<char>)
    ensures
        r@ == kept_chars(v@),
        forall|k: int| 0 <= k < r.len() ==> is_kept_char(#[trigger] r@[k]),
{
    let mut r: Vec<char> = Vec::new();
    let mut i: usize = 0;
    while i < v.len()
        invariant
            i <= v.len(),
            r@ == kept_chars(v@.take(i as int)),
            forall|k: int| 0 <= k < r.len() ==> is_kept_char(#[trigger] r@[k]),
        decreases v.len() - i,
    {
        let c = v[i];
        assert(v@.take(i + 1).drop_last() =~= v@.take(i as int));
        if char_is_kept(c) {
            r.push(c);
        }
        i = i + 1;
    }
    assert(v@.take(v.len() as int) =~= v@);
    r
}

/// Collapses every run of white space to a single space and drops it at both ends
/// (`split_whitespace().collect::<Vec<_>>().join(" ")`).
fn collapse_whitespace(v: &[char]) -> (r: Vec<char>)
    ensures
        r@ == join_space(words(v@)),
        forall|k: int|
            0 <= k < r.len() ==> (#[trigger] r@[k] == ' ' || v@.contains(r@[k])),
{
    let mut out: Vec<char> = Vec::new();
    let mut in_word = false;
    let mut i: usize = 0;
    while i < v.len()
        invariant
            i <= v.len(),
            out@ == join_space(words(v@.take(i as int))),
            in_word == (i > 0 && !is_ws(v@[i - 1])),
            in_word ==> words(v@.take(i as int)).len() > 0,
            (out.len() == 0) == (words(v@.take(i as int)).len() == 0),
            forall|k: int|
                0 <= k < out.len() ==> (#[trigger] out@[k] == ' ' || v@.contains(out@[k])),
        decreases v.len() - i,
    {
        let c = v[i];
        let ghost pre = v@.take(i as int);
        let ghost cur = v@.take(i + 1);
        proof {
            assert(cur.drop_last() =~= pre);
            assert(cur.last() == c);
            if i > 0 {
                assert(cur[cur.len() - 2] == v@[i - 1]);
            }
        }
        if char_is_whitespace(c) {
            in_word = false;
        } else {
            if in_word {
                proof {
                    lemma_join_extend_last(words(pre), c);
                }
                out.push(c);
            } else {
                proof {
                    lemma_join_push(words(pre), seq![c]);
                }
                if out.len() > 0 {
                    out.push(' ');
                }
                out.push(c);
                proof {
                    assert(out@ =~= join_space(words(cur)));
                }
            }
            in_word = true;
        }
        i = i + 1;
    }
    assert(v@.take(v.len() as int) =~= v@);
    out
}

/// The file stem for a clip title (see [`sanitized`]). The result is never empty, holds at most
/// 120 characters, no control or invalid file-name character, and no white space at either end.
pub fn sanitize_filename(title: &str) -> (r: String)
    ensures
        r@ == sanitized(title@),
        r@.len() > 0,
        r@.len() <= MAX_FILENAME_LENGTH,
        forall|k: int| 0 <= k < r@.len() ==> is_kept_char(#[trigger] r@[k]),
        !is_ws(r@[0]),
        !is_ws(r@.last()),
{
    let chars = chars_of(title);
    let kept = keep_chars(&chars);
    let collapsed = collapse_whitespace(&kept);
    proof {
        assert forall|k: int| 0 <= k < collapsed@.len() implies is_kept_char(
            #[trigger] collapsed@[k],
        ) by {
            if collapsed@[k] != ' ' {
                let j = choose|j: int| 0 <= j < kept@.len() && kept@[j] == collapsed@[k];
                assert(is_kept_char(kept@[j]));
            }
        }
        lemma_trim_chars_from(collapsed@, |c: char| is_kept_char(c));
        lemma_trim_ends(collapsed@);
    }
    let cleaned = trim_chars(&collapsed);
    if cleaned.len() == 0 {
        let r = string_of(&['u', 'n', 't', 'i', 't', 'l', 'e', 'd']);
        assert(r@ =~= untitled());
        return r;
    }
    if cleaned.len() <= MAX_FILENAME_LENGTH {
        return string_of(&cleaned);
    }
    let head = slice_chars(&cleaned, 0, MAX_FILENAME_LENGTH);
    proof {
        assert(head@ =~= cleaned@.take(MAX_FILENAME_LENGTH as int));
        assert(head@[0] == cleaned@[0]);
        lemma_trim_keeps_first(head@);
        lemma_trim_chars_from(head@, |c: char| is_kept_char(c));
        lemma_trim_ends(head@);
    }
    let t = trim_chars(&head);
    string_of(&t)
}

/// `"{base}.wav"` for the sanitized title, or, when that name is taken, `"{base} ({k}).wav"` for
/// the least `k >= 2` whose name is free. The name returned is never one of `existing_filenames`.
pub fn build_wav_filename(title: &str, existing_filenames: &TextSet) -> (r: String)
    requires
        existing_filenames.view().len() <= 2147483645,
    ensures
        !existing_filenames.view().contains(wav_name(sanitized(title@))) ==> r@ == wav_name(
            sanitized(title@),
        ),
        existing_filenames.view().contains(wav_name(sanitized(title@))) ==> exists|k: nat|
            k >= 2 && r@ == numbered_wav_name(sanitized(title@), k) && forall|j: nat|
                2 <= j < k ==> existing_filenames.view().contains(
                    #[trigger] numbered_wav_name(sanitized(title@), j),
                ),
        !existing_filenames.view().contains(r@),
{
    let base = sanitize_filename(title);
    let base_chars = chars_of(base.as_str());
    let ghost b = sanitized(title@);
    let mut plain = base_chars.clone();
    push_chars(&mut plain, &['.', 'w', 'a', 'v']);
    let filename = string_of(&plain);
    assert(filename@ =~= wav_name(b));
    if !existing_filenames.contains(&filename) {
        return filename;
    }
    let n = existing_filenames.len();
    let mut counter: i32 = 2;
    loop
        invariant
            2 <= counter <= n + 2,
            n == existing_filenames.view().len() <= 2147483645,
            existing_filenames.view().finite(),
            base_chars@ == b,
            b == sanitized(title@),
            existing_filenames.view().contains(wav_name(b)),
            forall|j: nat| 2 <= j < counter ==> existing_filenames.view().contains(
                #[trigger] numbered_wav_name(b, j),
            ),
        decreases n + 2 - counter,
    {
        let mut name = base_chars.clone();
        push_chars(&mut name, &[' ', '(']);
        let digits = decimal_chars(counter as u64);
        push_chars(&mut name, &digits);
        push_chars(&mut name, &[')', '.', 'w', 'a', 'v']);
        let candidate = string_of(&name);
        assert(candidate@ =~= numbered_wav_name(b, counter as nat));
        if !existing_filenames.contains(&candidate) {
            assert(counter as nat >= 2 && candidate@ == numbered_wav_name(b, counter as nat));
            return candidate;
        }
        proof {
            lemma_taken_names_bound(b, existing_filenames.view(), counter as nat);
        }
        counter = counter + 1;
    }
}

} // verus!
