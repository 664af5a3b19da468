//! Packaging the browser extension: the names of the archive's entries.
use vstd::prelude::*;
use crate::text::{chars_of, push_chars, string_of};

verus! {

/// A path relative to the extension folder written as an archive entry name: each `\` becomes
/// `/`, and a folder's name ends with `/`.
pub open spec fn entry_name_of(relative: Seq<char>, is_dir: bool) -> Seq<char> {
    let n = relative.map_values(|c: char| if c == '\\' { '/' } else { c });
    if is_dir {
        n.push('/')
    } else {
        n
    }
}

/// The archive entry name for a path relative to the extension folder (see [`entry_name_of`]).
pub fn zip_entry_name(relative: &str, is_dir: bool) -> (r: String)
    ensures
        r@ == entry_name_of(relative@, is_dir),
{
    let v = chars_of(relative);
    let mut out: Vec<char> = Vec::new();
    let mut i: usize = 0;
    while i < v.len()
        invariant
            i <= v.len(),
            out@ == v@.take(i as int).map_values(|c: char| if c == '\\' { '/' } else { c }),
        decreases v.len() - i,
    {
        let c = v[i];
        out.push(if c == '\\' { '/' } else { c });
        i = i + 1;
        assert(out@ =~= v@.take(i as int).map_values(|c: char| if c == '\\' { '/' } else { c }));
    }
    assert(v@.take(v.len() as int) =~= v@);
    if is_dir {
        out.push('/');
    }
    string_of(&out)
}

} // verus!
