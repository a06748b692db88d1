//! What the sorter needs of one discovered file system entry.

use vstd::prelude::*;
use crate::text::{ascii_lower, push_lower};

verus! {

/// One entry of the directory walk: its base file name, and whether it is a
/// regular file.
#[derive(Debug)]
pub struct FileEntry {
    pub file_name: String,
    pub is_file: bool,
}

/// Whether `i` is the position of the last '.' in `name`.
pub open spec fn is_last_dot(name: Seq<char>, i: int) -> bool {
    &&& 0 <= i < name.len()
    &&& name[i] == '.'
    &&& forall|j: int| i < j < name.len() ==> name[j] != '.'
}

/// The extension of a file name: what follows its last '.', where that dot
/// is not the name's first character.
pub open spec fn extension_of(name: Seq<char>) -> Option<Seq<char>> {
    if exists|i: int| 0 < i && is_last_dot(name, i) {
        let i = choose|i: int| 0 < i && is_last_dot(name, i);
        Some(name.subrange(i + 1, name.len() as int))
    } else {
        None
    }
}

/// The key under which a file is counted: its extension in ASCII lower
/// case, or "unknown" where it has none.
pub open spec fn extension_key_of(name: Seq<char>) -> Seq<char> {
    match extension_of(name) {
        Some(e) => ascii_lower(e),
        None => "unknown"@,
    }
}

/// The key under which a file named `file_name` is counted.
pub fn extension_key(file_name: &str) -> (r: String)
    ensures
        r@ == extension_key_of(file_name@),
{
    let n = file_name.unicode_len();
    let mut i: usize = n;
    while i > 0 && file_name.get_char(i - 1) != '.'
        invariant
            n == file_name@.len(),
            i <= n,
            forall|j: int| i <= j < n ==> file_name@[j] != '.',
        decreases i,
    {
        i = i - 1;
    }
    if i > 1 {
        let dot = i - 1;
        assert(is_last_dot(file_name@, dot as int));
        let ghost k = choose|k: int| 0 < k && is_last_dot(file_name@, k);
        assert(k == dot as int) by {
            if k < dot {
                assert(file_name@[dot as int] != '.');
            }
            if k > dot {
                assert(file_name@[k] != '.');
            }
        }
        let ext = file_name.substring_char(i, n);
        let mut s = String::new();
        push_lower(&mut s, ext);
        assert(s@ =~= ascii_lower(ext@));
        s
    } else {
        assert forall|k: int| 0 < k && is_last_dot(file_name@, k) implies false by {
            if i == 1 {
                assert(file_name@[0] == '.');
            }
        }
        String::from_str("unknown")
    }
}

} // verus!
