//! Paths as text, joined with `/`.

use vstd::prelude::*;

verus! {

/// `part` below `base`.
pub open spec fn joined(base: Seq<char>, part: Seq<char>) -> Seq<char> {
    if base.len() == 0 || base.last() == '/' {
        base + part
    } else {
        base.push('/') + part
    }
}

/// `part` below `base`.
pub fn join(base: &str, part: &str) -> (path: String)
    ensures
        path@ == joined(base@, part@),
{
    let mut path = String::from_str(base);
    let length: usize = base.unicode_len();
    if length > 0 && base.get_char(length - 1) != '/' {
        path.push('/');
    }
    path.push_str(part);
    path
}

} // verus!
