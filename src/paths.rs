use vstd::prelude::*;
use crate::media::{file_name_of, file_name_start, lemma_name_start_bounds};

verus! {

/// `name` placed inside directory `base`; `name` alone for an empty base.
pub open spec fn join_path(base: Seq<char>, name: Seq<char>) -> Seq<char> {
    if base.len() == 0 {
        name
    } else if base.last() == '/' {
        base + name
    } else {
        base + seq!['/'] + name
    }
}

/// The path of `name` inside directory `base`.
pub fn join(base: &str, name: &str) -> (r: String)
    ensures
        r@ == join_path(base@, name@),
{
    let n = base.unicode_len();
    if n == 0 {
        return String::from_str(name);
    }
    let mut out = String::from_str(base);
    if base.get_char(n - 1) != '/' {
        let sep = "/";
        proof {
            reveal_strlit("/");
        }
        out.append(sep);
    }
    out.append(name);
    out
}

/// The last component of a path.
pub fn file_name(p: &str) -> (r: &str)
    ensures
        r@ == file_name_of(p@),
{
    let start = file_name_start(p);
    proof {
        lemma_name_start_bounds(p@);
    }
    p.substring_char(start, p.unicode_len())
}

} // verus!
