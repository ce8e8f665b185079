use vstd::prelude::*;
use crate::order::views;

verus! {

/// `s` with each single quote written as `'\''`, the form that the
/// concatenation list takes inside a quoted path.
pub open spec fn escape_quotes(s: Seq<char>) -> Seq<char>
    decreases s.len(),
{
    if s.len() == 0 {
        s
    } else if s.last() == '\'' {
        escape_quotes(s.drop_last()) + seq!['\'', '\\', '\'', '\'']
    } else {
        escape_quotes(s.drop_last()).push(s.last())
    }
}

/// The manifest line that names the file at `p`: `file '<p>'`.
pub open spec fn manifest_line(p: Seq<char>) -> Seq<char> {
    seq!['f', 'i', 'l', 'e', ' ', '\''] + escape_quotes(p) + seq!['\'', '\n']
}

/// The manifest that names the files `ps`, one line each, in order.
pub open spec fn manifest_of(ps: Seq<Seq<char>>) -> Seq<char>
    decreases ps.len(),
{
    if ps.len() == 0 {
        Seq::empty()
    } else {
        manifest_of(ps.drop_last()) + manifest_line(ps.last())
    }
}

/// Appends `p`, with its quotes escaped, to `out`.
fn append_escaped(out: &mut String, p: &str)
    ensures
        final(out)@ == old(out)@ + escape_quotes(p@),
{
    let n = p.unicode_len();
    let mut i: usize = 0;
    let ghost start = out@;
    assert(p@.subrange(0, 0) =~= Seq::<char>::empty());
    while i < n
        invariant
            n == p@.len(),
            i <= n,
            out@ == start + escape_quotes(p@.subrange(0, i as int)),
        decreases n - i,
    {
        let ghost pre = p@.subrange(0, i as int);
        assert(p@.subrange(0, i + 1).drop_last() =~= pre);
        if p.get_char(i) == '\'' {
            let q = "'\\''";
            proof {
                reveal_strlit("'\\''");
            }
            out.append(q);
            assert(q@ =~= seq!['\'', '\\', '\'', '\'']);
        } else {
            out.append(p.substring_char(i, i + 1));
            assert(p@.subrange(i as int, i + 1) =~= seq![p@[i as int]]);
        }
        assert(out@ =~= start + escape_quotes(p@.subrange(0, i + 1)));
        i = i + 1;
    }
    assert(p@.subrange(0, n as int) =~= p@);
}

/// The concatenation manifest for `paths`: one line `file '<path>'` for each
/// path, in the given order.
pub fn manifest_text(paths: &Vec<String>) -> (r: String)
    ensures
        r@ == manifest_of(views(paths@)),
{
    let mut out = String::new();
    let mut i: usize = 0;
    let head = "file '";
    let tail = "'\n";
    proof {
        reveal_strlit("file '");
        reveal_strlit("'\n");
    }
    assert(head@ =~= seq!['f', 'i', 'l', 'e', ' ', '\'']);
    assert(tail@ =~= seq!['\'', '\n']);
    assert(views(paths@).subrange(0, 0) =~= Seq::<Seq<char>>::empty());
    while i < paths.len()
        invariant
            i <= paths@.len(),
            head@ == seq!['f', 'i', 'l', 'e', ' ', '\''],
            tail@ == seq!['\'', '\n'],
            out@ == manifest_of(views(paths@).subrange(0, i as int)),
        decreases paths@.len() - i,
    {
        let ghost pre = out@;
        assert(views(paths@).subrange(0, i + 1).drop_last() =~= views(paths@).subrange(0, i as int));
        assert(views(paths@).subrange(0, i + 1).last() == paths@[i as int]@);
        out.append(head);
        append_escaped(&mut out, paths[i].as_str());
        out.append(tail);
        assert(out@ =~= pre + manifest_line(paths@[i as int]@));
        i = i + 1;
    }
    assert(views(paths@).subrange(0, i as int) =~= views(paths@));
    out
}

} // verus!
