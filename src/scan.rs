use vstd::prelude::*;
use crate::error::MergeError;
use crate::media::{
    file_name_of, is_hidden_name, kind_of, kind_of_extension, kind_of_format, kind_of_name, kind_of_path,
    MediaKind,
};
use crate::engine::{format_view, output_extension, output_name};
use crate::paths::file_name;
use crate::order::{is_sorted, lemma_sorted_unique, path_bufs_to_sorted_strings, views};

verus! {

broadcast use vstd::seq_lib::group_to_multiset_ensures;

/// `p` is the file that this run writes: `output.<ext>`, with the extension
/// that the output of `p`'s kind gets.
pub open spec fn is_run_output(p: Seq<char>, format: Option<Seq<char>>) -> bool {
    match kind_of(p) {
        Some(k) => file_name_of(p) == "output."@ + output_extension(k, format),
        None => false,
    }
}

/// Inputs of kind `k` are wanted: a format takes only the inputs of the
/// kind that it names; with no format every kind is.
pub open spec fn kind_wanted(k: MediaKind, format: Option<Seq<char>>) -> bool {
    match format {
        Some(f) => kind_of_extension(f) == Some(k),
        None => true,
    }
}

/// A path that takes part in a merge: a visible file of a supported format,
/// of the kind that the format names if one is given, other than the
/// output that this run writes.
pub open spec fn selectable(p: Seq<char>, format: Option<Seq<char>>) -> bool {
    match kind_of(p) {
        Some(k) => kind_wanted(k, format) && !is_run_output(p, format),
        None => false,
    }
}

/// The paths of a listing that take part in a merge, in listing order.
pub open spec fn selected(ps: Seq<Seq<char>>, format: Option<Seq<char>>) -> Seq<Seq<char>>
    decreases ps.len(),
{
    if ps.len() == 0 {
        ps
    } else if selectable(ps.last(), format) {
        selected(ps.drop_last(), format).push(ps.last())
    } else {
        selected(ps.drop_last(), format)
    }
}

/// `selectable` as a predicate value.
pub open spec fn selectable_pred(format: Option<Seq<char>>) -> spec_fn(Seq<char>) -> bool {
    |p: Seq<char>| selectable(p, format)
}

proof fn lemma_selected_multiset(ps: Seq<Seq<char>>, format: Option<Seq<char>>)
    ensures
        selected(ps, format).to_multiset() =~= ps.to_multiset().filter(selectable_pred(format)),
    decreases ps.len(),
{
    broadcast use vstd::multiset::group_multiset_axioms;

    if ps.len() > 0 {
        lemma_selected_multiset(ps.drop_last(), format);
        assert(ps =~= ps.drop_last().push(ps.last()));
    }
}

/// The selection holds exactly the selectable paths of the listing: no
/// hidden entry, no unsupported format, no file of a kind that the format
/// does not name, not the output that this run writes.
pub proof fn lemma_selected_members(ps: Seq<Seq<char>>, p: Seq<char>, format: Option<Seq<char>>)
    ensures
        selected(ps, format).contains(p) <==> (ps.contains(p) && selectable(p, format)),
        selected(ps, format).contains(p) ==> !is_hidden_name(file_name_of(p)),
    decreases ps.len(),
{
    if ps.len() > 0 {
        let q = ps.drop_last();
        let l = ps.last();
        lemma_selected_members(q, p, format);
        lemma_push_contains(q, l, p);
        assert(ps =~= q.push(l));
        lemma_push_contains(selected(q, format), l, p);
    }
}

proof fn lemma_push_contains(s: Seq<Seq<char>>, l: Seq<char>, p: Seq<char>)
    ensures
        s.push(l).contains(p) <==> (s.contains(p) || p == l),
{
    let t = s.push(l);
    if s.contains(p) {
        let i = choose|i: int| 0 <= i < s.len() && s[i] == p;
        assert(t[i] == p);
    }
    if p == l {
        assert(t[s.len() as int] == p);
    }
    if t.contains(p) && p != l {
        let i = choose|i: int| 0 <= i < t.len() && t[i] == p;
        assert(s[i] == p);
    }
}

/// The files that a scan hands on, whatever their order, hold no hidden
/// entry: the manifest never names one.
pub proof fn lemma_hidden_never_merged(ps: Seq<Seq<char>>, o: Seq<Seq<char>>, format: Option<Seq<char>>)
    requires
        o.to_multiset() == selected(ps, format).to_multiset(),
    ensures
        forall|i: int| 0 <= i < o.len() ==> !is_hidden_name(file_name_of(#[trigger] o[i])),
{
    assert forall|i: int| 0 <= i < o.len() implies !is_hidden_name(file_name_of(#[trigger] o[i])) by {
        assert(o.contains(o[i]));
        assert(selected(ps, format).to_multiset().count(o[i]) > 0);
        assert(selected(ps, format).contains(o[i]));
        lemma_selected_members(ps, o[i], format);
    }
}

/// Every visible file of a supported format in the listing, of the kind
/// that the format names if one is given, and other than this run's
/// output, is among the files that a scan hands on, as often as the
/// listing holds it.
pub proof fn lemma_every_input_merged(ps: Seq<Seq<char>>, o: Seq<Seq<char>>, p: Seq<char>, format: Option<Seq<char>>)
    requires
        o.to_multiset() == selected(ps, format).to_multiset(),
        ps.contains(p),
        selectable(p, format),
    ensures
        o.contains(p),
        o.to_multiset().count(p) == selected(ps, format).to_multiset().count(p),
{
    lemma_selected_members(ps, p, format);
    assert(selected(ps, format).to_multiset().count(p) > 0);
}

/// A listing that holds only hidden entries or files of no supported format
/// selects nothing, so the scan fails with `NoSupportedFilesFound`.
pub proof fn lemma_nothing_supported(ps: Seq<Seq<char>>, format: Option<Seq<char>>)
    requires
        forall|i: int|
            0 <= i < ps.len() ==> is_hidden_name(file_name_of(#[trigger] ps[i])) || kind_of_name(
                file_name_of(ps[i]),
            ) is None,
    ensures
        selected(ps, format).len() == 0,
{
    if selected(ps, format).len() > 0 {
        let p = selected(ps, format)[0];
        assert(selected(ps, format).contains(p));
        lemma_selected_members(ps, p, format);
        let i = choose|i: int| 0 <= i < ps.len() && ps[i] == p;
        assert(is_hidden_name(file_name_of(ps[i])) || kind_of_name(file_name_of(ps[i])) is None);
    }
}

/// The output that an earlier run with the same format left in the
/// directory changes nothing of what a new run selects.
pub proof fn lemma_rerun_ignores_own_output(ps: Seq<Seq<char>>, q: Seq<char>, format: Option<Seq<char>>)
    requires
        is_run_output(q, format),
    ensures
        selected(ps.push(q), format) == selected(ps, format),
{
    assert(ps.push(q).drop_last() =~= ps);
}

/// Scanning a directory twice gives the same files in the same order,
/// whatever order the directory listing came in each time.
pub proof fn lemma_scan_order_stable(
    ps1: Seq<Seq<char>>,
    ps2: Seq<Seq<char>>,
    o1: Seq<Seq<char>>,
    o2: Seq<Seq<char>>,
    format: Option<Seq<char>>,
)
    requires
        ps1.to_multiset() == ps2.to_multiset(),
        is_sorted(o1),
        o1.to_multiset() == selected(ps1, format).to_multiset(),
        is_sorted(o2),
        o2.to_multiset() == selected(ps2, format).to_multiset(),
    ensures
        o1 == o2,
{
    lemma_selected_multiset(ps1, format);
    lemma_selected_multiset(ps2, format);
    lemma_sorted_unique(o1, o2);
}

/// Every path of `s` is of kind `k`.
pub open spec fn all_of_kind(s: Seq<Seq<char>>, k: MediaKind) -> bool {
    forall|i: int| 0 <= i < s.len() ==> kind_of(#[trigger] s[i]) == Some(k)
}

/// The files of a merge, of one kind, in ascending path order.
pub struct InputSet {
    pub kind: MediaKind,
    pub files: Vec<String>,
}

/// Whether `p`, of kind `k`, is the file that this run writes.
fn is_run_output_path(p: &str, k: MediaKind, format: &Option<String>) -> (r: bool)
    requires
        kind_of(p@) == Some(k),
    ensures
        r == is_run_output(p@, format_view(*format)),
{
    let name = String::from_str(file_name(p));
    let expected = output_name(k, format);
    name == expected
}

/// Picks the files of a directory listing (the paths of its regular files)
/// that a merge takes: visible files of a supported format, only of the kind
/// that `format` names where one is given, other than the output that this
/// run writes; sorted by path. Fails where none is left, or where no format
/// is given and both video and audio files are left; succeeds otherwise.
pub fn select_inputs(paths: &Vec<String>, format: &Option<String>) -> (r: Result<InputSet, MergeError>)
    ensures
        format is Some ==> !(r matches Err(MergeError::MixedMediaKinds)),
        selected(views(paths@), format_view(*format)).len() == 0 <==> r matches Err(MergeError::NoSupportedFilesFound),
        (selected(views(paths@), format_view(*format)).len() > 0 && !all_of_kind(
            selected(views(paths@), format_view(*format)),
            kind_of(selected(views(paths@), format_view(*format))[0])->0,
        )) <==> r matches Err(MergeError::MixedMediaKinds),
        r is Err ==> (r matches Err(MergeError::NoSupportedFilesFound) || r matches Err(
            MergeError::MixedMediaKinds,
        )),
        r is Ok ==> ({
            let s = r->Ok_0;
            &&& s.files@.len() > 0
            &&& all_of_kind(selected(views(paths@), format_view(*format)), s.kind)
            &&& is_sorted(views(s.files@))
            &&& views(s.files@).to_multiset() == selected(views(paths@), format_view(*format)).to_multiset()
        }),
{
    let fk: Option<MediaKind> = match format {
        Some(f) => kind_of_format(f.as_str()),
        None => None,
    };
    let mut kept: Vec<String> = Vec::new();
    let mut kinds: Vec<MediaKind> = Vec::new();
    let mut i: usize = 0;
    while i < paths.len()
        invariant
            i <= paths@.len(),
            views(kept@) == selected(views(paths@).subrange(0, i as int), format_view(*format)),
            kinds@.len() == kept@.len(),
            forall|k: int| 0 <= k < kinds@.len() ==> Some(#[trigger] kinds@[k]) == kind_of(views(kept@)[k]),
            format_view(*format) matches Some(f) ==> fk == kind_of_extension(f),
            forall|k: int| 0 <= k < kinds@.len() ==> format is Some ==> fk == Some(#[trigger] kinds@[k]),
        decreases paths@.len() - i,
    {
        let p = paths[i].as_str();
        let ghost pre = views(paths@).subrange(0, i as int);
        assert(views(paths@).subrange(0, i + 1).drop_last() =~= pre);
        assert(views(paths@).subrange(0, i + 1).last() == p@);
        let kind = kind_of_path(p);
        if let Some(k) = kind {
            let wanted = match format {
                Some(_) => match fk {
                    Some(w) => w == k,
                    None => false,
                },
                None => true,
            };
            assert(wanted == kind_wanted(k, format_view(*format)));
            if wanted && !is_run_output_path(p, k, format) {
                kept.push(paths[i].clone());
                kinds.push(k);
                assert(views(kept@) =~= selected(pre, format_view(*format)).push(p@));
            }
        }
        i = i + 1;
    }
    assert(views(paths@).subrange(0, i as int) =~= views(paths@));
    assert(views(kept@).len() == kept@.len());
    if kept.len() == 0 {
        return Err(MergeError::NoSupportedFilesFound);
    }
    let first = kinds[0];
    let mut j: usize = 1;
    while j < kinds.len()
        invariant
            1 <= j <= kinds@.len() == kept@.len(),
            first == kinds@[0],
            views(kept@) == selected(views(paths@), format_view(*format)),
            forall|k: int| 0 <= k < kinds@.len() ==> Some(#[trigger] kinds@[k]) == kind_of(views(kept@)[k]),
            forall|k: int| 0 <= k < j ==> kinds@[k] == first,
            forall|k: int| 0 <= k < kinds@.len() ==> format is Some ==> fk == Some(#[trigger] kinds@[k]),
        decreases kinds@.len() - j,
    {
        if kinds[j] != first {
            assert(kind_of(views(kept@)[j as int]) != Some(first));
            return Err(MergeError::MixedMediaKinds);
        }
        j = j + 1;
    }
    assert(all_of_kind(views(kept@), first)) by {
        assert forall|k: int| 0 <= k < kept@.len() implies kind_of(#[trigger] views(kept@)[k]) == Some(first) by {
            assert(Some(kinds@[k]) == kind_of(views(kept@)[k]));
        }
    }
    let files = path_bufs_to_sorted_strings(&kept);
    proof {
        assert(views(files@).len() == files@.len());
        assert(views(files@).len() == views(files@).to_multiset().len());
        assert(views(kept@).len() == views(kept@).to_multiset().len());
    }
    Ok(InputSet { kind: first, files })
}

} // verus!
