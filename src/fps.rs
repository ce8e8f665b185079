use vstd::prelude::*;
use crate::paths::{file_name, join, join_path};
use crate::media::file_name_of;

verus! {

/// The largest rate of `s`; 0 for none.
pub open spec fn max_rate(s: Seq<u64>) -> int
    decreases s.len(),
{
    if s.len() == 0 {
        0
    } else if s.last() > max_rate(s.drop_last()) {
        s.last() as int
    } else {
        max_rate(s.drop_last())
    }
}

/// The rate that inputs are brought to: the override, in whole frames per
/// second, where one is given; else the largest input rate. Rates are in
/// hundredths of a frame per second.
pub open spec fn target_of(rates: Seq<u64>, fps_override: Option<u32>) -> int {
    match fps_override {
        Some(o) => o * 100,
        None => max_rate(rates),
    }
}

/// Every rate of `rates` equals `t`.
pub open spec fn all_equal_to(rates: Seq<u64>, t: int) -> bool {
    forall|i: int| 0 <= i < rates.len() ==> rates[i] == t
}

/// The rate that normalization re-encodes to, or none where normalization
/// does not run: it is skipped on request, and where every input already
/// has the target rate.
pub open spec fn normalization_target(rates: Seq<u64>, fps_override: Option<u32>, skip: bool) -> Option<int> {
    if skip || all_equal_to(rates, target_of(rates, fps_override)) {
        None
    } else {
        Some(target_of(rates, fps_override))
    }
}

/// The frame rate that the merged output has, where the pipeline decides it:
/// the normalization target, or the common rate of inputs that agree.
pub open spec fn output_rate(rates: Seq<u64>, fps_override: Option<u32>, skip: bool) -> Option<int> {
    match normalization_target(rates, fps_override, skip) {
        Some(t) => Some(t),
        None => if rates.len() > 0 && all_equal_to(rates, rates[0] as int) {
            Some(rates[0] as int)
        } else {
            None
        },
    }
}

pub proof fn lemma_max_rate_bounds(s: Seq<u64>)
    ensures
        0 <= max_rate(s) <= u64::MAX,
        forall|i: int| 0 <= i < s.len() ==> s[i] <= max_rate(s),
        s.len() > 0 ==> exists|i: int| 0 <= i < s.len() && s[i] == max_rate(s),
    decreases s.len(),
{
    if s.len() > 0 {
        let q = s.drop_last();
        lemma_max_rate_bounds(q);
        assert forall|i: int| 0 <= i < s.len() implies s[i] <= max_rate(s) by {
            if i < q.len() {
                assert(s[i] == q[i]);
            }
        }
        if s.last() > max_rate(q) {
            assert(s[s.len() - 1] == max_rate(s));
        } else if q.len() > 0 {
            let i = choose|i: int| 0 <= i < q.len() && q[i] == max_rate(q);
            assert(s[i] == max_rate(s));
        } else {
            assert(s[s.len() - 1] == max_rate(s));
        }
    }
}

/// Inputs that all have one frame rate are not normalized, and the output
/// keeps that rate.
pub proof fn lemma_equal_rates_not_normalized(rates: Seq<u64>, rate: u64, skip: bool)
    requires
        rates.len() > 0,
        forall|i: int| 0 <= i < rates.len() ==> rates[i] == rate,
    ensures
        normalization_target(rates, None, skip) is None,
        output_rate(rates, None, skip) == Some(rate as int),
{
    lemma_max_rate_bounds(rates);
    assert(rates[0] == rate);
}

/// Two inputs of different rates, with no override, are brought to the
/// larger of the two, which the output then has.
pub proof fn lemma_differing_rates_take_max(a: u64, b: u64)
    requires
        a != b,
    ensures
        normalization_target(seq![a, b], None, false) == Some(if a > b { a as int } else { b as int }),
        output_rate(seq![a, b], None, false) == Some(if a > b { a as int } else { b as int }),
{
    let s = seq![a, b];
    assert(s.drop_last() =~= seq![a]);
    assert(seq![a].drop_last() =~= Seq::<u64>::empty());
    assert(max_rate(Seq::<u64>::empty()) == 0);
    assert(max_rate(seq![a]) == a);
    assert(max_rate(s) == if a > b { a as int } else { b as int });
    assert(!all_equal_to(s, max_rate(s))) by {
        if a > b {
            assert(s[1] != max_rate(s));
        } else {
            assert(s[0] != max_rate(s));
        }
    }
}

/// With an override, the output has the override's rate, whatever the
/// inputs' rates are.
pub proof fn lemma_override_sets_rate(rates: Seq<u64>, fps: u32)
    requires
        rates.len() > 0,
    ensures
        output_rate(rates, Some(fps), false) == Some(fps * 100),
{
    if all_equal_to(rates, fps * 100) {
        assert(rates[0] == fps * 100);
    }
}

/// Where normalization is skipped on request, nothing is re-encoded.
pub proof fn lemma_skip_never_normalizes(rates: Seq<u64>, fps_override: Option<u32>)
    ensures
        normalization_target(rates, fps_override, true) is None,
{
}

/// The largest of `rates`, 0 where there is none.
pub fn max_of(rates: &Vec<u64>) -> (r: u64)
    ensures
        r == max_rate(rates@),
{
    let mut m: u64 = 0;
    let mut i: usize = 0;
    while i < rates.len()
        invariant
            i <= rates@.len(),
            m == max_rate(rates@.subrange(0, i as int)),
        decreases rates@.len() - i,
    {
        assert(rates@.subrange(0, i + 1).drop_last() =~= rates@.subrange(0, i as int));
        if rates[i] > m {
            m = rates[i];
        }
        i = i + 1;
    }
    assert(rates@.subrange(0, i as int) =~= rates@);
    m
}

/// The rate that normalization brings every input to, or `None` where no
/// input is re-encoded.
pub fn normalization_plan(rates: &Vec<u64>, fps_override: Option<u32>, skip: bool) -> (r: Option<u64>)
    ensures
        match r {
            Some(t) => normalization_target(rates@, fps_override, skip) == Some(t as int),
            None => normalization_target(rates@, fps_override, skip) is None,
        },
{
    if skip {
        return None;
    }
    let target: u64 = match fps_override {
        Some(o) => o as u64 * 100,
        None => max_of(rates),
    };
    let mut i: usize = 0;
    while i < rates.len()
        invariant
            i <= rates@.len(),
            !skip,
            target == target_of(rates@, fps_override),
            forall|k: int| 0 <= k < i ==> rates@[k] == target,
        decreases rates@.len() - i,
    {
        if rates[i] != target {
            assert(!all_equal_to(rates@, target_of(rates@, fps_override)));
            return Some(target);
        }
        i = i + 1;
    }
    None
}

/// One input of the merge: the file that was found, and the file that the
/// manifest names, which is a re-encoded copy where `reencode` holds.
pub struct Source {
    pub input: String,
    pub merged: String,
    pub reencode: bool,
}

/// What a source is for input `f` of rate `rate`, with normalization target
/// `target` and re-encoded copies in directory `dir`.
pub open spec fn source_ok(s: Source, f: Seq<char>, rate: u64, target: Option<u64>, dir: Seq<char>) -> bool {
    &&& s.input@ == f
    &&& s.reencode == (target matches Some(t) && rate != t)
    &&& s.merged@ == if s.reencode {
        join_path(dir, file_name_of(f))
    } else {
        f
    }
}

/// Decides for each input whether it is re-encoded, and which file the
/// manifest names for it: a copy in `dir` for each input whose rate differs
/// from the target, the input itself for the others.
pub fn plan_sources(files: &Vec<String>, rates: &Vec<u64>, target: Option<u64>, dir: &str) -> (r: Vec<Source>)
    requires
        files@.len() == rates@.len(),
    ensures
        r@.len() == files@.len(),
        forall|i: int| 0 <= i < r@.len() ==> source_ok(#[trigger] r@[i], files@[i]@, rates@[i], target, dir@),
{
    let mut out: Vec<Source> = Vec::new();
    let mut i: usize = 0;
    while i < files.len()
        invariant
            files@.len() == rates@.len(),
            i <= files@.len(),
            out@.len() == i,
            forall|k: int| 0 <= k < i ==> source_ok(#[trigger] out@[k], files@[k]@, rates@[k], target, dir@),
        decreases files@.len() - i,
    {
        let f = files[i].as_str();
        let reencode = match target {
            Some(t) => rates[i] != t,
            None => false,
        };
        let merged = if reencode {
            join(dir, file_name(f))
        } else {
            String::from_str(f)
        };
        out.push(Source { input: String::from_str(f), merged, reencode });
        i = i + 1;
    }
    out
}

} // verus!
