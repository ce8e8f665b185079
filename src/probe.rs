use vstd::prelude::*;
use crate::media::last_dot;

verus! {

pub open spec fn is_digit(c: char) -> bool {
    48 <= (c as u32) <= 57
}

/// A character of a frame-rate figure: a digit or a dot.
pub open spec fn is_rate_char(c: char) -> bool {
    c == '.' || is_digit(c)
}

pub open spec fn all_digits(s: Seq<char>) -> bool {
    forall|i: int| 0 <= i < s.len() ==> is_digit(#[trigger] s[i])
}

/// The number that the digits `s` spell.
pub open spec fn digits_value(s: Seq<char>) -> nat
    decreases s.len(),
{
    if s.len() == 0 {
        0
    } else {
        digits_value(s.drop_last()) * 10 + ((s.last() as u32) - 48) as nat
    }
}

/// The text ` fps` stands at index `i` of `t`.
pub open spec fn marker_at(t: Seq<char>, i: int) -> bool {
    0 <= i && i + 4 <= t.len() && t[i] == ' ' && t[i + 1] == 'f' && t[i + 2] == 'p' && t[i + 3] == 's'
}

/// The first index from `i` on at which ` fps` stands, or -1.
pub open spec fn first_marker_from(t: Seq<char>, i: int) -> int
    decreases t.len() - i,
{
    if i < 0 || i + 4 > t.len() {
        -1
    } else if marker_at(t, i) {
        i
    } else {
        first_marker_from(t, i + 1)
    }
}

/// Start of the run of figure characters that ends at index `j` of `t`.
pub open spec fn token_start(t: Seq<char>, j: int) -> int
    decreases j,
{
    if 0 < j <= t.len() && is_rate_char(t[j - 1]) {
        token_start(t, j - 1)
    } else {
        j
    }
}

/// The rate, in hundredths of a frame per second, that a figure such as
/// `25`, `29.97` or `12.5` gives.
pub open spec fn token_value(tok: Seq<char>) -> Option<nat> {
    if tok.len() > 0 && all_digits(tok) {
        Some(digits_value(tok) * 100)
    } else {
        let k = last_dot(tok);
        let w = tok.subrange(0, k);
        let f = tok.subrange(k + 1, tok.len() as int);
        if k > 0 && all_digits(w) && all_digits(f) && 1 <= f.len() <= 2 {
            Some(
                digits_value(w) * 100 + if f.len() == 1 {
                    digits_value(f) * 10
                } else {
                    digits_value(f)
                },
            )
        } else {
            None
        }
    }
}

/// The frame rate that the engine's description of a video reports: the
/// figure before the first ` fps`, in hundredths of a frame per second.
pub open spec fn rate_in_probe(t: Seq<char>) -> Option<nat> {
    let i = first_marker_from(t, 0);
    if i < 0 {
        None
    } else {
        match token_value(t.subrange(token_start(t, i), i)) {
            Some(v) => if v <= u64::MAX {
                Some(v)
            } else {
                None
            },
            None => None,
        }
    }
}

fn to_chars(t: &str) -> (r: Vec<char>)
    ensures
        r@ == t@,
{
    let n = t.unicode_len();
    let mut r: Vec<char> = Vec::new();
    let mut i: usize = 0;
    while i < n
        invariant
            n == t@.len(),
            i <= n,
            r@ == t@.subrange(0, i as int),
        decreases n - i,
    {
        r.push(t.get_char(i));
        i = i + 1;
        assert(r@ =~= t@.subrange(0, i as int));
    }
    assert(t@.subrange(0, n as int) =~= t@);
    r
}

fn find_marker(t: &Vec<char>) -> (r: Option<usize>)
    ensures
        match r {
            Some(i) => first_marker_from(t@, 0) == i as int && i + 4 <= t@.len(),
            None => first_marker_from(t@, 0) == -1,
        },
{
    let n = t.len();
    let mut i: usize = 0;
    while i < n && n - i >= 4
        invariant
            n == t@.len(),
            i <= n,
            first_marker_from(t@, 0) == first_marker_from(t@, i as int),
        decreases n - i,
    {
        if t[i] == ' ' && t[i + 1] == 'f' && t[i + 2] == 'p' && t[i + 3] == 's' {
            return Some(i);
        }
        i = i + 1;
    }
    None
}

fn find_token_start(t: &Vec<char>, j: usize) -> (r: usize)
    requires
        j <= t@.len(),
    ensures
        r == token_start(t@, j as int),
        r <= j,
{
    let mut k: usize = j;
    while k > 0 && (t[k - 1] == '.' || (48 <= (t[k - 1] as u32) && (t[k - 1] as u32) <= 57))
        invariant
            k <= j <= t@.len(),
            token_start(t@, j as int) == token_start(t@, k as int),
        decreases k,
    {
        k = k - 1;
    }
    k
}

/// The value of the digits `t[from..to]`, or `None` where it exceeds `u64`.
fn digits_in(t: &Vec<char>, from: usize, to: usize) -> (r: Option<u64>)
    requires
        from <= to <= t@.len(),
        all_digits(t@.subrange(from as int, to as int)),
    ensures
        match r {
            Some(v) => v == digits_value(t@.subrange(from as int, to as int)),
            None => digits_value(t@.subrange(from as int, to as int)) > u64::MAX,
        },
{
    let ghost s = t@.subrange(from as int, to as int);
    let mut acc: Option<u64> = Some(0);
    let mut i: usize = from;
    assert(s.subrange(0, 0) =~= Seq::<char>::empty());
    while i < to
        invariant
            from <= i <= to <= t@.len(),
            s == t@.subrange(from as int, to as int),
            all_digits(s),
            match acc {
                Some(v) => v == digits_value(s.subrange(0, i - from)),
                None => digits_value(s.subrange(0, i - from)) > u64::MAX,
            },
        decreases to - i,
    {
        let ghost pre = s.subrange(0, i - from);
        assert(s.subrange(0, i + 1 - from).drop_last() =~= pre);
        assert(s.subrange(0, i + 1 - from).last() == t@[i as int]);
        assert(is_digit(s[i - from]));
        let d = (t[i] as u32 - 48) as u64;
        acc = match acc {
            Some(v) => if v <= (u64::MAX - d) / 10 {
                Some(v * 10 + d)
            } else {
                None
            },
            None => None,
        };
        i = i + 1;
    }
    assert(s.subrange(0, to - from) =~= s);
    acc
}

fn all_digits_in(t: &Vec<char>, from: usize, to: usize) -> (r: bool)
    requires
        from <= to <= t@.len(),
    ensures
        r == all_digits(t@.subrange(from as int, to as int)),
{
    let ghost s = t@.subrange(from as int, to as int);
    let mut i: usize = from;
    while i < to
        invariant
            from <= i <= to <= t@.len(),
            s == t@.subrange(from as int, to as int),
            forall|k: int| 0 <= k < i - from ==> is_digit(#[trigger] s[k]),
        decreases to - i,
    {
        if !(48 <= (t[i] as u32) && (t[i] as u32) <= 57) {
            assert(!is_digit(s[i - from]));
            return false;
        }
        i = i + 1;
    }
    true
}

/// The frame rate, in hundredths of a frame per second, that the engine's
/// description of a video reports: the figure (`25`, `29.97`) before the
/// first ` fps`. `None` where there is no such figure, or it exceeds `u64`.
pub fn parse_fps(probe_output: &str) -> (r: Option<u64>)
    ensures
        match r {
            Some(v) => rate_in_probe(probe_output@) == Some(v as nat),
            None => rate_in_probe(probe_output@) is None,
        },
{
    let t = to_chars(probe_output);
    let i = match find_marker(&t) {
        Some(i) => i,
        None => return None,
    };
    let s = find_token_start(&t, i);
    let ghost tok = t@.subrange(s as int, i as int);
    if s < i && all_digits_in(&t, s, i) {
        return match digits_in(&t, s, i) {
            Some(v) => v.checked_mul(100),
            None => None,
        };
    }
    assert(tok.subrange(0, i - s) =~= tok);
    // The figure holds a dot: whole part, dot, one or two digits.
    let mut k: usize = i;
    while k > s && t[k - 1] != '.'
        invariant
            s <= k <= i <= t@.len(),
            tok == t@.subrange(s as int, i as int),
            last_dot(tok) == last_dot(tok.subrange(0, k - s)),
        decreases k,
    {
        assert(tok.subrange(0, k - s).drop_last() =~= tok.subrange(0, k - 1 - s));
        k = k - 1;
    }
    if k == s {
        assert(tok.subrange(0, 0) =~= Seq::<char>::empty());
        return None;
    }
    let dot = k - 1;
    assert(tok.subrange(0, k - s).last() == '.');
    assert(last_dot(tok) == dot - s);
    assert(tok.subrange(0, dot - s) =~= t@.subrange(s as int, dot as int));
    assert(tok.subrange(k - s, tok.len() as int) =~= t@.subrange(k as int, i as int));
    let flen = i - k;
    if dot == s || flen < 1 || flen > 2 || !all_digits_in(&t, s, dot) || !all_digits_in(&t, k, i) {
        return None;
    }
    let ghost fs = t@.subrange(k as int, i as int);
    assert(fs[0] == t@[k as int]);
    assert(is_digit(fs[0]));
    let d0 = (t[k] as u32 - 48) as u64;
    let frac: u64 = if flen == 1 {
        assert(fs.drop_last() =~= Seq::<char>::empty());
        assert(digits_value(fs.drop_last()) == 0);
        assert(fs.last() == fs[0]);
        assert(digits_value(fs) == d0 as nat);
        d0 * 10
    } else {
        assert(fs[1] == t@[k + 1]);
        assert(is_digit(fs[1]));
        assert(fs.drop_last() =~= seq![fs[0]]);
        assert(fs.drop_last().drop_last() =~= Seq::<char>::empty());
        let d1 = (t[k + 1] as u32 - 48) as u64;
        assert(digits_value(fs.drop_last().drop_last()) == 0);
        assert(fs.drop_last().last() == fs[0]);
        assert(fs.last() == fs[1]);
        assert(digits_value(fs.drop_last()) == d0 as nat);
        assert(digits_value(fs) == (d0 * 10 + d1) as nat);
        d0 * 10 + d1
    };
    assert(token_value(tok) == Some((digits_value(t@.subrange(s as int, dot as int)) * 100 + frac) as nat));
    match digits_in(&t, s, dot) {
        Some(w) => match w.checked_mul(100) {
            Some(h) => h.checked_add(frac),
            None => None,
        },
        None => None,
    }
}

} // verus!
