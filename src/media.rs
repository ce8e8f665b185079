use vstd::prelude::*;

verus! {

/// Kind of media that a file holds, decided by its file extension.
#[derive(PartialEq, Eq, Structural, Clone, Copy, Debug)]
pub enum MediaKind {
    Video,
    Audio,
}

/// Index just after the last `/` of `p`, or 0 where `p` has none.
pub open spec fn name_start(p: Seq<char>) -> int
    decreases p.len(),
{
    if p.len() == 0 {
        0
    } else if p.last() == '/' {
        p.len() as int
    } else {
        name_start(p.drop_last())
    }
}

pub proof fn lemma_name_start_bounds(p: Seq<char>)
    ensures
        0 <= name_start(p) <= p.len(),
    decreases p.len(),
{
    if p.len() > 0 && p.last() != '/' {
        lemma_name_start_bounds(p.drop_last());
    }
}

pub proof fn lemma_last_dot_bounds(n: Seq<char>)
    ensures
        -1 <= last_dot(n) < n.len(),
        last_dot(n) >= 0 ==> n[last_dot(n)] == '.',
    decreases n.len(),
{
    if n.len() > 0 && n.last() != '.' {
        lemma_last_dot_bounds(n.drop_last());
    }
}

/// The last component of a path.
pub open spec fn file_name_of(p: Seq<char>) -> Seq<char> {
    p.subrange(name_start(p), p.len() as int)
}

/// A hidden entry is one whose name starts with a dot.
pub open spec fn is_hidden_name(n: Seq<char>) -> bool {
    n.len() > 0 && n[0] == '.'
}

/// Index of the last `.` in `n`, or -1 where `n` has none.
pub open spec fn last_dot(n: Seq<char>) -> int
    decreases n.len(),
{
    if n.len() == 0 {
        -1
    } else if n.last() == '.' {
        n.len() - 1
    } else {
        last_dot(n.drop_last())
    }
}

/// What follows the last dot of a name; empty where there is no dot.
pub open spec fn extension_of(n: Seq<char>) -> Seq<char> {
    if last_dot(n) < 0 {
        Seq::empty()
    } else {
        n.subrange(last_dot(n) + 1, n.len() as int)
    }
}

/// `c` is the lower-case ASCII letter or symbol `w`, or its upper-case form.
pub open spec fn same_letter(c: char, w: char) -> bool {
    c == w || (65 <= (c as u32) <= 90 && (c as u32) + 32 == (w as u32))
}

/// `e` spells the lower-case word `w`, ignoring ASCII case.
pub open spec fn spells(e: Seq<char>, w: Seq<char>) -> bool {
    e.len() == w.len() && forall|i: int| 0 <= i < e.len() ==> same_letter(#[trigger] e[i], w[i])
}

pub open spec fn is_video_extension(e: Seq<char>) -> bool {
    spells(e, "mp4"@) || spells(e, "mkv"@) || spells(e, "avi"@) || spells(e, "mov"@)
        || spells(e, "webm"@) || spells(e, "flv"@) || spells(e, "wmv"@) || spells(e, "m4v"@)
        || spells(e, "mpg"@) || spells(e, "mpeg"@)
}

pub open spec fn is_audio_extension(e: Seq<char>) -> bool {
    spells(e, "mp3"@) || spells(e, "wav"@) || spells(e, "aac"@) || spells(e, "flac"@)
        || spells(e, "ogg"@) || spells(e, "m4a"@)
}

/// The media kind of a file name, by its extension.
pub open spec fn kind_of_name(n: Seq<char>) -> Option<MediaKind> {
    kind_of_extension(extension_of(n))
}

/// The media kind that an extension (without its dot) names.
pub open spec fn kind_of_extension(e: Seq<char>) -> Option<MediaKind> {
    if is_video_extension(e) {
        Some(MediaKind::Video)
    } else if is_audio_extension(e) {
        Some(MediaKind::Audio)
    } else {
        None
    }
}

/// The media kind of the file at path `p`; none for a hidden entry or an
/// unsupported extension.
pub open spec fn kind_of(p: Seq<char>) -> Option<MediaKind> {
    if is_hidden_name(file_name_of(p)) {
        None
    } else {
        kind_of_name(file_name_of(p))
    }
}

/// Index in `p` at which its file name starts.
pub fn file_name_start(p: &str) -> (r: usize)
    ensures
        r == name_start(p@),
{
    let n = p.unicode_len();
    let mut i: usize = n;
    assert(p@.subrange(0, n as int) =~= p@);
    while i > 0
        invariant
            i <= n == p@.len(),
            name_start(p@) == name_start(p@.subrange(0, i as int)),
        decreases i,
    {
        if p.get_char(i - 1) == '/' {
            assert(p@.subrange(0, i as int).last() == '/');
            return i;
        }
        assert(p@.subrange(0, i as int).drop_last() =~= p@.subrange(0, i - 1));
        i = i - 1;
    }
    i
}

/// Index of the last dot of `p` at or after `from`, or `p`'s length where
/// there is none.
pub fn last_dot_from(p: &str, from: usize) -> (r: usize)
    requires
        from <= p@.len(),
    ensures
        r == (if last_dot(p@.subrange(from as int, p@.len() as int)) < 0 {
            p@.len() as int
        } else {
            from + last_dot(p@.subrange(from as int, p@.len() as int))
        }),
{
    let n = p.unicode_len();
    let mut i: usize = n;
    let ghost tail = p@.subrange(from as int, n as int);
    assert(tail.subrange(0, n - from) =~= tail);
    while i > from
        invariant
            from <= i <= n == p@.len(),
            tail == p@.subrange(from as int, n as int),
            last_dot(tail) == last_dot(tail.subrange(0, i - from)),
        decreases i,
    {
        if p.get_char(i - 1) == '.' {
            assert(tail.subrange(0, i - from).last() == '.');
            return i - 1;
        }
        assert(tail.subrange(0, i - from).drop_last() =~= tail.subrange(0, i - 1 - from));
        i = i - 1;
    }
    assert(tail.subrange(0, 0) =~= Seq::<char>::empty());
    n
}

fn letter_matches(c: char, w: char) -> (r: bool)
    ensures
        r == same_letter(c, w),
{
    c == w || (65 <= (c as u32) && (c as u32) <= 90 && (c as u32) + 32 == (w as u32))
}

/// Whether `p` from index `from` on spells the lower-case word `w`.
fn tail_spells(p: &str, from: usize, w: &str) -> (r: bool)
    requires
        from <= p@.len(),
    ensures
        r == spells(p@.subrange(from as int, p@.len() as int), w@),
{
    let n = p.unicode_len();
    let m = w.unicode_len();
    let ghost e = p@.subrange(from as int, n as int);
    if n - from != m {
        return false;
    }
    let mut i: usize = 0;
    while i < m
        invariant
            from + m == n == p@.len(),
            m == w@.len(),
            e == p@.subrange(from as int, n as int),
            i <= m,
            forall|k: int| 0 <= k < i ==> same_letter(#[trigger] e[k], w@[k]),
        decreases m - i,
    {
        assert(e[i as int] == p@[from + i]);
        if !letter_matches(p.get_char(from + i), w.get_char(i)) {
            return false;
        }
        i = i + 1;
    }
    true
}

/// The media kind of the file at path `p`: `None` for a hidden entry or an
/// extension that is neither a video nor an audio format.
pub fn kind_of_path(p: &str) -> (r: Option<MediaKind>)
    ensures
        r == kind_of(p@),
{
    let start = file_name_start(p);
    let ghost name = file_name_of(p@);
    proof {
        lemma_name_start_bounds(p@);
        lemma_last_dot_bounds(name);
    }
    let n = p.unicode_len();
    if start < n && p.get_char(start) == '.' {
        assert(is_hidden_name(name));
        return None;
    }
    assert(!is_hidden_name(name));
    let dot = last_dot_from(p, start);
    let e = if dot == n {
        n
    } else {
        dot + 1
    };
    assert(p@.subrange(e as int, n as int) =~= extension_of(name));
    kind_of_tail(p, e)
}

/// The media kind that `p` from index `from` on names as an extension.
fn kind_of_tail(p: &str, e: usize) -> (r: Option<MediaKind>)
    requires
        e <= p@.len(),
    ensures
        r == kind_of_extension(p@.subrange(e as int, p@.len() as int)),
{
    if tail_spells(p, e, "mp4") || tail_spells(p, e, "mkv") || tail_spells(p, e, "avi")
        || tail_spells(p, e, "mov") || tail_spells(p, e, "webm") || tail_spells(p, e, "flv")
        || tail_spells(p, e, "wmv") || tail_spells(p, e, "m4v") || tail_spells(p, e, "mpg")
        || tail_spells(p, e, "mpeg") {
        Some(MediaKind::Video)
    } else if tail_spells(p, e, "mp3") || tail_spells(p, e, "wav") || tail_spells(p, e, "aac")
        || tail_spells(p, e, "flac") || tail_spells(p, e, "ogg") || tail_spells(p, e, "m4a") {
        Some(MediaKind::Audio)
    } else {
        None
    }
}

/// The media kind that an output format such as `mp4` names, ignoring
/// ASCII case; `None` for a format of neither kind.
pub fn kind_of_format(format: &str) -> (r: Option<MediaKind>)
    ensures
        r == kind_of_extension(format@),
{
    assert(format@.subrange(0, format@.len() as int) =~= format@);
    kind_of_tail(format, 0)
}

} // verus!
