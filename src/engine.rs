use vstd::prelude::*;
use crate::media::MediaKind;
use crate::order::views;
use crate::paths::{join, join_path};

verus! {

/// The decimal digit `d`.
pub open spec fn digit(d: int) -> char {
    "0123456789"@[d]
}

/// The decimal form of `n`, without leading zeros.
pub open spec fn decimal_of(n: nat) -> Seq<char>
    decreases n,
{
    if n < 10 {
        seq![digit(n as int)]
    } else {
        decimal_of(n / 10).push(digit((n % 10) as int))
    }
}

/// A rate in hundredths of a frame per second, as the engine reads it:
/// the whole part, then `.` and two digits where there is a fraction.
pub open spec fn rate_text_of(centi: nat) -> Seq<char> {
    if centi % 100 == 0 {
        decimal_of(centi / 100)
    } else {
        decimal_of(centi / 100) + seq!['.', digit(((centi % 100) / 10) as int), digit((centi % 10) as int)]
    }
}

fn digit_str(d: u64) -> (r: &'static str)
    requires
        d < 10,
    ensures
        r@ == seq![digit(d as int)],
{
    let all = "0123456789";
    proof {
        reveal_strlit("0123456789");
    }
    let r = all.substring_char(d as usize, d as usize + 1);
    assert(r@ =~= seq![digit(d as int)]);
    r
}

/// The decimal form of `n`.
pub fn decimal(n: u64) -> (r: String)
    ensures
        r@ == decimal_of(n as nat),
    decreases n,
{
    if n < 10 {
        String::from_str(digit_str(n))
    } else {
        let mut s = decimal(n / 10);
        s.append(digit_str(n % 10));
        s
    }
}

/// A rate in hundredths of a frame per second, written as the engine's
/// `-r` option takes it (`25`, `29.97`).
pub fn rate_text(centi: u64) -> (r: String)
    ensures
        r@ == rate_text_of(centi as nat),
{
    let mut s = decimal(centi / 100);
    if centi % 100 != 0 {
        let dot = ".";
        proof {
            reveal_strlit(".");
        }
        s.append(dot);
        s.append(digit_str((centi % 100) / 10));
        s.append(digit_str(centi % 10));
        assert(s@ =~= rate_text_of(centi as nat));
    }
    s
}

/// The file extension that an output of kind `k` gets.
pub open spec fn default_extension(k: MediaKind) -> Seq<char> {
    match k {
        MediaKind::Video => "mp4"@,
        MediaKind::Audio => "mp3"@,
    }
}

/// The character sequence of an optional format.
pub open spec fn format_view(format: Option<String>) -> Option<Seq<char>> {
    match format {
        Some(f) => Some(f@),
        None => None,
    }
}

/// The extension of the output for inputs of kind `kind`: the requested
/// format, else the one of the kind.
pub open spec fn output_extension(kind: MediaKind, format: Option<Seq<char>>) -> Seq<char> {
    match format {
        Some(f) => f,
        None => default_extension(kind),
    }
}

/// The output's path: `output.<ext>` in the target directory, with the
/// requested format as extension, else the one of the inputs' kind.
pub open spec fn output_path_of(dir: Seq<char>, kind: MediaKind, format: Option<Seq<char>>) -> Seq<char> {
    join_path(
        dir,
        "output."@ + output_extension(kind, format),
    )
}

/// The path of the merged output in `target_dir`.
pub fn output_path(target_dir: &str, kind: MediaKind, format: &Option<String>) -> (r: String)
    ensures
        r@ == output_path_of(target_dir@, kind, format_view(*format)),
{
    let name = output_name(kind, format);
    join(target_dir, name.as_str())
}

/// The output's file name, `output.<ext>`.
pub fn output_name(kind: MediaKind, format: &Option<String>) -> (r: String)
    ensures
        r@ == "output."@ + output_extension(kind, format_view(*format)),
{
    let mut name = String::from_str("output.");
    match format {
        Some(f) => name.append(f.as_str()),
        None => match kind {
            MediaKind::Video => name.append("mp4"),
            MediaKind::Audio => name.append("mp3"),
        },
    }
    name
}

/// Arguments that make the engine describe the file at `input`, with its
/// frame rate, on its diagnostic stream.
pub fn probe_args(input: &str) -> (r: Vec<String>)
    ensures
        views(r@) == seq!["-hide_banner"@, "-i"@, input@],
{
    let r = vec![String::from_str("-hide_banner"), String::from_str("-i"), String::from_str(input)];
    assert(views(r@) =~= seq!["-hide_banner"@, "-i"@, input@]);
    r
}

/// Arguments that make the engine re-encode `input` into `output` at the
/// rate `centi`, in hundredths of a frame per second.
pub fn normalize_args(input: &str, output: &str, centi: u64) -> (r: Vec<String>)
    ensures
        views(r@) == seq!["-y"@, "-i"@, input@, "-r"@, rate_text_of(centi as nat), output@],
{
    let r = vec![
        String::from_str("-y"),
        String::from_str("-i"),
        String::from_str(input),
        String::from_str("-r"),
        rate_text(centi),
        String::from_str(output),
    ];
    assert(views(r@) =~= seq!["-y"@, "-i"@, input@, "-r"@, rate_text_of(centi as nat), output@]);
    r
}

/// Arguments that make the engine concatenate the files that the manifest
/// at `manifest` names into `output`, copying the streams.
pub fn merge_args(manifest: &str, output: &str) -> (r: Vec<String>)
    ensures
        views(r@) == seq![
            "-y"@,
            "-f"@,
            "concat"@,
            "-safe"@,
            "0"@,
            "-i"@,
            manifest@,
            "-c"@,
            "copy"@,
            output@,
        ],
{
    let r = vec![
        String::from_str("-y"),
        String::from_str("-f"),
        String::from_str("concat"),
        String::from_str("-safe"),
        String::from_str("0"),
        String::from_str("-i"),
        String::from_str(manifest),
        String::from_str("-c"),
        String::from_str("copy"),
        String::from_str(output),
    ];
    assert(views(r@) =~= seq![
        "-y"@,
        "-f"@,
        "concat"@,
        "-safe"@,
        "0"@,
        "-i"@,
        manifest@,
        "-c"@,
        "copy"@,
        output@,
    ]);
    r
}

} // verus!
