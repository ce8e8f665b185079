use vidmerger::{
    advance, create_dir_for_fps_changer, create_tmp_dir, decimal, error_message, generated_notice,
    manifest_path, manifest_text, max_of, merge_args, needs_inspection, normalization_plan,
    normalize_args, parse_fps, plan_sources, probe_args, rate_text, removal_notice, start,
    MediaKind, MergeError, Phase, StepReport, ID_LEN,
};

fn strings(items: &[&str]) -> Vec<String> {
    items.iter().map(|s| s.to_string()).collect()
}

fn ok(inspect: bool, normalize: bool) -> StepReport {
    StepReport { ok: true, inspect, normalize }
}

fn fail() -> StepReport {
    StepReport { ok: false, inspect: false, normalize: false }
}

#[test]
fn equal_rates_are_not_normalized() {
    assert_eq!(normalization_plan(&vec![2500, 2500, 2500], None, false), None);
    assert_eq!(normalization_plan(&vec![2500, 2500], Some(25), false), None);
    assert_eq!(normalization_plan(&vec![2500, 2500], Some(30), false), Some(3000));
}

#[test]
fn largest_rate_is_the_target() {
    assert_eq!(max_of(&vec![2997, 3000, 2400]), 3000);
    assert_eq!(max_of(&vec![]), 0);
    assert_eq!(normalization_plan(&vec![2997, 2400], None, false), Some(2997));
}

#[test]
fn sources_name_reencoded_copies() {
    let files = strings(&["/d/1.mp4", "/d/2.mp4"]);
    let s = plan_sources(&files, &vec![2500, 2800], Some(2800), "/tmp/w/fps_changer");
    assert_eq!(s.len(), 2);
    assert!(s[0].reencode);
    assert_eq!(s[0].merged, "/tmp/w/fps_changer/1.mp4");
    assert_eq!(s[0].input, "/d/1.mp4");
    assert!(!s[1].reencode);
    assert_eq!(s[1].merged, "/d/2.mp4");
    let none = plan_sources(&files, &vec![2500, 2800], None, "/tmp/w");
    assert!(none.iter().all(|x| !x.reencode && x.merged == x.input));
}

#[test]
fn manifest_lines() {
    let text = manifest_text(&strings(&["/d/1.mp4", "/d/it's.mp4"]));
    assert_eq!(text, "file '/d/1.mp4'\nfile '/d/it'\\''s.mp4'\n");
    assert_eq!(manifest_text(&vec![]), "");
}

#[test]
fn rates_as_text() {
    assert_eq!(decimal(0), "0");
    assert_eq!(decimal(1234567890), "1234567890");
    assert_eq!(decimal(u64::MAX), u64::MAX.to_string());
    assert_eq!(rate_text(2997), "29.97");
    assert_eq!(rate_text(1250), "12.50");
    assert_eq!(rate_text(2800), "28");
    assert_eq!(rate_text(5), "0.05");
}

#[test]
fn parses_probe_output() {
    let line = "  Stream #0:0(und): Video: h264 (High), yuv420p, 1280x720 [SAR 1:1 DAR 16:9], 1029 kb/s, 28 fps, 28 tbr, 14336 tbn (default)";
    assert_eq!(parse_fps(line), Some(2800));
    assert_eq!(parse_fps("Video: h264, 29.97 fps, 29.97 tbr"), Some(2997));
    assert_eq!(parse_fps("Video: h264, 12.5 fps, 1k tbn"), Some(1250));
    assert_eq!(parse_fps("Audio: mp3, 44100 Hz, stereo"), None);
    assert_eq!(parse_fps("Video: x, 1k fps"), None);
    assert_eq!(parse_fps("Video: x, 1.2.3 fps"), None);
    assert_eq!(parse_fps("Video: x, .5 fps"), None);
    assert_eq!(parse_fps("Video: x, 99999999999999999999 fps"), None);
    assert_eq!(parse_fps(""), None);
}

#[test]
fn engine_arguments() {
    assert_eq!(probe_args("/d/1.mp4"), strings(&["-hide_banner", "-i", "/d/1.mp4"]));
    assert_eq!(
        normalize_args("/d/1.mp4", "/w/1.mp4", 2800),
        strings(&["-y", "-i", "/d/1.mp4", "-r", "28", "/w/1.mp4"])
    );
    assert_eq!(
        merge_args("/w/list", "/d/output.mp4"),
        strings(&["-y", "-f", "concat", "-safe", "0", "-i", "/w/list", "-c", "copy", "/d/output.mp4"])
    );
}

#[test]
fn workspace_paths() {
    let dir = create_tmp_dir("/tmp");
    assert_eq!(dir.len(), "/tmp/".len() + ID_LEN);
    assert!(dir.starts_with("/tmp/"));
    assert!(dir["/tmp/".len()..].chars().all(|c| c == '_' || c == '-' || c.is_ascii_alphanumeric()));
    assert_ne!(create_tmp_dir("/tmp/"), "/tmp/");
    assert_eq!(create_dir_for_fps_changer("/tmp/abc"), "/tmp/abc/fps_changer");
    assert_eq!(create_dir_for_fps_changer("/tmp/abc/"), "/tmp/abc/fps_changer");
    assert_eq!(create_dir_for_fps_changer(""), "fps_changer");
    assert_eq!(manifest_path("/d", &None), "/d/.merge_list.txt");
    assert_eq!(manifest_path("/d", &Some("/tmp/w".to_string())), "/tmp/w/.merge_list.txt");
}

#[test]
fn run_without_engine_fails_before_scanning() {
    let s = advance(start(), fail());
    assert_eq!(s.phase, Phase::Cleanup);
    assert_eq!(advance(s, ok(false, false)).phase, Phase::Failed);
}

#[test]
fn video_run_goes_through_every_step() {
    let mut s = start();
    let mut seen = vec![s.phase];
    for e in [ok(false, false), ok(true, false), ok(false, true), ok(false, false), ok(false, false), ok(false, false), ok(false, false)] {
        s = advance(s, e);
        seen.push(s.phase);
    }
    assert_eq!(
        seen,
        vec![
            Phase::EngineCheck,
            Phase::Scan,
            Phase::Inspect,
            Phase::Normalize,
            Phase::BuildManifest,
            Phase::Merge,
            Phase::Cleanup,
            Phase::Done
        ]
    );
}

#[test]
fn audio_run_skips_frame_rates() {
    assert!(!needs_inspection(MediaKind::Audio, false));
    assert!(needs_inspection(MediaKind::Video, false));
    assert!(!needs_inspection(MediaKind::Video, true));
    let s = advance(start(), ok(false, false));
    assert_eq!(advance(s, ok(false, false)).phase, Phase::BuildManifest);
}

#[test]
fn failed_merge_still_cleans_up() {
    let s = advance(advance(advance(start(), ok(false, false)), ok(false, false)), ok(false, false));
    assert_eq!(s.phase, Phase::Merge);
    let s = advance(s, fail());
    assert_eq!(s.phase, Phase::Cleanup);
    assert_eq!(advance(s, ok(false, false)).phase, Phase::Failed);
}

#[test]
fn messages() {
    assert_eq!(error_message(&MergeError::NoSupportedFilesFound), "❌ No supported media files found.");
    assert_eq!(
        error_message(&MergeError::DirectoryNotFound { message: "No such file or directory".to_string() }),
        "❌ No such file or directory"
    );
    assert_eq!(
        error_message(&MergeError::MergeFailed { path: "/d/output.mp4".to_string(), output: "boom".to_string() }),
        "❌ Could not merge into /d/output.mp4\nboom"
    );
    assert_eq!(
        error_message(&MergeError::ProbeFailed { path: "/d/1.mp4".to_string(), output: "x".to_string() }),
        "❌ Could not read the frame rate of /d/1.mp4\nx"
    );
    assert_eq!(
        error_message(&MergeError::NormalizationFailed { path: "/d/1.mp4".to_string(), output: "y".to_string() }),
        "❌ Could not change the frame rate of /d/1.mp4\ny"
    );
    assert_eq!(
        error_message(&MergeError::MixedMediaKinds),
        "❌ The directory holds both video and audio files."
    );
    assert_eq!(removal_notice("output.mp4"), "🗑️  Removing old data: `output.mp4`");
    assert_eq!(generated_notice("/d/output.mp4"), "🐣 Generated /d/output.mp4");
}
