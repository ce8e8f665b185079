use vidmerger::{
    error_message, normalization_plan, output_path, preflight, rate_text, select_inputs, MediaKind,
    MergeError,
};

fn strings(items: &[&str]) -> Vec<String> {
    items.iter().map(|s| s.to_string()).collect()
}

#[test]
fn call_merger() {
    let set = select_inputs(&strings(&["/data/call_merger/2.mp4", "/data/call_merger/1.mp4"]), &None).unwrap();
    assert_eq!(set.kind, MediaKind::Video);
    assert_eq!(set.files, strings(&["/data/call_merger/1.mp4", "/data/call_merger/2.mp4"]));
    let out = output_path("/data/call_merger", set.kind, &None);
    assert!(out.ends_with("output.mp4"));
}

#[test]
fn call_merger_on_audio_files() {
    let set = select_inputs(&strings(&["/data/a/5.mp3", "/data/a/4.mp3"]), &None).unwrap();
    assert_eq!(set.kind, MediaKind::Audio);
    assert_eq!(output_path("/data/a", set.kind, &None), "/data/a/output.mp3");
}

#[test]
fn call_merger_and_skip_hidden_vids() {
    let set = select_inputs(&strings(&["/data/h/.3.mp4", "/data/h/2.mp4", "/data/h/1.mp4"]), &None).unwrap();
    assert_eq!(set.files, strings(&["/data/h/1.mp4", "/data/h/2.mp4"]));
    assert!(set.files.iter().all(|f| !f.contains(".3.mp4")));
    assert_eq!(output_path("/data/h", set.kind, &None), "/data/h/output.mp4");
}

#[test]
fn call_merger_without_ffmpeg() {
    let err = preflight(false).unwrap_err();
    assert!(matches!(err, MergeError::EngineUnavailable));
    assert_eq!(error_message(&err), "❌ ffmpeg is not available. Please install it first.");
    assert!(preflight(true).is_ok());
}

#[test]
fn call_merger_against_mp4() {
    // The shared directory holds videos and audio files; the format picks the videos.
    let format = Some("mp4".to_string());
    let listing = strings(&["/data/1.mp4", "/data/2.mp4", "/data/.3.mp4", "/data/4.mp3", "/data/5.mp3"]);
    let set = select_inputs(&listing, &format).unwrap();
    assert_eq!(set.kind, MediaKind::Video);
    assert_eq!(set.files, strings(&["/data/1.mp4", "/data/2.mp4"]));
    assert_eq!(output_path("/data", set.kind, &format), "/data/output.mp4");
}

#[test]
fn call_merger_with_fps_changer() {
    let target = normalization_plan(&vec![2500, 2800], None, false);
    assert_eq!(target, Some(2800));
    assert_eq!(rate_text(target.unwrap()), "28");
}

#[test]
fn call_merger_with_fps_changer_with_fps_cli_arg() {
    let target = normalization_plan(&vec![2500, 2800], Some(25), false);
    assert_eq!(target, Some(2500));
    assert_eq!(rate_text(target.unwrap()), "25");
}

#[test]
fn call_merger_without_fps_changer_on_vids_with_different_fps_values() {
    assert_eq!(normalization_plan(&vec![2500, 2800], None, true), None);
}
