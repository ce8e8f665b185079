use vidmerger::{file_name, kind_of_path, path_bufs_to_sorted_strings, select_inputs, str_le, MediaKind, MergeError};

fn strings(items: &[&str]) -> Vec<String> {
    items.iter().map(|s| s.to_string()).collect()
}

#[test]
fn only_hidden_files_select_nothing() {
    let r = select_inputs(&strings(&["/d/.a.mp4", "/d/.b.mp3"]), &None);
    assert!(matches!(r, Err(MergeError::NoSupportedFilesFound)));
}

#[test]
fn unsupported_files_select_nothing() {
    let r = select_inputs(&strings(&["/d/notes.txt", "/d/mp4", "/d/cover.jpg"]), &None);
    assert!(matches!(r, Err(MergeError::NoSupportedFilesFound)));
}

#[test]
fn empty_directory_selects_nothing() {
    assert!(matches!(select_inputs(&vec![], &None), Err(MergeError::NoSupportedFilesFound)));
}

#[test]
fn mixed_kinds_are_refused() {
    let r = select_inputs(&strings(&["/d/1.mp4", "/d/2.mp3"]), &None);
    assert!(matches!(r, Err(MergeError::MixedMediaKinds)));
}

#[test]
fn earlier_output_is_not_an_input() {
    let set = select_inputs(&strings(&["/d/output.mp4", "/d/b.mp4", "/d/a.mkv"]), &None).unwrap();
    assert_eq!(set.files, strings(&["/d/a.mkv", "/d/b.mp4"]));
}

#[test]
fn only_this_runs_output_is_left_out() {
    let listing = strings(&["/d/output.part1.mp4", "/d/output.mov", "/d/output.MP4", "/d/output", "/d/output.mp4"]);
    let set = select_inputs(&listing, &None).unwrap();
    assert_eq!(set.files, strings(&["/d/output.MP4", "/d/output.mov", "/d/output.part1.mp4"]));
    let set = select_inputs(&listing, &Some("mov".to_string())).unwrap();
    assert_eq!(set.files, strings(&["/d/output.MP4", "/d/output.mp4", "/d/output.part1.mp4"]));
    let audio = select_inputs(&strings(&["/d/output.mp3", "/d/output.wav", "/d/a.mp3"]), &None).unwrap();
    assert_eq!(audio.files, strings(&["/d/a.mp3", "/d/output.wav"]));
}

#[test]
fn format_picks_the_kind_it_names() {
    let listing = strings(&["/d/1.mp4", "/d/2.mkv", "/d/3.mp3", "/d/.4.mp4"]);
    let video = select_inputs(&listing, &Some("MKV".to_string())).unwrap();
    assert_eq!(video.kind, MediaKind::Video);
    assert_eq!(video.files, strings(&["/d/1.mp4", "/d/2.mkv"]));
    let audio = select_inputs(&listing, &Some("wav".to_string())).unwrap();
    assert_eq!(audio.kind, MediaKind::Audio);
    assert_eq!(audio.files, strings(&["/d/3.mp3"]));
    let other = select_inputs(&listing, &Some("gif".to_string()));
    assert!(matches!(other, Err(MergeError::NoSupportedFilesFound)));
}

#[test]
fn every_visible_supported_file_is_selected() {
    let set = select_inputs(&strings(&["/d/c.mov", "/d/.h.mov", "/d/a.MKV", "/d/b.avi", "/d/x.txt"]), &None).unwrap();
    assert_eq!(set.kind, MediaKind::Video);
    assert_eq!(set.files, strings(&["/d/a.MKV", "/d/b.avi", "/d/c.mov"]));
}

#[test]
fn rerun_in_other_listing_order_gives_same_order() {
    let a = select_inputs(&strings(&["/d/b.mp4", "/d/.x.mp4", "/d/a.mp4", "/d/c.mp4"]), &None).unwrap();
    let b = select_inputs(&strings(&["/d/c.mp4", "/d/a.mp4", "/d/b.mp4", "/d/.x.mp4"]), &None).unwrap();
    assert_eq!(a.files, b.files);
    assert_eq!(a.files, strings(&["/d/a.mp4", "/d/b.mp4", "/d/c.mp4"]));
}

#[test]
fn kinds_by_extension() {
    assert_eq!(kind_of_path("/x/clip.MP4"), Some(MediaKind::Video));
    assert_eq!(kind_of_path("/x/clip.webm"), Some(MediaKind::Video));
    assert_eq!(kind_of_path("/x/song.flac"), Some(MediaKind::Audio));
    assert_eq!(kind_of_path("/x/a.mp4.txt"), None);
    assert_eq!(kind_of_path("/x.mp4/readme"), None);
    assert_eq!(kind_of_path("/x/.hidden.mp4"), None);
    assert_eq!(kind_of_path(""), None);
}

#[test]
fn file_names() {
    assert_eq!(file_name("/a/b/c.mp4"), "c.mp4");
    assert_eq!(file_name("c.mp4"), "c.mp4");
    assert_eq!(file_name("/a/"), "");
}

#[test]
fn sorting_follows_string_order() {
    let input = strings(&["/b", "/a/z", "/a", "/B", "/a/é", "/a"]);
    let mut expected = input.clone();
    expected.sort();
    assert_eq!(path_bufs_to_sorted_strings(&input), expected);
    assert!(str_le("ab", "ab"));
    assert!(str_le("a", "ab"));
    assert!(!str_le("b", "ab"));
}
