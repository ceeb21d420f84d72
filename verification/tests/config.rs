use yt_download_tui::config::{
    cycle_index, default_output_dir_input, expand_output_dir, format_name, join_path_str,
    resolution_name, FORMAT_COUNT, RESOLUTION_COUNT,
};

#[test]
fn expands_plain_output_path() {
    assert_eq!(
        expand_output_dir("/tmp/videos", Some("/home/u")).expect("path should expand"),
        "/tmp/videos".to_string()
    );
}

#[test]
fn rejects_empty_output_path() {
    assert!(expand_output_dir("   ", Some("/home/u")).is_err());
}

#[test]
fn empty_output_path_error_text() {
    assert_eq!(
        expand_output_dir("", None),
        Err("Output directory is required.".to_string())
    );
}

#[test]
fn expands_tilde_against_home() {
    assert_eq!(expand_output_dir("  ~  ", Some("/Users/me")), Ok("/Users/me".to_string()));
    assert_eq!(
        expand_output_dir("~/Movies/yt", Some("/Users/me")),
        Ok("/Users/me/Movies/yt".to_string())
    );
    assert_eq!(expand_output_dir("~/x", Some("/Users/me/")), Ok("/Users/me/x".to_string()));
}

#[test]
fn tilde_without_home_is_an_error() {
    assert_eq!(
        expand_output_dir("~", None),
        Err("Could not expand ~ because HOME is not set.".to_string())
    );
    assert_eq!(
        expand_output_dir("~/a", None),
        Err("Could not expand ~/ because HOME is not set.".to_string())
    );
}

#[test]
fn tilde_in_the_middle_is_kept() {
    assert_eq!(expand_output_dir("a/~/b", None), Ok("a/~/b".to_string()));
    assert_eq!(expand_output_dir("~user", None), Ok("~user".to_string()));
}

#[test]
fn joins_like_pathbuf() {
    assert_eq!(join_path_str("/home/u", "Downloads"), "/home/u/Downloads");
    assert_eq!(join_path_str("/home/u/", "Downloads"), "/home/u/Downloads");
    assert_eq!(join_path_str("/home/u", "/abs"), "/abs");
    assert_eq!(join_path_str("", "rel"), "rel");
    assert_eq!(join_path_str("/home/u", ""), "/home/u/");
}

#[test]
fn default_output_dir_under_home() {
    assert_eq!(
        default_output_dir_input(Some("/Users/me")),
        "/Users/me/Downloads/youtube_downloads"
    );
    assert_eq!(default_output_dir_input(None), "youtube_downloads");
}

#[test]
fn cycles_forward_and_back() {
    assert_eq!(cycle_index(0, 4, 1), 1);
    assert_eq!(cycle_index(3, 4, 1), 0);
    assert_eq!(cycle_index(0, 4, -1), 3);
    assert_eq!(cycle_index(2, 4, -10), 1);
    assert_eq!(cycle_index(5, 0, 1), 0);
    for i in 0..4 {
        assert_eq!(cycle_index(cycle_index(i, 4, 1), 4, -1), i);
    }
}

#[test]
fn lists_choices() {
    let r: Vec<&str> = (0..RESOLUTION_COUNT).map(resolution_name).collect();
    assert_eq!(r, vec!["Best", "1080", "720", "480"]);
    let f: Vec<&str> = (0..FORMAT_COUNT).map(format_name).collect();
    assert_eq!(f, vec!["mp4", "webm", "mkv"]);
}

#[test]
fn only_the_trimmed_input_counts() {
    for input in ["  ~/films ", "~/films", "\t/tmp/x\n", "  ~videos "] {
        for home in [Some("/home/u"), None] {
            assert_eq!(expand_output_dir(input, home), expand_output_dir(input.trim(), home));
        }
    }
    assert_eq!(expand_output_dir("  ~videos ", Some("/home/u")), Ok("~videos".to_string()));
    assert_eq!(expand_output_dir("  ~videos ", None), Ok("~videos".to_string()));
}
