use orpheus::config::ConfigError;
use orpheus::playlist::{
    copy_of, is_music_extension, is_playlist_extension, jump, jump_candidates, playlist_dir,
    playlist_file_name, playlist_path, playlist_tracks, render_playlist, without, EditAction,
    JumpError,
};

fn list(items: &[&str]) -> Vec<String> {
    items.iter().map(|s| s.to_string()).collect()
}

#[test]
fn jump_finds_the_chosen_entry() {
    let queue = list(&["/a.mp3", "/b.mp3", "/c.mp3"]);
    assert!(matches!(jump(&queue, &list(&["/a.mp3"])), Ok(Some(0))));
    assert!(matches!(jump(&queue, &list(&["/b.mp3"])), Ok(Some(1))));
    assert!(matches!(jump(&queue, &list(&["/c.mp3"])), Ok(Some(2))));
}

#[test]
fn jump_takes_the_first_of_equal_entries() {
    let queue = list(&["/a.mp3", "/b.mp3", "/a.mp3", "/b.mp3"]);
    assert!(matches!(jump(&queue, &list(&["/b.mp3"])), Ok(Some(1))));
}

#[test]
fn jump_goes_by_the_first_chosen_name() {
    let queue = list(&["/a.mp3", "/b.mp3"]);
    assert!(matches!(jump(&queue, &list(&["/b.mp3", "/a.mp3"])), Ok(Some(1))));
}

#[test]
fn nothing_chosen_is_no_jump() {
    let queue = list(&["/a.mp3"]);
    assert!(matches!(jump(&queue, &list(&[])), Ok(None)));
}

#[test]
fn an_empty_queue_is_an_error() {
    assert!(matches!(jump(&list(&[]), &list(&[])), Err(JumpError::EmptyQueue)));
    assert!(matches!(jump(&list(&[]), &list(&["/a.mp3"])), Err(JumpError::EmptyQueue)));
    assert!(matches!(jump_candidates(&list(&[])), Err(JumpError::EmptyQueue)));
    assert!(jump_candidates(&list(&["/a.mp3"])).is_ok());
}

#[test]
fn a_name_not_in_the_queue_is_an_error() {
    let queue = list(&["/a.mp3", "/b.mp3"]);
    match jump(&queue, &list(&["/z.mp3"])) {
        Err(JumpError::NotFound { name }) => assert_eq!(name, "/z.mp3"),
        other => panic!("unexpected: {:?}", other),
    }
    assert!(matches!(jump(&queue, &list(&["/a.mp"])), Err(JumpError::NotFound { .. })));
    assert!(matches!(jump(&queue, &list(&["/A.mp3"])), Err(JumpError::NotFound { .. })));
}

#[test]
fn jump_error_messages() {
    assert_eq!(JumpError::EmptyQueue.message(), "queue is empty");
    assert_eq!(
        JumpError::NotFound { name: "/z.mp3".to_string() }.message(),
        "failed to find the index of /z.mp3"
    );
}

#[test]
fn a_playlist_file_is_a_header_and_lines() {
    assert_eq!(render_playlist(&list(&["/a.mp3", "/b c.flac"])), "#EXTM3U\n/a.mp3\n/b c.flac\n");
}

#[test]
fn an_empty_playlist_file_is_the_header() {
    assert_eq!(render_playlist(&list(&[])), "#EXTM3U\n");
}

#[test]
fn tracks_are_the_lines_that_are_no_comments() {
    let lines = list(&["#EXTM3U", "/a.mp3", "", "# note", " #not a comment", "/b.mp3"]);
    assert_eq!(playlist_tracks(&lines), list(&["/a.mp3", "", " #not a comment", "/b.mp3"]));
}

#[test]
fn a_written_playlist_reads_back() {
    let tracks = list(&["/a.mp3", "/b.mp3", "/a.mp3"]);
    let text = render_playlist(&tracks);
    let lines: Vec<String> = text.lines().map(|l| l.to_string()).collect();
    assert_eq!(playlist_tracks(&lines), tracks);
}

#[test]
fn without_keeps_order_and_repeats() {
    let tracks = list(&["/a", "/b", "/c", "/b", "/d"]);
    assert_eq!(without(&tracks, &list(&["/b"])), list(&["/a", "/c", "/d"]));
    assert_eq!(without(&tracks, &list(&["/d", "/a", "/x"])), list(&["/b", "/c", "/b"]));
    assert_eq!(without(&tracks, &list(&[])), tracks);
    assert_eq!(without(&list(&[]), &tracks), list(&[]));
    assert_eq!(without(&tracks, &tracks), list(&[]));
}

#[test]
fn copy_is_equal() {
    let tracks = list(&["/a", "", "/a"]);
    assert_eq!(copy_of(&tracks), tracks);
}

#[test]
fn edit_actions_by_name() {
    assert_eq!(EditAction::all(), list(&["delete", "append"]));
    assert_eq!(EditAction::parse("delete"), Some(EditAction::Delete));
    assert_eq!(EditAction::parse("append"), Some(EditAction::Append));
    assert_eq!(EditAction::parse("Delete"), None);
    assert_eq!(EditAction::parse(""), None);
    assert_eq!(EditAction::parse("delete "), None);
}

#[test]
fn a_deletion_offers_the_tracks_and_takes_them_out() {
    let tracks = list(&["/a", "/b", "/c"]);
    let music = list(&["/a", "/x"]);
    assert_eq!(EditAction::Delete.candidates(&tracks, &music), Some(tracks.clone()));
    assert_eq!(EditAction::Delete.candidates(&list(&[]), &music), Some(list(&[])));
    assert_eq!(EditAction::Delete.apply(&tracks, &list(&["/b", "/c"])), list(&["/a"]));
    assert_eq!(EditAction::Delete.apply(&tracks, &list(&[])), tracks);
}

#[test]
fn an_addition_offers_new_music_and_adds_it_at_the_end() {
    let tracks = list(&["/a", "/b"]);
    let music = list(&["/x", "/a", "/y", "/b"]);
    assert_eq!(EditAction::Append.candidates(&tracks, &music), Some(list(&["/x", "/y"])));
    assert_eq!(EditAction::Append.apply(&tracks, &list(&["/y", "/x"])), list(&["/a", "/b", "/y", "/x"]));
    assert_eq!(EditAction::Append.apply(&tracks, &list(&[])), tracks);
}

#[test]
fn no_new_music_no_candidates() {
    let tracks = list(&["/a", "/b"]);
    assert_eq!(EditAction::Append.candidates(&tracks, &list(&["/b", "/a"])), None);
    assert_eq!(EditAction::Append.candidates(&tracks, &list(&[])), None);
}

#[test]
fn playlist_extension_is_exact() {
    assert!(is_playlist_extension("m3u"));
    assert!(!is_playlist_extension("M3U"));
    assert!(!is_playlist_extension("m3u8"));
    assert!(!is_playlist_extension(""));
}

#[test]
fn music_extensions_in_any_case() {
    for ext in ["mp3", "flac", "ogg", "wav", "MP3", "Flac", "oGG", "WAV"] {
        assert!(is_music_extension(ext), "{}", ext);
    }
    for ext in ["", "m3u", "mp4", "txt", "mp3 ", "wave", "ogg.bak"] {
        assert!(!is_music_extension(ext), "{}", ext);
    }
}

#[test]
fn music_extensions_as_the_standard_library_lowers_them() {
    let samples = [
        "mp3", "Mp3", "mP3", "FLAC", "fLaC", "OGG", "Wav", "\u{212a}", "o\u{1e9e}g", "ＭＰ３",
        "ﬂac", "wa\u{56}", "wa\u{3bd}", "MP\u{b3}", "OGG\u{130}", "\u{130}", "",
    ];
    for ext in samples {
        let lower = ext.to_lowercase();
        let expected = matches!(lower.as_str(), "mp3" | "flac" | "ogg" | "wav");
        assert_eq!(is_music_extension(ext), expected, "{:?}", ext);
    }
}

#[test]
fn only_the_letters_a_to_z_lower_into_an_extension() {
    for code in 0..=0x10FFFFu32 {
        if let Some(c) = char::from_u32(code) {
            let lower: String = c.to_lowercase().collect();
            if lower.chars().any(|l| "mp3flacoggwav".contains(l)) {
                assert!(c.is_ascii(), "U+{:04X}", code);
                assert_eq!(lower, c.to_ascii_lowercase().to_string());
            }
        }
    }
}

#[test]
fn playlist_file_names() {
    assert_eq!(playlist_file_name("rock"), "rock.m3u");
    assert_eq!(playlist_file_name(""), ".m3u");
    assert_eq!(playlist_path("/data/orpheus", "rock"), "/data/orpheus/rock.m3u");
    assert_eq!(playlist_path("/data/orpheus/", "rock"), "/data/orpheus/rock.m3u");
    assert_eq!(playlist_path("/data/orpheus", "/tmp/rock"), "/tmp/rock.m3u");
}

fn env(pairs: &[(&str, &str)]) -> Vec<(String, String)> {
    pairs.iter().map(|(k, v)| (k.to_string(), v.to_string())).collect()
}

#[test]
fn playlist_directory() {
    let both = env(&[("HOME", "/home/u"), ("XDG_DATA_HOME", "/data")]);
    assert_eq!(playlist_dir(&both).unwrap(), "/data/orpheus");
    let home = env(&[("HOME", "/home/u")]);
    assert_eq!(playlist_dir(&home).unwrap(), "/home/u/.local/share/orpheus");
    let data = env(&[("XDG_DATA_HOME", "/data")]);
    assert_eq!(playlist_dir(&data).unwrap(), "/data/orpheus");
    assert_eq!(playlist_dir(&env(&[])).unwrap_err(), ConfigError::MissingHome);
}
