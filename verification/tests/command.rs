use orpheus::command::{frame, mpv_json_command, MpvCommand};

fn path(text: &str) -> String {
    text.to_string()
}

#[test]
fn load_playlist_body() {
    let body = MpvCommand::LoadPlaylist { path: path("/lists/rock.m3u") }.encode();
    assert_eq!(body, "\"loadlist\", \"/lists/rock.m3u\", \"replace\"");
}

#[test]
fn append_file_body() {
    let body = MpvCommand::AppendFile { path: path("/music/a.mp3") }.encode();
    assert_eq!(body, "\"loadfile\", \"/music/a.mp3\", \"append-play\"");
}

#[test]
fn play_file_body() {
    let body = MpvCommand::PlayFile { path: path("/music/a.mp3") }.encode();
    assert_eq!(body, "\"loadfile\", \"/music/a.mp3\", \"replace\"");
}

#[test]
fn quit_body() {
    assert_eq!(MpvCommand::Quit.encode(), "\"quit\"");
}

#[test]
fn get_queue_body() {
    assert_eq!(MpvCommand::GetQueue.encode(), "\"get_property\", \"playlist\"");
}

#[test]
fn jump_to_encodes_a_bare_number() {
    let body = MpvCommand::JumpTo { index: 4 }.encode();
    assert_eq!(body, "\"set_property\", \"playlist-pos\", 4");
    assert!(body.ends_with(", 4"));
    assert!(!body.ends_with("\"4\""));
}

#[test]
fn jump_to_renders_every_digit() {
    for index in [0usize, 9, 10, 11, 99, 100, 101, 1234567890, usize::MAX] {
        let body = MpvCommand::JumpTo { index }.encode();
        assert_eq!(body, format!("\"set_property\", \"playlist-pos\", {}", index));
    }
}

#[test]
fn string_arguments_are_quoted() {
    let body = MpvCommand::PlayFile { path: path("4") }.encode();
    assert_eq!(body, "\"loadfile\", \"4\", \"replace\"");
}

#[test]
fn encoding_twice_gives_the_same_text() {
    let commands = vec![
        MpvCommand::LoadPlaylist { path: path("/a b/c.m3u") },
        MpvCommand::AppendFile { path: path("/ä/ö.flac") },
        MpvCommand::PlayFile { path: path("") },
        MpvCommand::Quit,
        MpvCommand::GetQueue,
        MpvCommand::JumpTo { index: 17 },
    ];
    for command in &commands {
        assert_eq!(command.encode(), command.encode());
    }
}

#[test]
fn equal_commands_encode_alike() {
    let a = MpvCommand::AppendFile { path: path("/x.ogg") };
    let b = MpvCommand::AppendFile { path: path("/x.ogg") };
    assert_eq!(a.encode(), b.encode());
    assert_eq!(mpv_json_command(a), mpv_json_command(b));
}

#[test]
fn a_plain_path_stands_as_it_is() {
    let body = MpvCommand::PlayFile { path: path("/m/it's - a [long] name (1).mp3") }.encode();
    assert_eq!(body, "\"loadfile\", \"/m/it's - a [long] name (1).mp3\", \"replace\"");
}

#[test]
fn quotes_and_backslashes_in_a_path_are_escaped() {
    let body = MpvCommand::PlayFile { path: path("/m/say \"hi\"\\now.mp3") }.encode();
    assert_eq!(body, "\"loadfile\", \"/m/say \\\"hi\\\"\\\\now.mp3\", \"replace\"");
}

#[test]
fn control_characters_in_a_path_are_escaped() {
    let body = MpvCommand::AppendFile { path: path("/m/a\nb\tc\u{1}\u{1f}.mp3") }.encode();
    assert_eq!(
        body,
        "\"loadfile\", \"/m/a\\u000ab\\u0009c\\u0001\\u001f.mp3\", \"append-play\""
    );
}

#[test]
fn a_message_is_one_line_whatever_the_path_holds() {
    for text in ["", "/a.mp3", "a\nb", "\n", "\r\n", "x\"\n\"y", "\\n", "\u{0}\u{a}\u{d}"] {
        for message in [
            mpv_json_command(MpvCommand::LoadPlaylist { path: path(text) }),
            mpv_json_command(MpvCommand::AppendFile { path: path(text) }),
            mpv_json_command(MpvCommand::PlayFile { path: path(text) }),
        ] {
            assert!(message.ends_with('\n'));
            assert_eq!(message.matches('\n').count(), 1, "{:?}", message);
        }
    }
    for message in [
        mpv_json_command(MpvCommand::Quit),
        mpv_json_command(MpvCommand::GetQueue),
        mpv_json_command(MpvCommand::JumpTo { index: 10 }),
    ] {
        assert_eq!(message.matches('\n').count(), 1);
    }
}

#[test]
fn a_path_keeps_characters_beyond_ascii() {
    let body = MpvCommand::LoadPlaylist { path: path("/música/été 🎵.m3u") }.encode();
    assert_eq!(body, "\"loadlist\", \"/música/été 🎵.m3u\", \"replace\"");
}

#[test]
fn frame_wraps_and_ends_the_line() {
    assert_eq!(frame("\"quit\""), "{ \"command\": [\"quit\"] }\n");
}

#[test]
fn frame_of_nothing() {
    assert_eq!(frame(""), "{ \"command\": [] }\n");
}

#[test]
fn frame_appends_exactly_one_line_feed() {
    for body in ["", "\"quit\"", "x\n", "\n\n", "\"a\", \"b\\n\"", "] }\n"] {
        let message = frame(body);
        assert_eq!(message.len(), body.len() + 18);
        assert!(message.ends_with("] }\n"));
        assert_eq!(message, format!("{{ \"command\": [{}] }}\n", body));
        let without_end = &message[..message.len() - 1];
        assert!(!without_end.ends_with('\n'));
    }
}

#[test]
fn quit_message() {
    assert_eq!(mpv_json_command(MpvCommand::Quit), "{ \"command\": [\"quit\"] }\n");
}

#[test]
fn get_queue_message() {
    assert_eq!(
        mpv_json_command(MpvCommand::GetQueue),
        "{ \"command\": [\"get_property\", \"playlist\"] }\n"
    );
}

#[test]
fn jump_message() {
    assert_eq!(
        mpv_json_command(MpvCommand::JumpTo { index: 4 }),
        "{ \"command\": [\"set_property\", \"playlist-pos\", 4] }\n"
    );
}

#[test]
fn message_is_frame_of_body() {
    let body = MpvCommand::AppendFile { path: path("/a.mp3") }.encode();
    let message = mpv_json_command(MpvCommand::AppendFile { path: path("/a.mp3") });
    assert_eq!(message, frame(&body));
}
