use orpheus::config::Config;
use orpheus::startup::{launch_args, StartupSpec, PLAYER_PROGRAM};

#[test]
fn the_player_is_mpv() {
    assert_eq!(PLAYER_PROGRAM, "mpv");
}

#[test]
fn launch_arguments_with_everything() {
    let spec = StartupSpec {
        socket_path: "/tmp/mpv-socket".to_string(),
        audio_backend: Some("pulse".to_string()),
        plugin_path: Some("/usr/lib/mpv-mpris/mpris.so".to_string()),
    };
    assert_eq!(
        launch_args(&spec, true),
        vec![
            "--ao=pulse",
            "--script=/usr/lib/mpv-mpris/mpris.so",
            "--idle=yes",
            "--no-video",
            "--af=dynaudnorm=f=75:g=25:p=0.55",
            "--force-window=no",
            "--really-quiet",
            "--no-terminal",
            "--input-ipc-server=/tmp/mpv-socket",
        ]
    );
}

#[test]
fn launch_arguments_without_the_plugin_file() {
    let spec = StartupSpec {
        socket_path: "/run/s".to_string(),
        audio_backend: Some("alsa".to_string()),
        plugin_path: Some("/gone.so".to_string()),
    };
    assert_eq!(
        launch_args(&spec, false),
        vec![
            "--ao=alsa",
            "--idle=yes",
            "--no-video",
            "--af=dynaudnorm=f=75:g=25:p=0.55",
            "--force-window=no",
            "--really-quiet",
            "--no-terminal",
            "--input-ipc-server=/run/s",
        ]
    );
}

#[test]
fn launch_arguments_with_nothing_optional() {
    let spec = StartupSpec {
        socket_path: "/tmp/mpv-socket".to_string(),
        audio_backend: None,
        plugin_path: None,
    };
    for present in [false, true] {
        assert_eq!(
            launch_args(&spec, present),
            vec![
                "--idle=yes",
                "--no-video",
                "--af=dynaudnorm=f=75:g=25:p=0.55",
                "--force-window=no",
                "--really-quiet",
                "--no-terminal",
                "--input-ipc-server=/tmp/mpv-socket",
            ]
        );
    }
}

#[test]
fn startup_spec_of_a_configuration() {
    let config = Config {
        socket_path: "/s".to_string(),
        mpris_plugin_path: Some("/p.so".to_string()),
        music_dir: "/m".to_string(),
        mpv_audio_backend: Some("pulse".to_string()),
    };
    let spec = config.startup_spec();
    assert_eq!(spec.socket_path, "/s");
    assert_eq!(spec.plugin_path, Some("/p.so".to_string()));
    assert_eq!(spec.audio_backend, Some("pulse".to_string()));
}
