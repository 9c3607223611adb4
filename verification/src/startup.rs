//! The launch of the player: what it needs to know, and the arguments that
//! it is started with.

use vstd::prelude::*;
use vstd::string::StringExecFns;
use crate::config::Config;
use crate::text::push_string;

verus! {

/// What a launch of the player needs to know.
#[derive(Debug)]
pub struct StartupSpec {
    /// The path of the control socket that the player is to bind.
    pub socket_path: String,
    /// The audio backend that the player is to use, if one is named.
    pub audio_backend: Option<String>,
    /// The plugin that the player is to load, if one is configured.
    pub plugin_path: Option<String>,
}

/// A startup specification as plain values.
pub struct StartupView {
    pub socket_path: Seq<char>,
    pub audio_backend: Option<Seq<char>>,
    pub plugin_path: Option<Seq<char>>,
}

impl View for StartupSpec {
    type V = StartupView;

    open spec fn view(&self) -> StartupView {
        StartupView {
            socket_path: self.socket_path@,
            audio_backend: self.audio_backend.deep_view(),
            plugin_path: self.plugin_path.deep_view(),
        }
    }
}

/// The flags that keep the player in the background: idle when the queue is
/// empty, no video, the loudness filter, no window, no output, no terminal.
pub open spec fn base_flags() -> Seq<Seq<char>> {
    seq![
        "--idle=yes"@,
        "--no-video"@,
        "--af=dynaudnorm=f=75:g=25:p=0.55"@,
        "--force-window=no"@,
        "--really-quiet"@,
        "--no-terminal"@,
    ]
}

/// The arguments of the player's launch: the audio backend where one is
/// named, the plugin where one is configured and its file is present, the base
/// flags, and last the socket to bind.
pub open spec fn launch_args_spec(spec: StartupView, plugin_present: bool) -> Seq<Seq<char>> {
    let backend = match spec.audio_backend {
        Some(name) => seq!["--ao="@ + name],
        None => Seq::empty(),
    };
    let plugin = match spec.plugin_path {
        Some(path) => if plugin_present {
            seq!["--script="@ + path]
        } else {
            Seq::empty()
        },
        None => Seq::empty(),
    };
    backend + plugin + base_flags() + seq!["--input-ipc-server="@ + spec.socket_path]
}

/// The name of the player's program.
pub const PLAYER_PROGRAM: &'static str = "mpv";

/// The arguments with which the player is launched. `plugin_present` says
/// whether a file lies at the plugin path.
pub fn launch_args(spec: &StartupSpec, plugin_present: bool) -> (args: Vec<String>)
    ensures
        args.deep_view() == launch_args_spec(spec@, plugin_present),
{
    let mut args: Vec<String> = Vec::new();
    if let Some(name) = &spec.audio_backend {
        let mut flag = String::from_str("--ao=");
        flag.append(name.as_str());
        push_string(&mut args, flag);
    }
    if let Some(path) = &spec.plugin_path {
        if plugin_present {
            let mut flag = String::from_str("--script=");
            flag.append(path.as_str());
            push_string(&mut args, flag);
        }
    }
    push_string(&mut args, String::from_str("--idle=yes"));
    push_string(&mut args, String::from_str("--no-video"));
    push_string(&mut args, String::from_str("--af=dynaudnorm=f=75:g=25:p=0.55"));
    push_string(&mut args, String::from_str("--force-window=no"));
    push_string(&mut args, String::from_str("--really-quiet"));
    push_string(&mut args, String::from_str("--no-terminal"));
    let mut bind = String::from_str("--input-ipc-server=");
    bind.append(spec.socket_path.as_str());
    push_string(&mut args, bind);
    args
}

impl Config {
    /// What a launch of the player needs to know of this configuration.
    pub fn startup_spec(&self) -> (spec: StartupSpec)
        ensures
            spec@ == (StartupView {
                socket_path: self@.socket_path,
                audio_backend: self@.mpv_audio_backend,
                plugin_path: self@.mpris_plugin_path,
            }),
    {
        StartupSpec {
            socket_path: self.socket_path.clone(),
            audio_backend: self.mpv_audio_backend.clone(),
            plugin_path: self.mpris_plugin_path.clone(),
        }
    }
}

} // verus!
