//! The configuration: what the file assigns, and the values that the rest
//! of the program runs on.

use vstd::prelude::*;
use vstd::slice::slice_subrange;
use vstd::string::StringExecFns;
use crate::lines::{lines, lines_of};
use crate::path::{join_path, joined};
use crate::text::{
    alphanumeric, find, find_from, is_alphanumeric, lemma_find_from, push_chars, same, string_of,
    to_chars, trim, trimmed,
};

verus! {

/// The values that the program runs on.
#[derive(Debug)]
pub struct Config {
    /// The path of the player's control socket.
    pub socket_path: String,
    /// The path of the plugin that the player is to load, if any.
    pub mpris_plugin_path: Option<String>,
    /// The directory that holds the music.
    pub music_dir: String,
    /// The audio backend that the player is to use, if one is named.
    pub mpv_audio_backend: Option<String>,
}

/// A configuration as plain values.
pub struct ConfigView {
    pub socket_path: Seq<char>,
    pub mpris_plugin_path: Option<Seq<char>>,
    pub music_dir: Seq<char>,
    pub mpv_audio_backend: Option<Seq<char>>,
}

impl View for Config {
    type V = ConfigView;

    open spec fn view(&self) -> ConfigView {
        ConfigView {
            socket_path: self.socket_path@,
            mpris_plugin_path: self.mpris_plugin_path.deep_view(),
            music_dir: self.music_dir@,
            mpv_audio_backend: self.mpv_audio_backend.deep_view(),
        }
    }
}

/// Why no configuration could be had.
#[derive(Clone, Copy, Debug, PartialEq, Eq, Structural)]
pub enum ConfigError {
    /// The environment names no home directory.
    MissingHome,
}

impl ConfigError {
    /// The error in words.
    pub fn message(&self) -> (text: &'static str)
        ensures
            text@ == "HOME is not set"@,
    {
        match self {
            ConfigError::MissingHome => "HOME is not set",
        }
    }
}

/// Where the configuration file lies.
#[derive(Debug)]
pub struct ConfigLocation {
    /// The directory of the file.
    pub dir: String,
    /// The file itself.
    pub file: String,
}

/// The sign between a key and its value.
pub open spec fn assign_sign() -> Seq<char> {
    seq!['=']
}

/// The key and the value that a line of the file assigns, if it assigns any.
/// White space around the line, the key and the value does not count; an empty
/// line, a line that begins with `#` and a line without `=` assign nothing.
/// The key ends at the first `=`.
pub open spec fn entry_of(line: Seq<char>) -> Option<(Seq<char>, Seq<char>)> {
    let t = trimmed(line);
    if t.len() == 0 || t[0] == '#' {
        None
    } else {
        match find_from(t, assign_sign(), 0) {
            None => None,
            Some(at) => Some(
                (trimmed(t.subrange(0, at)), trimmed(t.subrange(at + 1, t.len() as int))),
            ),
        }
    }
}

/// The value that `lines` assign to `key`: that of the last line that
/// assigns one.
pub open spec fn setting(lines: Seq<Seq<char>>, key: Seq<char>) -> Option<Seq<char>>
    decreases lines.len(),
{
    if lines.len() == 0 {
        None
    } else {
        match entry_of(lines.last()) {
            Some((k, v)) => if k == key {
                Some(v)
            } else {
                setting(lines.drop_last(), key)
            },
            None => setting(lines.drop_last(), key),
        }
    }
}

/// The key and the value that a line assigns.
pub fn parse_entry<'a>(line: &'a [char]) -> (entry: Option<(&'a [char], &'a [char])>)
    ensures
        match entry {
            Some((key, value)) => entry_of(line@) == Some((key@, value@)),
            None => entry_of(line@) is None,
        },
{
    let t = trim(line);
    if t.len() == 0 || t[0] == '#' {
        return None;
    }
    let sign: [char; 1] = ['='];
    assert(sign@ =~= assign_sign());
    match find(t, sign.as_slice(), 0) {
        None => None,
        Some(at) => {
            proof {
                lemma_find_from(t@, sign@, 0);
            }
            let key = trim(slice_subrange(t, 0, at));
            let value = trim(slice_subrange(t, at + 1, t.len()));
            Some((key, value))
        },
    }
}

/// The value that `lines` assign to `key`.
pub fn lookup(lines: &Vec<&[char]>, key: &str) -> (value: Option<String>)
    ensures
        value.deep_view() == setting(lines.deep_view(), key@),
{
    let name = to_chars(key);
    let ghost all = lines.deep_view();
    let mut i: usize = lines.len();
    assert(all.take(i as int) =~= all);
    while i > 0
        invariant
            i <= lines@.len(),
            name@ == key@,
            all == lines.deep_view(),
            setting(all, key@) == setting(all.take(i as int), key@),
        decreases i,
    {
        let line: &[char] = lines[i - 1];
        proof {
            assert(all.take(i as int).last() == line@);
            assert(all.take(i as int).drop_last() =~= all.take(i - 1));
        }
        if let Some((k, v)) = parse_entry(line) {
            if same(k, name.as_slice()) {
                return Some(string_of(v));
            }
        }
        i = i - 1;
    }
    None
}

/// The variable `name` in the environment `env`: the value of the first pair
/// with this name. No variable has the empty name.
pub open spec fn var_of(env: Seq<(String, String)>, name: Seq<char>) -> Option<Seq<char>>
    decreases env.len(),
{
    if env.len() == 0 || name.len() == 0 {
        None
    } else if env.first().0@ == name {
        Some(env.first().1@)
    } else {
        var_of(env.drop_first(), name)
    }
}

/// The value of the variable `name` in `env`, and the empty text where `env`
/// has no such variable.
pub open spec fn value_of(env: Seq<(String, String)>, name: Seq<char>) -> Seq<char> {
    match var_of(env, name) {
        Some(value) => value,
        None => Seq::empty(),
    }
}

/// Whether `c` may stand in the name of a variable written without braces:
/// a letter or a number, or the underscore.
pub open spec fn is_name_char(c: char) -> bool {
    alphanumeric(c) || c == '_'
}

/// For each character of `text`, whether it may stand in a name.
pub open spec fn name_marks(text: Seq<char>) -> Seq<bool> {
    Seq::new(text.len(), |i: int| is_name_char(text[i]))
}

/// Where the name that begins at `from` ends: the first position from there
/// on, up to `limit`, that is not marked as a name character.
pub open spec fn name_end(marks: Seq<bool>, from: int, limit: int) -> int
    decreases limit - from,
{
    if 0 <= from < limit && from < marks.len() && marks[from] {
        name_end(marks, from + 1, limit)
    } else {
        from
    }
}

/// The brace that ends a braced name.
pub open spec fn closing_brace() -> Seq<char> {
    seq!['}']
}

/// `text` from `from` on, with each reference to a variable replaced by the
/// variable's value. A reference is `$` and a name: between `{` and the next
/// `}` (or the end of the text, where no `}` follows), or else the longest
/// run of characters marked as name characters, which may be empty.
pub open spec fn expand_from(
    text: Seq<char>,
    marks: Seq<bool>,
    env: Seq<(String, String)>,
    from: int,
) -> Seq<char>
    decreases text.len() - from,
    via expand_from_decreases
{
    if from < 0 || from >= text.len() {
        Seq::empty()
    } else if text[from] != '$' {
        seq![text[from]] + expand_from(text, marks, env, from + 1)
    } else if from + 1 < text.len() && text[from + 1] == '{' {
        match find_from(text, closing_brace(), from + 2) {
            Some(close) => value_of(env, text.subrange(from + 2, close)) + expand_from(
                text,
                marks,
                env,
                close + 1,
            ),
            None => value_of(env, text.subrange(from + 2, text.len() as int)),
        }
    } else {
        let end = name_end(marks, from + 1, text.len() as int);
        value_of(env, text.subrange(from + 1, end)) + expand_from(text, marks, env, end)
    }
}

/// `text` with each reference to a variable replaced by the variable's value
/// in `env`.
pub open spec fn expanded_text(text: Seq<char>, env: Seq<(String, String)>) -> Seq<char> {
    expand_from(text, name_marks(text), env, 0)
}

/// A name ends at or behind its start, and within the limit.
pub proof fn lemma_name_end(marks: Seq<bool>, from: int, limit: int)
    requires
        0 <= from <= limit,
    ensures
        from <= name_end(marks, from, limit) <= limit,
    decreases limit - from,
{
    if from < limit && from < marks.len() && marks[from] {
        lemma_name_end(marks, from + 1, limit);
    }
}

#[via_fn]
proof fn expand_from_decreases(
    text: Seq<char>,
    marks: Seq<bool>,
    env: Seq<(String, String)>,
    from: int,
) {
    if 0 <= from < text.len() {
        lemma_find_from(text, closing_brace(), from + 2);
        lemma_name_end(marks, from + 1, text.len() as int);
    }
}

/// The variable `name` in `env`.
pub fn var<'a>(env: &'a Vec<(String, String)>, name: &[char]) -> (found: Option<&'a str>)
    ensures
        match found {
            Some(value) => var_of(env@, name@) == Some(value@),
            None => var_of(env@, name@) is None,
        },
{
    if name.len() == 0 {
        return None;
    }
    let wanted = string_of(name);
    let mut i: usize = 0;
    assert(env@.skip(0) =~= env@);
    while i < env.len()
        invariant
            i <= env@.len(),
            wanted@ == name@,
            name@.len() > 0,
            var_of(env@, name@) == var_of(env@.skip(i as int), name@),
        decreases env@.len() - i,
    {
        assert(env@.skip(i as int).drop_first() =~= env@.skip(i + 1));
        if env[i].0 == wanted {
            return Some(env[i].1.as_str());
        }
        i = i + 1;
    }
    None
}

/// The value of the variable `name` in `env`, and the empty text where `env`
/// has no such variable.
pub fn value<'a>(env: &'a Vec<(String, String)>, name: &[char]) -> (found: &'a str)
    ensures
        found@ == value_of(env@, name@),
{
    match var(env, name) {
        Some(value) => value,
        None => {
            proof {
                reveal_strlit("");
            }
            ""
        },
    }
}

/// For each character of `text`, whether it may stand in a name.
pub fn mark_names(text: &[char]) -> (marks: Vec<bool>)
    ensures
        marks@ == name_marks(text@),
{
    let mut marks: Vec<bool> = Vec::new();
    let mut i: usize = 0;
    while i < text.len()
        invariant
            i <= text@.len(),
            marks@ == name_marks(text@).take(i as int),
        decreases text@.len() - i,
    {
        let c = text[i];
        marks.push(is_alphanumeric(c) || c == '_');
        i = i + 1;
    }
    marks
}

/// Replaces each reference to a variable in `text` by the variable's value in
/// `env`, and by nothing where `env` has no such variable. `marks` says of
/// each character whether it may stand in a name; a character that `marks`
/// does not reach may not.
pub fn expand_marked(text: &[char], marks: &[bool], env: &Vec<(String, String)>) -> (expanded:
    String)
    ensures
        expanded@ == expand_from(text@, marks@, env@, 0),
{
    let brace: [char; 1] = ['}'];
    let total: usize = text.len();
    let mut expanded = String::new();
    let mut at: usize = 0;
    while at < total
        invariant
            brace@ == closing_brace(),
            at <= total == text@.len(),
            expand_from(text@, marks@, env@, 0) == expanded@ + expand_from(
                text@,
                marks@,
                env@,
                at as int,
            ),
        decreases total - at,
    {
        let c = text[at];
        if c != '$' {
            push_chars(&mut expanded, slice_subrange(text, at, at + 1));
            at = at + 1;
        } else if at + 1 < total && text[at + 1] == '{' {
            match find(text, brace.as_slice(), at + 2) {
                Some(close) => {
                    proof {
                        lemma_find_from(text@, brace@, at + 2);
                    }
                    let name = slice_subrange(text, at + 2, close);
                    expanded.append(value(env, name));
                    at = close + 1;
                },
                None => {
                    let name = slice_subrange(text, at + 2, total);
                    expanded.append(value(env, name));
                    at = total;
                },
            }
        } else {
            let mut end: usize = at + 1;
            while end < total && end < marks.len() && marks[end]
                invariant
                    at + 1 <= end <= total == text@.len(),
                    name_end(marks@, at + 1, total as int) == name_end(
                        marks@,
                        end as int,
                        total as int,
                    ),
                decreases total - end,
            {
                end = end + 1;
            }
            let name = slice_subrange(text, at + 1, end);
            expanded.append(value(env, name));
            at = end;
        }
    }
    expanded
}

/// Replaces each reference to a variable in `path` by the variable's value in
/// `env`, and by nothing where `env` has no such variable.
pub fn expand_env_vars(path: &str, env: &Vec<(String, String)>) -> (expanded: String)
    ensures
        expanded@ == expanded_text(path@, env@),
{
    let text = to_chars(path);
    let marks = mark_names(text.as_slice());
    expand_marked(text.as_slice(), marks.as_slice(), env)
}

/// The directory of the configuration file: `orpheus` below the directory
/// that `XDG_CONFIG_HOME` names, or below `.config` in the home directory.
pub open spec fn config_dir_of(env: Seq<(String, String)>, home: Seq<char>) -> Seq<char> {
    let base = match var_of(env, "XDG_CONFIG_HOME"@) {
        Some(dir) => dir,
        None => joined(home, ".config"@),
    };
    joined(base, "orpheus"@)
}

/// An expanded setting, or nothing where the file does not assign the key.
pub open spec fn expanded_setting(
    lines: Seq<Seq<char>>,
    key: Seq<char>,
    env: Seq<(String, String)>,
) -> Option<Seq<char>> {
    match setting(lines, key) {
        Some(value) => Some(expanded_text(value, env)),
        None => None,
    }
}

/// The configuration that the file's text and the environment give, with the
/// home directory `home`. The socket path, the music directory and the plugin
/// path are expanded; the name of the audio backend is taken as it is. Without
/// a setting the socket is `/tmp/mpv-socket` and the music lies in `Music` in
/// the home directory.
pub open spec fn load_spec(content: Seq<char>, env: Seq<(String, String)>, home: Seq<char>)
    -> ConfigView {
    let lines = lines_of(content);
    ConfigView {
        socket_path: match expanded_setting(lines, "socket_path"@, env) {
            Some(path) => path,
            None => "/tmp/mpv-socket"@,
        },
        mpris_plugin_path: expanded_setting(lines, "mpris_plugin_path"@, env),
        music_dir: match expanded_setting(lines, "music_dir"@, env) {
            Some(path) => path,
            None => joined(home, "Music"@),
        },
        mpv_audio_backend: setting(lines, "mpv_audio_backend"@),
    }
}

/// Where the configuration file lies, by the environment. It fails exactly
/// where the environment names no home directory.
pub fn locate(env: &Vec<(String, String)>) -> (location: Result<ConfigLocation, ConfigError>)
    ensures
        match location {
            Ok(found) => var_of(env@, "HOME"@) matches Some(home) && found.dir@ == config_dir_of(
                env@,
                home,
            ) && found.file@ == joined(found.dir@, "config.conf"@),
            Err(e) => e == ConfigError::MissingHome && var_of(env@, "HOME"@) is None,
        },
{
    let Some(home) = var(env, to_chars("HOME").as_slice()) else {
        return Err(ConfigError::MissingHome);
    };
    let base = match var(env, to_chars("XDG_CONFIG_HOME").as_slice()) {
        Some(dir) => String::from_str(dir),
        None => join_path(home, ".config"),
    };
    let dir = join_path(base.as_str(), "orpheus");
    let file = join_path(dir.as_str(), "config.conf");
    Ok(ConfigLocation { dir, file })
}

/// The text of a fresh configuration file: comments that show each setting.
pub const DEFAULT_CONFIG_TEXT: &'static str = "# Orpheus configuration file\n\
    # socket_path=/tmp/mpv-socket\n\
    # mpris_plugin_path=/usr/lib/mpv-mpris/mpris.so # Optional plugin - allows to use media keys\n\
    # music_dir=$HOME/Music\n\
    # mpv_audio_backend=pulse # Optional arg for mpv --ao=[]\n";

fn expanded(lines: &Vec<&[char]>, key: &str, env: &Vec<(String, String)>) -> (value: Option<String>)
    ensures
        value.deep_view() == expanded_setting(lines.deep_view(), key@, env@),
{
    match lookup(lines, key) {
        Some(raw) => Some(expand_env_vars(raw.as_str(), env)),
        None => None,
    }
}

impl Config {
    /// Reads the configuration out of the file's text, with the environment
    /// `env`. It fails exactly where the environment names no home directory.
    /// The plugin path is the configured one, whether or not a file lies
    /// there: see `with_plugin_present`.
    pub fn load(content: &str, env: &Vec<(String, String)>) -> (config: Result<Config, ConfigError>)
        ensures
            match config {
                Ok(c) => var_of(env@, "HOME"@) matches Some(home) && c@ == load_spec(
                    content@,
                    env@,
                    home,
                ),
                Err(e) => e == ConfigError::MissingHome && var_of(env@, "HOME"@) is None,
            },
    {
        let Some(home) = var(env, to_chars("HOME").as_slice()) else {
            return Err(ConfigError::MissingHome);
        };
        let chars = to_chars(content);
        let list = lines(chars.as_slice());
        let socket_path = match expanded(&list, "socket_path", env) {
            Some(path) => path,
            None => String::from_str("/tmp/mpv-socket"),
        };
        let mpris_plugin_path = expanded(&list, "mpris_plugin_path", env);
        let music_dir = match expanded(&list, "music_dir", env) {
            Some(path) => path,
            None => join_path(home, "Music"),
        };
        let mpv_audio_backend = lookup(&list, "mpv_audio_backend");
        Ok(Config { socket_path, mpris_plugin_path, music_dir, mpv_audio_backend })
    }

    /// Keeps the plugin path only where a file was found there.
    pub fn with_plugin_present(self, present: bool) -> (config: Config)
        ensures
            config@ == (ConfigView {
                mpris_plugin_path: if present {
                    self@.mpris_plugin_path
                } else {
                    None
                },
                ..self@
            }),
    {
        let mut config = self;
        if !present {
            config.mpris_plugin_path = None;
        }
        config
    }
}

} // verus!
