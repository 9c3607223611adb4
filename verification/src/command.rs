//! The commands that the player understands, and their wire form.

use vstd::prelude::*;
use vstd::string::StringExecFns;
use crate::escape::{escaped, lemma_escaped_holds_no_control, push_escaped};
use crate::text::{decimal, lemma_decimal_is_digits, push_decimal};

verus! {

/// A control operation of the player.
pub enum MpvCommand {
    /// Replace the queue with the contents of a playlist file.
    LoadPlaylist { path: String },
    /// Add one file to the end of the queue and play it.
    AppendFile { path: String },
    /// Replace the queue with one file.
    PlayFile { path: String },
    /// End the player.
    Quit,
    /// Ask for the queue.
    GetQueue,
    /// Move playback to an entry of the queue, counted from zero.
    JumpTo { index: usize },
}

/// A command as a plain value.
pub enum MpvCommandView {
    LoadPlaylist { path: Seq<char> },
    AppendFile { path: Seq<char> },
    PlayFile { path: Seq<char> },
    Quit,
    GetQueue,
    JumpTo { index: nat },
}

impl View for MpvCommand {
    type V = MpvCommandView;

    open spec fn view(&self) -> MpvCommandView {
        match self {
            MpvCommand::LoadPlaylist { path } => MpvCommandView::LoadPlaylist { path: path@ },
            MpvCommand::AppendFile { path } => MpvCommandView::AppendFile { path: path@ },
            MpvCommand::PlayFile { path } => MpvCommandView::PlayFile { path: path@ },
            MpvCommand::Quit => MpvCommandView::Quit,
            MpvCommand::GetQueue => MpvCommandView::GetQueue,
            MpvCommand::JumpTo { index } => MpvCommandView::JumpTo { index: *index as nat },
        }
    }
}

/// The body of the command array: the verb and its arguments, each a quoted
/// string but for the index of `JumpTo`, which is a bare number, joined by a
/// comma and a space. A path stands between its quotes escaped, so that a
/// double quote, a backslash or a control character in it cannot break the
/// message; a path without any of these stands there as it is.
pub open spec fn encode_spec(cmd: MpvCommandView) -> Seq<char> {
    match cmd {
        MpvCommandView::LoadPlaylist { path } => "\"loadlist\", \""@ + escaped(path)
            + "\", \"replace\""@,
        MpvCommandView::AppendFile { path } => "\"loadfile\", \""@ + escaped(path)
            + "\", \"append-play\""@,
        MpvCommandView::PlayFile { path } => "\"loadfile\", \""@ + escaped(path)
            + "\", \"replace\""@,
        MpvCommandView::Quit => "\"quit\""@,
        MpvCommandView::GetQueue => "\"get_property\", \"playlist\""@,
        MpvCommandView::JumpTo { index } => "\"set_property\", \"playlist-pos\", "@ + decimal(
            index,
        ),
    }
}

/// The message for a command body: the body inside the envelope, and one line
/// feed behind it.
pub open spec fn frame_spec(body: Seq<char>) -> Seq<char> {
    "{ \"command\": ["@ + body + "] }"@ + "\n"@
}

/// Two commands that are the same value have the same body: the encoding
/// depends on nothing but the command.
pub proof fn lemma_encode_deterministic(a: MpvCommand, b: MpvCommand)
    requires
        a@ == b@,
    ensures
        encode_spec(a@) == encode_spec(b@),
        frame_spec(encode_spec(a@)) == frame_spec(encode_spec(b@)),
{
}

/// A message is its body inside the envelope and one line feed: whatever the
/// body holds, the message ends with a line feed, and what stands before that
/// line feed ends with the envelope's closing brace.
pub proof fn lemma_frame_ends_line(body: Seq<char>)
    ensures
        frame_spec(body).len() == body.len() + 18,
        frame_spec(body).last() == '\n',
        frame_spec(body).drop_last() == "{ \"command\": ["@ + body + "] }"@,
        frame_spec(body).drop_last().last() == '}',
        frame_spec(body).subrange(14, (body.len() + 14) as int) == body,
{
    reveal_strlit("{ \"command\": [");
    reveal_strlit("] }");
    reveal_strlit("\n");
}

/// Whether `s` holds no line feed.
pub open spec fn is_one_line(s: Seq<char>) -> bool {
    forall|i: int| 0 <= i < s.len() ==> s[i] != '\n'
}

/// The body of a command holds no line feed, whatever its path holds.
pub proof fn lemma_body_is_one_line(cmd: MpvCommandView)
    ensures
        is_one_line(encode_spec(cmd)),
{
    reveal_strlit("\"loadlist\", \"");
    reveal_strlit("\"loadfile\", \"");
    reveal_strlit("\", \"replace\"");
    reveal_strlit("\", \"append-play\"");
    reveal_strlit("\"quit\"");
    reveal_strlit("\"get_property\", \"playlist\"");
    reveal_strlit("\"set_property\", \"playlist-pos\", ");
    match cmd {
        MpvCommandView::LoadPlaylist { path } => {
            lemma_escaped_holds_no_control(path);
        },
        MpvCommandView::AppendFile { path } => {
            lemma_escaped_holds_no_control(path);
        },
        MpvCommandView::PlayFile { path } => {
            lemma_escaped_holds_no_control(path);
        },
        MpvCommandView::Quit => {},
        MpvCommandView::GetQueue => {},
        MpvCommandView::JumpTo { index } => {
            lemma_decimal_is_digits(index);
        },
    }
}

/// The message of a command is one line: it holds no line feed but the one
/// at its end.
pub proof fn lemma_message_is_one_line(cmd: MpvCommandView)
    ensures
        frame_spec(encode_spec(cmd)).last() == '\n',
        is_one_line(frame_spec(encode_spec(cmd)).drop_last()),
{
    lemma_body_is_one_line(cmd);
    lemma_frame_ends_line(encode_spec(cmd));
    reveal_strlit("{ \"command\": [");
    reveal_strlit("] }");
}

impl MpvCommand {
    /// The body of the command array for this command.
    pub fn encode(&self) -> (body: String)
        ensures
            body@ == encode_spec(self@),
    {
        match self {
            MpvCommand::LoadPlaylist { path } => {
                let mut body = String::from_str("\"loadlist\", \"");
                push_escaped(&mut body, path.as_str());
                body.append("\", \"replace\"");
                body
            },
            MpvCommand::AppendFile { path } => {
                let mut body = String::from_str("\"loadfile\", \"");
                push_escaped(&mut body, path.as_str());
                body.append("\", \"append-play\"");
                body
            },
            MpvCommand::PlayFile { path } => {
                let mut body = String::from_str("\"loadfile\", \"");
                push_escaped(&mut body, path.as_str());
                body.append("\", \"replace\"");
                body
            },
            MpvCommand::Quit => String::from_str("\"quit\""),
            MpvCommand::GetQueue => String::from_str("\"get_property\", \"playlist\""),
            MpvCommand::JumpTo { index } => {
                let mut body = String::from_str("\"set_property\", \"playlist-pos\", ");
                push_decimal(&mut body, *index);
                body
            },
        }
    }
}

/// Wraps a command body in the envelope and ends the line.
pub fn frame(body: &str) -> (message: String)
    ensures
        message@ == frame_spec(body@),
{
    let mut message = String::from_str("{ \"command\": [");
    message.append(body);
    message.append("] }");
    message.append("\n");
    message
}

/// The message that carries `cmd` to the player.
pub fn mpv_json_command(cmd: MpvCommand) -> (message: String)
    ensures
        message@ == frame_spec(encode_spec(cmd@)),
{
    let body = cmd.encode();
    frame(body.as_str())
}

} // verus!
