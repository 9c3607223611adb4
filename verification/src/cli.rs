//! The command line: its commands and what the first arguments mean.

use vstd::prelude::*;
use vstd::string::StringExecFns;
use crate::text::{push_string, same_text};

verus! {

/// A command of the program.
#[derive(Debug)]
pub enum Command {
    /// List the playlists.
    List,
    /// Make a playlist with this name.
    Create { name: String },
    /// Change a playlist.
    Edit,
    /// Delete playlists.
    Delete,
    /// Choose a track or a playlist and play it.
    Play,
    /// Add tracks to the queue.
    Append,
    /// Restart the player.
    Reload,
    /// Jump to a track of the queue.
    Jump,
    /// Show the usage.
    Help,
}

/// A command as a plain value.
pub enum CommandView {
    List,
    Create { name: Seq<char> },
    Edit,
    Delete,
    Play,
    Append,
    Reload,
    Jump,
    Help,
}

impl View for Command {
    type V = CommandView;

    open spec fn view(&self) -> CommandView {
        match self {
            Command::List => CommandView::List,
            Command::Create { name } => CommandView::Create { name: name@ },
            Command::Edit => CommandView::Edit,
            Command::Delete => CommandView::Delete,
            Command::Play => CommandView::Play,
            Command::Append => CommandView::Append,
            Command::Reload => CommandView::Reload,
            Command::Jump => CommandView::Jump,
            Command::Help => CommandView::Help,
        }
    }
}

/// The names of the commands, in the order of the usage.
pub open spec fn command_names() -> Seq<Seq<char>> {
    seq![
        "list"@,
        "create"@,
        "edit"@,
        "delete"@,
        "play"@,
        "append"@,
        "reload"@,
        "jump"@,
        "help"@,
    ]
}

/// The command that the arguments name: the first argument is its name, and
/// `create` takes the second as the playlist's name and is no command
/// without one. Further arguments do not count.
pub open spec fn parse_spec(args: Seq<Seq<char>>) -> Option<CommandView> {
    if args.len() == 0 {
        None
    } else if args[0] == "list"@ {
        Some(CommandView::List)
    } else if args[0] == "create"@ {
        if args.len() > 1 {
            Some(CommandView::Create { name: args[1] })
        } else {
            None
        }
    } else if args[0] == "edit"@ {
        Some(CommandView::Edit)
    } else if args[0] == "delete"@ {
        Some(CommandView::Delete)
    } else if args[0] == "play"@ {
        Some(CommandView::Play)
    } else if args[0] == "append"@ {
        Some(CommandView::Append)
    } else if args[0] == "reload"@ {
        Some(CommandView::Reload)
    } else if args[0] == "jump"@ {
        Some(CommandView::Jump)
    } else if args[0] == "help"@ {
        Some(CommandView::Help)
    } else {
        None
    }
}

/// Every listed name is the name of a command, given an argument behind it.
pub proof fn lemma_every_name_is_a_command(i: int, argument: Seq<char>)
    requires
        0 <= i < command_names().len(),
    ensures
        parse_spec(seq![command_names()[i], argument]) is Some,
{
}

impl Command {
    /// The names of all commands.
    pub fn all() -> (names: &'static [&'static str])
        ensures
            names.deep_view() == command_names(),
    {
        let names: &'static [&'static str] = &[
            "list",
            "create",
            "edit",
            "delete",
            "play",
            "append",
            "reload",
            "jump",
            "help",
        ];
        names
    }

    /// The command that the arguments name, if they name one.
    pub fn parse(args: &[String]) -> (command: Option<Command>)
        ensures
            match command {
                Some(c) => parse_spec(args.deep_view()) == Some(c@),
                None => parse_spec(args.deep_view()) is None,
            },
    {
        if args.len() == 0 {
            return None;
        }
        let first = args[0].as_str();
        if same_text(first, "list") {
            Some(Command::List)
        } else if same_text(first, "create") {
            if args.len() > 1 {
                Some(Command::Create { name: args[1].clone() })
            } else {
                None
            }
        } else if same_text(first, "edit") {
            Some(Command::Edit)
        } else if same_text(first, "delete") {
            Some(Command::Delete)
        } else if same_text(first, "play") {
            Some(Command::Play)
        } else if same_text(first, "append") {
            Some(Command::Append)
        } else if same_text(first, "reload") {
            Some(Command::Reload)
        } else if same_text(first, "jump") {
            Some(Command::Jump)
        } else if same_text(first, "help") {
            Some(Command::Help)
        } else {
            None
        }
    }
}

/// What an invocation of the program asks for.
#[derive(Debug)]
pub enum Invocation {
    /// No argument: show the usage.
    Usage,
    /// The shell asks for completions of the words behind the first
    /// argument.
    Complete,
    /// Run this command, with a player at hand.
    Run(Command),
    /// The arguments name no command.
    Unknown,
}

/// The flag by which the shell asks for completions.
pub open spec fn complete_flag() -> Seq<char> {
    "--complete"@
}

/// The commands to offer for the words typed so far: all of them while the
/// command itself is being typed, none after it.
pub open spec fn completions_spec(words: Seq<Seq<char>>) -> Seq<Seq<char>> {
    if words.len() <= 1 {
        command_names()
    } else {
        Seq::empty()
    }
}

/// The commands to offer for the words typed so far.
pub fn completions(words: &[String]) -> (names: &'static [&'static str])
    ensures
        names.deep_view() == completions_spec(words.deep_view()),
{
    if words.len() <= 1 {
        Command::all()
    } else {
        let names: &'static [&'static str] = &[];
        names
    }
}

/// What the arguments of the program ask for.
pub fn invocation(args: &[String]) -> (asked: Invocation)
    ensures
        match asked {
            Invocation::Usage => args@.len() == 0,
            Invocation::Complete => args@.len() > 0 && args@[0]@ == complete_flag(),
            Invocation::Run(command) => args@.len() > 0 && args@[0]@ != complete_flag()
                && parse_spec(args.deep_view()) == Some(command@),
            Invocation::Unknown => args@.len() > 0 && args@[0]@ != complete_flag() && parse_spec(
                args.deep_view(),
            ) is None,
        },
{
    if args.len() == 0 {
        return Invocation::Usage;
    }
    if same_text(args[0].as_str(), "--complete") {
        return Invocation::Complete;
    }
    match Command::parse(args) {
        Some(command) => Invocation::Run(command),
        None => Invocation::Unknown,
    }
}

/// The usage of the program.
pub const USAGE: &'static str = "Usage: orpheus <command> [args]\n\n\
    Commands:\n\
    \tlist\t\t\tList all playlists\n\
    \tcreate <name>\t\tCreate a new playlist\n\
    \tedit\t\t\tEdit a playlist\n\
    \tdelete\t\t\tDelete playlists\n\
    \tplay\t\t\tSelect and play a track or playlist\n\
    \tappend\t\t\tAppend tracks to queue\n\
    \treload\t\t\tReload mpv with updated configuration\n\
    \tjump\t\t\tJumps to a track in current queue\n\
    \thelp\t\t\tPrints this cheatsheet\n";

/// What to play.
#[derive(Clone, Copy, Debug, PartialEq, Eq, Structural)]
pub enum PlayChoice {
    /// A playlist.
    Playlist,
    /// One file.
    SingleFile,
}

/// The choice that `text` names.
pub open spec fn play_choice_spec(text: Seq<char>) -> Option<PlayChoice> {
    if text == "playlist"@ {
        Some(PlayChoice::Playlist)
    } else if text == "single file"@ {
        Some(PlayChoice::SingleFile)
    } else {
        None
    }
}

impl PlayChoice {
    /// The names of the choices, as they are offered.
    pub fn all() -> (names: Vec<String>)
        ensures
            names.deep_view() == seq!["playlist"@, "single file"@],
    {
        let mut names: Vec<String> = Vec::new();
        push_string(&mut names, String::from_str("playlist"));
        push_string(&mut names, String::from_str("single file"));
        names
    }

    /// The choice that `text` names, if it names one.
    pub fn parse(text: &str) -> (choice: Option<PlayChoice>)
        ensures
            choice == play_choice_spec(text@),
    {
        if same_text(text, "playlist") {
            Some(PlayChoice::Playlist)
        } else if same_text(text, "single file") {
            Some(PlayChoice::SingleFile)
        } else {
            None
        }
    }
}

} // verus!
