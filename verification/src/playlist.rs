//! Playlists as lists of paths: what a playlist file holds, which files
//! count as music, and the changes an edit makes.

use vstd::prelude::*;
use vstd::string::{StrSliceExecFns, StringExecFns};
use crate::config::{var, var_of, ConfigError};
use crate::lines::{
    append_listing, is_line, lemma_lines_of_first, lemma_lines_of_listing, line_feed, lines_of,
    listing,
};
use crate::path::{join_path, joined};
use crate::text::{holds, lowered, push_string, same, same_text, to_chars, to_lower};

verus! {

/// Why no entry of the queue could be chosen.
#[derive(Debug)]
pub enum JumpError {
    /// The queue holds nothing.
    EmptyQueue,
    /// The chosen name is not in the queue.
    NotFound { name: String },
}

impl JumpError {
    /// The error in words.
    pub fn message(&self) -> (text: String)
        ensures
            text@ == match *self {
                JumpError::EmptyQueue => "queue is empty"@,
                JumpError::NotFound { name } => "failed to find the index of "@ + name@,
            },
    {
        match self {
            JumpError::EmptyQueue => String::from_str("queue is empty"),
            JumpError::NotFound { name } => {
                let mut text = String::from_str("failed to find the index of ");
                text.append(name.as_str());
                text
            },
        }
    }
}

/// The first place of `name` in `queue`, if it has one.
pub open spec fn position_of(queue: Seq<Seq<char>>, name: Seq<char>) -> Option<int>
    decreases queue.len(),
{
    if queue.len() == 0 {
        None
    } else if queue.first() == name {
        Some(0)
    } else {
        match position_of(queue.drop_first(), name) {
            Some(i) => Some(i + 1),
            None => None,
        }
    }
}

/// `position_of` gives the least place that holds the name, and `None` only
/// where no place does.
pub proof fn lemma_position_of(queue: Seq<Seq<char>>, name: Seq<char>)
    ensures
        match position_of(queue, name) {
            Some(i) => 0 <= i < queue.len() && queue[i] == name && forall|j: int|
                0 <= j < i ==> queue[j] != name,
            None => !queue.contains(name),
        },
    decreases queue.len(),
{
    if queue.len() > 0 && queue.first() != name {
        let rest = queue.drop_first();
        lemma_position_of(rest, name);
        match position_of(rest, name) {
            Some(i) => {
                assert forall|j: int| 0 <= j < i + 1 implies queue[j] != name by {
                    if j > 0 {
                        assert(queue[j] == rest[j - 1]);
                    }
                }
            },
            None => {
                assert forall|j: int| 0 <= j < queue.len() implies queue[j] != name by {
                    if j > 0 {
                        assert(rest[j - 1] == queue[j]);
                    }
                }
            },
        }
    }
}

/// Refuses a queue that holds nothing, before anything is offered for choice.
pub fn jump_candidates(queue: &Vec<String>) -> (checked: Result<(), JumpError>)
    ensures
        checked is Ok <==> queue@.len() > 0,
        checked is Err ==> checked->Err_0 is EmptyQueue,
{
    if queue.len() == 0 {
        Err(JumpError::EmptyQueue)
    } else {
        Ok(())
    }
}

/// The place in `queue` to jump to, by what was chosen from it: the first
/// place of the first chosen name. Nothing chosen gives no place. An empty
/// queue is an error whatever was chosen, and so is a chosen name that the
/// queue does not hold.
pub fn jump(queue: &Vec<String>, selected: &Vec<String>) -> (target: Result<
    Option<usize>,
    JumpError,
>)
    ensures
        match target {
            Err(JumpError::EmptyQueue) => queue@.len() == 0,
            Ok(None) => queue@.len() > 0 && selected@.len() == 0,
            Ok(Some(i)) => queue@.len() > 0 && selected@.len() > 0 && position_of(
                queue.deep_view(),
                selected@[0]@,
            ) == Some(i as int),
            Err(JumpError::NotFound { name }) => queue@.len() > 0 && selected@.len() > 0
                && name@ == selected@[0]@ && position_of(queue.deep_view(), selected@[0]@) is None,
        },
{
    if queue.len() == 0 {
        return Err(JumpError::EmptyQueue);
    }
    if selected.len() == 0 {
        return Ok(None);
    }
    let chosen: &String = &selected[0];
    let ghost all = queue.deep_view();
    let mut i: usize = 0;
    while i < queue.len()
        invariant
            i <= queue@.len(),
            all == queue.deep_view(),
            selected@.len() > 0,
            chosen@ == selected@[0]@,
            forall|j: int| 0 <= j < i ==> all[j] != chosen@,
        decreases queue@.len() - i,
    {
        if same_text(queue[i].as_str(), chosen.as_str()) {
            proof {
                assert(all[i as int] == chosen@);
                lemma_position_of(all, chosen@);
            }
            return Ok(Some(i));
        }
        i = i + 1;
    }
    proof {
        lemma_position_of(all, chosen@);
    }
    Err(JumpError::NotFound { name: chosen.clone() })
}

/// The first line of a playlist file.
pub open spec fn playlist_header() -> Seq<char> {
    "#EXTM3U\n"@
}

/// The text of a playlist file: the header line, then one line for each
/// file.
pub fn render_playlist(files: &Vec<String>) -> (text: String)
    ensures
        text@ == playlist_header() + listing(files.deep_view()),
{
    let mut text = String::from_str("#EXTM3U\n");
    append_listing(&mut text, files);
    text
}

/// The name of the file that holds the playlist `name`.
pub fn playlist_file_name(name: &str) -> (file: String)
    ensures
        file@ == name@ + ".m3u"@,
{
    let mut file = String::from_str(name);
    file.append(".m3u");
    file
}

/// The path of the playlist `name` in the directory `dir`.
pub fn playlist_path(dir: &str, name: &str) -> (path: String)
    ensures
        path@ == joined(dir@, name@ + ".m3u"@),
{
    let file = playlist_file_name(name);
    join_path(dir, file.as_str())
}

/// The directory that holds the playlists: `orpheus` below the directory
/// that `XDG_DATA_HOME` names, or below `.local/share` in the home directory.
pub open spec fn playlist_dir_of(env: Seq<(String, String)>) -> Option<Seq<char>> {
    match var_of(env, "XDG_DATA_HOME"@) {
        Some(base) => Some(joined(base, "orpheus"@)),
        None => match var_of(env, "HOME"@) {
            Some(home) => Some(joined(joined(home, ".local/share"@), "orpheus"@)),
            None => None,
        },
    }
}

/// The directory that holds the playlists, by the environment. It fails
/// exactly where the environment names neither a data directory nor a home
/// directory.
pub fn playlist_dir(env: &Vec<(String, String)>) -> (dir: Result<String, ConfigError>)
    ensures
        match dir {
            Ok(path) => playlist_dir_of(env@) == Some(path@),
            Err(e) => e == ConfigError::MissingHome && playlist_dir_of(env@) is None,
        },
{
    match var(env, to_chars("XDG_DATA_HOME").as_slice()) {
        Some(base) => Ok(join_path(base, "orpheus")),
        None => match var(env, to_chars("HOME").as_slice()) {
            Some(home) => {
                let base = join_path(home, ".local/share");
                Ok(join_path(base.as_str(), "orpheus"))
            },
            None => Err(ConfigError::MissingHome),
        },
    }
}

/// Whether a file with the extension `ext` is a playlist.
pub fn is_playlist_extension(ext: &str) -> (is: bool)
    ensures
        is == (ext@ == "m3u"@),
{
    same_text(ext, "m3u")
}

/// Whether `ext` is the extension of a music file.
pub open spec fn is_music_spec(ext: Seq<char>) -> bool {
    ext == "mp3"@ || ext == "flac"@ || ext == "ogg"@ || ext == "wav"@
}

/// Whether a file with the extension `ext` is music. The letters `A` to `Z`
/// count as their lower-case forms.
pub fn is_music_extension(ext: &str) -> (is: bool)
    ensures
        is == is_music_spec(lowered(ext@)),
{
    let low = to_lower(ext);
    same(low.as_slice(), to_chars("mp3").as_slice()) || same(
        low.as_slice(),
        to_chars("flac").as_slice(),
    ) || same(low.as_slice(), to_chars("ogg").as_slice()) || same(
        low.as_slice(),
        to_chars("wav").as_slice(),
    )
}

/// Whether a line of a playlist file names a track: every line does but
/// those that begin with `#`.
pub open spec fn is_track_line(line: Seq<char>) -> bool {
    !(line.len() > 0 && line[0] == '#')
}

/// The tracks among the lines of a playlist file, in order.
pub fn playlist_tracks(lines: &Vec<String>) -> (tracks: Vec<String>)
    ensures
        tracks.deep_view() == lines.deep_view().filter(|line: Seq<char>| is_track_line(line)),
{
    let ghost all = lines.deep_view();
    let ghost keep = |line: Seq<char>| is_track_line(line);
    let mut tracks: Vec<String> = Vec::new();
    let mut i: usize = 0;
    proof {
        reveal(Seq::filter);
    }
    while i < lines.len()
        invariant
            i <= lines@.len(),
            all == lines.deep_view(),
            keep == |line: Seq<char>| is_track_line(line),
            tracks.deep_view() == all.take(i as int).filter(keep),
        decreases lines@.len() - i,
    {
        proof {
            reveal(Seq::filter);
            assert(all.take(i + 1).drop_last() =~= all.take(i as int));
        }
        let line = lines[i].as_str();
        if line.is_empty() || line.get_char(0) != '#' {
            push_string(&mut tracks, lines[i].clone());
        }
        i = i + 1;
    }
    assert(all.take(i as int) =~= all);
    tracks
}

/// A filter keeps a list whose items it all accepts.
proof fn lemma_filter_keeps_all(list: Seq<Seq<char>>, keep: spec_fn(Seq<char>) -> bool)
    requires
        forall|i: int| 0 <= i < list.len() ==> keep(#[trigger] list[i]),
    ensures
        list.filter(keep) == list,
    decreases list.len(),
{
    reveal(Seq::filter);
    if list.len() > 0 {
        lemma_filter_keeps_all(list.drop_last(), keep);
    }
}

/// A playlist file reads back as the tracks that were written to it, where
/// each track can stand as a line of its own and does not begin with `#`.
pub proof fn lemma_playlist_reads_back(tracks: Seq<Seq<char>>)
    requires
        forall|i: int|
            0 <= i < tracks.len() ==> is_line(#[trigger] tracks[i]) && is_track_line(tracks[i]),
    ensures
        lines_of(playlist_header() + listing(tracks)).filter(|line: Seq<char>| is_track_line(line))
            == tracks,
{
    let keep = |line: Seq<char>| is_track_line(line);
    let title = "#EXTM3U"@;
    reveal_strlit("#EXTM3U");
    reveal_strlit("#EXTM3U\n");
    assert(playlist_header() =~= title + line_feed());
    lemma_lines_of_first(title, listing(tracks));
    lemma_lines_of_listing(tracks);
    Seq::filter_distributes_over_add(seq![title], tracks, keep);
    assert(seq![title].filter(keep) =~= Seq::<Seq<char>>::empty()) by {
        reveal(Seq::filter);
        assert(seq![title].drop_last() =~= Seq::<Seq<char>>::empty());
        assert(Seq::<Seq<char>>::empty().filter(keep) =~= Seq::<Seq<char>>::empty());
    }
    lemma_filter_keeps_all(tracks, keep);
}

/// Those of `list` that are not among `other`, in order.
pub fn without(list: &Vec<String>, other: &Vec<String>) -> (rest: Vec<String>)
    ensures
        rest.deep_view() == list.deep_view().filter(
            |item: Seq<char>| !other.deep_view().contains(item),
        ),
{
    let ghost all = list.deep_view();
    let ghost keep = |item: Seq<char>| !other.deep_view().contains(item);
    let mut rest: Vec<String> = Vec::new();
    let mut i: usize = 0;
    proof {
        reveal(Seq::filter);
    }
    while i < list.len()
        invariant
            i <= list@.len(),
            all == list.deep_view(),
            keep == |item: Seq<char>| !other.deep_view().contains(item),
            rest.deep_view() == all.take(i as int).filter(keep),
        decreases list@.len() - i,
    {
        proof {
            reveal(Seq::filter);
            assert(all.take(i + 1).drop_last() =~= all.take(i as int));
        }
        if !holds(other, list[i].as_str()) {
            push_string(&mut rest, list[i].clone());
        }
        i = i + 1;
    }
    assert(all.take(i as int) =~= all);
    rest
}

/// A change to a playlist.
#[derive(Clone, Copy, Debug, PartialEq, Eq, Structural)]
pub enum EditAction {
    /// Take tracks out.
    Delete,
    /// Add tracks at the end.
    Append,
}

/// The change that `text` names.
pub open spec fn edit_action_spec(text: Seq<char>) -> Option<EditAction> {
    if text == "delete"@ {
        Some(EditAction::Delete)
    } else if text == "append"@ {
        Some(EditAction::Append)
    } else {
        None
    }
}

/// The playlist after a change: without the chosen tracks, or with them at
/// its end.
pub open spec fn edited(
    action: EditAction,
    tracks: Seq<Seq<char>>,
    chosen: Seq<Seq<char>>,
) -> Seq<Seq<char>> {
    match action {
        EditAction::Delete => tracks.filter(|item: Seq<char>| !chosen.contains(item)),
        EditAction::Append => tracks + chosen,
    }
}

/// The tracks to offer for a change, if there is anything to offer.
pub open spec fn candidates_spec(
    action: EditAction,
    tracks: Seq<Seq<char>>,
    music: Seq<Seq<char>>,
) -> Option<Seq<Seq<char>>> {
    match action {
        EditAction::Delete => Some(tracks),
        EditAction::Append => {
            let fresh = music.filter(|item: Seq<char>| !tracks.contains(item));
            if fresh.len() == 0 {
                None
            } else {
                Some(fresh)
            }
        },
    }
}

impl EditAction {
    /// The names of the changes, as they are offered.
    pub fn all() -> (names: Vec<String>)
        ensures
            names.deep_view() == seq!["delete"@, "append"@],
    {
        let mut names: Vec<String> = Vec::new();
        push_string(&mut names, String::from_str("delete"));
        push_string(&mut names, String::from_str("append"));
        names
    }

    /// The change that `text` names, if it names one.
    pub fn parse(text: &str) -> (action: Option<EditAction>)
        ensures
            action == edit_action_spec(text@),
    {
        if same_text(text, "delete") {
            Some(EditAction::Delete)
        } else if same_text(text, "append") {
            Some(EditAction::Append)
        } else {
            None
        }
    }

    /// The tracks to offer for this change: for a deletion the playlist's
    /// own, for an addition the music that the playlist does not hold yet. An
    /// addition with no such music has nothing to offer.
    pub fn candidates(self, tracks: &Vec<String>, music: &Vec<String>) -> (offered: Option<
        Vec<String>,
    >)
        ensures
            offered.deep_view() == candidates_spec(self, tracks.deep_view(), music.deep_view()),
    {
        match self {
            EditAction::Delete => Some(copy_of(tracks)),
            EditAction::Append => {
                let fresh = without(music, tracks);
                if fresh.len() == 0 {
                    None
                } else {
                    Some(fresh)
                }
            },
        }
    }

    /// The playlist `tracks` after this change with the tracks `chosen`.
    pub fn apply(self, tracks: &Vec<String>, chosen: &Vec<String>) -> (result: Vec<String>)
        ensures
            result.deep_view() == edited(self, tracks.deep_view(), chosen.deep_view()),
    {
        match self {
            EditAction::Delete => without(tracks, chosen),
            EditAction::Append => {
                let mut result = copy_of(tracks);
                let mut i: usize = 0;
                while i < chosen.len()
                    invariant
                        i <= chosen@.len(),
                        result.deep_view() == tracks.deep_view() + chosen.deep_view().take(
                            i as int,
                        ),
                    decreases chosen@.len() - i,
                {
                    push_string(&mut result, chosen[i].clone());
                    i = i + 1;
                }
                result
            },
        }
    }
}

/// A copy of `list`.
pub fn copy_of(list: &Vec<String>) -> (copy: Vec<String>)
    ensures
        copy.deep_view() == list.deep_view(),
{
    let mut copy: Vec<String> = Vec::new();
    let mut i: usize = 0;
    while i < list.len()
        invariant
            i <= list@.len(),
            copy.deep_view() == list.deep_view().take(i as int),
        decreases list@.len() - i,
    {
        push_string(&mut copy, list[i].clone());
        i = i + 1;
    }
    copy
}

} // verus!
