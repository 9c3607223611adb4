//! The interactive selector: what it is started with, what it is fed, and
//! what its output means.

use vstd::prelude::*;
use vstd::string::StringExecFns;
use crate::lines::{append_listing, lines, lines_of, listing};
use crate::text::{push_string, string_of, to_chars, trim, trimmed};

verus! {

/// The name of the selector's program.
pub const SELECTOR_PROGRAM: &'static str = "fzf";

/// The arguments of the selector: the flag for a choice of several where
/// `multi` asks for one, and nothing else.
pub open spec fn selector_args_spec(multi: bool) -> Seq<Seq<char>> {
    if multi {
        seq!["-m"@]
    } else {
        Seq::empty()
    }
}

/// The arguments with which the selector is started.
pub fn selector_args(multi: bool) -> (args: Vec<String>)
    ensures
        args.deep_view() == selector_args_spec(multi),
{
    let mut args: Vec<String> = Vec::new();
    if multi {
        push_string(&mut args, String::from_str("-m"));
    }
    args
}

/// What the selector is fed: the candidates, one on each line.
pub fn selector_input(candidates: &Vec<String>) -> (input: String)
    ensures
        input@ == listing(candidates.deep_view()),
{
    let mut input = String::new();
    append_listing(&mut input, candidates);
    input
}

/// What was chosen, by the selector's output: each line of it, without the
/// white space around it. A selector that did not end well chose nothing.
pub open spec fn selection_spec(succeeded: bool, output: Seq<char>) -> Seq<Seq<char>> {
    if succeeded {
        lines_of(output).map_values(|line: Seq<char>| trimmed(line))
    } else {
        Seq::empty()
    }
}

/// Reads what was chosen out of the selector's output. `succeeded` says
/// whether the selector ended well.
pub fn parse_selection(succeeded: bool, output: &str) -> (chosen: Vec<String>)
    ensures
        chosen.deep_view() == selection_spec(succeeded, output@),
{
    let mut chosen: Vec<String> = Vec::new();
    if !succeeded {
        return chosen;
    }
    let chars = to_chars(output);
    let list = lines(chars.as_slice());
    let ghost all = list.deep_view();
    let mut i: usize = 0;
    while i < list.len()
        invariant
            i <= list@.len(),
            all == list.deep_view(),
            chosen.deep_view() == all.take(i as int).map_values(|line: Seq<char>| trimmed(line)),
        decreases list@.len() - i,
    {
        let line: &[char] = list[i];
        assert(line.deep_view() =~= line@);
        push_string(&mut chosen, string_of(trim(line)));
        i = i + 1;
    }
    chosen
}

} // verus!
