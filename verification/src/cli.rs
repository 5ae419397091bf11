//! The command line: its commands, and what the `add`, `remove` and `list`
//! commands decide and print.
use vstd::prelude::*;
use vstd::string::*;
use crate::config::{PairSource, TaggedPair, scope_word, scope_label};

verus! {

broadcast use vstd::string::group_string_axioms;

/// The parsed command line.
#[derive(Debug)]
pub struct Cli {
    pub command: Option<Commands>,
    pub project_root: String,
}

/// The subcommands.
#[derive(Debug)]
pub enum Commands {
    /// Adds a pair to the local file, or to the global one.
    Add { name: String, local: String, remote: String, global: bool },
    /// Removes a pair from the local file (falling back to the global one),
    /// or from the global one only.
    Remove { name: String, global: bool },
    /// Lists all pairs.
    List,
    /// Opens the interface on a pair's file tree.
    Sync { name: String },
}

/// The file a command works on: the global one when asked for, else the
/// local one.
pub open spec fn source_spec(global: bool) -> PairSource {
    if global {
        PairSource::Global
    } else {
        PairSource::Local
    }
}

/// The files `remove` tries in turn: the global one alone when asked for,
/// else the local one and then the global one.
pub open spec fn removal_order_spec(global: bool) -> Seq<PairSource> {
    if global {
        seq![PairSource::Global]
    } else {
        seq![PairSource::Local, PairSource::Global]
    }
}

/// What `remove` does after one attempt on a file.
#[derive(Debug, Clone, Copy, PartialEq, Eq, Structural)]
pub enum RemoveStep {
    /// The file held the pair and it is gone: report that file.
    Removed(PairSource),
    /// The file did not give the pair up: try this file next.
    Retry(PairSource),
    /// No file gave the pair up: report the error of the last attempt.
    GiveUp,
}

/// The step after attempt number `attempt` (counted in the removal order)
/// succeeded (`removed`) or failed.
pub open spec fn remove_step_spec(global: bool, attempt: int, removed: bool) -> RemoveStep {
    let order = removal_order_spec(global);
    if removed {
        RemoveStep::Removed(order[attempt])
    } else if attempt + 1 < order.len() {
        RemoveStep::Retry(order[attempt + 1])
    } else {
        RemoveStep::GiveUp
    }
}

/// The line printed after a pair was added.
pub open spec fn added_message_spec(name: Seq<char>, local: Seq<char>, remote: Seq<char>, global: bool) -> Seq<char> {
    "added pair '"@ + name + "' to "@ + scope_word(source_spec(global)) + " config: "@ + local
        + " -> "@ + remote
}

/// The line printed after a pair was removed.
pub open spec fn removed_message_spec(name: Seq<char>, source: PairSource) -> Seq<char> {
    "removed pair '"@ + name + "' from "@ + scope_word(source) + " config"@
}

/// The line listing a pair.
pub open spec fn pair_line_spec(tp: TaggedPair) -> Seq<char> {
    tp.pair.name@ + ": "@ + tp.pair.local@ + " -> "@ + tp.pair.remote@ + " ["@ + scope_word(tp.source)
        + "]"@ + if tp.shadowed {
        " (shadowed)"@
    } else {
        Seq::<char>::empty()
    }
}

/// The lines printed by `list`.
pub open spec fn list_lines_spec(all: Seq<TaggedPair>) -> Seq<Seq<char>> {
    if all.len() == 0 {
        seq!["no pairs configured"@]
    } else {
        all.map_values(|tp: TaggedPair| pair_line_spec(tp))
    }
}

/// The file a command works on.
pub fn source_for(global: bool) -> (r: PairSource)
    ensures
        r == source_spec(global),
{
    if global {
        PairSource::Global
    } else {
        PairSource::Local
    }
}

/// The files `remove` tries, in turn, until one holds the pair.
pub fn removal_order(global: bool) -> (r: Vec<PairSource>)
    ensures
        r@ == removal_order_spec(global),
{
    let mut r: Vec<PairSource> = Vec::new();
    if global {
        r.push(PairSource::Global);
    } else {
        r.push(PairSource::Local);
        r.push(PairSource::Global);
    }
    assert(r@ =~= removal_order_spec(global));
    r
}

/// Decides what `remove` does once the file at position `attempt` of the
/// removal order was tried: stop at the first file that gave the pair up,
/// else go on to the next file, and give up after the last one.
pub fn after_remove_attempt(global: bool, attempt: usize, removed: bool) -> (r: RemoveStep)
    requires
        attempt < removal_order_spec(global).len(),
    ensures
        r == remove_step_spec(global, attempt as int, removed),
{
    let order = removal_order(global);
    if removed {
        RemoveStep::Removed(order[attempt])
    } else if attempt + 1 < order.len() {
        RemoveStep::Retry(order[attempt + 1])
    } else {
        RemoveStep::GiveUp
    }
}

/// `remove` without `--global` tries the local file first and the global one
/// only when the local one did not give the pair up; it fails only when
/// neither did. With `--global` it tries the global file alone.
pub proof fn remove_tries_local_then_global(local_removed: bool, global_removed: bool)
    ensures
        remove_step_spec(false, 0, local_removed) == if local_removed {
            RemoveStep::Removed(PairSource::Local)
        } else {
            RemoveStep::Retry(PairSource::Global)
        },
        remove_step_spec(false, 1, global_removed) == if global_removed {
            RemoveStep::Removed(PairSource::Global)
        } else {
            RemoveStep::GiveUp
        },
        remove_step_spec(true, 0, global_removed) == if global_removed {
            RemoveStep::Removed(PairSource::Global)
        } else {
            RemoveStep::GiveUp
        },
{
}

/// The line printed after a pair was added.
pub fn added_message(name: &String, local: &String, remote: &String, global: bool) -> (r: String)
    ensures
        r@ == added_message_spec(name@, local@, remote@, global),
{
    String::from_str("added pair '").concat(name.as_str()).concat("' to ").concat(
        scope_label(source_for(global)).as_str(),
    ).concat(" config: ").concat(local.as_str()).concat(" -> ").concat(remote.as_str())
}

/// The line printed after a pair was removed.
pub fn removed_message(name: &String, source: PairSource) -> (r: String)
    ensures
        r@ == removed_message_spec(name@, source),
{
    String::from_str("removed pair '").concat(name.as_str()).concat("' from ").concat(
        scope_label(source).as_str(),
    ).concat(" config")
}

/// The line listing a pair.
pub fn pair_line(tp: &TaggedPair) -> (r: String)
    ensures
        r@ == pair_line_spec(*tp),
{
    let line = tp.pair.name.clone().concat(": ").concat(tp.pair.local.as_str()).concat(" -> ").concat(
        tp.pair.remote.as_str(),
    ).concat(" [").concat(scope_label(tp.source).as_str()).concat("]");
    if tp.shadowed {
        line.concat(" (shadowed)")
    } else {
        line
    }
}

/// The lines printed by `list`: one per pair, or a note that there is none.
pub fn list_lines(all: &Vec<TaggedPair>) -> (r: Vec<String>)
    ensures
        crate::text::views(r@) == list_lines_spec(all@),
{
    let mut r: Vec<String> = Vec::new();
    let n = all.len();
    if n == 0 {
        r.push(String::from_str("no pairs configured"));
        assert(crate::text::views(r@) =~= list_lines_spec(all@));
        return r;
    }
    let mut i: usize = 0;
    while i < n
        invariant
            n == all@.len(),
            i <= n,
            crate::text::views(r@) == all@.take(i as int).map_values(|tp: TaggedPair| pair_line_spec(tp)),
        decreases n - i,
    {
        let ghost prev = crate::text::views(r@);
        r.push(pair_line(&all[i]));
        proof {
            assert(crate::text::views(r@) =~= prev.push(pair_line_spec(all@[i as int])));
            assert(crate::text::views(r@) =~= all@.take(i + 1).map_values(
                |tp: TaggedPair| pair_line_spec(tp),
            ));
        }
        i = i + 1;
    }
    assert(all@.take(n as int) =~= all@);
    r
}

} // verus!
