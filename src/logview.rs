use vstd::prelude::*;
use crate::preview::{blank, is_blank};
use crate::runstate::{stream_of, strings_view, Origin, RunState};

verus! {

/// One block of the log view: what one command wrote to one stream.
pub struct LogBlock {
    pub command_name: String,
    pub origin: Origin,
    pub lines: Vec<String>,
}

/// A block as plain values.
pub open spec fn block_view(b: LogBlock) -> (Seq<char>, Origin, Seq<Seq<char>>) {
    (b.command_name@, b.origin, strings_view(b.lines@))
}

/// Every line is blank.
pub open spec fn all_blank(ls: Seq<Seq<char>>) -> bool {
    forall|i: int| 0 <= i < ls.len() ==> blank(#[trigger] ls[i])
}

/// The block for one stream of one command, left out when it holds nothing but whitespace.
pub open spec fn stream_block(
    recs: Seq<(int, Seq<char>, Seq<char>, Origin)>,
    index: int,
    name: Seq<char>,
    origin: Origin,
) -> Seq<(Seq<char>, Origin, Seq<Seq<char>>)> {
    let ls = stream_of(recs, index, origin);
    if all_blank(ls) {
        Seq::empty()
    } else {
        seq![(name, origin, ls)]
    }
}

/// The log view: for each executed command in order, the block of its own
/// standard-output lines and then that of its own standard-error lines.
pub open spec fn log_view_of(recs: Seq<(int, Seq<char>, Seq<char>, Origin)>, names: Seq<Seq<char>>) -> Seq<
    (Seq<char>, Origin, Seq<Seq<char>>),
>
    decreases names.len(),
{
    if names.len() == 0 {
        Seq::empty()
    } else {
        let k = names.len() - 1;
        log_view_of(recs, names.drop_last()) + stream_block(recs, k, names.last(), Origin::Stdout)
            + stream_block(recs, k, names.last(), Origin::Stderr)
    }
}

/// The names of the executed commands, in order.
pub open spec fn outcome_names(s: RunState) -> Seq<Seq<char>> {
    s.outcomes_view().map_values(|p: (Seq<char>, bool)| p.0)
}

fn all_lines_blank(ls: &Vec<String>) -> (r: bool)
    ensures
        r == all_blank(strings_view(ls@)),
{
    let mut i: usize = 0;
    while i < ls.len()
        invariant
            i <= ls@.len(),
            forall|k: int| 0 <= k < i ==> blank(#[trigger] strings_view(ls@)[k]),
        decreases ls@.len() - i,
    {
        if !is_blank(ls[i].as_str()) {
            assert(strings_view(ls@)[i as int] == ls@[i as int]@);
            return false;
        }
        i = i + 1;
    }
    true
}

/// Appends the block of one stream of the command at `index` unless it is blank.
fn push_block(state: &RunState, index: usize, name: &String, origin: Origin, out: &mut Vec<LogBlock>)
    ensures
        final(out)@.map_values(|b: LogBlock| block_view(b)) == old(out)@.map_values(
            |b: LogBlock| block_view(b),
        ) + stream_block(state.records_view(), index as int, name@, origin),
{
    let lines = state.stream_lines(index, origin);
    let ghost prev = out@;
    if !all_lines_blank(&lines) {
        let b = LogBlock { command_name: name.clone(), origin, lines };
        out.push(b);
        assert(out@.map_values(|b: LogBlock| block_view(b)) =~= prev.map_values(
            |b: LogBlock| block_view(b),
        ).push(block_view(b)));
    } else {
        assert(prev.map_values(|b: LogBlock| block_view(b)) + Seq::empty() =~= prev.map_values(
            |b: LogBlock| block_view(b),
        ));
    }
}

/// What show-logs displays of a run: per executed command in order, the
/// lines that this execution itself wrote to standard output and then those
/// it wrote to standard error, each left out when it holds nothing but
/// whitespace. Commands that share a name keep their output apart.
pub fn log_blocks(state: &RunState) -> (r: Vec<LogBlock>)
    ensures
        r@.map_values(|b: LogBlock| block_view(b)) == log_view_of(
            state.records_view(),
            outcome_names(*state),
        ),
{
    let ghost names = outcome_names(*state);
    let mut r: Vec<LogBlock> = Vec::new();
    let mut i: usize = 0;
    while i < state.outcomes.len()
        invariant
            i <= state.outcomes@.len(),
            names == outcome_names(*state),
            names.len() == state.outcomes@.len(),
            r@.map_values(|b: LogBlock| block_view(b)) == log_view_of(
                state.records_view(),
                names.take(i as int),
            ),
        decreases state.outcomes@.len() - i,
    {
        let name = &state.outcomes[i].command_name;
        assert(names[i as int] == name@);
        push_block(state, i, name, Origin::Stdout, &mut r);
        push_block(state, i, name, Origin::Stderr, &mut r);
        assert(names.take(i + 1).drop_last() =~= names.take(i as int));
        i = i + 1;
    }
    assert(names.take(names.len() as int) =~= names);
    r
}

} // verus!
