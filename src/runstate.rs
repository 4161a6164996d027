use vstd::prelude::*;

verus! {

/// Which output stream of a child process a line came from.
#[derive(Clone, Copy, Debug, PartialEq, Eq, Structural)]
pub enum Origin {
    Stdout,
    Stderr,
}

/// One captured line of a command's output.
pub struct StreamRecord {
    /// Position of the command's outcome among the outcomes of the run.
    pub command_index: usize,
    pub command_name: String,
    pub content: String,
    pub origin: Origin,
}

/// The pass/fail result of one executed command.
pub struct RunOutcome {
    pub command_name: String,
    pub succeeded: bool,
    /// Exit code reported by the operating system, when there was one.
    pub exit_code: Option<i32>,
}

/// Everything recorded during one run of the pipeline.
pub struct RunState {
    pub records: Vec<StreamRecord>,
    pub outcomes: Vec<RunOutcome>,
}

/// The records made for `lines`, all from the command at `index`, named
/// `name`, and from stream `origin`.
pub open spec fn tagged(index: int, name: Seq<char>, lines: Seq<Seq<char>>, origin: Origin) -> Seq<
    (int, Seq<char>, Seq<char>, Origin),
> {
    lines.map_values(|l: Seq<char>| (index, name, l, origin))
}

/// The abstract content of a record.
pub open spec fn record_view(r: StreamRecord) -> (int, Seq<char>, Seq<char>, Origin) {
    (r.command_index as int, r.command_name@, r.content@, r.origin)
}

/// The lines in `recs` that the command at `index` wrote to stream `origin`, in order.
pub open spec fn stream_of(recs: Seq<(int, Seq<char>, Seq<char>, Origin)>, index: int, origin: Origin) -> Seq<
    Seq<char>,
>
    decreases recs.len(),
{
    if recs.len() == 0 {
        Seq::empty()
    } else {
        let last = recs.last();
        let rest = stream_of(recs.drop_last(), index, origin);
        if last.0 == index && last.3 == origin {
            rest.push(last.2)
        } else {
            rest
        }
    }
}

/// Selecting one command's stream distributes over concatenation of records.
proof fn lemma_stream_of_concat(
    a: Seq<(int, Seq<char>, Seq<char>, Origin)>,
    b: Seq<(int, Seq<char>, Seq<char>, Origin)>,
    index: int,
    origin: Origin,
)
    ensures
        stream_of(a + b, index, origin) == stream_of(a, index, origin) + stream_of(b, index, origin),
    decreases b.len(),
{
    if b.len() == 0 {
        assert(a + b =~= a);
        assert(stream_of(a, index, origin) + stream_of(b, index, origin) =~= stream_of(a, index, origin));
    } else {
        assert((a + b).drop_last() =~= a + b.drop_last());
        lemma_stream_of_concat(a, b.drop_last(), index, origin);
        let sa = stream_of(a, index, origin);
        let sb = stream_of(b.drop_last(), index, origin);
        assert((sa + sb).push(b.last().2) =~= sa + sb.push(b.last().2));
    }
}

/// The records made for one stream of a command give back exactly its lines
/// for that stream, and nothing for the other stream or another command.
proof fn lemma_stream_of_tagged(
    index: int,
    name: Seq<char>,
    lines: Seq<Seq<char>>,
    written: Origin,
    asked_index: int,
    asked: Origin,
)
    ensures
        stream_of(tagged(index, name, lines, written), asked_index, asked) == if written == asked
            && index == asked_index {
            lines
        } else {
            Seq::empty()
        },
    decreases lines.len(),
{
    if lines.len() > 0 {
        assert(tagged(index, name, lines, written).drop_last() =~= tagged(
            index,
            name,
            lines.drop_last(),
            written,
        ));
        lemma_stream_of_tagged(index, name, lines.drop_last(), written, asked_index, asked);
        assert(lines.drop_last().push(lines.last()) =~= lines);
    } else {
        assert(lines =~= Seq::empty());
    }
}

/// No stream of a command appears in records that all belong to earlier commands.
proof fn lemma_stream_of_earlier(recs: Seq<(int, Seq<char>, Seq<char>, Origin)>, index: int, origin: Origin)
    requires
        forall|k: int| 0 <= k < recs.len() ==> (#[trigger] recs[k]).0 < index,
    ensures
        stream_of(recs, index, origin) == Seq::<Seq<char>>::empty(),
    decreases recs.len(),
{
    if recs.len() > 0 {
        lemma_stream_of_earlier(recs.drop_last(), index, origin);
    }
}

/// Recording a command keeps each of its output streams whole and in order,
/// however the two streams were interleaved while it ran: when every earlier
/// record belongs to an earlier command, the command's standard-output lines
/// are exactly `stdout` and its standard-error lines exactly `stderr`, and
/// what every other command wrote stays as it was.
pub proof fn record_keeps_stream_order(
    before: Seq<(int, Seq<char>, Seq<char>, Origin)>,
    index: int,
    name: Seq<char>,
    stdout: Seq<Seq<char>>,
    stderr: Seq<Seq<char>>,
)
    requires
        forall|k: int| 0 <= k < before.len() ==> (#[trigger] before[k]).0 < index,
    ensures
        ({
            let after = before + tagged(index, name, stdout, Origin::Stdout) + tagged(
                index,
                name,
                stderr,
                Origin::Stderr,
            );
            &&& stream_of(after, index, Origin::Stdout) == stdout
            &&& stream_of(after, index, Origin::Stderr) == stderr
            &&& forall|j: int, o: Origin|
                j != index ==> #[trigger] stream_of(after, j, o) == stream_of(before, j, o)
        }),
{
    let o = tagged(index, name, stdout, Origin::Stdout);
    let e = tagged(index, name, stderr, Origin::Stderr);
    assert forall|j: int, w: Origin| #[trigger]
        stream_of(before + o + e, j, w) == stream_of(before, j, w) + (if j == index && w
            == Origin::Stdout {
            stdout
        } else {
            Seq::empty()
        }) + (if j == index && w == Origin::Stderr {
            stderr
        } else {
            Seq::empty()
        }) by {
        lemma_stream_of_concat(before + o, e, j, w);
        lemma_stream_of_concat(before, o, j, w);
        lemma_stream_of_tagged(index, name, stdout, Origin::Stdout, j, w);
        lemma_stream_of_tagged(index, name, stderr, Origin::Stderr, j, w);
    }
    lemma_stream_of_earlier(before, index, Origin::Stdout);
    lemma_stream_of_earlier(before, index, Origin::Stderr);
    assert(Seq::<Seq<char>>::empty() + stdout + Seq::empty() =~= stdout);
    assert(Seq::<Seq<char>>::empty() + Seq::empty() + stderr =~= stderr);
    assert forall|j: int, w: Origin| j != index implies #[trigger] stream_of(before + o + e, j, w)
        == stream_of(before, j, w) by {
        assert(stream_of(before + o + e, j, w) == stream_of(before, j, w) + Seq::empty()
            + Seq::empty());
        assert(stream_of(before, j, w) + Seq::empty() + Seq::empty() =~= stream_of(before, j, w));
    }
}

/// A sequence of strings as sequences of characters.
pub open spec fn strings_view(v: Seq<String>) -> Seq<Seq<char>> {
    v.map_values(|s: String| s@)
}

impl RunState {
    /// The records as plain values.
    pub open spec fn records_view(&self) -> Seq<(int, Seq<char>, Seq<char>, Origin)> {
        self.records@.map_values(|r: StreamRecord| record_view(r))
    }

    /// Pairs of command name and success flag, one per executed command.
    pub open spec fn outcomes_view(&self) -> Seq<(Seq<char>, bool)> {
        self.outcomes@.map_values(|o: RunOutcome| (o.command_name@, o.succeeded))
    }

    /// Every record belongs to a command that already has its outcome.
    pub open spec fn wf(&self) -> bool {
        forall|k: int|
            0 <= k < self.records@.len() ==> (#[trigger] self.records@[k]).command_index
                < self.outcomes@.len()
    }

    /// An empty state, as at the start of each run.
    pub fn new() -> (r: RunState)
        ensures
            r.wf(),
            r.records@.len() == 0,
            r.outcomes@.len() == 0,
    {
        RunState { records: Vec::new(), outcomes: Vec::new() }
    }

    /// Appends the records of `lines`, in order, all tagged with `index`, `name` and `origin`.
    fn append_stream(&mut self, index: usize, name: &String, lines: &Vec<String>, origin: Origin)
        ensures
            final(self).records_view() == old(self).records_view() + tagged(
                index as int,
                name@,
                strings_view(lines@),
                origin,
            ),
            final(self).outcomes == old(self).outcomes,
    {
        let ghost start = self.records_view();
        let ghost all = strings_view(lines@);
        let mut i: usize = 0;
        while i < lines.len()
            invariant
                i <= lines@.len(),
                all == strings_view(lines@),
                self.records_view() == start + tagged(index as int, name@, all.take(i as int), origin),
                self.outcomes == old(self).outcomes,
            decreases lines@.len() - i,
        {
            let ghost before = self.records@;
            let rec = StreamRecord {
                command_index: index,
                command_name: name.clone(),
                content: lines[i].clone(),
                origin,
            };
            assert(record_view(rec) == (index as int, name@, all[i as int], origin));
            self.records.push(rec);
            proof {
                assert(self.records@ == before.push(rec));
                assert(self.records_view() =~= before.map_values(|r: StreamRecord| record_view(r)).push(
                    record_view(rec),
                ));
                assert(all.take(i + 1) =~= all.take(i as int).push(all[i as int]));
                assert(self.records_view() =~= start + tagged(index as int, name@, all.take(i + 1), origin));
            }
            i = i + 1;
        }
        assert(all.take(lines@.len() as int) =~= all);
    }

    /// The lines that the command at `index` wrote to stream `origin`, in order.
    pub fn stream_lines(&self, index: usize, origin: Origin) -> (r: Vec<String>)
        ensures
            strings_view(r@) == stream_of(self.records_view(), index as int, origin),
    {
        let ghost all = self.records_view();
        let mut r: Vec<String> = Vec::new();
        let mut i: usize = 0;
        while i < self.records.len()
            invariant
                i <= self.records@.len(),
                all == self.records_view(),
                strings_view(r@) == stream_of(all.take(i as int), index as int, origin),
            decreases self.records@.len() - i,
        {
            let ghost prev = r@;
            let rec = &self.records[i];
            assert(all.take(i + 1).drop_last() =~= all.take(i as int));
            assert(all[i as int] == record_view(*rec));
            if rec.command_index == index && rec.origin == origin {
                r.push(rec.content.clone());
                assert(strings_view(r@) =~= strings_view(prev).push(rec.content@));
            }
            i = i + 1;
        }
        assert(all.take(self.records@.len() as int) =~= all);
        r
    }

    /// Records a finished command: its standard-output lines, then its
    /// standard-error lines, then its outcome. Its records carry the position
    /// of that outcome, so its streams are exactly the lines given here.
    pub fn record_command(
        &mut self,
        name: &String,
        stdout: Vec<String>,
        stderr: Vec<String>,
        succeeded: bool,
        exit_code: Option<i32>,
    )
        requires
            old(self).wf(),
        ensures
            final(self).wf(),
            final(self).records_view() == old(self).records_view() + tagged(
                old(self).outcomes@.len() as int,
                name@,
                strings_view(stdout@),
                Origin::Stdout,
            ) + tagged(
                old(self).outcomes@.len() as int,
                name@,
                strings_view(stderr@),
                Origin::Stderr,
            ),
            stream_of(final(self).records_view(), old(self).outcomes@.len() as int, Origin::Stdout)
                == strings_view(stdout@),
            stream_of(final(self).records_view(), old(self).outcomes@.len() as int, Origin::Stderr)
                == strings_view(stderr@),
            final(self).outcomes_view() == old(self).outcomes_view().push((name@, succeeded)),
            final(self).outcomes@.drop_last() == old(self).outcomes@,
            final(self).outcomes@.last().exit_code == exit_code,
    {
        let index = self.outcomes.len();
        proof {
            let rv = self.records_view();
            assert forall|k: int| 0 <= k < rv.len() implies (#[trigger] rv[k]).0 < index by {
                assert(rv[k] == record_view(self.records@[k]));
            }
            record_keeps_stream_order(rv, index as int, name@, strings_view(stdout@), strings_view(stderr@));
        }
        self.append_stream(index, name, &stdout, Origin::Stdout);
        self.append_stream(index, name, &stderr, Origin::Stderr);
        self.outcomes.push(RunOutcome { command_name: name.clone(), succeeded, exit_code });
        assert(self.outcomes_view() =~= old(self).outcomes_view().push((name@, succeeded)));
        assert(self.outcomes@.drop_last() =~= old(self).outcomes@);
        proof {
            let rv = self.records_view();
            assert forall|k: int| 0 <= k < self.records@.len() implies (#[trigger] self.records@[k]).command_index
                < self.outcomes@.len() by {
                assert(rv[k] == record_view(self.records@[k]));
                if k < old(self).records@.len() {
                    assert(old(self).records_view()[k] == record_view(old(self).records@[k]));
                }
            }
        }
    }
}

} // verus!
