use vstd::prelude::*;
use crate::model::{CommandSpec, Section};
use crate::runstate::{strings_view, tagged, Origin, RunState};

verus! {

/// The order in which commands run: pairs of section index and position in
/// that section, sections in order and commands in order within each.
pub open spec fn plan_of(secs: Seq<Section>) -> Seq<(int, int)>
    decreases secs.len(),
{
    if secs.len() == 0 {
        Seq::empty()
    } else {
        plan_of(secs.drop_last()) + Seq::new(
            secs.last().commands@.len(),
            |j: int| ((secs.len() - 1) as int, j),
        )
    }
}

/// How many commands the sections hold together.
pub open spec fn total_commands(secs: Seq<Section>) -> nat
    decreases secs.len(),
{
    if secs.len() == 0 {
        0
    } else {
        total_commands(secs.drop_last()) + secs.last().commands@.len()
    }
}

/// The `k`-th command to run.
pub open spec fn command_at(secs: Seq<Section>, k: int) -> CommandSpec {
    secs[plan_of(secs)[k].0].commands@[plan_of(secs)[k].1]
}

/// A stored plan as mathematical integers.
pub open spec fn plan_view(p: Seq<(usize, usize)>) -> Seq<(int, int)> {
    p.map_values(|e: (usize, usize)| (e.0 as int, e.1 as int))
}

/// Every step of the plan names an existing command, and there is one step per command.
proof fn lemma_plan_valid(secs: Seq<Section>)
    ensures
        plan_of(secs).len() == total_commands(secs),
        forall|k: int|
            0 <= k < plan_of(secs).len() ==> {
                let (i, j) = #[trigger] plan_of(secs)[k];
                0 <= i < secs.len() && 0 <= j < secs[i].commands@.len()
            },
    decreases secs.len(),
{
    if secs.len() > 0 {
        lemma_plan_valid(secs.drop_last());
    }
}

/// The plan of the first `i` sections is the start of the plan of all of
/// them: its steps belong to sections before `i`, and every later step to
/// section `i` or after.
proof fn lemma_plan_split(secs: Seq<Section>, i: int)
    requires
        0 <= i <= secs.len(),
    ensures
        plan_of(secs.take(i)).len() <= plan_of(secs).len(),
        forall|k: int| 0 <= k < plan_of(secs.take(i)).len() ==> (#[trigger] plan_of(secs)[k]).0 < i,
        forall|k: int|
            plan_of(secs.take(i)).len() <= k < plan_of(secs).len() ==> (#[trigger] plan_of(
                secs,
            )[k]).0 >= i,
    decreases secs.len(),
{
    lemma_plan_valid(secs);
    if i == secs.len() {
        assert(secs.take(i) =~= secs);
    } else {
        let d = secs.drop_last();
        assert(d.take(i) =~= secs.take(i));
        lemma_plan_split(d, i);
        assert forall|k: int| 0 <= k < plan_of(d).len() implies plan_of(secs)[k] == plan_of(d)[k] by {}
    }
}

/// Adding one section to the sections taken adds its commands to the plan.
proof fn lemma_plan_take_succ(secs: Seq<Section>, i: int)
    requires
        0 <= i < secs.len(),
    ensures
        plan_of(secs.take(i + 1)).len() == plan_of(secs.take(i)).len() + secs[i].commands@.len(),
{
    assert(secs.take(i + 1).drop_last() =~= secs.take(i));
}

/// Builds the order in which the commands of `sections` run.
pub fn plan(sections: &Vec<Section>) -> (r: Vec<(usize, usize)>)
    ensures
        plan_view(r@) == plan_of(sections@),
{
    let mut r: Vec<(usize, usize)> = Vec::new();
    let mut i: usize = 0;
    while i < sections.len()
        invariant
            i <= sections@.len(),
            plan_view(r@) == plan_of(sections@.take(i as int)),
        decreases sections@.len() - i,
    {
        let ghost base = plan_view(r@);
        let n = sections[i].commands.len();
        let mut j: usize = 0;
        while j < n
            invariant
                i < sections@.len(),
                n == sections@[i as int].commands@.len(),
                j <= n,
                plan_view(r@) == base + Seq::new(j as nat, |t: int| (i as int, t)),
            decreases n - j,
        {
            let ghost prev = r@;
            r.push((i, j));
            assert(plan_view(r@) =~= plan_view(prev).push((i as int, j as int)));
            assert(plan_view(r@) =~= base + Seq::new((j + 1) as nat, |t: int| (i as int, t)));
            j = j + 1;
        }
        assert(sections@.take(i + 1).drop_last() =~= sections@.take(i as int));
        i = i + 1;
    }
    assert(sections@.take(sections@.len() as int) =~= sections@);
    r
}

/// What the driver of a run should do next.
#[derive(Clone, Copy, Debug, PartialEq, Eq, Structural)]
pub enum Action {
    /// Section `.0` starts: every command before it has its outcome.
    Section(usize),
    /// Run the preview invocation of command `.1` of section `.0`.
    Probe(usize, usize),
    /// Run the invocation of command `.1` of section `.0`.
    Run(usize, usize),
    /// Every section has started and every command has an outcome.
    Finished,
}

/// How one child process ended.
pub enum ProcessReport {
    /// The child ran to completion; its streams are split into lines.
    Exited { stdout: Vec<String>, stderr: Vec<String>, success: bool, code: Option<i32> },
    /// The child could not be started.
    SpawnFailed { reason: String },
}

/// Progress within a section after a command completes.
#[derive(Clone, Copy, Debug, PartialEq, Eq, Structural)]
pub struct Progress {
    pub section: usize,
    pub done: usize,
    pub of: usize,
}

/// Drives one run of the pipeline: which section or command comes next, and
/// what was recorded.
pub struct Aggregator {
    pub plan: Vec<(usize, usize)>,
    /// How many steps of the plan have an outcome.
    pub next: usize,
    /// Whether the preview of the current command has run.
    pub probed: bool,
    /// How many sections have started.
    pub entered: usize,
    /// How many steps the started sections hold together.
    pub section_end: usize,
    pub state: RunState,
}

impl Aggregator {
    /// The plan is that of `secs`; each command before `next` has exactly one
    /// outcome, in plan order; the commands with outcomes belong to started
    /// sections, and only the last started section may still have commands
    /// without one; `probed` says that the preview of the current command
    /// has already run.
    pub open spec fn wf(&self, secs: Seq<Section>) -> bool {
        &&& plan_view(self.plan@) == plan_of(secs)
        &&& self.entered <= secs.len()
        &&& self.section_end == plan_of(secs.take(self.entered as int)).len()
        &&& self.next <= self.section_end
        &&& self.next <= self.plan@.len()
        &&& self.entered > 0 ==> self.next >= plan_of(secs.take(self.entered - 1)).len()
        &&& self.state.wf()
        &&& self.state.outcomes@.len() == self.next
        &&& forall|k: int|
            0 <= k < self.next ==> #[trigger] self.state.outcomes@[k].command_name@ == command_at(
                secs,
                k,
            ).name@
        &&& self.probed ==> self.next < self.section_end && command_at(
            secs,
            self.next as int,
        ).list_invocation is Some
    }

    /// The next step: the current command's preview, if it has one that has
    /// not run, else the command itself; once the started sections are done,
    /// the next section; `Finished` at the end.
    pub open spec fn action_spec(&self, secs: Seq<Section>) -> Action {
        if self.next < self.section_end {
            let (i, j) = self.plan@[self.next as int];
            if command_at(secs, self.next as int).list_invocation is Some && !self.probed {
                Action::Probe(i, j)
            } else {
                Action::Run(i, j)
            }
        } else if self.entered < secs.len() {
            Action::Section(self.entered)
        } else {
            Action::Finished
        }
    }

    /// A fresh run over `sections`, with nothing recorded.
    pub fn start(sections: &Vec<Section>) -> (r: Aggregator)
        ensures
            r.wf(sections@),
            r.next == 0,
            r.entered == 0,
            !r.probed,
            r.state.records@.len() == 0,
    {
        assert(sections@.take(0) =~= Seq::<Section>::empty());
        Aggregator {
            plan: plan(sections),
            next: 0,
            probed: false,
            entered: 0,
            section_end: 0,
            state: RunState::new(),
        }
    }

    pub fn is_finished(&self, sections: &Vec<Section>) -> (r: bool)
        requires
            self.wf(sections@),
        ensures
            r == (self.action_spec(sections@) is Finished),
    {
        self.next >= self.section_end && self.entered >= sections.len()
    }

    /// What to do next, as `action_spec` says.
    pub fn next_action(&self, sections: &Vec<Section>) -> (a: Action)
        requires
            self.wf(sections@),
        ensures
            a == self.action_spec(sections@),
            a matches Action::Section(i) ==> i < sections@.len(),
            a matches Action::Probe(i, j) ==> i < sections@.len() && j < sections@[i as int].commands@.len(),
            a matches Action::Run(i, j) ==> i < sections@.len() && j < sections@[i as int].commands@.len(),
    {
        if self.next < self.section_end {
            proof {
                lemma_plan_valid(sections@);
                lemma_plan_split(sections@, self.entered as int);
                assert(plan_view(self.plan@)[self.next as int] == plan_of(sections@)[self.next as int]);
            }
            let (i, j) = self.plan[self.next];
            if sections[i].commands[j].list_invocation.is_some() && !self.probed {
                Action::Probe(i, j)
            } else {
                Action::Run(i, j)
            }
        } else if self.entered < sections.len() {
            Action::Section(self.entered)
        } else {
            Action::Finished
        }
    }

    /// Notes that the next section has started.
    pub fn enter_section(&mut self, sections: &Vec<Section>)
        requires
            old(self).wf(sections@),
            old(self).action_spec(sections@) is Section,
        ensures
            final(self).wf(sections@),
            final(self).entered == old(self).entered + 1,
            final(self).next == old(self).next,
            final(self).probed == old(self).probed,
            final(self).plan == old(self).plan,
            final(self).state == old(self).state,
    {
        let total = self.plan.len();
        let count = sections.len();
        proof {
            lemma_plan_take_succ(sections@, self.entered as int);
            lemma_plan_split(sections@, self.entered + 1);
        }
        self.section_end = self.section_end + sections[self.entered].commands.len();
        self.entered = self.entered + 1;
    }

    /// Notes that the preview of the current command has run.
    pub fn probe_done(&mut self, sections: &Vec<Section>)
        requires
            old(self).wf(sections@),
            old(self).action_spec(sections@) is Probe,
        ensures
            final(self).wf(sections@),
            final(self).probed,
            final(self).next == old(self).next,
            final(self).entered == old(self).entered,
            final(self).plan == old(self).plan,
            final(self).state == old(self).state,
            final(self).action_spec(sections@) is Run,
    {
        self.probed = true;
    }

    /// Records how the current command ended and moves to the next one. The
    /// records made carry the command's position, `old(self).next`.
    pub fn run_done(&mut self, sections: &Vec<Section>, report: ProcessReport) -> (p: Progress)
        requires
            old(self).wf(sections@),
            old(self).action_spec(sections@) is Run,
        ensures
            final(self).wf(sections@),
            final(self).next == old(self).next + 1,
            final(self).entered == old(self).entered,
            !final(self).probed,
            final(self).plan == old(self).plan,
            final(self).state.outcomes@.drop_last() == old(self).state.outcomes@,
            ({
                let name = command_at(sections@, old(self).next as int).name@;
                let k = old(self).next as int;
                match report {
                    ProcessReport::Exited { stdout, stderr, success, code } => {
                        &&& final(self).state.records_view() == old(self).state.records_view()
                            + tagged(k, name, strings_view(stdout@), Origin::Stdout)
                            + tagged(k, name, strings_view(stderr@), Origin::Stderr)
                        &&& final(self).state.outcomes_view() == old(self).state.outcomes_view().push((name, success))
                        &&& final(self).state.outcomes@.last().exit_code == code
                    },
                    ProcessReport::SpawnFailed { reason } => {
                        &&& final(self).state.records_view() == old(self).state.records_view()
                            + tagged(k, name, seq![reason@], Origin::Stderr)
                        &&& final(self).state.outcomes_view() == old(self).state.outcomes_view().push((name, false))
                        &&& final(self).state.outcomes@.last().exit_code is None
                    },
                }
            }),
            p.section == plan_of(sections@)[old(self).next as int].0,
            p.section == old(self).entered - 1,
            p.done == plan_of(sections@)[old(self).next as int].1 + 1,
            p.of == sections@[p.section as int].commands@.len(),
    {
        proof {
            lemma_plan_valid(sections@);
            lemma_plan_split(sections@, self.entered as int);
            assert(self.next < self.plan@.len());
            assert(plan_view(self.plan@)[self.next as int] == plan_of(sections@)[self.next as int]);
            assert(self.entered > 0);
            lemma_plan_split(sections@, self.entered as int);
            lemma_plan_split(sections@, self.entered - 1);
        }
        let total = self.plan.len();
        let (i, j) = self.plan[self.next];
        let m = sections[i].commands.len();
        assert(j < m);
        let name = &sections[i].commands[j].name;
        let ghost before = self.state;
        match report {
            ProcessReport::Exited { stdout, stderr, success, code } => {
                self.state.record_command(name, stdout, stderr, success, code);
            },
            ProcessReport::SpawnFailed { reason } => {
                let ghost r = reason;
                let mut err: Vec<String> = Vec::new();
                err.push(reason);
                assert(strings_view(err@) =~= seq![r@]);
                let none: Vec<String> = Vec::new();
                assert(strings_view(none@) =~= Seq::<Seq<char>>::empty());
                self.state.record_command(name, none, err, false, None);
                assert(before.records_view() + tagged(self.next as int, name@, Seq::empty(), Origin::Stdout)
                    =~= before.records_view());
            },
        }
        proof {
            assert(self.state.outcomes_view().len() == self.state.outcomes@.len());
            assert(before.outcomes_view().len() == before.outcomes@.len());
            assert(self.state.outcomes@.len() == self.next + 1);
            assert forall|k: int| 0 <= k < self.next + 1 implies #[trigger] self.state.outcomes@[k].command_name@
                == command_at(sections@, k).name@ by {
                assert(self.state.outcomes_view().len() == self.state.outcomes@.len());
                assert(self.state.outcomes_view()[k] == (
                self.state.outcomes@[k].command_name@,
                self.state.outcomes@[k].succeeded,
                ));
                if k < self.next {
                    assert(before.outcomes_view()[k] == (
                    before.outcomes@[k].command_name@,
                    before.outcomes@[k].succeeded,
                    ));
                }
            }
        }
        self.next = self.next + 1;
        self.probed = false;
        Progress { section: i, done: j + 1, of: m }
    }

    /// Hands over what the run recorded.
    pub fn into_state(self) -> (r: RunState)
        ensures
            r == self.state,
    {
        self.state
    }
}

/// A run ends with every section started and exactly one outcome per command
/// of the pipeline, whatever the individual outcomes were, and the outcomes
/// follow the order of the sections and of the commands within each section.
pub proof fn finished_run_has_one_outcome_per_command(secs: Seq<Section>, a: Aggregator)
    requires
        a.wf(secs),
        a.action_spec(secs) is Finished,
    ensures
        a.entered == secs.len(),
        a.state.outcomes@.len() == total_commands(secs),
        forall|k: int|
            0 <= k < total_commands(secs) ==> #[trigger] a.state.outcomes@[k].command_name@
                == command_at(secs, k).name@,
{
    lemma_plan_valid(secs);
    assert(secs.take(secs.len() as int) =~= secs);
}

/// A section starts, once, in order, only after every command of the
/// sections before it has its outcome and before any command of it or of a
/// later section has one.
pub proof fn section_starts_after_earlier_sections(secs: Seq<Section>, a: Aggregator, i: usize)
    requires
        a.wf(secs),
        a.action_spec(secs) == Action::Section(i),
    ensures
        i == a.entered,
        a.state.outcomes@.len() == total_commands(secs.take(i as int)),
        forall|k: int| 0 <= k < a.state.outcomes@.len() ==> (#[trigger] plan_of(secs)[k]).0 < i,
{
    lemma_plan_valid(secs.take(i as int));
    lemma_plan_split(secs, i as int);
}

} // verus!
