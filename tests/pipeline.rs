use sysupdate::aggregator::{plan, Action, Aggregator, ProcessReport, Progress};
use sysupdate::layout::{banner_padding, HEADER_WIDTH};
use sysupdate::model::{section_tag, CommandSpec, Section, Tag};
use sysupdate::runstate::{Origin, RunState};

fn cmd(name: &str, invocation: &str, list: Option<&str>) -> CommandSpec {
    CommandSpec::new(
        name.to_string(),
        invocation.to_string(),
        list.map(|l| l.to_string()),
        Tag::BrightGreen,
    )
}

fn lines(v: &[&str]) -> Vec<String> {
    v.iter().map(|s| s.to_string()).collect()
}

fn exited(out: &[&str], err: &[&str], success: bool, code: i32) -> ProcessReport {
    ProcessReport::Exited { stdout: lines(out), stderr: lines(err), success, code: Some(code) }
}

#[test]
fn echo_section_records_hello() {
    let sections = vec![Section::new("Echo".to_string(), vec![cmd("Echo Test", "echo hello", None)])];
    let mut agg = Aggregator::start(&sections);
    assert_eq!(agg.next_action(&sections), Action::Section(0));
    agg.enter_section(&sections);
    assert_eq!(agg.next_action(&sections), Action::Run(0, 0));
    let p = agg.run_done(&sections, exited(&["hello"], &[], true, 0));
    assert_eq!(p, Progress { section: 0, done: 1, of: 1 });
    assert_eq!(agg.next_action(&sections), Action::Finished);
    let state = agg.into_state();
    assert_eq!(state.outcomes.len(), 1);
    assert_eq!(state.outcomes[0].command_name, "Echo Test");
    assert!(state.outcomes[0].succeeded);
    assert_eq!(state.stream_lines(0, Origin::Stdout), lines(&["hello"]));
    assert!(state.stream_lines(0, Origin::Stderr).is_empty());
}

#[test]
fn failed_command_does_not_stop_the_run() {
    let sections = vec![
        Section::new("First".to_string(), vec![cmd("Fails", "exit 1", None), cmd("Next", "true", None)]),
        Section::new("Second".to_string(), vec![cmd("Later", "true", None)]),
    ];
    let mut agg = Aggregator::start(&sections);
    agg.enter_section(&sections);
    assert_eq!(agg.next_action(&sections), Action::Run(0, 0));
    agg.run_done(&sections, exited(&[], &[], false, 1));
    assert_eq!(agg.next_action(&sections), Action::Run(0, 1));
    let p = agg.run_done(&sections, exited(&[], &[], true, 0));
    assert_eq!(p, Progress { section: 0, done: 2, of: 2 });
    assert_eq!(agg.next_action(&sections), Action::Section(1));
    agg.enter_section(&sections);
    assert_eq!(agg.next_action(&sections), Action::Run(1, 0));
    assert!(!agg.is_finished(&sections));
    agg.run_done(&sections, exited(&[], &[], true, 0));
    assert!(agg.is_finished(&sections));
    let state = agg.into_state();
    let flags: Vec<bool> = state.outcomes.iter().map(|o| o.succeeded).collect();
    assert_eq!(flags, vec![false, true, true]);
    assert_eq!(state.outcomes[0].exit_code, Some(1));
}

#[test]
fn one_outcome_per_command() {
    let sections = vec![
        Section::new("A".to_string(), vec![cmd("a1", "x", None), cmd("a2", "x", Some("ls"))]),
        Section::new("Empty".to_string(), vec![]),
        Section::new("C".to_string(), vec![cmd("c1", "x", None)]),
    ];
    assert_eq!(plan(&sections), vec![(0, 0), (0, 1), (2, 0)]);
    let mut agg = Aggregator::start(&sections);
    let mut steps = 0;
    let mut started = Vec::new();
    loop {
        match agg.next_action(&sections) {
            Action::Section(i) => {
                started.push(i);
                agg.enter_section(&sections);
                continue;
            }
            Action::Probe(_, _) => agg.probe_done(&sections),
            Action::Run(_, _) => {
                agg.run_done(&sections, exited(&[], &["oops"], steps % 2 == 0, 0));
            }
            Action::Finished => break,
        }
        steps += 1;
    }
    assert_eq!(steps, 4);
    assert_eq!(started, vec![0, 1, 2]);
    let names: Vec<String> = agg.state.outcomes.iter().map(|o| o.command_name.clone()).collect();
    assert_eq!(names, lines(&["a1", "a2", "c1"]));
}

#[test]
fn preview_comes_before_run() {
    let sections = vec![Section::new("S".to_string(), vec![cmd("Upgrade", "up", Some("list"))])];
    let mut agg = Aggregator::start(&sections);
    agg.enter_section(&sections);
    assert_eq!(agg.next_action(&sections), Action::Probe(0, 0));
    agg.probe_done(&sections);
    assert_eq!(agg.next_action(&sections), Action::Run(0, 0));
    assert!(agg.state.outcomes.is_empty());
    agg.run_done(&sections, exited(&["done"], &[], true, 0));
    assert_eq!(agg.next_action(&sections), Action::Finished);
}

#[test]
fn spawn_failure_is_a_failed_outcome() {
    let sections = vec![Section::new("S".to_string(), vec![cmd("Missing", "nope", None)])];
    let mut agg = Aggregator::start(&sections);
    agg.enter_section(&sections);
    agg.run_done(&sections, ProcessReport::SpawnFailed { reason: "no such file".to_string() });
    let state = agg.into_state();
    assert!(!state.outcomes[0].succeeded);
    assert_eq!(state.outcomes[0].exit_code, None);
    assert_eq!(state.stream_lines(0, Origin::Stderr), lines(&["no such file"]));
    assert!(state.stream_lines(0, Origin::Stdout).is_empty());
}

#[test]
fn streams_keep_their_own_order() {
    let mut state = RunState::new();
    let name = "Job".to_string();
    state.record_command(&"Other".to_string(), lines(&["o"]), lines(&["e"]), true, Some(0));
    state.record_command(&name, lines(&["a", "b", "c"]), lines(&["x", "y"]), true, Some(0));
    assert_eq!(state.stream_lines(1, Origin::Stdout), lines(&["a", "b", "c"]));
    assert_eq!(state.stream_lines(1, Origin::Stderr), lines(&["x", "y"]));
    assert_eq!(state.stream_lines(0, Origin::Stdout), lines(&["o"]));
    assert_eq!(state.records[6].command_index, 1);
    assert_eq!(state.records.len(), 7);
    assert_eq!(state.outcomes.len(), 2);
}

#[test]
fn new_run_state_is_empty() {
    let state = RunState::new();
    assert!(state.records.is_empty());
    assert!(state.outcomes.is_empty());
}

#[test]
fn section_banner_is_centred() {
    assert_eq!(banner_padding(17), (29, true));
    assert_eq!(banner_padding(14), (31, false));
    assert_eq!(banner_padding(HEADER_WIDTH - 4), (0, false));
}

#[test]
fn sections_have_their_own_tag() {
    assert_eq!(section_tag(&"APT System Update".to_string()), Tag::BrightMagenta);
    assert_eq!(section_tag(&"Flatpak Update".to_string()), Tag::BrightYellow);
    assert_eq!(section_tag(&"Snap Update".to_string()), Tag::BrightBlue);
    assert_eq!(section_tag(&"Firmware Update".to_string()), Tag::BrightGreen);
    assert_eq!(section_tag(&"HackerOS Update".to_string()), Tag::Magenta);
    assert_eq!(section_tag(&"Echo".to_string()), Tag::BrightBlack);
}

#[test]
fn commands_sharing_a_name_keep_their_own_streams() {
    let mut state = RunState::new();
    let name = "X".to_string();
    state.record_command(&name, lines(&["1"]), vec![], true, Some(0));
    state.record_command(&name, lines(&["2"]), vec![], true, Some(0));
    assert_eq!(state.stream_lines(0, Origin::Stdout), lines(&["1"]));
    assert_eq!(state.stream_lines(1, Origin::Stdout), lines(&["2"]));
}

#[test]
fn empty_section_still_starts() {
    let sections = vec![Section::new("Empty".to_string(), vec![])];
    let mut agg = Aggregator::start(&sections);
    assert_eq!(agg.next_action(&sections), Action::Section(0));
    agg.enter_section(&sections);
    assert_eq!(agg.next_action(&sections), Action::Finished);
    assert!(agg.into_state().outcomes.is_empty());
}
