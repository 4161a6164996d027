use sysupdate::console::{choice_of, Choice, Console, Effect, Phase};
use sysupdate::preview::{classify_probe, is_blank, is_white_char, keep_line, preview_lines, Preview};
use sysupdate::logview::log_blocks;
use sysupdate::runstate::{Origin, RunState};

fn strings(v: &[&str]) -> Vec<String> {
    v.iter().map(|s| s.to_string()).collect()
}

fn run_with(name: &str) -> RunState {
    let mut s = RunState::new();
    s.record_command(&name.to_string(), strings(&["line"]), vec![], true, Some(0));
    s
}

#[test]
fn retry_replaces_previous_logs() {
    let mut c = Console::new();
    assert_eq!(c.phase, Phase::Running);
    c.run_finished(run_with("first"));
    assert_eq!(c.phase, Phase::AwaitingInput);
    assert_eq!(c.press(Some('t')), Effect::RunAgain);
    assert_eq!(c.phase, Phase::Running);
    assert!(c.logs.records.is_empty());
    assert!(c.logs.outcomes.is_empty());
    c.run_finished(run_with("second"));
    assert_eq!(c.logs.outcomes.len(), 1);
    assert_eq!(c.logs.outcomes[0].command_name, "second");
    assert!(c.logs.records.iter().all(|r| r.command_name == "second"));
}

#[test]
fn unmapped_key_shows_invalid_notice() {
    let mut c = Console::new();
    c.run_finished(run_with("first"));
    assert_eq!(c.press(Some('x')), Effect::InvalidNotice);
    assert_eq!(c.phase, Phase::AwaitingInput);
    assert_eq!(c.logs.outcomes.len(), 1);
    assert_eq!(c.press(None), Effect::InvalidNotice);
    assert_eq!(c.phase, Phase::AwaitingInput);
}

#[test]
fn show_logs_keeps_waiting() {
    let mut c = Console::new();
    c.run_finished(run_with("first"));
    assert_eq!(c.press(Some('H')), Effect::ShowLogs);
    assert_eq!(c.phase, Phase::AwaitingInput);
    assert_eq!(c.logs.records.len(), 1);
}

#[test]
fn terminal_keys() {
    for (k, e) in [('e', Effect::Leave), ('S', Effect::PowerOff), ('r', Effect::Restart), ('L', Effect::EndSession)] {
        let mut c = Console::new();
        c.run_finished(RunState::new());
        assert_eq!(c.press(Some(k)), e);
        assert_eq!(c.phase, Phase::Terminal);
    }
}

#[test]
fn keys_match_without_case() {
    assert_eq!(choice_of(Some('e')), Choice::Exit);
    assert_eq!(choice_of(Some('E')), Choice::Exit);
    assert_eq!(choice_of(Some('s')), Choice::Shutdown);
    assert_eq!(choice_of(Some('R')), Choice::Reboot);
    assert_eq!(choice_of(Some('l')), Choice::Logout);
    assert_eq!(choice_of(Some('T')), Choice::Retry);
    assert_eq!(choice_of(Some('h')), Choice::ShowLogs);
    assert_eq!(choice_of(Some('x')), Choice::Invalid);
    assert_eq!(choice_of(None), Choice::Invalid);
}

#[test]
fn preview_drops_trailing_blank_lines() {
    assert_eq!(preview_lines("pkg1\npkg2\n\n", &vec![]), strings(&["pkg1", "pkg2"]));
}

#[test]
fn preview_drops_blank_and_noise_lines() {
    let noise = strings(&["Listing...", "All snaps up to date."]);
    let raw = "Listing... Done\nfoo/stable 1.2\n   \t\nAll snaps up to date.\nbar/stable 3.4\n";
    assert_eq!(preview_lines(raw, &noise), strings(&["foo/stable 1.2", "bar/stable 3.4"]));
}

#[test]
fn preview_splits_crlf_lines() {
    assert_eq!(preview_lines("a\r\nb\r\n", &vec![]), strings(&["a", "b"]));
    assert_eq!(preview_lines("one", &vec![]), strings(&["one"]));
    assert!(preview_lines("", &vec![]).is_empty());
}

#[test]
fn blank_lines_and_whitespace() {
    assert!(is_blank(""));
    assert!(is_blank(" \t\u{a0}\u{3000}"));
    assert!(!is_blank("  x "));
    assert!(is_white_char('\u{2028}'));
    assert!(!is_white_char('\u{200b}'));
    assert!(keep_line("pkg", &vec![]));
    assert!(!keep_line("pkg Listing...", &strings(&["Listing..."])));
    assert!(!keep_line(" ", &vec![]));
}

#[test]
fn probe_results() {
    let noise = strings(&["Listing..."]);
    match classify_probe(true, "Listing...\npkg\n", "", &noise) {
        Preview::Pending(v) => assert_eq!(v, strings(&["pkg"])),
        _ => panic!("expected a list"),
    }
    match classify_probe(true, "Listing...\n", "", &noise) {
        Preview::Pending(v) => assert!(v.is_empty()),
        _ => panic!("expected a list"),
    }
    match classify_probe(false, "pkg\n", "denied", &noise) {
        Preview::Advisory(m) => assert_eq!(m, "denied"),
        _ => panic!("expected an advisory"),
    }
    assert!(matches!(classify_probe(true, "  \n", "", &noise), Preview::NothingPending));
    assert!(matches!(classify_probe(false, "pkg", "", &noise), Preview::NothingPending));
}

#[test]
fn log_view_skips_blank_streams() {
    let mut s = RunState::new();
    s.record_command(&"A".to_string(), strings(&["a1", "a2"]), strings(&["  "]), true, Some(0));
    s.record_command(&"B".to_string(), vec![], strings(&["boom"]), false, Some(2));
    let blocks = log_blocks(&s);
    assert_eq!(blocks.len(), 2);
    assert_eq!(blocks[0].command_name, "A");
    assert_eq!(blocks[0].origin, Origin::Stdout);
    assert_eq!(blocks[0].lines, strings(&["a1", "a2"]));
    assert_eq!(blocks[1].command_name, "B");
    assert_eq!(blocks[1].origin, Origin::Stderr);
    assert_eq!(blocks[1].lines, strings(&["boom"]));
    assert!(log_blocks(&RunState::new()).is_empty());
}

#[test]
fn preview_keeps_lone_carriage_return() {
    assert_eq!(preview_lines("x\r\ny\r", &vec![]), strings(&["x", "y\r"]));
    assert_eq!(preview_lines("\n\nz", &vec![]), strings(&["z"]));
}

#[test]
fn log_view_separates_commands_with_one_name() {
    let mut s = RunState::new();
    s.record_command(&"X".to_string(), strings(&["1"]), vec![], true, Some(0));
    s.record_command(&"X".to_string(), strings(&["2"]), vec![], true, Some(0));
    let blocks = log_blocks(&s);
    assert_eq!(blocks.len(), 2);
    assert_eq!(blocks[0].command_name, "X");
    assert_eq!(blocks[0].lines, strings(&["1"]));
    assert_eq!(blocks[1].command_name, "X");
    assert_eq!(blocks[1].lines, strings(&["2"]));
}
