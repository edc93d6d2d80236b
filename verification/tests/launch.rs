use dshl::flow::recovery::{ended, tick, Choice, Recovery, CRASH_COUNTDOWN};
use dshl::flow::launch::{
    find_url, ready_text, supervise, truncate_detail, DshExit, UrlWait, Wait, URL_TIMEOUT,
};
use dshl::process::child::{
    GracefulStop, Output, Polled, StopAction, Stream, STREAM_GRACE,
};
use dshl::progress::{set_url, CrashState, State};

#[test]
fn run_then_supervise_observes_immediate_crash() {
    let mut wait = UrlWait::new(URL_TIMEOUT);
    let (_, outcome) = wait.line("dsh web: http://127.0.0.1:61239", 20);
    match outcome {
        Wait::Ready(url) => {
            assert_eq!(url, "http://127.0.0.1:61239");
            assert_eq!(supervise(Some(3)), DshExit::Crash(3));
        },
        other => panic!("launch failed: {:?}", other),
    }
}

#[test]
fn supervise_clean_output_with_zero_exit_is_clean() {
    let mut stream = Stream::new();
    stream.feed_line("dsh web: http://127.0.0.1:9999\n", true);
    stream.process_done(Some(0), 10);
    stream.stream_done();
    stream.stream_done();
    match stream.poll(11) {
        Polled::Line(Output::Stdout(line)) => assert_eq!(line, "dsh web: http://127.0.0.1:9999"),
        other => panic!("expected a line, got {:?}", other),
    }
    assert!(matches!(stream.poll(11), Polled::Finished));
    let exit = supervise(stream.exit_code());
    assert_eq!(exit, DshExit::Clean);
}

#[test]
fn a_killed_dsh_is_a_crash() {
    assert_eq!(supervise(None), DshExit::Crash(-1));
}

#[test]
fn urls_are_found_in_the_middle_of_a_line() {
    assert_eq!(find_url("see \"https://[::1]:8080/x\""), Some("https://[::1]:8080".to_string()));
    assert_eq!(find_url("http://localhost/"), None);
    assert_eq!(find_url("nothing"), None);
    assert_eq!(
        find_url("a http://a:1 b http://b:2"),
        Some("http://a:1".to_string())
    );
}

#[test]
fn a_dsh_that_dies_without_a_url_fails_with_its_last_words() {
    let mut wait = UrlWait::new(URL_TIMEOUT);
    let (said, outcome) = wait.line("  boom \n", 5);
    assert_eq!(said, Some("boom".to_string()));
    assert!(matches!(outcome, Wait::Continue));
    let (said, _) = wait.line("   ", 6);
    assert_eq!(said, None);
    match wait.ended(Some(1)) {
        Wait::Failed(m) => {
            assert_eq!(m.key, "flow.launch.early_exit_detail");
            assert_eq!(
                m.args,
                vec![("code", "1".to_string()), ("detail", "boom".to_string())]
            );
        },
        other => panic!("expected a failure, got {:?}", other),
    }
}

#[test]
fn a_dsh_that_dies_silently_fails() {
    let wait = UrlWait::new(URL_TIMEOUT);
    match wait.quiet(false, false, Some(7), 500) {
        Wait::Failed(m) => {
            assert_eq!(m.key, "flow.launch.early_exit");
            assert_eq!(m.args, vec![("code", "7".to_string())]);
        },
        other => panic!("expected a failure, got {:?}", other),
    }
    match wait.ended(None) {
        Wait::Failed(m) => assert_eq!(m.args, vec![("code", "unknown".to_string())]),
        other => panic!("expected a failure, got {:?}", other),
    }
}

#[test]
fn a_silent_dsh_that_lives_is_waited_for_until_the_time_is_up() {
    let wait = UrlWait::new(3000);
    assert!(matches!(wait.quiet(false, true, None, 3000), Wait::Continue));
    match wait.quiet(false, true, None, 3001) {
        Wait::Failed(m) => {
            assert_eq!(m.key, "flow.launch.url_timeout");
            assert_eq!(m.args, vec![("secs", "3".to_string())]);
        },
        other => panic!("expected a failure, got {:?}", other),
    }
}

#[test]
fn the_output_of_an_exited_dsh_is_waited_for() {
    let wait = UrlWait::new(10);
    assert!(matches!(wait.quiet(true, false, Some(0), 99), Wait::Continue));
}

#[test]
fn the_first_url_ends_the_wait() {
    let mut wait = UrlWait::new(1000);
    for (line, at) in [("booting\n", 1), ("  \n", 2), ("plugins loaded\n", 3), ("\n", 4)] {
        assert!(matches!(wait.line(line, at).1, Wait::Continue));
    }
    assert_eq!(wait.last_line.as_deref(), Some("plugins loaded"));
    match wait.line("web: http://127.0.0.1:9 and http://127.0.0.1:8\n", 5).1 {
        Wait::Ready(url) => {
            assert_eq!(url, "http://127.0.0.1:9");
            assert_eq!(ready_text(&url), "dsh web: http://127.0.0.1:9");
        },
        other => panic!("expected the URL, got {:?}", other),
    }
}

#[test]
fn a_late_url_still_counts() {
    let mut wait = UrlWait::new(10);
    assert!(matches!(wait.line("http://127.0.0.1:1", 99).1, Wait::Ready(_)));
}

#[test]
fn details_are_cut() {
    assert_eq!(truncate_detail("short"), "short");
    let exact = "é".repeat(200);
    assert_eq!(truncate_detail(exact.as_str()), exact);
    let long = "é".repeat(201);
    assert_eq!(truncate_detail(long.as_str()), format!("{}…", exact));
}

#[test]
fn output_is_drained_in_order() {
    let mut stream = Stream::new();
    assert!(matches!(stream.poll(0), Polled::Pending));
    stream.feed_line("hello\r\n", true);
    stream.feed_line("world", false);
    stream.process_done(Some(0), 5);
    assert!(stream.has_exited());
    assert!(matches!(stream.poll(5), Polled::Line(Output::Stdout(l)) if l == "hello"));
    assert!(matches!(stream.poll(5), Polled::Line(Output::Stderr(l)) if l == "world"));
    assert!(matches!(stream.poll(5), Polled::Pending));
    stream.stream_done();
    stream.stream_done();
    assert!(matches!(stream.poll(6), Polled::Finished));
}

#[test]
fn verbose_output_drain_completes_promptly() {
    let mut stream = Stream::new();
    for i in 0..300 {
        stream.feed_line(format!("line {i}\n").as_str(), true);
    }
    stream.process_done(Some(0), 0);
    stream.stream_done();
    stream.stream_done();
    let mut lines = Vec::new();
    loop {
        match stream.poll(0) {
            Polled::Line(Output::Stdout(line)) => lines.push(line),
            Polled::Finished => break,
            other => panic!("expected a line or the end, got {:?}", other),
        }
    }
    assert_eq!(stream.exit_code(), Some(0));
    assert!(lines.len() >= 100, "expected a few hundred drained lines, got {}", lines.len());
    let expected: Vec<String> = (0..300).map(|i| format!("line {i}")).collect();
    assert_eq!(lines, expected);
}

#[test]
fn a_lingering_grandchild_does_not_hold_the_output_open() {
    let mut stream = Stream::new();
    stream.feed_line("hello", true);
    stream.process_done(Some(0), 100);
    assert!(matches!(stream.poll(100), Polled::Line(_)));
    assert!(matches!(stream.poll(100 + STREAM_GRACE - 1), Polled::Pending));
    assert!(matches!(stream.poll(100 + STREAM_GRACE), Polled::Finished));
    assert_eq!(stream.exit_code(), Some(0));
}

#[test]
fn a_child_is_stopped_with_patience() {
    let mut stop = GracefulStop::new(0, 10_000);
    assert_eq!(stop.tick(100, false), StopAction::Exited);
    assert!(matches!(stop.tick(600, true), StopAction::Wait { .. }));
    assert_eq!(stop.tick(20_000, true), StopAction::LeftRunning);
}

#[test]
fn a_crash_counts_down_to_a_restart() {
    let mut state = State::default();
    set_url(&mut state, "http://127.0.0.1:1");
    assert!(!ended(&mut state, DshExit::Crash(3)));
    assert_eq!(state.url, None);
    assert_eq!(state.crash, Some(CrashState { code: 3, countdown: CRASH_COUNTDOWN }));
    for left in (1..CRASH_COUNTDOWN).rev() {
        assert_eq!(tick(&mut state, Choice::Wait), Recovery::Counting);
        assert_eq!(state.crash, Some(CrashState { code: 3, countdown: left }));
    }
    assert_eq!(tick(&mut state, Choice::Wait), Recovery::Restart);
    assert_eq!(state.crash, None);
    assert_eq!(tick(&mut state, Choice::Wait), Recovery::Stopped);
}

#[test]
fn the_user_decides_about_a_restart() {
    let mut state = State::default();
    ended(&mut state, DshExit::Crash(-1));
    assert_eq!(tick(&mut state, Choice::Restart), Recovery::Restart);
    ended(&mut state, DshExit::Crash(-1));
    assert_eq!(tick(&mut state, Choice::Cancel), Recovery::Stopped);
    assert_eq!(tick(&mut state, Choice::Restart), Recovery::Stopped);
    assert!(ended(&mut state, DshExit::Clean));
    assert_eq!(state.crash, None);
}
