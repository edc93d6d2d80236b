use dshl::control::{
    answer, apply_pending_profile, dispatch, endpoint_url, greet, inject_env, inspect,
    override_profile_flags, serve, start, take_pending_profile, terminal_error, Action, Connection,
    Endpoint, Frame, Greeting, Incoming, Phase, Reply, Response, Served, Step, CONTROL_ENV,
    MAX_FRAME_BYTES,
};
use dshl::process::command::Cmd;

#[test]
fn ping_dispatch_answers() {
    let action = dispatch("ping", &None).expect("ping should succeed");
    assert_eq!(action, Action::Ping);
    let r = answer(1, &action, Ok(()), "1.2.3");
    assert_eq!(
        r,
        Response { id: 1, result: Some(Reply::Pong { version: "1.2.3".to_string() }), error: None }
    );
}

#[test]
fn unknown_method_is_an_error() {
    let result = dispatch("nope", &None);
    assert!(result.is_err());
    assert_eq!(result, Err("unknown method: nope".to_string()));
}

#[test]
fn open_terminal_dispatch_answers() {
    let result = dispatch("open-terminal", &None);
    assert!(result.is_ok(), "open-terminal should succeed");
    assert_eq!(
        result,
        Ok(Action::OpenTerminal),
        "open-terminal must invoke the terminal action"
    );
}

#[test]
fn restart_dispatch_relaunches() {
    let result = dispatch("restart", &None);
    assert!(result.is_ok(), "restart should succeed");
    assert_eq!(result, Ok(Action::Restart), "restart must invoke the restart action");
}

#[test]
fn override_replaces_existing_profile() {
    let flags = vec!["--profile".into(), "web".into(), "--port".into(), "0".into()];
    let out = override_profile_flags(flags, "desktop");
    assert_eq!(
        out,
        vec![
            "--profile".to_string(),
            "desktop".to_string(),
            "--port".to_string(),
            "0".to_string()
        ]
    );
}

#[test]
fn override_appends_when_absent() {
    let flags = vec!["--host".into(), "127.0.0.1".into()];
    let out = override_profile_flags(flags, "desktop");
    assert_eq!(
        out,
        vec![
            "--host".to_string(),
            "127.0.0.1".to_string(),
            "--profile".to_string(),
            "desktop".to_string()
        ]
    );
}

#[test]
fn override_keeps_first_profile_value() {
    let flags = vec!["--profile".into(), "web".into(), "--profile".into(), "other".into()];
    let out = override_profile_flags(flags, "desktop");
    assert_eq!(
        out,
        vec![
            "--profile".to_string(),
            "desktop".to_string(),
            "--profile".to_string(),
            "other".to_string()
        ]
    );
}

#[test]
fn inject_env_sets_control_url() {
    let mut slot: Option<Endpoint> = None;
    start(&mut slot, 4321);
    let mut cmd = Cmd::new("echo");
    inject_env(&mut cmd, &slot);
    let url = endpoint_url(&slot).expect("endpoint url");
    let mut seen = false;
    for (key, value) in &cmd.envs {
        if key == CONTROL_ENV {
            seen = true;
            assert_eq!(*value, url);
        }
    }
    assert!(seen, "DSHL_CONTROL_URL must be injected into the dsh command");
}

#[test]
fn rejects_wrong_hello_token() {
    let mut slot: Option<Endpoint> = None;
    start(&mut slot, 4321);
    let hello = Frame::Hello { token: "wrong-token".to_string() };
    match greet(40, Some(hello), &slot) {
        Greeting::Refuse(r) => assert_eq!(r.error, Some("bad token".to_string())),
        other => panic!("expected a refusal, got {:?}", other),
    }
}

/// One connection from the handshake to an unknown method.
#[test]
fn a_connection_is_served_from_hello_to_an_unknown_method() {
    let mut slot: Option<Endpoint> = None;
    start(&mut slot, 4321);
    let url = endpoint_url(&slot).expect("endpoint url");
    let rest = url.strip_prefix("dshl://").expect("dshl:// prefix");
    let (token, hostport) = rest.split_once('@').expect("token@hostport");
    assert_eq!(hostport, "127.0.0.1:4321");

    let hello = Frame::Hello { token: token.to_string() };
    assert!(matches!(greet(60, Some(hello), &slot), Greeting::Accept));

    let request = |id: u64, method: &str, name: Option<&str>| Frame::Request {
        id,
        method: method.to_string(),
        name: name.map(|n| n.to_string()),
    };
    let perform = |frame: Frame| match serve(Some(frame)) {
        Served::Perform(id, action) => answer(id, &action, Ok(()), "0.1.0"),
        Served::Reply(r) => r,
    };

    let r = perform(request(1, "ping", None));
    assert_eq!(r.id, 1);
    assert_eq!(r.result, Some(Reply::Pong { version: "0.1.0".to_string() }));

    let r = perform(request(2, "switch-profile", Some("desktop")));
    assert_eq!(r.id, 2);
    assert_eq!(r.result, Some(Reply::Pending { name: "desktop".to_string() }));

    let r = perform(request(3, "shutdown", None));
    assert_eq!(r.id, 3);
    assert_eq!(r.result, Some(Reply::Done));

    let r = perform(request(4, "nope", None));
    assert_eq!(r.id, 4);
    assert!(r.error.is_some());
    assert_eq!(r.result, None);
}

#[test]
fn tokens_are_fresh_and_the_endpoint_stays() {
    let mut a: Option<Endpoint> = None;
    let mut b: Option<Endpoint> = None;
    start(&mut a, 1);
    start(&mut b, 1);
    let first = a.as_ref().unwrap().token.clone();
    assert_eq!(first.len(), 32);
    assert_eq!(&first[12..13], "4");
    assert!(first.chars().all(|c| c.is_ascii_digit() || ('a'..='f').contains(&c)));
    assert_ne!(first, b.as_ref().unwrap().token);
    start(&mut a, 2);
    assert_eq!(a.as_ref().unwrap().token, first);
    assert_eq!(a.as_ref().unwrap().port, 1);
    assert_eq!(endpoint_url(&a), Some(format!("dshl://{}@127.0.0.1:1", first)));
    assert_eq!(endpoint_url(&None), None);
}

#[test]
fn without_an_endpoint_nothing_is_injected() {
    let mut cmd = Cmd::new("echo");
    inject_env(&mut cmd, &None);
    assert!(cmd.envs.is_empty());
}

#[test]
fn the_handshake_comes_first() {
    let slot = Some(Endpoint { port: 1, token: "secret".to_string() });
    match greet(10, None, &slot) {
        Greeting::Refuse(r) => assert_eq!(r.error.as_deref(), Some("expected hello")),
        other => panic!("expected a refusal, got {:?}", other),
    }
    let request = Frame::Request { id: 9, method: "ping".to_string(), name: None };
    match greet(10, Some(request), &slot) {
        Greeting::Refuse(r) => {
            assert_eq!(r.id, 0);
            assert_eq!(r.error.as_deref(), Some("expected hello"));
        },
        other => panic!("expected a refusal, got {:?}", other),
    }
    let hello = || Some(Frame::Hello { token: "secret".to_string() });
    assert!(matches!(greet(MAX_FRAME_BYTES, hello(), &slot), Greeting::Accept));
    assert!(matches!(greet(MAX_FRAME_BYTES + 1, hello(), &slot), Greeting::Close));
    assert!(matches!(greet(10, hello(), &None), Greeting::Close));
}

#[test]
fn lines_are_looked_at_before_they_are_parsed() {
    assert!(matches!(inspect("  \t"), Incoming::Blank));
    match inspect(" {} \r") {
        Incoming::Text(t) => assert_eq!(t, "{}"),
        other => panic!("expected a text, got {:?}", other),
    }
    let long = "x".repeat(MAX_FRAME_BYTES + 1);
    match inspect(long.as_str()) {
        Incoming::TooLarge(r) => assert_eq!(r.error.as_deref(), Some("frame too large")),
        other => panic!("expected a refusal, got {:?}", other),
    }
    let fits = "x".repeat(MAX_FRAME_BYTES);
    assert!(matches!(inspect(fits.as_str()), Incoming::Text(_)));
}

#[test]
fn only_requests_are_served() {
    match serve(None) {
        Served::Reply(r) => assert_eq!(r.error.as_deref(), Some("invalid frame")),
        other => panic!("expected a reply, got {:?}", other),
    }
    match serve(Some(Frame::Hello { token: "t".to_string() })) {
        Served::Reply(r) => assert_eq!(r.error.as_deref(), Some("expected request")),
        other => panic!("expected a reply, got {:?}", other),
    }
    assert_eq!(
        dispatch("switch-profile", &None),
        Err("switch-profile requires a string `name`".to_string())
    );
    assert_eq!(dispatch("shutdown", &None), Ok(Action::Shutdown));
}

#[test]
fn failed_actions_are_answered_with_their_error() {
    let error = terminal_error(false, "no terminal emulator found");
    assert_eq!(error, "open-terminal: no terminal emulator found");
    let r = answer(7, &Action::OpenTerminal, Err(error.clone()), "0.1.0");
    assert_eq!(r, Response { id: 7, result: None, error: Some(error) });
    assert_eq!(
        terminal_error(true, "gone"),
        "open-terminal: no working directory (gone)"
    );
}

#[test]
fn the_chosen_profile_is_booted_once() {
    assert_eq!(take_pending_profile(&Some(" desktop \n".to_string())), Some("desktop".to_string()));
    assert_eq!(take_pending_profile(&Some(" \n".to_string())), None);
    assert_eq!(take_pending_profile(&None), None);
    let flags = || vec!["--profile".to_string(), "web".to_string()];
    assert_eq!(
        apply_pending_profile(flags(), &Some("desktop".to_string())),
        vec!["--profile".to_string(), "desktop".to_string()]
    );
    assert_eq!(apply_pending_profile(flags(), &None), flags());
}

#[test]
fn a_profile_flag_without_a_value_gets_one() {
    let out = override_profile_flags(vec!["--profile".to_string()], "desktop");
    assert_eq!(out.last().map(|s| s.as_str()), Some("desktop"));
}

#[test]
fn a_connection_is_served_after_the_token_only() {
    let slot = Some(Endpoint { port: 1, token: "secret".to_string() });
    let hello = |token: &str| Some(Frame::Hello { token: token.to_string() });
    let ping = || Some(Frame::Request { id: 3, method: "ping".to_string(), name: None });

    let mut good = Connection::new();
    assert!(matches!(good.line("{hello}\n", hello("secret"), &slot), Step::Wait));
    assert_eq!(good.phase, Phase::Serving);
    assert!(matches!(good.line(" \n", None, &slot), Step::Wait));
    assert!(matches!(good.line("{ping}\n", ping(), &slot), Step::Perform(3, Action::Ping)));
    match good.line("nonsense\n", None, &slot) {
        Step::Send(r) => assert_eq!(r.error.as_deref(), Some("invalid frame")),
        other => panic!("expected a reply, got {:?}", other),
    }
    let long = "x".repeat(MAX_FRAME_BYTES + 1);
    match good.line(long.as_str(), ping(), &slot) {
        Step::Send(r) => assert_eq!(r.error.as_deref(), Some("frame too large")),
        other => panic!("expected a reply, got {:?}", other),
    }
    assert!(matches!(good.line("{ping}\n", ping(), &slot), Step::Perform(3, Action::Ping)));

    let mut bad = Connection::new();
    match bad.line("{hello}\n", hello("wrong"), &slot) {
        Step::Refuse(r) => assert_eq!(r.error.as_deref(), Some("bad token")),
        other => panic!("expected a refusal, got {:?}", other),
    }
    assert_eq!(bad.phase, Phase::Closed);
    assert!(matches!(bad.line("{hello}\n", hello("secret"), &slot), Step::Close));
    assert!(matches!(bad.line("{ping}\n", ping(), &slot), Step::Close));
}

#[test]
fn the_endpoint_stays_where_it_was_started() {
    let mut slot = None;
    assert_eq!(endpoint_url(&slot), None);
    start(&mut slot, 4242);
    let url = endpoint_url(&slot).expect("a descriptor");
    let token = slot.as_ref().unwrap().token.clone();
    assert!(!token.is_empty() && !token.contains('@'));
    assert_eq!(url, format!("dshl://{token}@127.0.0.1:4242"));
    start(&mut slot, 4243);
    assert_eq!(endpoint_url(&slot), Some(url));
}
