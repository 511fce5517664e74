use kogiasima::run::{Run, Turn, ALREADY_EXISTS};
use kogiasima::steps::{
    or_expect, or_fail, or_raise, or_report, say, split_vars, step, ActionOf, OldRootOf, OnErrorOf,
    OtherwiseOf, Program, Reply, ReplyOf, StatusOf, StepOf,
};

fn strings(list: &[&str]) -> Vec<String> {
    list.iter().map(|s| s.to_string()).collect()
}

fn failed(why: &str) -> Reply {
    ReplyOf::Failed { code: None, why: why.to_string() }
}

fn current(run: &Run) -> String {
    match run.current() {
        Some(action) => format!("{:?}", action),
        None => String::new(),
    }
}

fn go(run: Run, reply: Reply) -> Run {
    let turn: Turn = run.resume(reply);
    assert_eq!(turn.status, StatusOf::Going);
    assert_eq!(turn.said, Vec::<String>::new());
    turn.run
}

#[test]
fn steps_are_taken_in_order() {
    let program = Program::new()
        .with(say("one"))
        .with(say("two"))
        .followed_by(Program::new().with(say("three")));
    let mut run = Run::start(program);
    for word in ["one", "two", "three"] {
        assert_eq!(current(&run), format!("Print({:?})", word));
        run = go(run, ReplyOf::Done);
    }
    assert!(run.current().is_none());
    run = go(run, ReplyOf::Done);
    assert!(run.current().is_none());
}

#[test]
fn an_ignored_failure_is_passed_over() {
    let run = Run::start(
        Program::new().with(step(ActionOf::DeleteLink, OnErrorOf::Ignore)).with(say("next")),
    );
    let run = go(run, failed("gone"));
    assert_eq!(current(&run), "Print(\"next\")");
}

#[test]
fn a_reported_failure_is_told_with_its_reason() {
    let run = Run::start(
        Program::new().with(step(ActionOf::Fork, or_report("Fork failed"))).with(say("next")),
    );
    let turn = run.resume(failed("EAGAIN"));
    assert_eq!(turn.said, strings(&["Fork failed: EAGAIN"]));
    assert_eq!(turn.status, StatusOf::Going);
    assert_eq!(current(&turn.run), "Print(\"next\")");
}

#[test]
fn a_failure_ends_the_run_with_its_contexts() {
    let program = Program::new()
        .with(step(ActionOf::StartRuntime, or_fail("inner")))
        .with(say("never"))
        .context("outer")
        .note("a note");
    let turn = Run::start(program).resume(failed("why"));
    assert_eq!(turn.status, StatusOf::Failed(strings(&["inner", "outer"])));
    assert_eq!(turn.said, strings(&["a note"]));
    assert!(turn.run.current().is_none());
    let later = turn.run.resume(ReplyOf::Done);
    assert!(later.run.current().is_none());
    assert_eq!(later.said, Vec::<String>::new());
}

#[test]
fn a_failure_can_be_reported_as_well() {
    let error = OnErrorOf::Fail {
        contexts: Vec::new(),
        reports: strings(&["critical"]),
        notes: strings(&["note"]),
    };
    let turn = Run::start(Program::new().with(step(ActionOf::OpenNetlink, error)))
        .resume(failed("why"));
    assert_eq!(turn.said, strings(&["critical: why", "note"]));
    assert_eq!(turn.status, StatusOf::Failed(Vec::new()));
}

#[test]
fn an_expectation_or_an_unwrap_panics() {
    let turn = Run::start(Program::new().with(step(ActionOf::WaitCommand, or_expect("message"))))
        .resume(failed("why"));
    let message = Some("message".to_string());
    assert_eq!(turn.status, StatusOf::Panicked { message, why: "why".to_string() });
    assert!(turn.run.current().is_none());
    let turn = Run::start(
        Program::new().with(step(ActionOf::WaitChild, OnErrorOf::Unwrap)).with(say("never")),
    )
    .resume(failed("why"));
    assert_eq!(turn.status, StatusOf::Panicked { message: None, why: "why".to_string() });
    assert!(turn.run.current().is_none());
}

fn question() -> Run {
    let mut asking = step(ActionOf::Exists("/x".to_string()), OnErrorOf::Ignore);
    asking.no = OtherwiseOf::Skip(1);
    Run::start(Program::new().with(asking).with(say("there")).with(say("after")))
}

#[test]
fn answers_branch() {
    assert_eq!(current(&go(question(), ReplyOf::Present(true))), "Print(\"there\")");
    assert_eq!(current(&go(question(), ReplyOf::Present(false))), "Print(\"after\")");
    assert_eq!(current(&go(question(), ReplyOf::Content(" 1\n".to_string()))), "Print(\"there\")");
    assert_eq!(current(&go(question(), ReplyOf::Content("0\n".to_string()))), "Print(\"after\")");
    assert_eq!(current(&go(question(), ReplyOf::Content("11".to_string()))), "Print(\"after\")");
}

#[test]
fn a_missing_link_can_be_a_failure() {
    let find = || StepOf {
        action: ActionOf::FindLink("br0".to_string()),
        yes: 0,
        no: OtherwiseOf::Fail { contexts: strings(&["no link"]), notes: strings(&["note"]) },
        exists: None,
        error: or_raise(),
    };
    let turn = Run::start(Program::new().with(find()).with(say("x"))).resume(ReplyOf::Link(None));
    assert_eq!(turn.status, StatusOf::Failed(strings(&["no link"])));
    assert_eq!(turn.said, strings(&["note"]));
    let run = go(Run::start(Program::new().with(find()).with(say("x"))), ReplyOf::Link(Some(7)));
    assert_eq!(run.link, Some(7));
    assert_eq!(current(&run), "Print(\"x\")");
}

#[test]
fn what_exists_already_can_be_fine() {
    let add = || StepOf {
        action: ActionOf::AddBridge("br0".to_string()),
        yes: 1,
        no: OtherwiseOf::Skip(0),
        exists: Some(0),
        error: or_fail("refused"),
    };
    let start = || Run::start(Program::new().with(add()).with(say("old")).with(say("new")));
    let exists = ReplyOf::Failed { code: Some(ALREADY_EXISTS), why: "EEXIST".to_string() };
    assert_eq!(current(&go(start(), exists)), "Print(\"old\")");
    assert_eq!(current(&go(start(), ReplyOf::Done)), "Print(\"new\")");
    let other = ReplyOf::Failed { code: Some(-1), why: "EPERM".to_string() };
    assert_eq!(start().resume(other).status, StatusOf::Failed(strings(&["refused"])));
}

#[test]
fn skipping_stops_at_the_end() {
    let mut last = say("last");
    last.yes = 9;
    let run = go(Run::start(Program::new().with(last).with(say("x"))), ReplyOf::Done);
    assert!(run.current().is_none());
}

fn places(place: OldRootOf<String>, answer: bool) -> Vec<String> {
    let mut run = Run::start(
        Program::new().with(step(ActionOf::CurrentDir(place), or_expect("cwd"))).with(say("end")),
    );
    let mut seen = Vec::new();
    while let Some(action) = run.current() {
        seen.push(format!("{:?}", action));
        let reply = match action {
            ActionOf::CurrentDir(_) => ReplyOf::Directory("/home".to_string()),
            ActionOf::Exists(_) => ReplyOf::Present(answer),
            _ => ReplyOf::Done,
        };
        run = go(run, reply);
    }
    seen
}

#[test]
fn the_old_root_is_made_in_the_current_directory() {
    assert_eq!(
        places(OldRootOf::Inside("old_root/".to_string()), true)[1..],
        strings(&[
            "Print(\"cwd = /home\")",
            "Print(\"old_root = /home/old_root/\")",
            "Exists(\"/home/old_root/\")",
            "Print(\"removing old_root directory\")",
            "RemoveTree(\"/home/old_root/\")",
            "CreateTree(\"/home/old_root/\")",
            "Print(\"end\")",
        ])[..]
    );
}

#[test]
fn the_old_root_is_made_at_a_path() {
    assert_eq!(
        places(OldRootOf::At("/new/old_root".to_string()), false)[1..],
        strings(&[
            "Print(\"cwd = /home\")",
            "Print(\"old_root = /new/old_root\")",
            "Exists(\"/new/old_root\")",
            "CreateTree(\"/new/old_root\")",
            "Print(\"end\")",
        ])[..]
    );
}

#[test]
fn failures_about_the_old_root_panic() {
    let start = || {
        Run::start(Program::new().with(step(
            ActionOf::CurrentDir(OldRootOf::At("/p".to_string())),
            or_expect("Failed to get current working directory"),
        )))
    };
    let turn = start().resume(failed("ENOENT"));
    let message = Some("Failed to get current working directory".to_string());
    assert_eq!(turn.status, StatusOf::Panicked { message, why: "ENOENT".to_string() });
    let mut run = go(start(), ReplyOf::Directory("/".to_string()));
    run = go(run, ReplyOf::Done);
    run = go(run, ReplyOf::Done);
    run = go(run, ReplyOf::Present(false));
    let turn = run.resume(failed("EROFS"));
    let message = Some("Failed to create old root directory".to_string());
    assert_eq!(turn.status, StatusOf::Panicked { message, why: "EROFS".to_string() });
}

#[test]
fn a_tolerated_failure_leaves_out_the_rest() {
    let program = Program::new()
        .with(say("first"))
        .with(step(ActionOf::CreateTree("/c".to_string()), or_raise()))
        .with(say("left out"))
        .tolerate("no limits")
        .with(say("goes on"));
    let run = go(Run::start(program), ReplyOf::Done);
    let turn = run.resume(failed("EPERM"));
    assert_eq!(turn.said, strings(&["no limits: EPERM"]));
    assert_eq!(turn.status, StatusOf::Going);
    assert_eq!(current(&turn.run), "Print(\"goes on\")");
}

#[test]
fn warnings_come_line_by_line() {
    let program = Program::warn(&strings(&["a", "b"]));
    let run = Run::start(program);
    assert_eq!(current(&run), "Warn(\"a\")");
    let run = go(run, ReplyOf::Done);
    assert_eq!(current(&run), "Warn(\"b\")");
    assert!(go(run, ReplyOf::Done).current().is_none());
}

#[test]
fn variables_without_an_equals_sign_are_passed_over() {
    let vars = strings(&["A=1", "nothing", "B=x=y", "A=2"]);
    let expected: Vec<(String, String)> = [("A", "1"), ("B", "x=y"), ("A", "2")]
        .iter()
        .map(|(k, v)| (k.to_string(), v.to_string()))
        .collect();
    assert_eq!(split_vars(&vars), expected);
}
