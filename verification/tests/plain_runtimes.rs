use kogiasima::basic::{bundle, environment};
use kogiasima::basic::environment::{Refusal, Variables};
use kogiasima::config::{OciConfig, ProcessConfig, RootConfig};
use kogiasima::session::{Progress, Session, Stage};
use kogiasima::steps::{ActionOf, Reply, ReplyOf, StatusOf};
use nix::sched::CloneFlags;

fn strings(list: &[&str]) -> Vec<String> {
    list.iter().map(|s| s.to_string()).collect()
}

fn variables() -> Variables {
    Variables {
        chroot_path: Some("/srv/root".to_string()),
        max_pid: Some("5".to_string()),
        max_memory: None,
    }
}

fn from_environment(args: &[&str]) -> environment::Container {
    match environment::Container::build(strings(args), variables()) {
        Ok(container) => container,
        Err(_) => panic!("no container"),
    }
}

fn config() -> OciConfig {
    OciConfig {
        oci_version: "1.0.2".to_string(),
        process: ProcessConfig {
            args: strings(&["/bin/ls", "-l"]),
            env: strings(&["A=1"]),
            cwd: "/".to_string(),
            hostname: None,
        },
        root: RootConfig { path: "rootfs".to_string(), readonly: true },
        linux: None,
    }
}

fn from_bundle() -> bundle::Container {
    bundle::Container::build_from_bundle("/b", bundle::ConfigFile::Parsed(config())).ok().unwrap()
}

#[test]
fn arguments_and_variables_describe_a_container() {
    let container = from_environment(&["/bin/sh", "-c", "id"]);
    assert_eq!(container.container_command, "/bin/sh");
    assert_eq!(container.args, strings(&["-c", "id"]));
    assert_eq!(container.chroot_path, "/srv/root");
    assert_eq!(container.cgroup_config.max_pid, "5");
    assert_eq!(container.cgroup_config.max_memory, "max");
}

#[test]
fn a_container_needs_a_command() {
    let nothing = Variables { chroot_path: None, max_pid: None, max_memory: None };
    match environment::Container::build(Vec::new(), nothing) {
        Err(Refusal::Arguments(message)) => {
            assert_eq!(message, "You must provide a command to run in the container");
        }
        _ => panic!("not refused"),
    }
}

#[test]
fn a_container_needs_a_root() {
    let mut variables = variables();
    variables.chroot_path = None;
    match environment::Container::build(strings(&["sh"]), variables) {
        Err(Refusal::Exit { message, code }) => {
            assert_eq!(message, "error: MINI_DOCKER_CHROOT environment variable is not set");
            assert_eq!(code, 1);
        }
        _ => panic!("not refused"),
    }
}

#[test]
fn a_bundle_describes_a_container() {
    assert_eq!(bundle::config_path("/b"), "/b/config.json");
    let container = from_bundle();
    assert_eq!(container.container_command, "/bin/ls");
    assert_eq!(container.args, strings(&["-l"]));
    assert_eq!(container.chroot_path, "/b/rootfs");
    assert_eq!(container.cgroup_config.max_pid, "max");
    assert_eq!(container.cgroup_config.max_memory, "max");
    assert_eq!(container.env_vars, strings(&["A=1"]));
    assert_eq!(container.cwd, "/");
}

#[test]
fn a_bundle_without_a_configuration_is_refused() {
    let refusal = |file| bundle::Container::build_from_bundle("/b", file).err().unwrap();
    assert_eq!(
        refusal(bundle::ConfigFile::Unopened("No such file".to_string())),
        "Failed to open config.json: No such file"
    );
    assert_eq!(
        refusal(bundle::ConfigFile::Unparsed("EOF".to_string())),
        "Parsing OCI config failed: EOF"
    );
}

/// Runs a session to its end or its next fork, with all going well.
fn drive(
    resume: &dyn Fn(Session, Reply) -> Progress,
    session: Session,
) -> (Vec<String>, Session) {
    let mut session = session;
    let mut seen = Vec::new();
    loop {
        let reply = match session.run.current() {
            None | Some(ActionOf::Fork) => return (seen, session),
            Some(action) => {
                seen.push(format!("{:?}", action));
                match action {
                    ActionOf::CurrentDir(_) => ReplyOf::Directory("/srv/root".to_string()),
                    ActionOf::Exists(_) => ReplyOf::Present(true),
                    _ => ReplyOf::Done,
                }
            }
        };
        let progress = resume(session, reply);
        assert_eq!(progress.status, StatusOf::Going);
        session = progress.session;
    }
}

fn host_actions(wake: bool) -> Vec<String> {
    let group = "/sys/fs/cgroup/minidocker-8";
    let mut expected = vec![
        "Print(\"Continuing execution in parent process, new child has pid: 8\")".to_string(),
        "AwaitReady".to_string(),
        "Print(\"[cgroup] Initializing limits for child process: 8\")".to_string(),
        format!("Print(\"[cgroup] Creating directory at: \\\"{group}\\\"\")"),
        format!("CreateTree(\"{group}\")"),
        "Sleep(50)".to_string(),
    ];
    if !wake {
        expected.remove(1);
    }
    let limit = if wake { "max" } else { "5" };
    expected.push(format!("Print(\"[cgroup] Configuring pids.max -> {limit}\")"));
    expected.push(format!("WriteFile {{ path: \"{group}/pids.max\", contents: \"{limit}\" }}"));
    expected.push("Print(\"[cgroup] Configuring memory.max -> max\")".to_string());
    expected.push(format!("WriteFile {{ path: \"{group}/memory.max\", contents: \"max\" }}"));
    expected.push("Print(\"[cgroup] Attaching PID 8 to cgroup.procs\")".to_string());
    expected.push(format!("WriteFile {{ path: \"{group}/cgroup.procs\", contents: \"8\" }}"));
    expected.push("Print(\"[cgroup] Resource boundaries successfully active.\")".to_string());
    if wake {
        expected.push("WakeChild".to_string());
    }
    expected.push("WaitChild".to_string());
    expected.push("Print(\"cleaning up cgroup for child process 8\")".to_string());
    expected.push(format!("Exists(\"{group}\")"));
    expected.push(format!("Exists(\"{group}/cgroup.kill\")"));
    expected.push("Print(\"killing any remaining processes in cgroup\")".to_string());
    expected.push(format!("WriteFile {{ path: \"{group}/cgroup.kill\", contents: \"1\" }}"));
    expected.push("Sleep(50)".to_string());
    expected.push(format!("Print(\"removing cgroup directory at: {group}\")"));
    expected.push(format!("RemoveDir(\"{group}\")"));
    expected
}

#[test]
fn the_host_side_of_arguments() {
    let container = from_environment(&["sh"]);
    let resume = |session, reply| container.resume(session, reply);
    let (seen, session) = drive(&resume, container.run());
    assert_eq!(seen, Vec::<String>::new());
    let session = resume(session, ReplyOf::Parent(8)).session;
    assert_eq!(session.stage, Stage::Host);
    assert_eq!(drive(&resume, session).0, host_actions(false));
}

#[test]
fn the_host_side_of_a_bundle() {
    let container = from_bundle();
    let resume = |session, reply| container.resume(session, reply);
    let (seen, session) = drive(&resume, container.run());
    assert_eq!(seen, strings(&["OpenPipe", "OpenReadyPipe"]));
    let session = resume(session, ReplyOf::Parent(8)).session;
    assert_eq!(drive(&resume, session).0, host_actions(true));
}

#[test]
fn limits_that_fail_do_not_stop_the_container() {
    let container = from_bundle();
    let resume = |session, reply| container.resume(session, reply);
    let (_, session) = drive(&resume, container.run());
    let mut session = resume(session, ReplyOf::Parent(8)).session;
    while !matches!(session.run.current(), Some(ActionOf::CreateTree(_))) {
        session = resume(session, ReplyOf::Done).session;
    }
    let why = "EROFS".to_string();
    let progress = resume(session, ReplyOf::Failed { code: None, why });
    assert_eq!(progress.said, strings(&["failed to setup cgroup for child process: EROFS"]));
    assert_eq!(progress.status, StatusOf::Going);
    assert_eq!(progress.session.run.current(), Some(&ActionOf::WakeChild));
}

#[test]
fn the_child_of_either() {
    let flags =
        CloneFlags::CLONE_NEWUTS | CloneFlags::CLONE_NEWPID | CloneFlags::CLONE_NEWNS;
    let unshare = format!("Unshare({})", flags.bits());
    let private = "Mount { source: None, target: \"/\", kind: None, mode: Private }";

    let container = from_environment(&["sh"]);
    let resume = |session, reply| container.resume(session, reply);
    let (_, session) = drive(&resume, container.run());
    let (seen, session) = drive(&resume, resume(session, ReplyOf::Child).session);
    assert_eq!(seen, strings(&[&unshare, private]));
    let (seen, _) = drive(&resume, resume(session, ReplyOf::Parent(2)).session);
    assert_eq!(seen, strings(&["WaitChild", "ExitNow(0)"]));

    let container = from_bundle();
    let resume = |session, reply| container.resume(session, reply);
    let (_, session) = drive(&resume, container.run());
    let (seen, session) = drive(&resume, resume(session, ReplyOf::Child).session);
    assert_eq!(seen, strings(&[&unshare, "SignalReady", "AwaitWake", private]));
    let why = "EAGAIN".to_string();
    let progress = resume(session, ReplyOf::Failed { code: None, why });
    assert_eq!(progress.said, strings(&["Fork failed: EAGAIN"]));
    assert_eq!(progress.session.run.current(), Some(&ActionOf::Exit(1)));
}

fn inside(old_root: &str, spawn: &str) -> Vec<String> {
    let mut expected = vec![format!("Print(\"old_root = {old_root}\")")];
    expected.push(format!("Exists(\"{old_root}\")"));
    expected.push("Print(\"removing old_root directory\")".to_string());
    expected.push(format!("RemoveTree(\"{old_root}\")"));
    expected.push(format!("CreateTree(\"{old_root}\")"));
    expected.extend(strings(&[
        "PivotRoot { new_root: \".\", put_old: \"old_root\" }",
        "ChangeDir(\"/\")",
        "Detach(\"/old_root\")",
        "RemoveTree(\"/old_root\")",
        "ChangeRoot(\"/\")",
        "ChangeDir(\"/\")",
        "Print(\"Pivot root setup complete\")",
        "SetHostname(\"mini-docker\")",
        "Print(\"Mounting proc, sys, and dev filesystems...\")",
        "Mount { source: Some(\"proc\"), target: \"/proc\", kind: Some(\"proc\"), mode: Plain }",
        "Mount { source: Some(\"sysfs\"), target: \"/sys\", kind: Some(\"sysfs\"), mode: Plain }",
        "Mount { source: Some(\"devtmpfs\"), target: \"/dev\", kind: Some(\"devtmpfs\"), mode: Plain }",
        spawn,
        "WaitCommand",
        "Print(\"Unmounting proc, sys, and dev filesystems...\")",
        "Unmount(\"/proc\")",
        "Unmount(\"/sys\")",
        "Unmount(\"/dev\")",
        "Print(\"Unmounted proc, sys, and dev filesystems\")",
        "ExitNow(0)",
    ]));
    expected
}

fn workload(resume: &dyn Fn(Session, Reply) -> Progress, start: Session) -> Vec<String> {
    let (_, session) = drive(resume, start);
    let (_, session) = drive(resume, resume(session, ReplyOf::Child).session);
    let session = resume(session, ReplyOf::Child).session;
    assert_eq!(session.stage, Stage::Workload);
    drive(resume, session).0
}

#[test]
fn the_workload_of_arguments() {
    let container = from_environment(&["sh", "-c", "id"]);
    let seen = workload(&|session, reply| container.resume(session, reply), container.run());
    assert_eq!(
        seen[..5],
        strings(&[
            "Print(\"Setting up pivot root to: /srv/root\")",
            "ChangeDir(\"/srv/root\")",
            "Mount { source: Some(\"/srv/root\"), target: \"/srv/root\", kind: None, mode: Bind }",
            "CurrentDir(Inside(\"old_root/\"))",
            "Print(\"cwd = /srv/root\")",
        ])[..]
    );
    let spawn = "Spawn(Command { program: \"sh\", args: [\"-c\", \"id\"], env: [], cwd: None })";
    assert_eq!(seen[5..], inside("/srv/root/old_root/", spawn)[..]);
}

#[test]
fn a_single_argument_is_handed_on() {
    let container = from_environment(&["ls", "-l"]);
    let seen = workload(&|session, reply| container.resume(session, reply), container.run());
    let spawn = "Spawn(Command { program: \"ls\", args: [\"-l\"], env: [], cwd: None })";
    assert!(seen.contains(&spawn.to_string()));
    let container = from_environment(&["ls"]);
    let seen = workload(&|session, reply| container.resume(session, reply), container.run());
    let spawn = "Spawn(Command { program: \"ls\", args: [], env: [], cwd: None })";
    assert!(seen.contains(&spawn.to_string()));
}

#[test]
fn the_workload_of_a_bundle() {
    let container = from_bundle();
    let seen = workload(&|session, reply| container.resume(session, reply), container.run());
    assert_eq!(seen[3], "CurrentDir(At(\"/b/rootfs/old_root\"))");
    let spawn = "Spawn(Command { program: \"/bin/ls\", args: [\"-l\"], env: [(\"A\", \"1\")], cwd: Some(\"/\") })";
    assert_eq!(seen[5..], inside("/b/rootfs/old_root", spawn)[..]);
}

#[test]
fn a_bundle_whose_root_cannot_be_bound_panics() {
    let status = |resume: &dyn Fn(Session, Reply) -> Progress, start: Session| {
        let (_, session) = drive(resume, start);
        let (_, session) = drive(resume, resume(session, ReplyOf::Child).session);
        let mut session = resume(session, ReplyOf::Child).session;
        while !matches!(session.run.current(), Some(ActionOf::Mount { .. })) {
            session = resume(session, ReplyOf::Done).session;
        }
        let why = "EPERM".to_string();
        let progress = resume(session, ReplyOf::Failed { code: None, why });
        (progress.said, progress.status)
    };
    let container = from_bundle();
    let (_, found) = status(&|session, reply| container.resume(session, reply), container.run());
    let message = Some("CRITICAL: Failed to bind mount pivot root path".to_string());
    assert_eq!(found, StatusOf::Panicked { message, why: "EPERM".to_string() });
    let container = from_environment(&["sh"]);
    let (said, found) = status(&|session, reply| container.resume(session, reply), container.run());
    assert_eq!(said, strings(&["Failed to bind mount pivot root path: EPERM"]));
    assert_eq!(found, StatusOf::Going);
}

#[test]
fn a_host_goes_on_without_a_child_that_has_ended() {
    let container = from_bundle();
    let resume = |session, reply| container.resume(session, reply);
    let (_, session) = drive(&resume, container.run());
    let session = resume(session, ReplyOf::Parent(8)).session;
    let session = resume(session, ReplyOf::Done).session;
    assert_eq!(session.run.current(), Some(&ActionOf::AwaitReady));
    let progress = resume(session, ReplyOf::Present(false));
    assert_eq!(progress.status, StatusOf::Going);
    assert_eq!(drive(&resume, progress.session).0, host_actions(true)[2..]);
    let (_, session) = drive(&resume, container.run());
    let session = resume(session, ReplyOf::Parent(8)).session;
    let session = resume(session, ReplyOf::Done).session;
    let why = "EIO".to_string();
    let progress = resume(session, ReplyOf::Failed { code: None, why: why.clone() });
    assert_eq!(progress.status, StatusOf::Panicked { message: None, why });
}
