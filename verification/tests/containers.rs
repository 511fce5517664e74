use kogiasima::config::{
    LinuxConfig, LinuxResources, MemoryLimit, NamespaceConfig, OciConfig, PidLimit, ProcessConfig,
    RootConfig,
};
use kogiasima::container::process::{cleanup_cgroup, setup_cgroup, unmount_setup};
use kogiasima::container::Container;
use kogiasima::namespaces::{
    flags_for, flags_named, lower_names, namespace, warnings_for, warnings_named, Namespace,
};
use kogiasima::run::Run;
use kogiasima::session::{Session, Stage};
use kogiasima::steps::{ActionOf, Program, Reply, ReplyOf, StatusOf};
use nix::sched::CloneFlags;

const ID: u128 = 0x0123_4567_89ab_4cde_8f01_2345_6789_abcd;

fn strings(list: &[&str]) -> Vec<String> {
    list.iter().map(|s| s.to_string()).collect()
}

fn config() -> OciConfig {
    OciConfig {
        oci_version: "1.0.2".to_string(),
        process: ProcessConfig {
            args: strings(&["/bin/sh", "-c", "id"]),
            env: strings(&["TERM=xterm", "odd", "A=b=c"]),
            cwd: "/tmp".to_string(),
            hostname: Some("box".to_string()),
        },
        root: RootConfig { path: "rootfs".to_string(), readonly: false },
        linux: Some(LinuxConfig {
            namespaces: ["pid", "NETWORK", "time", "Mount", "uts", "pid"]
                .iter()
                .map(|ns| NamespaceConfig { ns_type: ns.to_string(), path: None })
                .collect(),
            cgroups_path: None,
            resources: Some(LinuxResources {
                pids: Some(PidLimit { limit: 30 }),
                memory: Some(MemoryLimit { limit: Some(104_857_600) }),
            }),
        }),
    }
}

fn container() -> Container {
    match Container::from_config("/bundle", config(), ID) {
        Ok(container) => container,
        Err(why) => panic!("{}", why),
    }
}

#[test]
fn a_configuration_describes_a_container() {
    let container = container();
    assert_eq!(container.container_command, "/bin/sh");
    assert_eq!(container.args, strings(&["-c", "id"]));
    assert_eq!(container.chroot_path, "/bundle/rootfs");
    assert!(!container.readonly);
    assert_eq!(container.cgroup_config.max_pid, "30");
    assert_eq!(container.cgroup_config.max_memory, "104857600");
    assert_eq!(container.hostname, "box");
    assert_eq!(container.namespaces, strings(&["pid", "NETWORK", "time", "Mount", "uts", "pid"]));
    assert_eq!(container.env_vars, strings(&["TERM=xterm", "odd", "A=b=c"]));
    assert_eq!(container.cwd, "/tmp");
    assert_eq!(container.id, ID);
}

#[test]
fn an_absolute_root_stays_where_it_is() {
    let mut config = config();
    config.root.path = "/srv/alpine".to_string();
    let container = Container::from_config("/bundle", config, ID).ok().unwrap();
    assert_eq!(container.chroot_path, "/srv/alpine");
}

#[test]
fn missing_limits_are_no_limits() {
    let limits = |change: fn(&mut LinuxConfig)| {
        let mut config = config();
        change(config.linux.as_mut().unwrap());
        let container = Container::from_config("/bundle", config, ID).ok().unwrap();
        (container.cgroup_config.max_pid, container.cgroup_config.max_memory)
    };
    let max = || "max".to_string();
    assert_eq!(limits(|linux| linux.resources = None), (max(), max()));
    assert_eq!(
        limits(|linux| linux.resources.as_mut().unwrap().pids = None),
        (max(), "104857600".to_string())
    );
    assert_eq!(
        limits(|linux| linux.resources.as_mut().unwrap().memory = None),
        ("30".to_string(), max())
    );
    assert_eq!(
        limits(|linux| {
            linux.resources.as_mut().unwrap().memory = Some(MemoryLimit { limit: None })
        }),
        ("30".to_string(), max())
    );
    assert_eq!(
        limits(|linux| {
            linux.resources.as_mut().unwrap().pids = Some(PidLimit { limit: -1 })
        }),
        ("-1".to_string(), "104857600".to_string())
    );
}

#[test]
fn a_configuration_without_a_hostname_is_refused() {
    let mut config = config();
    config.process.hostname = None;
    config.process.args = Vec::new();
    config.linux = None;
    let refused = Container::build_from_bundle("/bundle", config);
    assert_eq!(refused.err().unwrap(), "failed to get hostname from config file");
}

#[test]
fn containers_get_random_ids() {
    let a = Container::build_from_bundle("/bundle", config()).ok().unwrap();
    let b = Container::build_from_bundle("/bundle", config()).ok().unwrap();
    assert_ne!(a.id, b.id);
    for id in [a.id, b.id] {
        assert_eq!((id >> 76) & 0xf, 4);
        assert_eq!((id >> 62) & 3, 2);
    }
}

#[test]
fn namespaces_have_names() {
    for (name, kind) in [
        ("uts", Namespace::Uts),
        ("pid", Namespace::Pid),
        ("mount", Namespace::Mount),
        ("network", Namespace::Network),
        ("ipc", Namespace::Ipc),
        ("user", Namespace::User),
        ("cgroup", Namespace::Cgroup),
    ] {
        assert_eq!(namespace(name), Some(kind));
    }
    assert_eq!(namespace("UTS"), None);
    assert_eq!(namespace("time"), None);
    assert_eq!(namespace(""), None);
}

#[test]
fn each_namespace_has_its_flag() {
    for (name, flag) in [
        ("uts", CloneFlags::CLONE_NEWUTS),
        ("pid", CloneFlags::CLONE_NEWPID),
        ("mount", CloneFlags::CLONE_NEWNS),
        ("network", CloneFlags::CLONE_NEWNET),
        ("ipc", CloneFlags::CLONE_NEWIPC),
        ("user", CloneFlags::CLONE_NEWUSER),
        ("cgroup", CloneFlags::CLONE_NEWCGROUP),
    ] {
        assert_eq!(flags_for(&strings(&[name])), flag);
    }
    assert_eq!(flags_for(&Vec::new()), CloneFlags::empty());
}

#[test]
fn flags_do_not_depend_on_case_order_or_repetition() {
    let expected = CloneFlags::CLONE_NEWPID
        | CloneFlags::CLONE_NEWNET
        | CloneFlags::CLONE_NEWNS
        | CloneFlags::CLONE_NEWUTS;
    assert_eq!(container().clone_flags(), expected);
    assert_eq!(flags_for(&strings(&["UTS", "mount", "pid", "Network", "uts"])), expected);
}

#[test]
fn unknown_namespaces_are_told_in_lower_case() {
    assert_eq!(
        warnings_for(&strings(&["TIME", "pid", "x"])),
        strings(&[
            "warning: unknown namespace 'time', skipping",
            "warning: unknown namespace 'x', skipping",
        ])
    );
}

/// Runs a session to its end or its next fork, with all going well.
fn drive(container: &Container, session: Session) -> (Vec<String>, Session) {
    let mut session = session;
    let mut seen = Vec::new();
    loop {
        let reply = match session.run.current() {
            None | Some(ActionOf::Fork) => return (seen, session),
            Some(action) => {
                seen.push(format!("{:?}", action));
                match action {
                    ActionOf::FindLink(_) => ReplyOf::Link(Some(2)),
                    ActionOf::Exists(_) => ReplyOf::Present(true),
                    ActionOf::ReadFile(_) => ReplyOf::Content("1".to_string()),
                    _ => ReplyOf::Done,
                }
            }
        };
        let progress = container.resume(session, reply);
        assert_eq!(progress.status, StatusOf::Going);
        assert_eq!(progress.said, Vec::<String>::new());
        session = progress.session;
    }
}

fn fork(container: &Container, session: Session, reply: Reply) -> Session {
    let progress = container.resume(session, reply);
    assert_eq!(progress.status, StatusOf::Going);
    progress.session
}

fn launched(container: &Container) -> Session {
    drive(container, container.run()).1
}

fn position(seen: &[String], action: &str) -> usize {
    match seen.iter().position(|a| a == action) {
        Some(at) => at,
        None => panic!("{} is not among {:?}", action, seen),
    }
}

#[test]
fn the_launch_warns_and_forks() {
    let container = container();
    let (seen, session) = drive(&container, container.fork_and_run());
    assert_eq!(
        seen,
        strings(&[
            "Warn(\"warning: unknown namespace 'time', skipping\")",
            "OpenPipe",
            "OpenReadyPipe",
        ])
    );
    assert_eq!(session.stage, Stage::Launch);
    let why = "EAGAIN".to_string();
    let progress = container.resume(session, ReplyOf::Failed { code: None, why });
    assert_eq!(progress.said, strings(&["Fork failed: EAGAIN"]));
    assert_eq!(progress.status, StatusOf::Going);
    assert!(progress.session.run.current().is_none());
}

#[test]
fn the_host_prepares_wakes_waits_and_cleans_up() {
    let container = container();
    let session = fork(&container, launched(&container), ReplyOf::Parent(4711));
    assert_eq!(session.stage, Stage::Host);
    let (seen, session) = drive(&container, session);
    assert!(session.run.current().is_none());
    let group = "/sys/fs/cgroup/minidocker-4711";
    let write = |file: &str, contents: &str| {
        format!("WriteFile {{ path: \"{group}/{file}\", contents: \"{contents}\" }}")
    };
    assert_eq!(seen[0], "AwaitReady");
    let order = [
        position(&seen, "ReadFile(\"/proc/sys/net/ipv4/ip_forward\")"),
        position(&seen, &format!("CreateTree(\"{group}\")")),
        position(&seen, &write("pids.max", "30")),
        position(&seen, &write("memory.max", "104857600")),
        position(&seen, &write("cgroup.procs", "4711")),
        position(&seen, "StartRuntime"),
        position(&seen, "OpenNetlink"),
        position(&seen, "AddBridge(\"br0\")"),
        position(&seen, "MoveLink { name: \"veth1_cont\", pid: 4711 }"),
        position(&seen, "Print(\"[host firewall] Injecting netfilter rules via netlink...\")"),
        position(&seen, "WakeChild"),
        position(&seen, "WaitChild"),
        position(&seen, &write("cgroup.kill", "1")),
        position(&seen, &format!("RemoveDir(\"{group}\")")),
        position(&seen, "Print(\"[host firewall] Firewall rules removed successfully\")"),
    ];
    assert!(order.windows(2).all(|pair| pair[0] < pair[1]));
}

#[test]
fn a_host_failure_leaves_the_child_asleep() {
    let container = container();
    let mut session = fork(&container, launched(&container), ReplyOf::Parent(7));
    let mut woken = false;
    let status = loop {
        let reply = match session.run.current().unwrap() {
            ActionOf::ReadFile(_) => ReplyOf::Content("1".to_string()),
            ActionOf::StartRuntime => {
                ReplyOf::Failed { code: None, why: "no threads".to_string() }
            }
            ActionOf::WakeChild => {
                woken = true;
                ReplyOf::Done
            }
            _ => ReplyOf::Done,
        };
        let progress = container.resume(session, reply);
        if progress.status != StatusOf::Going {
            assert!(progress.session.run.current().is_none());
            break progress.status;
        }
        session = progress.session;
    };
    assert_eq!(status, StatusOf::Failed(strings(&["Failed to create tokio runtime"])));
    assert!(!woken);
}

#[test]
fn the_child_unshares_and_waits_before_it_forks() {
    let container = container();
    let session = fork(&container, launched(&container), ReplyOf::Child);
    assert_eq!(session.stage, Stage::Child);
    let (seen, session) = drive(&container, session);
    assert_eq!(
        seen,
        strings(&[
            "Unshare(1677852672)",
            "SignalReady",
            "AwaitWake",
            "Mount { source: None, target: \"/\", kind: None, mode: Private }",
        ])
    );
    assert_eq!(container.clone_flags().bits(), 1677852672);
    let why = "EAGAIN".to_string();
    let progress = container.resume(session, ReplyOf::Failed { code: None, why });
    assert_eq!(
        progress.said,
        strings(&["Fork failed: EAGAIN", "[child] Secondary PID engine fork failed: EAGAIN"])
    );
    assert_eq!(progress.session.run.current(), Some(&ActionOf::Exit(1)));
}

#[test]
fn the_supervisor_waits() {
    let container = container();
    let session = fork(&container, launched(&container), ReplyOf::Child);
    let (_, session) = drive(&container, session);
    let session = fork(&container, session, ReplyOf::Parent(2));
    assert_eq!(session.stage, Stage::Supervisor);
    let (seen, _) = drive(&container, session);
    assert_eq!(seen, strings(&["WaitChild"]));
}

fn workload(container: &Container) -> Session {
    let session = fork(container, launched(container), ReplyOf::Child);
    let (_, session) = drive(container, session);
    let session = fork(container, session, ReplyOf::Child);
    assert_eq!(session.stage, Stage::Workload);
    session
}

const CLAMP: &str = "Mount { source: None, target: \"/\", kind: None, mode: ReadOnly }";

#[test]
fn the_workload_starts_inside_the_container() {
    let container = container();
    let (seen, session) = drive(&container, workload(&container));
    assert!(session.run.current().is_none());
    let order = [
        position(&seen, "Print(\"[child] Pivot root targeted to: /bundle/rootfs\")"),
        position(
            &seen,
            "Mount { source: Some(\"/bundle/rootfs\"), target: \"/bundle/rootfs\", kind: None, mode: Bind }",
        ),
        position(&seen, "ChangeDir(\"/bundle/rootfs\")"),
        position(&seen, "Exists(\"/bundle/rootfs/old_root\")"),
        position(&seen, "RemoveTree(\"/bundle/rootfs/old_root\")"),
        position(&seen, "CreateTree(\"/bundle/rootfs/old_root\")"),
        position(&seen, "PivotRoot { new_root: \".\", put_old: \"old_root\" }"),
        position(&seen, "Detach(\"/old_root\")"),
        position(&seen, "RemoveTree(\"/old_root\")"),
        position(&seen, "ChangeRoot(\"/\")"),
        position(&seen, "SetHostname(\"box\")"),
        position(
            &seen,
            "Mount { source: Some(\"proc\"), target: \"/proc\", kind: Some(\"proc\"), mode: Plain }",
        ),
        position(
            &seen,
            "Mount { source: Some(\"sysfs\"), target: \"/sys\", kind: Some(\"sysfs\"), mode: Plain }",
        ),
        position(
            &seen,
            "Mount { source: Some(\"devtmpfs\"), target: \"/dev\", kind: Some(\"devtmpfs\"), mode: Plain }",
        ),
        position(&seen, "StartRuntime"),
        position(&seen, "RaiseLink(\"lo\")"),
        position(&seen, "StopRuntime"),
        position(
            &seen,
            "Exec(Command { program: \"/bin/sh\", args: [\"-c\", \"id\"], env: [(\"TERM\", \"xterm\"), (\"A\", \"b=c\")], cwd: Some(\"/tmp\") })",
        ),
    ];
    assert!(order.windows(2).all(|pair| pair[0] < pair[1]));
    assert_eq!(order[order.len() - 1], seen.len() - 1);
    assert!(!seen.contains(&CLAMP.to_string()));
}

#[test]
fn a_read_only_root_is_made_so_before_the_command_starts() {
    let mut config = config();
    config.root.readonly = true;
    let container = Container::from_config("/bundle", config, ID).ok().unwrap();
    let (seen, _) = drive(&container, workload(&container));
    let clamp = position(&seen, CLAMP);
    assert!(position(&seen, "ChangeRoot(\"/\")") < clamp);
    assert!(clamp < seen.iter().position(|a| a.starts_with("Exec")).unwrap());
}

fn break_at(container: &Container, start: &str) -> (Vec<String>, StatusOf<String, Vec<String>>) {
    let mut session = workload(container);
    loop {
        let action = session.run.current().unwrap();
        let name = format!("{:?}", action);
        let reply = if name.starts_with(start) {
            ReplyOf::Failed { code: None, why: "why".to_string() }
        } else {
            match action {
                ActionOf::FindLink(_) => ReplyOf::Link(Some(2)),
                ActionOf::Exists(_) => ReplyOf::Present(false),
                _ => ReplyOf::Done,
            }
        };
        let progress = container.resume(session, reply);
        if progress.status != StatusOf::Going {
            return (progress.said, progress.status);
        }
        session = progress.session;
    }
}

#[test]
fn failures_inside_the_container_are_explained() {
    let container = container();
    let outer = "[grand child] Failed to setup grand child process";
    for (action, contexts) in [
        ("PivotRoot", vec!["Failed to pivot root", "Failed to setup pivot root", outer]),
        (
            "CreateTree",
            vec![
                "Failed to create old root directory at /bundle/rootfs/old_root",
                "Failed to setup pivot root",
                outer,
            ],
        ),
        ("SetHostname", vec!["Failed to set hostname", outer]),
        ("Mount { source: Some(\"sysfs\")", vec!["Failed to mount sys filesystem", outer]),
        ("StartRuntime", vec![outer]),
    ] {
        let (said, status) = break_at(&container, action);
        assert_eq!(said, Vec::<String>::new());
        assert_eq!(status, StatusOf::Failed(strings(&contexts)));
    }
}

#[test]
fn network_failures_inside_the_container_are_told() {
    let (said, status) = break_at(&container(), "AddRoute");
    assert_eq!(
        said,
        strings(&[
            "[child] Critical failure setting up internal networking: Failed to config container network: ",
        ])
    );
    assert_eq!(
        status,
        StatusOf::Failed(strings(&[
            "Failed to set default ip address for veth1-cont",
            "Failed to config container network: ",
            "[grand child] Failed to setup grand child process",
        ]))
    );
}

#[test]
fn a_command_that_cannot_start_panics() {
    let (_, status) = break_at(&container(), "Exec");
    let message = Some("[grand child] Failed to execute command".to_string());
    assert_eq!(status, StatusOf::Panicked { message, why: "why".to_string() });
    let (_, status) = break_at(&container(), "Mount { source: Some(\"/bundle/rootfs\")");
    let message = Some("CRITICAL: Failed to bind mount pivot root path".to_string());
    assert_eq!(status, StatusOf::Panicked { message, why: "why".to_string() });
}

fn trace(program: Program, present: &[bool]) -> Vec<String> {
    let mut run = Run::start(program);
    let mut present = present.iter();
    let mut seen = Vec::new();
    while let Some(action) = run.current() {
        seen.push(format!("{:?}", action));
        let reply = match action {
            ActionOf::Exists(_) => ReplyOf::Present(*present.next().unwrap()),
            _ => ReplyOf::Done,
        };
        run = run.resume(reply).run;
    }
    seen
}

#[test]
fn limits_are_written_to_a_control_group() {
    assert_eq!(
        trace(setup_cgroup("20", "max", "17"), &[]),
        strings(&[
            "CreateTree(\"/sys/fs/cgroup/minidocker-17\")",
            "Sleep(50)",
            "WriteFile { path: \"/sys/fs/cgroup/minidocker-17/pids.max\", contents: \"20\" }",
            "WriteFile { path: \"/sys/fs/cgroup/minidocker-17/memory.max\", contents: \"max\" }",
            "WriteFile { path: \"/sys/fs/cgroup/minidocker-17/cgroup.procs\", contents: \"17\" }",
        ])
    );
}

#[test]
fn control_groups_are_removed_if_they_are_there() {
    let group = "Exists(\"/sys/fs/cgroup/minidocker-17\")";
    let kill = "Exists(\"/sys/fs/cgroup/minidocker-17/cgroup.kill\")";
    let removal = [
        "Print(\"removing cgroup directory at: /sys/fs/cgroup/minidocker-17\")",
        "RemoveDir(\"/sys/fs/cgroup/minidocker-17\")",
    ];
    assert_eq!(trace(cleanup_cgroup("17"), &[false]), strings(&[group]));
    assert_eq!(
        trace(cleanup_cgroup("17"), &[true, false]),
        strings(&[group, kill, removal[0], removal[1]])
    );
    assert_eq!(
        trace(cleanup_cgroup("17"), &[true, true]),
        strings(&[
            group,
            kill,
            "WriteFile { path: \"/sys/fs/cgroup/minidocker-17/cgroup.kill\", contents: \"1\" }",
            "Sleep(50)",
            removal[0],
            removal[1],
        ])
    );
}

#[test]
fn file_systems_are_taken_down() {
    assert_eq!(
        trace(unmount_setup(), &[]),
        strings(&[
            "Print(\"[child] Unmounting proc, sys, and dev filesystems...\")",
            "Unmount(\"/proc\")",
            "Unmount(\"/sys\")",
            "Unmount(\"/dev\")",
        ])
    );
}

#[test]
fn every_process_comes_to_an_end() {
    let container = container();
    for seed in 0..200u32 {
        let mut session = container.run();
        let mut taken = 0;
        while session.run.current().is_some() {
            taken += 1;
            assert!(taken < 120);
            let reply = match (seed.wrapping_mul(2654435761) >> (taken % 29)) % 7 {
                0 => ReplyOf::Failed { code: Some(-17), why: "EEXIST".to_string() },
                1 => ReplyOf::Present(false),
                2 => ReplyOf::Content("0".to_string()),
                3 => ReplyOf::Link(Some(5)),
                4 => ReplyOf::Child,
                5 => ReplyOf::Parent(9),
                _ => ReplyOf::Done,
            };
            session = container.resume(session, reply).session;
        }
    }
}

#[test]
fn only_forks_change_the_stage() {
    let container = container();
    let session = container.run();
    assert!(!matches!(session.run.current(), Some(ActionOf::Fork)));
    let progress = container.resume(session, ReplyOf::Parent(3));
    assert_eq!(progress.session.stage, Stage::Launch);
    let session = fork(&container, launched(&container), ReplyOf::Parent(3));
    let progress = container.resume(session, ReplyOf::Child);
    assert_eq!(progress.session.stage, Stage::Host);
}

#[test]
fn names_are_lowered_before_they_are_looked_up() {
    let lowered = lower_names(&strings(&["PID", "\u{c4}x", "\u{130}"]));
    assert_eq!(lowered, strings(&["pid", "\u{e4}x", "i\u{307}"]));
    assert_eq!(flags_named(&lowered), CloneFlags::CLONE_NEWPID);
    assert_eq!(flags_named(&strings(&["PID"])), CloneFlags::empty());
    assert_eq!(
        warnings_named(&strings(&["PID", "pid"])),
        strings(&["warning: unknown namespace 'PID', skipping"])
    );
}

#[test]
fn the_host_does_nothing_for_a_child_that_has_ended() {
    let container = container();
    let session = fork(&container, launched(&container), ReplyOf::Parent(7));
    assert_eq!(session.run.current(), Some(&ActionOf::AwaitReady));
    let progress = container.resume(session, ReplyOf::Present(false));
    let contexts = strings(&["Child process ended before it was ready"]);
    assert_eq!(progress.status, StatusOf::Failed(contexts));
    assert!(progress.session.run.current().is_none());
    let session = fork(&container, launched(&container), ReplyOf::Parent(7));
    let why = "EIO".to_string();
    let progress = container.resume(session, ReplyOf::Failed { code: None, why });
    assert_eq!(progress.status, StatusOf::Failed(strings(&["Failed to read from pipe"])));
}

#[test]
fn a_child_that_cannot_leave_does_not_say_that_it_is_ready() {
    let container = container();
    let session = fork(&container, launched(&container), ReplyOf::Child);
    let why = "EPERM".to_string();
    let progress = container.resume(session, ReplyOf::Failed { code: None, why });
    let contexts = strings(&["[child] Failed to unshare namespaces"]);
    assert_eq!(progress.status, StatusOf::Failed(contexts));
    assert!(progress.session.run.current().is_none());
}

#[test]
fn a_configuration_can_say_nothing_of_linux() {
    let mut config = config();
    config.linux = None;
    config.process.args = strings(&["/bin/sh"]);
    config.process.env = Vec::new();
    config.root.path = "/r".to_string();
    let container = Container::build_from_bundle("/bundle", config).ok().unwrap();
    assert_eq!(container.cgroup_config.max_pid, "max");
    assert_eq!(container.cgroup_config.max_memory, "max");
    assert_eq!(container.container_command, "/bin/sh");
    assert_eq!(container.args, Vec::<String>::new());
    assert_eq!(container.env_vars, Vec::<String>::new());
    assert_eq!(container.chroot_path, "/r");
    assert_eq!(container.namespaces, Vec::<String>::new());
    assert_eq!(container.clone_flags(), CloneFlags::empty());
}
