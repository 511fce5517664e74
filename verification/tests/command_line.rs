use kogiasima::config::{
    LinuxConfig, LinuxResources, MemoryLimit, NamespaceConfig, OciConfig, PidLimit, ProcessConfig,
    RootConfig,
};
use kogiasima::container::cli::{
    build_config, build_config_file, bundle_path, write_config, Cli,
};
use kogiasima::container::Container;
use kogiasima::namespaces::flags_for;
use kogiasima::run::Run;
use kogiasima::steps::{split_vars, ActionOf, ReplyOf, StatusOf};
use kogiasima::text::join;
use nix::sched::CloneFlags;

fn strings(list: &[&str]) -> Vec<String> {
    list.iter().map(|s| s.to_string()).collect()
}

fn options() -> Cli {
    let mut cli = Cli::default();
    cli.process.args = strings(&["/bin/bash -c 'echo hello'"]);
    cli.process.extra_env = strings(&["MY_VAR=hello", "DEBUG=1"]);
    cli.process.cwd = "/srv".to_string();
    cli.process.hostname = "kogiasima-box".to_string();
    cli.root.rootfs = "/alpine".to_string();
    cli.root.readonly = true;
    cli.linux.namespaces = strings(&["pid", "user"]);
    cli.linux.pid_limit = 30;
    cli.linux.memory_limit = -1;
    cli.output = "/tmp/config.json".to_string();
    cli
}

#[test]
fn the_defaults_are_as_documented() {
    let cli = Cli::default();
    assert_eq!(cli.process.args, strings(&["/bin/sh"]));
    assert_eq!(cli.process.extra_env, Vec::<String>::new());
    assert_eq!(cli.process.cwd, "/");
    assert_eq!(cli.process.hostname, "mini-docker-isolated");
    assert_eq!(cli.root.rootfs, "rootfs");
    assert!(!cli.root.readonly);
    assert_eq!(cli.linux.namespaces, strings(&["pid", "network", "mount", "uts"]));
    assert_eq!(cli.linux.pid_limit, 20);
    assert_eq!(cli.linux.memory_limit, 104_857_600);
    assert_eq!(cli.output, "config.json");
}

#[test]
fn the_configuration_says_what_is_asked_for() {
    let expected = r#"{
        "ociVersion": "1.0.2",
        "process": {
            "args": ["/bin/bash", "-c", "echo hello"],
            "env": [
                "PATH=/usr/local/sbin:/usr/local/bin:/usr/sbin:/usr/bin:/sbin:/bin",
                "TERM=xterm", "MY_VAR=hello", "DEBUG=1"
            ],
            "cwd": "/srv",
            "hostname": "kogiasima-box"
        },
        "root": {"path": "/alpine", "readonly": true},
        "linux": {
            "namespaces": [{"type": "pid"}, {"type": "user"}],
            "resources": {"pids": {"limit": 30}, "memory": {"limit": -1}}
        }
    }"#;
    let expected: serde_json::Value = serde_json::from_str(expected).unwrap();
    assert_eq!(build_config(&options()), expected);
}

const DEFAULT_FILE: &str = r#"{
  "linux": {
    "namespaces": [
      {
        "type": "pid"
      },
      {
        "type": "network"
      },
      {
        "type": "mount"
      },
      {
        "type": "uts"
      }
    ],
    "resources": {
      "memory": {
        "limit": 104857600
      },
      "pids": {
        "limit": 20
      }
    }
  },
  "ociVersion": "1.0.2",
  "process": {
    "args": [
      "/bin/sh"
    ],
    "cwd": "/",
    "env": [
      "PATH=/usr/local/sbin:/usr/local/bin:/usr/sbin:/usr/bin:/sbin:/bin",
      "TERM=xterm"
    ],
    "hostname": "mini-docker-isolated"
  },
  "root": {
    "path": "rootfs",
    "readonly": false
  }
}"#;

#[test]
fn the_file_is_written_and_told_of() {
    let run = Run::start(build_config_file(&Cli::default()));
    let expected = ActionOf::WriteFile {
        path: "config.json".to_string(),
        contents: DEFAULT_FILE.to_string(),
    };
    assert_eq!(run.current(), Some(&expected));
    let turn = run.resume(ReplyOf::Done);
    let told = ActionOf::Print("Written config to \"config.json\"".to_string());
    assert_eq!(turn.run.current(), Some(&told));
    assert!(turn.run.resume(ReplyOf::Done).run.current().is_none());
}

#[test]
fn a_file_that_cannot_be_written_ends_the_process() {
    let run = Run::start(build_config_file(&options()));
    let why = "Permission denied".to_string();
    let turn = run.resume(ReplyOf::Failed { code: None, why });
    assert_eq!(
        turn.said,
        strings(&["Failed to write \"/tmp/config.json\": Permission denied"])
    );
    assert_eq!(turn.status, StatusOf::Going);
    assert_eq!(turn.run.current(), Some(&ActionOf::Exit(1)));
}

#[test]
fn paths_are_quoted() {
    let mut cli = Cli::default();
    cli.output = "a\"b\n.json".to_string();
    let turn = Run::start(build_config_file(&cli)).resume(ReplyOf::Done);
    let told = ActionOf::Print("Written config to \"a\\\"b\\n.json\"".to_string());
    assert_eq!(turn.run.current(), Some(&told));
}

fn texts(value: &serde_json::Value) -> Vec<String> {
    value.as_array().unwrap().iter().map(|v| v.as_str().unwrap().to_string()).collect()
}

fn text(value: &serde_json::Value) -> String {
    value.as_str().unwrap().to_string()
}

#[test]
fn what_is_asked_for_reaches_the_container() {
    let file = build_config(&options());
    let linux = &file["linux"];
    let config = OciConfig {
        oci_version: text(&file["ociVersion"]),
        process: ProcessConfig {
            args: texts(&file["process"]["args"]),
            env: texts(&file["process"]["env"]),
            cwd: text(&file["process"]["cwd"]),
            hostname: Some(text(&file["process"]["hostname"])),
        },
        root: RootConfig {
            path: text(&file["root"]["path"]),
            readonly: file["root"]["readonly"].as_bool().unwrap(),
        },
        linux: Some(LinuxConfig {
            namespaces: linux["namespaces"]
                .as_array()
                .unwrap()
                .iter()
                .map(|ns| NamespaceConfig { ns_type: text(&ns["type"]), path: None })
                .collect(),
            cgroups_path: None,
            resources: Some(LinuxResources {
                pids: Some(PidLimit { limit: linux["resources"]["pids"]["limit"].as_i64().unwrap() }),
                memory: Some(MemoryLimit { limit: linux["resources"]["memory"]["limit"].as_i64() }),
            }),
        }),
    };
    let bundle = bundle_path("/home/user", "/tmp/config.json");
    assert_eq!(bundle, "/tmp");
    let container = Container::from_config(&bundle, config, 1).ok().unwrap();
    assert_eq!(container.container_command, "/bin/bash");
    assert_eq!(container.args, strings(&["-c", "echo hello"]));
    assert_eq!(container.chroot_path, "/alpine");
    assert!(container.readonly);
    assert_eq!(container.cgroup_config.max_pid, "30");
    assert_eq!(container.cgroup_config.max_memory, "-1");
    assert_eq!(container.hostname, "kogiasima-box");
    assert_eq!(container.namespaces, strings(&["pid", "user"]));
    assert_eq!(container.cwd, "/srv");
    let env = split_vars(&container.env_vars);
    assert_eq!(env[0].0, "PATH");
    assert_eq!(env[1], ("TERM".to_string(), "xterm".to_string()));
    assert_eq!(env[2], ("MY_VAR".to_string(), "hello".to_string()));
    assert_eq!(env[3], ("DEBUG".to_string(), "1".to_string()));
}

#[test]
fn the_default_namespaces_have_their_flags() {
    let expected = CloneFlags::CLONE_NEWPID
        | CloneFlags::CLONE_NEWNET
        | CloneFlags::CLONE_NEWNS
        | CloneFlags::CLONE_NEWUTS;
    assert_eq!(flags_for(&Cli::default().linux.namespaces), expected);
}

#[test]
fn a_configuration_is_written_to_its_path() {
    let run = Run::start(write_config("/c", "<c>", "{}".to_string()));
    let expected = ActionOf::WriteFile { path: "/c".to_string(), contents: "{}".to_string() };
    assert_eq!(run.current(), Some(&expected));
    let turn = run.resume(ReplyOf::Done);
    let told = ActionOf::Print("Written config to <c>".to_string());
    assert_eq!(turn.run.current(), Some(&told));
}

#[test]
fn the_bundle_is_the_directory_of_the_file() {
    let cli = Cli::default();
    let bundle = bundle_path("/home/user", &cli.output);
    assert_eq!(bundle, "/home/user");
    assert_eq!(join(&bundle, &cli.root.rootfs), "/home/user/rootfs");
    assert_eq!(bundle_path("/home/user", "a/config.json"), "/home/user/a");
    assert_eq!(bundle_path("/home/user", "/b/config.json"), "/b");
    assert_eq!(bundle_path("/", "config.json"), "/");
    assert_eq!(join("/", "rootfs"), "/rootfs");
}

#[test]
fn a_command_can_be_given_in_several_texts() {
    let mut cli = Cli::default();
    cli.process.args = strings(&["/bin/sh", "--login", "-c \"a 'b' c\""]);
    let args = texts(&build_config(&cli)["process"]["args"]);
    assert_eq!(args, strings(&["/bin/sh", "--login", "-c", "a 'b' c"]));
}
