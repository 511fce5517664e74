//! The networked runtime: containers with limits, namespaces, a network and a
//! firewall of their own, described by a `config.json`.
use vstd::prelude::*;
use vstd::string::*;

use nix::sched::CloneFlags;
use uuid::Uuid;

use crate::config::{
    limit_text, memory_limit, pids_limit, LinuxConfig, MemoryLimit, OciConfig, OciConfigView,
};
use crate::namespaces::{
    are_ascii, ascii_lowercased, flag_bits, flags_for, lowercased, namespace_bits, namespaces_named,
};
use crate::steps::no_texts;
use crate::text::{decimal, join, joined, law_paths_are_read_from_their_directory, texts};

pub mod cli;
pub mod guarantees;
pub mod network;
pub mod process;
pub mod ruleset;
pub mod session;

verus! {

broadcast use vstd::string::to_string_from_display_ensures_for_str;

/// A container that is ready to be run.
pub struct Container {
    pub container_command: String,
    pub args: Vec<String>,
    /// The directory that becomes the container's root.
    pub chroot_path: String,
    /// Whether the container's root is made read-only.
    pub readonly: bool,
    pub cgroup_config: CgroupConfig,
    pub hostname: String,
    /// The names of the namespaces that the container has of its own.
    pub namespaces: Vec<String>,
    /// Environment variables, each as `KEY=VALUE`.
    pub env_vars: Vec<String>,
    pub cwd: String,
    /// The number that the container's UUID forms.
    pub id: u128,
}

/// The limits of a container, as the files of its control group take them.
pub struct CgroupConfig {
    pub max_pid: String,
    pub max_memory: String,
}

/// A container, by the characters of its texts.
#[verifier::ext_equal]
pub struct ContainerView {
    pub container_command: Seq<char>,
    pub args: Seq<Seq<char>>,
    pub chroot_path: Seq<char>,
    pub readonly: bool,
    pub cgroup_config: CgroupConfigView,
    pub hostname: Seq<char>,
    pub namespaces: Seq<Seq<char>>,
    pub env_vars: Seq<Seq<char>>,
    pub cwd: Seq<char>,
    pub id: u128,
}

/// The limits of a container, by the characters of their texts.
#[verifier::ext_equal]
pub struct CgroupConfigView {
    pub max_pid: Seq<char>,
    pub max_memory: Seq<char>,
}

impl View for CgroupConfig {
    type V = CgroupConfigView;

    open spec fn view(&self) -> CgroupConfigView {
        CgroupConfigView { max_pid: self.max_pid@, max_memory: self.max_memory@ }
    }
}

impl View for Container {
    type V = ContainerView;

    open spec fn view(&self) -> ContainerView {
        ContainerView {
            container_command: self.container_command@,
            args: texts(self.args@),
            chroot_path: self.chroot_path@,
            readonly: self.readonly,
            cgroup_config: self.cgroup_config@,
            hostname: self.hostname@,
            namespaces: texts(self.namespaces@),
            env_vars: texts(self.env_vars@),
            cwd: self.cwd@,
            id: self.id,
        }
    }
}

/// The names of the namespaces that a configuration lists; none if it says nothing of
/// Linux.
pub open spec fn namespace_names(config: OciConfigView) -> Seq<Seq<char>> {
    match config.linux {
        Some(linux) => Seq::new(linux.namespaces.len(), |i: int| linux.namespaces[i].ns_type),
        None => Seq::empty(),
    }
}

/// The container that a configuration describes. A root path that is not absolute
/// starts at the bundle.
pub open spec fn configured(
    bundle_path: Seq<char>,
    config: OciConfigView,
    hostname: Seq<char>,
    id: u128,
) -> ContainerView {
    ContainerView {
        container_command: config.process.args[0],
        args: config.process.args.skip(1),
        chroot_path: joined(bundle_path, config.root.path),
        readonly: config.root.readonly,
        cgroup_config: CgroupConfigView {
            max_pid: limit_text(pids_limit(config)),
            max_memory: limit_text(memory_limit(config)),
        },
        hostname,
        namespaces: namespace_names(config),
        env_vars: config.process.env,
        cwd: config.process.cwd,
        id,
    }
}

/// Whether a number has the form of a random (version 4) UUID.
pub open spec fn is_random_id(id: u128) -> bool {
    (id as nat / 0x1000_0000_0000_0000_0000) % 16 == 4 && (id as nat / 0x4000_0000_0000_0000) % 4
        == 2
}

/// `Uuid::new_v4`, as the number that its bytes form: the version is 4 and the
/// variant is that of RFC 4122, and the rest is random.
#[verifier::external_body]
fn new_id() -> (id: u128)
    ensures
        is_random_id(id),
{
    Uuid::new_v4().as_u128()
}

fn namespace_types(linux: &LinuxConfig) -> (names: Vec<String>)
    ensures
        texts(names@) == Seq::new(
            linux@.namespaces.len(),
            |i: int| linux@.namespaces[i].ns_type,
        ),
{
    let mut names: Vec<String> = Vec::new();
    let mut i: usize = 0;
    while i < linux.namespaces.len()
        invariant
            i <= linux.namespaces.len(),
            names@.len() == i,
            forall|k: int| 0 <= k < i ==> (#[trigger] names@[k])@ == linux.namespaces@[k].ns_type@,
        decreases linux.namespaces.len() - i,
    {
        names.push(linux.namespaces[i].ns_type.clone());
        i = i + 1;
    }
    assert(texts(names@) =~= Seq::new(
        linux@.namespaces.len(),
        |i: int| linux@.namespaces[i].ns_type,
    ));
    names
}

impl Container {
    /// The container that the configuration in a bundle describes, under an id. The
    /// configuration has to give a hostname.
    pub fn from_config(bundle_path: &str, config: OciConfig, id: u128) -> (out: Result<
        Container,
        String,
    >)
        requires
            config.process.hostname is Some ==> config.process.args@.len() > 0,
        ensures
            match out {
                Ok(container) => config@.process.hostname is Some && container@ == configured(
                    bundle_path@,
                    config@,
                    config@.process.hostname->0,
                    id,
                ),
                Err(why) => config@.process.hostname is None && why@
                    == "failed to get hostname from config file"@,
            },
    {
        let max_pid: String = config.max_pid();
        let max_memory: String = config.max_memory();
        let chroot_path: String = join(bundle_path, config.root.path.as_str());
        match config.process.hostname {
            Some(hostname) => {
                let namespaces: Vec<String> = match &config.linux {
                    Some(linux) => namespace_types(linux),
                    None => no_texts(),
                };
                let mut args: Vec<String> = config.process.args;
                let container_command: String = args.remove(0);
                assert(texts(args@) =~= config@.process.args.skip(1));
                Ok(
                    Container {
                        container_command,
                        args,
                        chroot_path,
                        readonly: config.root.readonly,
                        cgroup_config: CgroupConfig { max_pid, max_memory },
                        hostname,
                        namespaces,
                        env_vars: config.process.env,
                        cwd: config.process.cwd,
                        id,
                    },
                )
            },
            None => Err("failed to get hostname from config file".to_owned()),
        }
    }

    /// The container that the configuration in a bundle describes, under an id of
    /// its own.
    pub fn build_from_bundle(bundle_path: &str, config: OciConfig) -> (out: Result<
        Container,
        String,
    >)
        requires
            config.process.hostname is Some ==> config.process.args@.len() > 0,
        ensures
            match out {
                Ok(container) => {
                    &&& config@.process.hostname is Some
                    &&& is_random_id(container.id)
                    &&& container@ == configured(
                        bundle_path@,
                        config@,
                        config@.process.hostname->0,
                        container.id,
                    )
                },
                Err(why) => config@.process.hostname is None && why@
                    == "failed to get hostname from config file"@,
            },
    {
        Container::from_config(bundle_path, config, new_id())
    }

    /// The flags of the namespaces that the container has of its own.
    pub fn clone_flags(&self) -> (flags: CloneFlags)
        ensures
            flag_bits(flags) == namespace_bits(namespaces_named(lowercased(self@.namespaces))),
            are_ascii(self@.namespaces) ==> flag_bits(flags) == namespace_bits(
                namespaces_named(ascii_lowercased(self@.namespaces)),
            ),
    {
        flags_for(&self.namespaces)
    }
}

/// The container that a configuration describes has what the configuration says, part by
/// part. Its program is the first of the arguments, and it is handed all the others, in
/// order; its limits are the numbers of the configuration, or none; its root is the path of
/// the configuration, read from the bundle.
pub proof fn law_the_container_is_as_configured(
    bundle_path: Seq<char>,
    config: OciConfigView,
    hostname: Seq<char>,
    id: u128,
)
    requires
        config.process.args.len() > 0,
    ensures
        ({
            let container = configured(bundle_path, config, hostname, id);
            &&& container.container_command == config.process.args[0]
            &&& seq![container.container_command] + container.args == config.process.args
            &&& config.root.path.len() > 0 && config.root.path[0] == '/' ==> container.chroot_path
                == config.root.path
            &&& bundle_path.len() > 0 && bundle_path.last() != '/' && !(config.root.path.len() > 0
                && config.root.path[0] == '/') ==> container.chroot_path == bundle_path + seq!['/']
                + config.root.path
            &&& container.readonly == config.root.readonly
            &&& container.hostname == hostname
            &&& container.env_vars == config.process.env
            &&& container.cwd == config.process.cwd
            &&& container.id == id
            &&& config.linux is None ==> {
                &&& container.namespaces.len() == 0
                &&& container.cgroup_config.max_pid == "max"@
                &&& container.cgroup_config.max_memory == "max"@
            }
            &&& config.linux matches Some(linux) ==> {
                &&& container.namespaces.len() == linux.namespaces.len()
                &&& forall|i: int|
                    0 <= i < linux.namespaces.len() ==> #[trigger] container.namespaces[i]
                        == linux.namespaces[i].ns_type
                &&& linux.resources is None ==> {
                    &&& container.cgroup_config.max_pid == "max"@
                    &&& container.cgroup_config.max_memory == "max"@
                }
                &&& linux.resources matches Some(resources) ==> {
                    &&& container.cgroup_config.max_pid == match resources.pids {
                        Some(pids) => decimal(pids.limit as int),
                        None => "max"@,
                    }
                    &&& container.cgroup_config.max_memory == match resources.memory {
                        Some(MemoryLimit { limit: Some(limit) }) => decimal(limit as int),
                        _ => "max"@,
                    }
                }
            }
        }),
{
    let container = configured(bundle_path, config, hostname, id);
    assert(seq![container.container_command] + container.args =~= config.process.args);
    law_paths_are_read_from_their_directory(bundle_path, config.root.path);
}

} // verus!
