//! The configuration of a container, as its bundle's `config.json` gives it.
use vstd::prelude::*;
use vstd::string::*;

use crate::steps::maybe;
use crate::text::{decimal, integer_text, texts};

verus! {

/// The whole configuration.
#[derive(Debug, Clone)]
pub struct OciConfig {
    pub oci_version: String,
    pub process: ProcessConfig,
    pub root: RootConfig,
    pub linux: Option<LinuxConfig>,
}

/// The process to run in the container.
#[derive(Debug, Clone)]
pub struct ProcessConfig {
    /// The program and its arguments.
    pub args: Vec<String>,
    /// Environment variables, each as `KEY=VALUE`.
    pub env: Vec<String>,
    pub cwd: String,
    pub hostname: Option<String>,
}

/// The root file system of the container.
#[derive(Debug, Clone)]
pub struct RootConfig {
    pub path: String,
    pub readonly: bool,
}

/// What is particular to Linux.
#[derive(Debug, Clone)]
pub struct LinuxConfig {
    pub namespaces: Vec<NamespaceConfig>,
    pub cgroups_path: Option<String>,
    pub resources: Option<LinuxResources>,
}

/// A namespace of the container's own.
#[derive(Debug, Clone)]
pub struct NamespaceConfig {
    pub ns_type: String,
    pub path: Option<String>,
}

/// The limits on what the container may use.
#[derive(Debug, Clone)]
pub struct LinuxResources {
    pub pids: Option<PidLimit>,
    pub memory: Option<MemoryLimit>,
}

/// The limit on the number of processes.
#[derive(Debug, Clone)]
pub struct PidLimit {
    pub limit: i64,
}

/// The limit on memory, in bytes.
#[derive(Debug, Clone)]
pub struct MemoryLimit {
    pub limit: Option<i64>,
}

/// A configuration, by the characters of its texts.
#[verifier::ext_equal]
pub struct OciConfigView {
    pub oci_version: Seq<char>,
    pub process: ProcessConfigView,
    pub root: RootConfigView,
    pub linux: Option<LinuxConfigView>,
}

#[verifier::ext_equal]
pub struct ProcessConfigView {
    pub args: Seq<Seq<char>>,
    pub env: Seq<Seq<char>>,
    pub cwd: Seq<char>,
    pub hostname: Option<Seq<char>>,
}

#[verifier::ext_equal]
pub struct RootConfigView {
    pub path: Seq<char>,
    pub readonly: bool,
}

#[verifier::ext_equal]
pub struct LinuxConfigView {
    pub namespaces: Seq<NamespaceConfigView>,
    pub cgroups_path: Option<Seq<char>>,
    pub resources: Option<LinuxResources>,
}

#[verifier::ext_equal]
pub struct NamespaceConfigView {
    pub ns_type: Seq<char>,
    pub path: Option<Seq<char>>,
}

impl View for OciConfig {
    type V = OciConfigView;

    open spec fn view(&self) -> OciConfigView {
        OciConfigView {
            oci_version: self.oci_version@,
            process: self.process@,
            root: self.root@,
            linux: match self.linux {
                Some(linux) => Some(linux@),
                None => None,
            },
        }
    }
}

impl View for ProcessConfig {
    type V = ProcessConfigView;

    open spec fn view(&self) -> ProcessConfigView {
        ProcessConfigView {
            args: texts(self.args@),
            env: texts(self.env@),
            cwd: self.cwd@,
            hostname: maybe(self.hostname),
        }
    }
}

impl View for RootConfig {
    type V = RootConfigView;

    open spec fn view(&self) -> RootConfigView {
        RootConfigView { path: self.path@, readonly: self.readonly }
    }
}

impl View for LinuxConfig {
    type V = LinuxConfigView;

    open spec fn view(&self) -> LinuxConfigView {
        LinuxConfigView {
            namespaces: Seq::new(self.namespaces@.len(), |i: int| self.namespaces@[i]@),
            cgroups_path: maybe(self.cgroups_path),
            resources: self.resources,
        }
    }
}

impl View for NamespaceConfig {
    type V = NamespaceConfigView;

    open spec fn view(&self) -> NamespaceConfigView {
        NamespaceConfigView { ns_type: self.ns_type@, path: maybe(self.path) }
    }
}

/// The limit on a control group where none is given.
pub open spec fn no_limit() -> Seq<char> {
    "max"@
}

/// What a configuration says of the number of processes.
pub open spec fn pids_limit(config: OciConfigView) -> Option<i64> {
    match config.linux {
        Some(LinuxConfigView {
            resources: Some(LinuxResources { pids: Some(PidLimit { limit }), .. }),
            ..
        }) => Some(limit),
        _ => None,
    }
}

/// What a configuration says of memory.
pub open spec fn memory_limit(config: OciConfigView) -> Option<i64> {
    match config.linux {
        Some(LinuxConfigView {
            resources: Some(LinuxResources { memory: Some(MemoryLimit { limit }), .. }),
            ..
        }) => limit,
        _ => None,
    }
}

/// A limit as a control group's file takes it.
pub open spec fn limit_text(limit: Option<i64>) -> Seq<char> {
    match limit {
        Some(limit) => decimal(limit as int),
        None => no_limit(),
    }
}

/// A limit as a control group's file takes it.
fn write_limit(limit: Option<i64>) -> (text: String)
    ensures
        text@ == limit_text(limit),
{
    match limit {
        Some(limit) => integer_text(limit),
        None => "max".to_owned(),
    }
}

impl OciConfig {
    /// The limit on the number of processes: the number, or `max` where the
    /// configuration gives none.
    pub fn max_pid(&self) -> (text: String)
        ensures
            text@ == limit_text(pids_limit(self@)),
    {
        let limit: Option<i64> = match &self.linux {
            Some(LinuxConfig {
                namespaces: _,
                cgroups_path: _,
                resources: Some(LinuxResources { pids: Some(pids), memory: _ }),
            }) => Some(pids.limit),
            _ => None,
        };
        write_limit(limit)
    }

    /// The limit on memory: the number of bytes, or `max` where the configuration
    /// gives none.
    pub fn max_memory(&self) -> (text: String)
        ensures
            text@ == limit_text(memory_limit(self@)),
    {
        let limit: Option<i64> = match &self.linux {
            Some(LinuxConfig {
                namespaces: _,
                cgroups_path: _,
                resources: Some(LinuxResources { pids: _, memory: Some(memory) }),
            }) => memory.limit,
            _ => None,
        };
        write_limit(limit)
    }
}

/// The limits of a configuration are the numbers that it gives, each its own; a limit that
/// is not given, at whatever depth, is none.
pub proof fn law_limits_are_those_of_the_configuration(
    config: OciConfigView,
    linux: LinuxConfigView,
    resources: LinuxResources,
)
    ensures
        config.linux is None ==> limit_text(pids_limit(config)) == "max"@ && limit_text(
            memory_limit(config),
        ) == "max"@,
        config.linux == Some(linux) && linux.resources is None ==> limit_text(pids_limit(config))
            == "max"@ && limit_text(memory_limit(config)) == "max"@,
        config.linux == Some(linux) && linux.resources == Some(resources) ==> {
            &&& limit_text(pids_limit(config)) == match resources.pids {
                Some(pids) => decimal(pids.limit as int),
                None => "max"@,
            }
            &&& limit_text(memory_limit(config)) == match resources.memory {
                Some(MemoryLimit { limit: Some(limit) }) => decimal(limit as int),
                _ => "max"@,
            }
        },
{
}

} // verus!
