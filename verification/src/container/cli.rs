//! The options of the command line, and the `config.json` that they ask for.
use vstd::prelude::*;
use vstd::string::*;

use serde_json::Value;

use crate::config::{
    LinuxConfigView, LinuxResources, MemoryLimit, NamespaceConfigView, OciConfigView, PidLimit,
    ProcessConfigView, RootConfigView,
};
use crate::container::{configured, CgroupConfigView, ContainerView};
use crate::json::{
    flag_value, integer_value, json_tree, json_trees, list_value, object_of, object_value, pretty,
    pretty_json, text_value, JsonTree,
};
use crate::run::{resumed, started};
use crate::steps::{
    environment, law_environments_add_up, one_text, or_report, plain, reported, say, saying, step,
    ActionOf, ActionView, OnErrorOf, OtherwiseOf, Program, ReplyOf, Step, StepOf, StepView,
};
use crate::text::{
    all_words, copy_texts, decimal, directory, is_absolute, join, joined, joint,
    law_a_file_lies_in_its_directory, law_directories_stay_absolute, law_variables_are_read_back,
    parent, quote_path, quoted_path, split_lines, texts,
};

verus! {

broadcast use vstd::string::to_string_from_display_ensures_for_str;

/// The command that is run where none is given.
pub const DEFAULT_COMMAND: &'static str = "/bin/sh";

/// The working directory where none is given.
pub const DEFAULT_CWD: &'static str = "/";

/// The hostname where none is given.
pub const DEFAULT_HOSTNAME: &'static str = "mini-docker-isolated";

/// The root file system where none is given.
pub const DEFAULT_ROOTFS: &'static str = "rootfs";

/// The limit on processes where none is given.
pub const DEFAULT_PID_LIMIT: i64 = 20;

/// The limit on memory where none is given: a hundred megabytes.
pub const DEFAULT_MEMORY_LIMIT: i64 = 104_857_600;

/// Where the configuration is written to where nothing else is given.
pub const DEFAULT_OUTPUT: &'static str = "config.json";

/// The options of the command line.
#[derive(Debug)]
pub struct Cli {
    pub process: ProcessArgs,
    pub root: RootArgs,
    pub linux: LinuxArgs,
    /// Where the configuration is written to.
    pub output: String,
}

/// The options on the process to run.
#[derive(Debug)]
pub struct ProcessArgs {
    /// The command, in one text or several. Each is split at the white space outside
    /// quotation marks.
    pub args: Vec<String>,
    /// Further environment variables, each as `KEY=VALUE`.
    pub extra_env: Vec<String>,
    pub cwd: String,
    pub hostname: String,
}

/// The options on the root file system.
#[derive(Debug)]
pub struct RootArgs {
    pub rootfs: String,
    pub readonly: bool,
}

/// The options on namespaces and limits.
#[derive(Debug)]
pub struct LinuxArgs {
    pub namespaces: Vec<String>,
    pub pid_limit: i64,
    /// In bytes.
    pub memory_limit: i64,
}

/// The options, by the characters of their texts.
#[verifier::ext_equal]
pub struct CliView {
    pub args: Seq<Seq<char>>,
    pub extra_env: Seq<Seq<char>>,
    pub cwd: Seq<char>,
    pub hostname: Seq<char>,
    pub rootfs: Seq<char>,
    pub readonly: bool,
    pub namespaces: Seq<Seq<char>>,
    pub pid_limit: i64,
    pub memory_limit: i64,
    pub output: Seq<char>,
}

impl View for Cli {
    type V = CliView;

    open spec fn view(&self) -> CliView {
        CliView {
            args: texts(self.process.args@),
            extra_env: texts(self.process.extra_env@),
            cwd: self.process.cwd@,
            hostname: self.process.hostname@,
            rootfs: self.root.rootfs@,
            readonly: self.root.readonly,
            namespaces: texts(self.linux.namespaces@),
            pid_limit: self.linux.pid_limit,
            memory_limit: self.linux.memory_limit,
            output: self.output@,
        }
    }
}

/// The options where none is given.
pub open spec fn default_options() -> CliView {
    CliView {
        args: seq!["/bin/sh"@],
        extra_env: Seq::empty(),
        cwd: "/"@,
        hostname: "mini-docker-isolated"@,
        rootfs: "rootfs"@,
        readonly: false,
        namespaces: seq!["pid"@, "network"@, "mount"@, "uts"@],
        pid_limit: 20,
        memory_limit: 104_857_600,
        output: "config.json"@,
    }
}

/// The namespaces where none is given.
pub fn default_namespaces() -> (names: Vec<String>)
    ensures
        texts(names@) == default_options().namespaces,
{
    let mut names: Vec<String> = Vec::new();
    names.push("pid".to_owned());
    names.push("network".to_owned());
    names.push("mount".to_owned());
    names.push("uts".to_owned());
    assert(texts(names@) =~= default_options().namespaces);
    names
}

impl Default for Cli {
    fn default() -> (cli: Cli)
        ensures
            cli@ == default_options(),
    {
        let extra_env: Vec<String> = Vec::new();
        assert(texts(extra_env@) =~= Seq::<Seq<char>>::empty());
        Cli {
            process: ProcessArgs {
                args: one_text(DEFAULT_COMMAND),
                extra_env,
                cwd: DEFAULT_CWD.to_owned(),
                hostname: DEFAULT_HOSTNAME.to_owned(),
            },
            root: RootArgs { rootfs: DEFAULT_ROOTFS.to_owned(), readonly: false },
            linux: LinuxArgs {
                namespaces: default_namespaces(),
                pid_limit: DEFAULT_PID_LIMIT,
                memory_limit: DEFAULT_MEMORY_LIMIT,
            },
            output: DEFAULT_OUTPUT.to_owned(),
        }
    }
}

/// The environment of the process: what every container has, and then what is asked
/// for.
pub open spec fn process_env(extra: Seq<Seq<char>>) -> Seq<Seq<char>> {
    seq![
        "PATH=/usr/local/sbin:/usr/local/bin:/usr/sbin:/usr/bin:/sbin:/bin"@,
        "TERM=xterm"@,
    ] + extra
}

/// A list of texts, as JSON.
pub open spec fn text_list(list: Seq<Seq<char>>) -> JsonTree {
    JsonTree::List(Seq::new(list.len(), |i: int| JsonTree::Text(list[i])))
}

/// A namespace of the configuration, as JSON.
pub open spec fn namespace_tree(name: Seq<char>) -> JsonTree {
    JsonTree::Object(map!["type"@ => JsonTree::Text(name)])
}

/// A limit of the configuration, as JSON.
pub open spec fn limit_tree(limit: i64) -> JsonTree {
    JsonTree::Object(map!["limit"@ => JsonTree::Integer(limit as int)])
}

/// The configuration that the options ask for, as JSON.
pub open spec fn config_tree(cli: CliView) -> JsonTree {
    JsonTree::Object(
        map![
            "ociVersion"@ => JsonTree::Text("1.0.2"@),
            "process"@ => JsonTree::Object(map![
                "args"@ => text_list(all_words(cli.args)),
                "env"@ => text_list(process_env(cli.extra_env)),
                "cwd"@ => JsonTree::Text(cli.cwd),
                "hostname"@ => JsonTree::Text(cli.hostname),
            ]),
            "root"@ => JsonTree::Object(map![
                "path"@ => JsonTree::Text(cli.rootfs),
                "readonly"@ => JsonTree::Flag(cli.readonly),
            ]),
            "linux"@ => JsonTree::Object(map![
                "namespaces"@ => JsonTree::List(
                    Seq::new(cli.namespaces.len(), |i: int| namespace_tree(cli.namespaces[i])),
                ),
                "resources"@ => JsonTree::Object(map![
                    "pids"@ => limit_tree(cli.pid_limit),
                    "memory"@ => limit_tree(cli.memory_limit),
                ]),
            ]),
        ],
    )
}

fn texts_value(list: &Vec<String>) -> (value: Value)
    ensures
        json_tree(value) == text_list(texts(list@)),
{
    let mut items: Vec<Value> = Vec::new();
    let mut i: usize = 0;
    while i < list.len()
        invariant
            i <= list.len(),
            items@.len() == i,
            forall|k: int|
                0 <= k < i ==> json_tree(#[trigger] items@[k]) == JsonTree::Text(list@[k]@),
        decreases list.len() - i,
    {
        items.push(text_value(list[i].as_str()));
        i = i + 1;
    }
    assert(json_trees(items@) =~= text_list(texts(list@))->List_0);
    list_value(items)
}

/// An object under construction.
struct Fields {
    list: Vec<(String, Value)>,
}

impl Fields {
    spec fn object(self) -> Map<Seq<char>, JsonTree> {
        object_of(self.list@)
    }

    fn new() -> (out: Fields)
        ensures
            out.object() == Map::<Seq<char>, JsonTree>::empty(),
    {
        Fields { list: Vec::new() }
    }

    fn with(self, name: &str, value: Value) -> (out: Fields)
        ensures
            out.object() == self.object().insert(name@, json_tree(value)),
    {
        let mut list: Vec<(String, Value)> = self.list;
        list.push((name.to_owned(), value));
        assert(list@.drop_last() =~= self.list@);
        Fields { list }
    }

    fn value(self) -> (value: Value)
        ensures
            json_tree(value) == JsonTree::Object(self.object()),
    {
        object_value(self.list)
    }
}

fn limit_value(limit: i64) -> (value: Value)
    ensures
        json_tree(value) == limit_tree(limit),
{
    Fields::new().with("limit", integer_value(limit)).value()
}

fn namespaces_value(names: &Vec<String>) -> (value: Value)
    ensures
        json_tree(value) == JsonTree::List(
            Seq::new(names@.len(), |i: int| namespace_tree(names@[i]@)),
        ),
{
    let mut items: Vec<Value> = Vec::new();
    let mut i: usize = 0;
    while i < names.len()
        invariant
            i <= names.len(),
            items@.len() == i,
            forall|k: int|
                0 <= k < i ==> json_tree(#[trigger] items@[k]) == namespace_tree(names@[k]@),
        decreases names.len() - i,
    {
        items.push(Fields::new().with("type", text_value(names[i].as_str())).value());
        i = i + 1;
    }
    assert(json_trees(items@) =~= Seq::new(names@.len(), |i: int| namespace_tree(names@[i]@)));
    list_value(items)
}

fn whole_env(extra: &Vec<String>) -> (env: Vec<String>)
    ensures
        texts(env@) == process_env(texts(extra@)),
{
    let mut env: Vec<String> = Vec::new();
    env.push("PATH=/usr/local/sbin:/usr/local/bin:/usr/sbin:/usr/bin:/sbin:/bin".to_owned());
    env.push("TERM=xterm".to_owned());
    let ghost base = texts(env@);
    let mut more: Vec<String> = copy_texts(extra);
    let ghost added = texts(more@);
    env.append(&mut more);
    assert(texts(env@) =~= base + added);
    assert(base =~= process_env(Seq::empty()));
    assert(texts(env@) =~= process_env(texts(extra@)));
    env
}

/// The configuration that the options ask for.
pub fn build_config(cli: &Cli) -> (config: Value)
    ensures
        json_tree(config) == config_tree(cli@),
{
    let process: Value = Fields::new()
        .with("args", texts_value(&split_lines(&cli.process.args)))
        .with("env", texts_value(&whole_env(&cli.process.extra_env)))
        .with("cwd", text_value(cli.process.cwd.as_str()))
        .with("hostname", text_value(cli.process.hostname.as_str()))
        .value();
    let root: Value = Fields::new()
        .with("path", text_value(cli.root.rootfs.as_str()))
        .with("readonly", flag_value(cli.root.readonly))
        .value();
    let resources: Value = Fields::new()
        .with("pids", limit_value(cli.linux.pid_limit))
        .with("memory", limit_value(cli.linux.memory_limit))
        .value();
    let namespaces: Value = namespaces_value(&cli.linux.namespaces);
    assert(json_tree(namespaces) == JsonTree::List(
        Seq::new(cli@.namespaces.len(), |i: int| namespace_tree(cli@.namespaces[i])),
    )) by {
        assert(json_tree(namespaces)->List_0 =~= Seq::new(
            cli@.namespaces.len(),
            |i: int| namespace_tree(cli@.namespaces[i]),
        ));
    }
    let linux: Value = Fields::new()
        .with("namespaces", namespaces)
        .with("resources", resources)
        .value();
    Fields::new()
        .with("ociVersion", text_value("1.0.2"))
        .with("process", process)
        .with("root", root)
        .with("linux", linux)
        .value()
}

/// Writes a configuration to a path, and says so. Where that fails, the process exits.
/// `quoted` is the path as lines show it.
pub open spec fn writing(
    path: Seq<char>,
    quoted: Seq<char>,
    contents: Seq<char>,
) -> Seq<StepView> {
    seq![
        StepOf {
            yes: 1,
            ..plain(
                ActionOf::WriteFile { path, contents },
                reported("Failed to write "@ + quoted),
            )
        },
        plain(ActionOf::Exit(1), OnErrorOf::Ignore),
        saying("Written config to "@ + quoted),
    ]
}

/// Writes a configuration to a path, and says so.
pub fn write_config(path: &str, quoted: &str, contents: String) -> (out: Program)
    ensures
        out@ == writing(path@, quoted@, contents@),
{
    let write: Step = StepOf {
        action: ActionOf::WriteFile { path: path.to_owned(), contents },
        yes: 1,
        no: OtherwiseOf::Skip(0),
        exists: None,
        error: or_report(joint("Failed to write ", quoted).as_str()),
    };
    Program::new()
        .with(write)
        .with(step(ActionOf::Exit(1), OnErrorOf::Ignore))
        .with(say(joint("Written config to ", quoted).as_str()))
}

/// Writes the configuration that the options ask for, and says so.
pub fn build_config_file(cli: &Cli) -> (out: Program)
    ensures
        out@ == writing(cli@.output, quoted_path(cli@.output), pretty_json(config_tree(cli@))),
{
    let quoted: String = quote_path(cli.output.as_str());
    write_config(cli.output.as_str(), quoted.as_str(), pretty(&build_config(cli)))
}

/// The configuration that the options ask for.
pub open spec fn asked_for(cli: CliView) -> OciConfigView {
    OciConfigView {
        oci_version: "1.0.2"@,
        process: ProcessConfigView {
            args: all_words(cli.args),
            env: process_env(cli.extra_env),
            cwd: cli.cwd,
            hostname: Some(cli.hostname),
        },
        root: RootConfigView { path: cli.rootfs, readonly: cli.readonly },
        linux: Some(
            LinuxConfigView {
                namespaces: Seq::new(
                    cli.namespaces.len(),
                    |i: int| NamespaceConfigView { ns_type: cli.namespaces[i], path: None },
                ),
                cgroups_path: None,
                resources: Some(
                    LinuxResources {
                        pids: Some(PidLimit { limit: cli.pid_limit }),
                        memory: Some(MemoryLimit { limit: Some(cli.memory_limit) }),
                    },
                ),
            },
        ),
    }
}

/// A field of a JSON object; one that is missing counts as null.
pub open spec fn field(tree: JsonTree, name: Seq<char>) -> JsonTree {
    match tree {
        JsonTree::Object(fields) => if fields.contains_key(name) {
            fields[name]
        } else {
            JsonTree::Null
        },
        _ => JsonTree::Null,
    }
}

/// Whether JSON says a text that may be missing.
pub open spec fn says_maybe(tree: JsonTree, text: Option<Seq<char>>) -> bool {
    match text {
        Some(text) => tree == JsonTree::Text(text),
        None => tree is Null,
    }
}

/// Whether JSON says a number that may be missing.
pub open spec fn says_limit(tree: JsonTree, limit: Option<i64>) -> bool {
    match limit {
        Some(limit) => tree == JsonTree::Integer(limit as int),
        None => tree is Null,
    }
}

/// Whether JSON says a list of texts; none counts as an empty list.
pub open spec fn says_list(tree: JsonTree, list: Seq<Seq<char>>) -> bool {
    tree == text_list(list) || tree is Null && list.len() == 0
}

/// Whether JSON says what a configuration says of limits.
pub open spec fn says_resources(tree: JsonTree, resources: LinuxResources) -> bool {
    &&& tree is Object
    &&& match resources.pids {
        Some(pids) => field(tree, "pids"@) is Object && says_limit(
            field(field(tree, "pids"@), "limit"@),
            Some(pids.limit),
        ),
        None => field(tree, "pids"@) is Null,
    }
    &&& match resources.memory {
        Some(memory) => field(tree, "memory"@) is Object && says_limit(
            field(field(tree, "memory"@), "limit"@),
            memory.limit,
        ),
        None => field(tree, "memory"@) is Null,
    }
}

/// Whether JSON says what a configuration says of Linux.
pub open spec fn says_linux(tree: JsonTree, linux: LinuxConfigView) -> bool {
    let namespaces = field(tree, "namespaces"@);
    &&& tree is Object
    &&& match namespaces {
        JsonTree::List(list) => list.len() == linux.namespaces.len() && forall|i: int|
            0 <= i < list.len() ==> {
                &&& field(#[trigger] list[i], "type"@) == JsonTree::Text(linux.namespaces[i].ns_type)
                &&& says_maybe(field(list[i], "path"@), linux.namespaces[i].path)
            },
        _ => namespaces is Null && linux.namespaces.len() == 0,
    }
    &&& says_maybe(field(tree, "cgroupsPath"@), linux.cgroups_path)
    &&& match linux.resources {
        Some(resources) => says_resources(field(tree, "resources"@), resources),
        None => field(tree, "resources"@) is Null,
    }
}

/// Whether JSON says what a configuration says.
pub open spec fn says(tree: JsonTree, config: OciConfigView) -> bool {
    let process = field(tree, "process"@);
    let root = field(tree, "root"@);
    &&& field(tree, "ociVersion"@) == JsonTree::Text(config.oci_version)
    &&& field(process, "args"@) == text_list(config.process.args)
    &&& says_list(field(process, "env"@), config.process.env)
    &&& field(process, "cwd"@) == JsonTree::Text(config.process.cwd)
    &&& says_maybe(field(process, "hostname"@), config.process.hostname)
    &&& field(root, "path"@) == JsonTree::Text(config.root.path)
    &&& field(root, "readonly"@) == JsonTree::Flag(config.root.readonly) || field(
        root,
        "readonly"@,
    ) is Null && !config.root.readonly
    &&& match config.linux {
        Some(linux) => says_linux(field(tree, "linux"@), linux),
        None => field(tree, "linux"@) is Null,
    }
}

/// The file that is written says what is asked for.
pub proof fn law_file_says_what_is_asked_for(cli: CliView)
    ensures
        says(config_tree(cli), asked_for(cli)),
{
    reveal_strlit("ociVersion");
    reveal_strlit("process");
    reveal_strlit("root");
    reveal_strlit("linux");
    reveal_strlit("args");
    reveal_strlit("env");
    reveal_strlit("cwd");
    reveal_strlit("hostname");
    reveal_strlit("path");
    reveal_strlit("readonly");
    reveal_strlit("namespaces");
    reveal_strlit("resources");
    reveal_strlit("cgroupsPath");
    reveal_strlit("pids");
    reveal_strlit("memory");
    reveal_strlit("type");
    assert("root"@[0] != "args"@[0]);
    assert("env"@[0] != "cwd"@[0]);
    assert("type"@[0] != "path"@[0]);
    assert("linux"@[0] != "root"@[0]);
    assert("process"@[0] != "linux"@[0]);
    let tree = config_tree(cli);
    assert(field(tree, "process"@) is Object);
    assert(field(tree, "root"@) is Object);
    let linux = field(tree, "linux"@);
    assert(linux is Object);
    assert("namespaces"@.len() != "resources"@.len());
    let names = Seq::new(cli.namespaces.len(), |i: int| namespace_tree(cli.namespaces[i]));
    assert(field(linux, "namespaces"@) == JsonTree::List(names));
    let list = field(linux, "namespaces"@)->List_0;
    assert forall|i: int| 0 <= i < list.len() implies {
        &&& field(#[trigger] list[i], "type"@) == JsonTree::Text(cli.namespaces[i])
        &&& field(list[i], "path"@) is Null
    } by {
        assert(list[i] == namespace_tree(cli.namespaces[i]));
    }
    assert("cgroupsPath"@.len() == 11);
    assert(field(linux, "cgroupsPath"@) is Null);
    let resources = field(linux, "resources"@);
    assert(resources == JsonTree::Object(
        map!["pids"@ => limit_tree(cli.pid_limit), "memory"@ => limit_tree(cli.memory_limit)],
    ));
    assert("pids"@.len() != "memory"@.len());
    assert(field(resources, "pids"@) == limit_tree(cli.pid_limit));
    assert(field(resources, "memory"@) == limit_tree(cli.memory_limit));
    assert(says_linux(linux, asked_for(cli).linux->0));
}

/// The bundle of a configuration that is written to `output` by a process in the directory
/// `cwd`: the directory that the file lies in.
pub open spec fn bundle_of(cwd: Seq<char>, output: Seq<char>) -> Seq<char> {
    directory(joined(cwd, output))
}

/// The bundle of a configuration that is written to `output` by a process in the directory
/// `cwd`.
pub fn bundle_path(cwd: &str, output: &str) -> (path: String)
    ensures
        path@ == bundle_of(cwd@, output@),
{
    parent(join(cwd, output).as_str())
}

/// The runtime makes of what is asked for the container that is asked for: it runs the
/// words of the command, under the limits and in the namespaces that the options name, on
/// the root that they name, which starts at the directory of the file. Every option
/// reaches it, and it is not refused.
pub proof fn law_container_is_as_asked_for(cli: CliView, cwd: Seq<char>, id: u128)
    requires
        all_words(cli.args).len() > 0,
    ensures
        asked_for(cli).process.hostname == Some(cli.hostname),
        configured(bundle_of(cwd, cli.output), asked_for(cli), cli.hostname, id) == (ContainerView {
            container_command: all_words(cli.args)[0],
            args: all_words(cli.args).skip(1),
            chroot_path: joined(bundle_of(cwd, cli.output), cli.rootfs),
            readonly: cli.readonly,
            cgroup_config: CgroupConfigView {
                max_pid: decimal(cli.pid_limit as int),
                max_memory: decimal(cli.memory_limit as int),
            },
            hostname: cli.hostname,
            namespaces: cli.namespaces,
            env_vars: process_env(cli.extra_env),
            cwd: cli.cwd,
            id,
        }),
        is_absolute(cwd) ==> is_absolute(joined(bundle_of(cwd, cli.output), cli.rootfs)),
{
    let container = configured(bundle_of(cwd, cli.output), asked_for(cli), cli.hostname, id);
    assert(container.namespaces =~= cli.namespaces);
    if is_absolute(cwd) {
        law_directories_stay_absolute(joined(cwd, cli.output));
    }
}

/// With a file that is named alone, as it is by default, the root starts at the current
/// directory.
pub proof fn law_default_root_is_in_the_current_directory(cwd: Seq<char>)
    requires
        is_absolute(cwd),
        cwd.last() != '/',
    ensures
        bundle_of(cwd, default_options().output) == cwd,
        joined(cwd, default_options().rootfs) == cwd + "/rootfs"@,
{
    reveal_strlit("config.json");
    reveal_strlit("rootfs");
    reveal_strlit("/rootfs");
    let name = "config.json"@;
    assert forall|i: int| 0 <= i < name.len() implies #[trigger] name[i] != '/' by {}
    law_a_file_lies_in_its_directory(cwd, name);
    assert(cwd.push('/') + "rootfs"@ =~= cwd + "/rootfs"@);
}

/// Every container gets the two basic variables, and behind them those that are asked
/// for.
pub proof fn law_basic_variables_are_always_set(extra: Seq<Seq<char>>)
    ensures
        environment(process_env(extra)) == seq![
            ("PATH"@, "/usr/local/sbin:/usr/local/bin:/usr/sbin:/usr/bin:/sbin:/bin"@),
            ("TERM"@, "xterm"@),
        ] + environment(extra),
{
    let base = process_env(Seq::empty());
    let path = "/usr/local/sbin:/usr/local/bin:/usr/sbin:/usr/bin:/sbin:/bin"@;
    reveal_strlit("PATH=/usr/local/sbin:/usr/local/bin:/usr/sbin:/usr/bin:/sbin:/bin");
    reveal_strlit("/usr/local/sbin:/usr/local/bin:/usr/sbin:/usr/bin:/sbin:/bin");
    reveal_strlit("PATH");
    reveal_strlit("TERM=xterm");
    reveal_strlit("TERM");
    reveal_strlit("xterm");
    assert(process_env(extra) =~= base + extra);
    law_environments_add_up(base, extra);
    assert(base[0] =~= "PATH"@ + seq!['='] + path);
    assert(base[1] =~= "TERM"@ + seq!['='] + "xterm"@);
    law_variables_are_read_back("PATH"@, path);
    law_variables_are_read_back("TERM"@, "xterm"@);
    reveal_with_fuel(environment, 3);
    assert(base.drop_last().drop_last() =~= Seq::empty());
    assert(environment(base) =~= seq![("PATH"@, path), ("TERM"@, "xterm"@)]);
}

/// Every option stands in the file, in its place and as it was given: all the words of the
/// command, all the variables behind the two basic ones, all the namespaces, and each limit
/// under its own name.
pub proof fn law_every_option_stands_in_the_file(cli: CliView)
    ensures
        ({
            let tree = config_tree(cli);
            let process = field(tree, "process"@);
            let root = field(tree, "root"@);
            let linux = field(tree, "linux"@);
            let resources = field(linux, "resources"@);
            let args = field(process, "args"@);
            let env = field(process, "env"@);
            let namespaces = field(linux, "namespaces"@);
            &&& field(tree, "ociVersion"@) == JsonTree::Text("1.0.2"@)
            &&& args is List && args->List_0.len() == all_words(cli.args).len()
            &&& forall|i: int|
                0 <= i < all_words(cli.args).len() ==> #[trigger] args->List_0[i]
                    == JsonTree::Text(all_words(cli.args)[i])
            &&& env is List && env->List_0.len() == 2 + cli.extra_env.len()
            &&& env->List_0[0] == JsonTree::Text(
                "PATH=/usr/local/sbin:/usr/local/bin:/usr/sbin:/usr/bin:/sbin:/bin"@,
            )
            &&& env->List_0[1] == JsonTree::Text("TERM=xterm"@)
            &&& forall|i: int|
                0 <= i < cli.extra_env.len() ==> env->List_0[i + 2] == JsonTree::Text(
                    #[trigger] cli.extra_env[i],
                )
            &&& field(process, "cwd"@) == JsonTree::Text(cli.cwd)
            &&& field(process, "hostname"@) == JsonTree::Text(cli.hostname)
            &&& field(root, "path"@) == JsonTree::Text(cli.rootfs)
            &&& field(root, "readonly"@) == JsonTree::Flag(cli.readonly)
            &&& namespaces is List && namespaces->List_0.len() == cli.namespaces.len()
            &&& forall|i: int|
                0 <= i < cli.namespaces.len() ==> field(
                    #[trigger] namespaces->List_0[i],
                    "type"@,
                ) == JsonTree::Text(cli.namespaces[i])
            &&& field(field(resources, "pids"@), "limit"@) == JsonTree::Integer(
                cli.pid_limit as int,
            )
            &&& field(field(resources, "memory"@), "limit"@) == JsonTree::Integer(
                cli.memory_limit as int,
            )
        }),
{
    reveal_strlit("ociVersion");
    reveal_strlit("process");
    reveal_strlit("root");
    reveal_strlit("linux");
    reveal_strlit("args");
    reveal_strlit("env");
    reveal_strlit("cwd");
    reveal_strlit("hostname");
    reveal_strlit("path");
    reveal_strlit("readonly");
    reveal_strlit("namespaces");
    reveal_strlit("resources");
    reveal_strlit("pids");
    reveal_strlit("memory");
    assert("env"@[0] != "cwd"@[0]);
    let tree = config_tree(cli);
    let process = field(tree, "process"@);
    assert("ociVersion"@.len() == 10 && "process"@.len() == 7 && "root"@.len() == 4
        && "linux"@.len() == 5);
    assert(process is Object);
    assert("args"@.len() == 4 && "env"@.len() == 3 && "cwd"@.len() == 3 && "hostname"@.len() == 8);
    assert("env"@ != "cwd"@);
    assert(process == JsonTree::Object(
        map![
            "args"@ => text_list(all_words(cli.args)),
            "env"@ => text_list(process_env(cli.extra_env)),
            "cwd"@ => JsonTree::Text(cli.cwd),
            "hostname"@ => JsonTree::Text(cli.hostname),
        ],
    ));
    assert(field(process, "args"@) == text_list(all_words(cli.args)));
    assert(field(process, "env"@) == text_list(process_env(cli.extra_env)));
    assert(field(process, "cwd"@) == JsonTree::Text(cli.cwd));
    assert("path"@.len() == 4 && "readonly"@.len() == 8);
    let root = field(tree, "root"@);
    assert(root is Object);
    assert(field(root, "path"@) == JsonTree::Text(cli.rootfs));
    assert(field(root, "readonly"@) == JsonTree::Flag(cli.readonly));
    assert(field(process, "hostname"@) == JsonTree::Text(cli.hostname));
    assert(field(tree, "ociVersion"@) == JsonTree::Text("1.0.2"@));
    let linux = field(tree, "linux"@);
    assert(linux is Object);
    assert("namespaces"@.len() != "resources"@.len());
    let names = Seq::new(cli.namespaces.len(), |i: int| namespace_tree(cli.namespaces[i]));
    assert(field(linux, "namespaces"@) == JsonTree::List(names));
    let resources = field(linux, "resources"@);
    assert(resources == JsonTree::Object(
        map!["pids"@ => limit_tree(cli.pid_limit), "memory"@ => limit_tree(cli.memory_limit)],
    ));
    assert("pids"@.len() != "memory"@.len());
    assert(field(resources, "pids"@) == limit_tree(cli.pid_limit));
    assert(field(resources, "memory"@) == limit_tree(cli.memory_limit));
}

/// A configuration is written as it is to the path that is given; that is told of, and where
/// it fails, the reason is told and the process exits.
pub proof fn law_the_file_is_written(
    path: Seq<char>,
    quoted: Seq<char>,
    contents: Seq<char>,
    code: Option<i32>,
    why: Seq<char>,
)
    ensures
        ({
            let run = started(writing(path, quoted, contents));
            let done = resumed(run, ReplyOf::Done);
            let failed = resumed(run, ReplyOf::Failed { code, why });
            &&& run.pending[0].action == ActionView::WriteFile { path, contents }
            &&& done.status is Going
            &&& done.said.len() == 0
            &&& done.run.pending.len() == 1
            &&& done.run.pending[0].action == ActionView::Print("Written config to "@ + quoted)
            &&& failed.status is Going
            &&& failed.said == seq!["Failed to write "@ + quoted + ": "@ + why]
            &&& failed.run.pending.len() > 0
            &&& failed.run.pending[0].action == ActionView::Exit(1)
        }),
{
    let run = started(writing(path, quoted, contents));
    let failed = resumed(run, ReplyOf::Failed { code, why });
    assert(failed.said =~= seq!["Failed to write "@ + quoted + ": "@ + why]);
}

/// The bundle of a file is the directory that it is named in.
pub proof fn law_the_bundle_holds_the_file(cwd: Seq<char>, dir: Seq<char>, name: Seq<char>)
    requires
        !name.contains('/'),
        name.len() > 0,
    ensures
        cwd.len() > 0 && cwd.last() != '/' ==> bundle_of(cwd, name) == cwd,
        dir.len() > 0 && dir[0] == '/' ==> bundle_of(cwd, dir + seq!['/'] + name) == dir,
{
    assert(name.contains(name[0]));
    assert(dir + seq!['/'] + name =~= dir.push('/') + name);
    if cwd.len() > 0 {
        law_a_file_lies_in_its_directory(cwd, name);
    }
    if dir.len() > 0 {
        law_a_file_lies_in_its_directory(dir, name);
    }
}

} // verus!
