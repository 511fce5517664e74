//! Containers described by a bundle: a directory that holds a `config.json`.
use vstd::prelude::*;
use vstd::string::*;

use crate::basic::{
    bind_mount, bind_mount_program, child, child_program, expecting, furnish, furnish_program, host,
    host_program, is_handshake, law_the_course_of_the_workload, law_the_root_is_swapped,
    lemma_host_program, own_namespaces, pivot_root_program, pivot_root_setup, supervisor,
    supervisor_program, workload, workload_program, CgroupConfig, CgroupConfigView,
};
use crate::config::{limit_text, memory_limit, pids_limit, MemoryLimit, OciConfig, OciConfigView};
use crate::namespaces::namespace_bits;
use crate::run::{
    after, law_no_step_is_bypassed, law_runs_follow_the_program, resumed, started, was_done,
};
use crate::session::{
    begun, branched, entered, followed, Progress, ProgressView, Session, SessionView, Stage,
};
use crate::steps::{
    environment, or_expect, or_report, plain, reported, split_vars, step, ActionOf, ActionView,
    Command, CommandView, OldRootOf, OnErrorOf, Program, Reply, ReplyOf, ReplyView, StepView,
};
use crate::text::{
    copy_texts, decimal, join, joined, joint, law_paths_are_read_from_their_directory, texts,
};

verus! {

broadcast use vstd::string::to_string_from_display_ensures_for_str;

/// A container that is ready to be run.
pub struct Container {
    pub container_command: String,
    pub args: Vec<String>,
    /// The directory that becomes the container's root.
    pub chroot_path: String,
    pub cgroup_config: CgroupConfig,
    /// Environment variables, each as `KEY=VALUE`.
    pub env_vars: Vec<String>,
    pub cwd: String,
}

/// A container, by the characters of its texts.
#[verifier::ext_equal]
pub struct ContainerView {
    pub container_command: Seq<char>,
    pub args: Seq<Seq<char>>,
    pub chroot_path: Seq<char>,
    pub cgroup_config: CgroupConfigView,
    pub env_vars: Seq<Seq<char>>,
    pub cwd: Seq<char>,
}

impl View for Container {
    type V = ContainerView;

    open spec fn view(&self) -> ContainerView {
        ContainerView {
            container_command: self.container_command@,
            args: texts(self.args@),
            chroot_path: self.chroot_path@,
            cgroup_config: self.cgroup_config@,
            env_vars: texts(self.env_vars@),
            cwd: self.cwd@,
        }
    }
}

/// What came of reading the configuration of a bundle.
pub enum ConfigFile {
    /// The file could not be opened, for the reason.
    Unopened(String),
    /// The file holds no configuration, for the reason.
    Unparsed(String),
    Parsed(OciConfig),
}

/// The path of the configuration of a bundle.
pub fn config_path(bundle_path: &str) -> (path: String)
    ensures
        path@ == joined(bundle_path@, "config.json"@),
{
    join(bundle_path, "config.json")
}

/// The container that a configuration describes. A root path that is not absolute
/// starts at the bundle.
pub open spec fn configured(bundle_path: Seq<char>, config: OciConfigView) -> ContainerView {
    ContainerView {
        container_command: config.process.args[0],
        args: config.process.args.skip(1),
        chroot_path: joined(bundle_path, config.root.path),
        cgroup_config: CgroupConfigView {
            max_pid: limit_text(pids_limit(config)),
            max_memory: limit_text(memory_limit(config)),
        },
        env_vars: config.process.env,
        cwd: config.process.cwd,
    }
}

/// Prepares the container from the inside: its root, its hostname and its virtual file
/// systems.
pub open spec fn setup_child_program(chroot_path: Seq<char>) -> Seq<StepView> {
    pivot_root_program(
        chroot_path,
        bind_mount_program(
            chroot_path,
            expecting("CRITICAL: Failed to bind mount pivot root path"@),
        ),
        OldRootOf::At(joined(chroot_path, "old_root"@)),
    ) + furnish_program()
}

/// Prepares the container from the inside.
pub fn setup_child_process(chroot_path: &str) -> (out: Program)
    ensures
        out@ == setup_child_program(chroot_path@),
{
    let bind: Program = bind_mount(
        chroot_path,
        or_expect("CRITICAL: Failed to bind mount pivot root path"),
    );
    pivot_root_setup(chroot_path, bind, OldRootOf::At(join(chroot_path, "old_root"))).followed_by(
        furnish(),
    )
}

/// The command of a container.
pub open spec fn container_command(container: ContainerView) -> CommandView {
    CommandView {
        program: container.container_command,
        args: container.args,
        env: environment(container.env_vars),
        cwd: Some(container.cwd),
    }
}

/// What the process of a stage does. The number is that of its child, if it has
/// forked one.
pub open spec fn stage_program(
    container: ContainerView,
    stage: Stage,
    child: u32,
) -> Seq<StepView> {
    match stage {
        Stage::Launch => seq![
            plain(ActionOf::OpenPipe, OnErrorOf::Unwrap),
            plain(ActionOf::OpenReadyPipe, OnErrorOf::Unwrap),
            plain(ActionOf::Fork, reported("Fork failed"@)),
        ],
        Stage::Host => host_program(
            container.cgroup_config,
            child,
            seq![plain(ActionOf::AwaitReady, OnErrorOf::Unwrap)],
            seq![plain(ActionOf::WakeChild, OnErrorOf::Unwrap)],
        ),
        Stage::Child => child_program(
            seq![
                plain(ActionOf::SignalReady, OnErrorOf::Unwrap),
                plain(ActionOf::AwaitWake, OnErrorOf::Unwrap),
            ],
        ),
        Stage::Supervisor => supervisor_program(),
        Stage::Workload => workload_program(
            setup_child_program(container.chroot_path),
            container_command(container),
        ),
    }
}

/// A session at the start of a stage of the container.
pub open spec fn staged(container: ContainerView, stage: Stage, child: u32) -> SessionView {
    entered(stage, stage_program(container, stage, child))
}

/// What a reply leads to. Each side of a fork goes on with the program of its own
/// stage; any other reply is the matter of the running program.
pub open spec fn session_resumed(
    container: ContainerView,
    session: SessionView,
    reply: ReplyView,
) -> ProgressView {
    match branched(session, reply) {
        Some((stage, child)) => begun(staged(container, stage, child)),
        None => followed(session, reply),
    }
}

impl Container {
    /// The container that the configuration of a bundle describes.
    pub fn build_from_bundle(bundle_path: &str, file: ConfigFile) -> (out: Result<
        Container,
        String,
    >)
        requires
            file matches ConfigFile::Parsed(config) ==> config.process.args@.len() > 0,
        ensures
            match file {
                ConfigFile::Unopened(why) => out is Err && out->Err_0@
                    == "Failed to open config.json: "@ + why@,
                ConfigFile::Unparsed(why) => out is Err && out->Err_0@
                    == "Parsing OCI config failed: "@ + why@,
                ConfigFile::Parsed(config) => out is Ok && out->Ok_0@ == configured(
                    bundle_path@,
                    config@,
                ),
            },
    {
        let config: OciConfig = match file {
            ConfigFile::Unopened(why) => {
                return Err(joint("Failed to open config.json: ", why.as_str()));
            },
            ConfigFile::Unparsed(why) => {
                return Err(joint("Parsing OCI config failed: ", why.as_str()));
            },
            ConfigFile::Parsed(config) => config,
        };
        let max_pid: String = config.max_pid();
        let max_memory: String = config.max_memory();
        let chroot_path: String = join(bundle_path, config.root.path.as_str());
        let mut args: Vec<String> = config.process.args;
        let container_command: String = args.remove(0);
        assert(texts(args@) =~= config@.process.args.skip(1));
        Ok(
            Container {
                container_command,
                args,
                chroot_path,
                cgroup_config: CgroupConfig { max_pid, max_memory },
                env_vars: config.process.env,
                cwd: config.process.cwd,
            },
        )
    }

    fn command(&self) -> (command: Command)
        ensures
            command@ == container_command(self@),
    {
        Command {
            program: self.container_command.clone(),
            args: copy_texts(&self.args),
            env: split_vars(&self.env_vars),
            cwd: Some(self.cwd.clone()),
        }
    }

    fn stage(&self, stage: Stage, child_pid: u32) -> (session: Session)
        ensures
            session@ == staged(self@, stage, child_pid),
    {
        let program: Program = match stage {
            Stage::Launch => Program::new()
                .with(step(ActionOf::OpenPipe, OnErrorOf::Unwrap))
                .with(step(ActionOf::OpenReadyPipe, OnErrorOf::Unwrap))
                .with(step(ActionOf::Fork, or_report("Fork failed"))),
            Stage::Host => host(
                &self.cgroup_config,
                child_pid,
                Program::new().with(step(ActionOf::AwaitReady, OnErrorOf::Unwrap)),
                Program::new().with(step(ActionOf::WakeChild, OnErrorOf::Unwrap)),
            ),
            Stage::Child => child(
                Program::new()
                    .with(step(ActionOf::SignalReady, OnErrorOf::Unwrap))
                    .with(step(ActionOf::AwaitWake, OnErrorOf::Unwrap)),
            ),
            Stage::Supervisor => supervisor(),
            Stage::Workload => workload(
                setup_child_process(self.chroot_path.as_str()),
                self.command(),
            ),
        };
        Session::enter(stage, program)
    }

    /// Starts to run the container.
    pub fn run(&self) -> (session: Session)
        ensures
            session@ == staged(self@, Stage::Launch, 0),
    {
        self.fork_and_run()
    }

    /// Starts to run the container.
    pub fn fork_and_run(&self) -> (session: Session)
        ensures
            session@ == staged(self@, Stage::Launch, 0),
    {
        self.stage(Stage::Launch, 0)
    }

    /// Takes the system's reply to the session's current action.
    pub fn resume(&self, session: Session, reply: Reply) -> (progress: Progress)
        ensures
            progress@ == session_resumed(self@, session@, reply@),
    {
        match session.branch(&reply) {
            Some((stage, child)) => self.stage(stage, child).begin(),
            None => session.follow(reply),
        }
    }
}

/// When the child is about to tell the host side that it is ready, it has left the host's
/// namespaces; and it goes on to wait for the host side.
pub proof fn law_child_is_ready_when_it_says_so(
    container: ContainerView,
    replies: Seq<ReplyView>,
)
    requires
        after(started(stage_program(container, Stage::Child, 0)), replies) is Some,
        after(started(stage_program(container, Stage::Child, 0)), replies)->0.pending.len() > 0,
        ({
            let run = after(started(stage_program(container, Stage::Child, 0)), replies)->0;
            run.pending[0].action is SignalReady
        }),
    ensures
        was_done(
            started(stage_program(container, Stage::Child, 0)),
            replies,
            ActionOf::Unshare(namespace_bits(own_namespaces())),
        ),
        ({
            let run = after(started(stage_program(container, Stage::Child, 0)), replies)->0;
            run.pending[1].action is AwaitWake
        }),
{
    let run = started(stage_program(container, Stage::Child, 0));
    law_runs_follow_the_program(run, replies);
    let left = after(run, replies)->0.pending;
    assert(left[0] == run.pending[run.pending.len() - left.len()]);
    let unshared = law_no_step_is_bypassed(run, replies, 0);
}

/// The child does nothing in the new namespaces before the host side lets it go on:
/// when it is about to change a mount or to fork, it has left the host's namespaces, has
/// told the host side so, and has been woken.
pub proof fn law_child_waits_for_the_host(container: ContainerView, replies: Seq<ReplyView>)
    requires
        after(started(stage_program(container, Stage::Child, 0)), replies) is Some,
        after(started(stage_program(container, Stage::Child, 0)), replies)->0.pending.len() > 0,
        ({
            let run = after(started(stage_program(container, Stage::Child, 0)), replies)->0;
            run.pending[0].action is Mount || run.pending[0].action is Fork
        }),
    ensures
        ({
            let run = started(stage_program(container, Stage::Child, 0));
            &&& was_done(
                run,
                replies,
                ActionOf::Unshare(namespace_bits(own_namespaces())),
            )
            &&& was_done(run, replies, ActionOf::SignalReady)
            &&& was_done(run, replies, ActionOf::AwaitWake)
        }),
{
    let run = started(stage_program(container, Stage::Child, 0));
    law_runs_follow_the_program(run, replies);
    let left = after(run, replies)->0.pending;
    assert(left[0] == run.pending[run.pending.len() - left.len()]);
    let unshared = law_no_step_is_bypassed(run, replies, 0);
    let told = law_no_step_is_bypassed(run, replies, 1);
    let woken = law_no_step_is_bypassed(run, replies, 2);
}

/// The host side works for a child that has been heard of: when it is about to make the
/// child's control group, to put anything into it, or to let the child go on, the child
/// has said that it is ready, or has ended.
pub proof fn law_host_works_for_a_child_that_is_ready(
    container: ContainerView,
    child: u32,
    replies: Seq<ReplyView>,
)
    requires
        after(started(stage_program(container, Stage::Host, child)), replies) is Some,
        after(started(stage_program(container, Stage::Host, child)), replies)->0.pending.len() > 0,
        ({
            let run = after(started(stage_program(container, Stage::Host, child)), replies)->0;
            !(run.pending[0].action is Print) && !(run.pending[0].action is AwaitReady)
        }),
    ensures
        was_done(
            started(stage_program(container, Stage::Host, child)),
            replies,
            ActionOf::AwaitReady,
        ),
{
    let ready = seq![plain(ActionOf::AwaitReady, OnErrorOf::Unwrap)];
    let wake = seq![plain(ActionOf::WakeChild, OnErrorOf::Unwrap)];
    let program = stage_program(container, Stage::Host, child);
    let run = after(started(program), replies)->0;
    assert(is_handshake(ready) && is_handshake(wake));
    lemma_host_program(container.cgroup_config, child, ready, wake);
    law_runs_follow_the_program(started(program), replies);
    assert(run.pending[0] == program[program.len() - run.pending.len()]);
    assert(program[0].action is Print && program[1].action is AwaitReady);
    let told = law_no_step_is_bypassed(started(program), replies, 1);
}

/// What the process of each stage does: the host side and the first child keep in step by two pipes; the
/// workload is prepared in the container's root, and starts the container's program with
/// all of the container's arguments, its variables and its
/// working directory.
pub proof fn law_the_stages_are_the_containers(container: ContainerView, child: u32)
    ensures
        stage_program(container, Stage::Launch, child) == seq![
            plain(ActionOf::OpenPipe, OnErrorOf::Unwrap),
            plain(ActionOf::OpenReadyPipe, OnErrorOf::Unwrap),
            plain(ActionOf::Fork, reported("Fork failed"@)),
        ],
        stage_program(container, Stage::Host, child) == host_program(
            container.cgroup_config,
            child,
            seq![plain(ActionOf::AwaitReady, OnErrorOf::Unwrap)],
            seq![plain(ActionOf::WakeChild, OnErrorOf::Unwrap)],
        ),
        stage_program(container, Stage::Child, child) == child_program(
            seq![
                plain(ActionOf::SignalReady, OnErrorOf::Unwrap),
                plain(ActionOf::AwaitWake, OnErrorOf::Unwrap),
            ],
        ),
        stage_program(container, Stage::Supervisor, child) == seq![
            plain(ActionOf::WaitChild, OnErrorOf::Unwrap),
            plain(ActionOf::ExitNow(0), OnErrorOf::Ignore),
        ],
        ({
            let program = stage_program(container, Stage::Workload, child);
            let command = program[16].action->Spawn_0;
            &&& program.len() == 24
            &&& program.take(11) == pivot_root_program(
                container.chroot_path,
                bind_mount_program(container.chroot_path, OnErrorOf::Expect("CRITICAL: Failed to bind mount pivot root path"@)),
                OldRootOf::At(joined(container.chroot_path, "old_root"@)),
            )
            &&& program.subrange(11, 16) == furnish_program()
            &&& program[16].action is Spawn
            &&& command.program == container.container_command
            &&& command.args.len() == container.args.len()
            &&& forall|i: int|
                0 <= i < container.args.len() ==> #[trigger] command.args[i] == container.args[i]
            &&& command.env == environment(container.env_vars)
            &&& command.cwd == Some(container.cwd)
        }),
{
    let setup = setup_child_program(container.chroot_path);
    let program = stage_program(container, Stage::Workload, child);
    law_the_course_of_the_workload(setup, container_command(container));
    law_the_root_is_swapped(
        container.chroot_path,
        OnErrorOf::Expect("CRITICAL: Failed to bind mount pivot root path"@),
        OldRootOf::At(joined(container.chroot_path, "old_root"@)),
    );
    assert(setup.len() == 16);
    assert(program.take(16) == setup);
    assert(program.take(11) =~= setup.take(11));
    assert(setup.take(11) =~= pivot_root_program(
        container.chroot_path,
        bind_mount_program(container.chroot_path, OnErrorOf::Expect("CRITICAL: Failed to bind mount pivot root path"@)),
        OldRootOf::At(joined(container.chroot_path, "old_root"@)),
    ));
    assert(setup.subrange(11, 16) =~= furnish_program());
    assert(program.subrange(11, 16) =~= program.take(16).subrange(11, 16));
    assert(program[16].action == ActionView::Spawn(container_command(container)));
}

/// Each side of a fork goes on with the program of its own stage, from its start, the host
/// side for the very child that it was told of; any other reply is the matter of the running
/// program.
pub proof fn law_each_side_of_a_fork_goes_on(
    container: ContainerView,
    session: SessionView,
    child: u32,
    reply: ReplyView,
)
    ensures
        session.run.pending.len() > 0 && session.run.pending[0].action is Fork ==> {
            let parent = session_resumed(container, session, ReplyOf::Parent(child));
            let forked = session_resumed(container, session, ReplyOf::Child);
            &&& session.stage is Launch ==> {
                &&& parent.session.stage is Host
                &&& parent.session.run.pending == stage_program(container, Stage::Host, child)
                &&& forked.session.stage is Child
                &&& forked.session.run.pending == stage_program(container, Stage::Child, 0)
            }
            &&& session.stage is Child ==> {
                &&& parent.session.stage is Supervisor
                &&& parent.session.run.pending == stage_program(
                    container,
                    Stage::Supervisor,
                    child,
                )
                &&& forked.session.stage is Workload
                &&& forked.session.run.pending == stage_program(container, Stage::Workload, 0)
            }
            &&& session.stage is Launch || session.stage is Child ==> {
                &&& parent.status is Going && parent.said.len() == 0
                &&& forked.status is Going && forked.said.len() == 0
            }
        },
        session.run.pending.len() == 0 || !(session.run.pending[0].action is Fork) || !(
        reply is Parent || reply is Child) ==> {
            let progress = session_resumed(container, session, reply);
            let turn = resumed(session.run, reply);
            &&& progress.session.stage == session.stage
            &&& progress.session.run == turn.run
            &&& progress.said == turn.said
            &&& progress.status == turn.status
        },
{
}

/// The container that a configuration describes has what the configuration says, part by
/// part. Its program is the first of the arguments, and it is handed all the others, in
/// order; its limits are the numbers of the configuration, each its own, or none; its root is
/// the path of the configuration, read from the bundle.
pub proof fn law_the_container_is_as_configured(bundle_path: Seq<char>, config: OciConfigView)
    requires
        config.process.args.len() > 0,
    ensures
        ({
            let container = configured(bundle_path, config);
            &&& container.container_command == config.process.args[0]
            &&& seq![container.container_command] + container.args == config.process.args
            &&& config.root.path.len() > 0 && config.root.path[0] == '/' ==> container.chroot_path
                == config.root.path
            &&& bundle_path.len() > 0 && bundle_path.last() != '/' && !(config.root.path.len() > 0
                && config.root.path[0] == '/') ==> container.chroot_path == bundle_path + seq!['/']
                + config.root.path
            &&& container.env_vars == config.process.env
            &&& container.cwd == config.process.cwd
            &&& config.linux is None ==> {
                &&& container.cgroup_config.max_pid == "max"@
                &&& container.cgroup_config.max_memory == "max"@
            }
            &&& config.linux matches Some(linux) ==> {
                &&& linux.resources is None ==> {
                    &&& container.cgroup_config.max_pid == "max"@
                    &&& container.cgroup_config.max_memory == "max"@
                }
                &&& linux.resources matches Some(resources) ==> {
                    &&& container.cgroup_config.max_pid == match resources.pids {
                        Some(pids) => decimal(pids.limit as int),
                        None => "max"@,
                    }
                    &&& container.cgroup_config.max_memory == match resources.memory {
                        Some(MemoryLimit { limit: Some(limit) }) => decimal(limit as int),
                        _ => "max"@,
                    }
                }
            }
        }),
{
    let container = configured(bundle_path, config);
    assert(seq![container.container_command] + container.args =~= config.process.args);
    law_paths_are_read_from_their_directory(bundle_path, config.root.path);
}

} // verus!
