//! Containers described by arguments and environment variables.
use vstd::prelude::*;
use vstd::string::*;

use crate::basic::{
    bind_mount, bind_mount_program, child, child_program, furnish, furnish_program, host,
    host_program, law_the_course_of_the_workload, law_the_root_is_swapped, pivot_root_program,
    pivot_root_setup, supervisor, supervisor_program, workload, workload_program, CgroupConfig,
    CgroupConfigView,
};
use crate::config::no_limit;
use crate::run::resumed;
use crate::session::{
    begun, branched, entered, followed, Progress, ProgressView, Session, SessionView, Stage,
};
use crate::steps::{
    maybe, or_report, pairs, plain, reported, step, ActionOf, ActionView, Command, CommandView,
    OldRootOf, OnErrorOf, Program, Reply, ReplyOf, ReplyView, StepView,
};
use crate::text::{copy_texts, texts};

verus! {

broadcast use vstd::string::to_string_from_display_ensures_for_str;

/// A container that is ready to be run.
pub struct Container {
    pub container_command: String,
    pub args: Vec<String>,
    /// The directory that becomes the container's root.
    pub chroot_path: String,
    pub cgroup_config: CgroupConfig,
}

/// A container, by the characters of its texts.
#[verifier::ext_equal]
pub struct ContainerView {
    pub container_command: Seq<char>,
    pub args: Seq<Seq<char>>,
    pub chroot_path: Seq<char>,
    pub cgroup_config: CgroupConfigView,
}

impl View for Container {
    type V = ContainerView;

    open spec fn view(&self) -> ContainerView {
        ContainerView {
            container_command: self.container_command@,
            args: texts(self.args@),
            chroot_path: self.chroot_path@,
            cgroup_config: self.cgroup_config@,
        }
    }
}

/// The environment variables that describe a container; `None` where one is not set.
pub struct Variables {
    /// `MINI_DOCKER_CHROOT`.
    pub chroot_path: Option<String>,
    /// `MAX_PID`.
    pub max_pid: Option<String>,
    /// `MAX_MEMORY`.
    pub max_memory: Option<String>,
}

/// Why there is no container.
pub enum Refusal {
    /// The arguments are refused, with a message.
    Arguments(String),
    /// The process is to write the message to the standard error and to exit with
    /// the code.
    Exit { message: String, code: i32 },
}

/// A limit, or that there is none.
pub open spec fn limit_or_max(limit: Option<Seq<char>>) -> Seq<char> {
    match limit {
        Some(limit) => limit,
        None => no_limit(),
    }
}

fn or_max(limit: Option<String>) -> (out: String)
    ensures
        out@ == limit_or_max(maybe(limit)),
{
    match limit {
        Some(limit) => limit,
        None => "max".to_owned(),
    }
}

/// Prepares the container from the inside: its root, its hostname and its virtual file
/// systems.
pub open spec fn setup_child_program(chroot_path: Seq<char>) -> Seq<StepView> {
    pivot_root_program(
        chroot_path,
        bind_mount_program(chroot_path, reported("Failed to bind mount pivot root path"@)),
        OldRootOf::Inside("old_root/"@),
    ) + furnish_program()
}

/// Prepares the container from the inside.
pub fn setup_child_process(chroot_path: &str) -> (out: Program)
    ensures
        out@ == setup_child_program(chroot_path@),
{
    let bind: Program = bind_mount(
        chroot_path,
        or_report("Failed to bind mount pivot root path"),
    );
    pivot_root_setup(chroot_path, bind, OldRootOf::Inside("old_root/".to_owned())).followed_by(
        furnish(),
    )
}

/// The command of a container.
pub open spec fn container_command(container: ContainerView) -> CommandView {
    CommandView {
        program: container.container_command,
        args: container.args,
        env: Seq::empty(),
        cwd: None,
    }
}

/// What the process of a stage does. The number is that of its child, if it has
/// forked one.
pub open spec fn stage_program(
    container: ContainerView,
    stage: Stage,
    child: u32,
) -> Seq<StepView> {
    match stage {
        Stage::Launch => seq![plain(ActionOf::Fork, reported("Fork failed"@))],
        Stage::Host => host_program(
            container.cgroup_config,
            child,
            Seq::empty(),
            Seq::empty(),
        ),
        Stage::Child => child_program(Seq::empty()),
        Stage::Supervisor => supervisor_program(),
        Stage::Workload => workload_program(
            setup_child_program(container.chroot_path),
            container_command(container),
        ),
    }
}

/// A session at the start of a stage of the container.
pub open spec fn staged(container: ContainerView, stage: Stage, child: u32) -> SessionView {
    entered(stage, stage_program(container, stage, child))
}

/// What a reply leads to. Each side of a fork goes on with the program of its own
/// stage; any other reply is the matter of the running program.
pub open spec fn session_resumed(
    container: ContainerView,
    session: SessionView,
    reply: ReplyView,
) -> ProgressView {
    match branched(session, reply) {
        Some((stage, child)) => begun(staged(container, stage, child)),
        None => followed(session, reply),
    }
}

impl Container {
    /// The container that runs the arguments, with the root and the limits that the
    /// environment gives.
    pub fn build(args: Vec<String>, variables: Variables) -> (out: Result<Container, Refusal>)
        ensures
            match out {
                Ok(container) => {
                    &&& args@.len() > 0
                    &&& variables.chroot_path is Some
                    &&& container@ == (ContainerView {
                        container_command: args@[0]@,
                        args: texts(args@).skip(1),
                        chroot_path: variables.chroot_path->0@,
                        cgroup_config: CgroupConfigView {
                            max_pid: limit_or_max(maybe(variables.max_pid)),
                            max_memory: limit_or_max(maybe(variables.max_memory)),
                        },
                    })
                },
                Err(Refusal::Arguments(message)) => args@.len() == 0 && message@
                    == "You must provide a command to run in the container"@,
                Err(Refusal::Exit { message, code }) => {
                    &&& args@.len() > 0
                    &&& variables.chroot_path is None
                    &&& message@ == "error: MINI_DOCKER_CHROOT environment variable is not set"@
                    &&& code == 1
                },
            },
    {
        if args.len() < 1 {
            return Err(
                Refusal::Arguments("You must provide a command to run in the container".to_owned()),
            );
        }
        match variables.chroot_path {
            Some(chroot_path) => {
                let mut rest: Vec<String> = args;
                let container_command: String = rest.remove(0);
                assert(texts(rest@) =~= texts(args@).skip(1));
                Ok(
                    Container {
                        container_command,
                        args: rest,
                        chroot_path,
                        cgroup_config: CgroupConfig {
                            max_pid: or_max(variables.max_pid),
                            max_memory: or_max(variables.max_memory),
                        },
                    },
                )
            },
            None => Err(
                Refusal::Exit {
                    message: "error: MINI_DOCKER_CHROOT environment variable is not set".to_owned(),
                    code: 1,
                },
            ),
        }
    }

    fn command(&self) -> (command: Command)
        ensures
            command@ == container_command(self@),
    {
        let env: Vec<(String, String)> = Vec::new();
        assert(pairs(env@) =~= Seq::empty());
        Command {
            program: self.container_command.clone(),
            args: copy_texts(&self.args),
            env,
            cwd: None,
        }
    }

    fn stage(&self, stage: Stage, child_pid: u32) -> (session: Session)
        ensures
            session@ == staged(self@, stage, child_pid),
    {
        let program: Program = match stage {
            Stage::Launch => Program::new().with(step(ActionOf::Fork, or_report("Fork failed"))),
            Stage::Host => host(
                &self.cgroup_config,
                child_pid,
                Program::new(),
                Program::new(),
            ),
            Stage::Child => child(Program::new()),
            Stage::Supervisor => supervisor(),
            Stage::Workload => workload(
                setup_child_process(self.chroot_path.as_str()),
                self.command(),
            ),
        };
        Session::enter(stage, program)
    }

    /// Starts to run the container.
    pub fn run(&self) -> (session: Session)
        ensures
            session@ == staged(self@, Stage::Launch, 0),
    {
        self.fork_and_run()
    }

    /// Starts to run the container.
    pub fn fork_and_run(&self) -> (session: Session)
        ensures
            session@ == staged(self@, Stage::Launch, 0),
    {
        self.stage(Stage::Launch, 0)
    }

    /// Takes the system's reply to the session's current action.
    pub fn resume(&self, session: Session, reply: Reply) -> (progress: Progress)
        ensures
            progress@ == session_resumed(self@, session@, reply@),
    {
        match session.branch(&reply) {
            Some((stage, child)) => self.stage(stage, child).begin(),
            None => session.follow(reply),
        }
    }
}

/// What the process of each stage does: the host side and the first child do not wait for each other; the
/// workload is prepared in the container's root, and starts the container's program with
/// all of the container's arguments.
pub proof fn law_the_stages_are_the_containers(container: ContainerView, child: u32)
    ensures
        stage_program(container, Stage::Launch, child) == seq![
            plain(ActionOf::Fork, reported("Fork failed"@)),
        ],
        stage_program(container, Stage::Host, child) == host_program(
            container.cgroup_config,
            child,
            Seq::empty(),
            Seq::empty(),
        ),
        stage_program(container, Stage::Child, child) == child_program(Seq::empty()),
        stage_program(container, Stage::Supervisor, child) == seq![
            plain(ActionOf::WaitChild, OnErrorOf::Unwrap),
            plain(ActionOf::ExitNow(0), OnErrorOf::Ignore),
        ],
        ({
            let program = stage_program(container, Stage::Workload, child);
            let command = program[16].action->Spawn_0;
            &&& program.len() == 24
            &&& program.take(11) == pivot_root_program(
                container.chroot_path,
                bind_mount_program(container.chroot_path, reported("Failed to bind mount pivot root path"@)),
                OldRootOf::Inside("old_root/"@),
            )
            &&& program.subrange(11, 16) == furnish_program()
            &&& program[16].action is Spawn
            &&& command.program == container.container_command
            &&& command.args.len() == container.args.len()
            &&& forall|i: int|
                0 <= i < container.args.len() ==> #[trigger] command.args[i] == container.args[i]
            &&& command.env == Seq::<(Seq<char>, Seq<char>)>::empty()
            &&& command.cwd == None::<Seq<char>>
        }),
{
    let setup = setup_child_program(container.chroot_path);
    let program = stage_program(container, Stage::Workload, child);
    law_the_course_of_the_workload(setup, container_command(container));
    law_the_root_is_swapped(
        container.chroot_path,
        reported("Failed to bind mount pivot root path"@),
        OldRootOf::Inside("old_root/"@),
    );
    assert(setup.len() == 16);
    assert(program.take(16) == setup);
    assert(program.take(11) =~= setup.take(11));
    assert(setup.take(11) =~= pivot_root_program(
        container.chroot_path,
        bind_mount_program(container.chroot_path, reported("Failed to bind mount pivot root path"@)),
        OldRootOf::Inside("old_root/"@),
    ));
    assert(setup.subrange(11, 16) =~= furnish_program());
    assert(program.subrange(11, 16) =~= program.take(16).subrange(11, 16));
    assert(program[16].action == ActionView::Spawn(container_command(container)));
}

/// Each side of a fork goes on with the program of its own stage, from its start, the host
/// side for the very child that it was told of; any other reply is the matter of the running
/// program.
pub proof fn law_each_side_of_a_fork_goes_on(
    container: ContainerView,
    session: SessionView,
    child: u32,
    reply: ReplyView,
)
    ensures
        session.run.pending.len() > 0 && session.run.pending[0].action is Fork ==> {
            let parent = session_resumed(container, session, ReplyOf::Parent(child));
            let forked = session_resumed(container, session, ReplyOf::Child);
            &&& session.stage is Launch ==> {
                &&& parent.session.stage is Host
                &&& parent.session.run.pending == stage_program(container, Stage::Host, child)
                &&& forked.session.stage is Child
                &&& forked.session.run.pending == stage_program(container, Stage::Child, 0)
            }
            &&& session.stage is Child ==> {
                &&& parent.session.stage is Supervisor
                &&& parent.session.run.pending == stage_program(
                    container,
                    Stage::Supervisor,
                    child,
                )
                &&& forked.session.stage is Workload
                &&& forked.session.run.pending == stage_program(container, Stage::Workload, 0)
            }
            &&& session.stage is Launch || session.stage is Child ==> {
                &&& parent.status is Going && parent.said.len() == 0
                &&& forked.status is Going && forked.said.len() == 0
            }
        },
        session.run.pending.len() == 0 || !(session.run.pending[0].action is Fork) || !(
        reply is Parent || reply is Child) ==> {
            let progress = session_resumed(container, session, reply);
            let turn = resumed(session.run, reply);
            &&& progress.session.stage == session.stage
            &&& progress.session.run == turn.run
            &&& progress.said == turn.said
            &&& progress.status == turn.status
        },
{
}

/// A limit is what it is given as, and none if it is not given.
pub proof fn law_limits_are_taken_as_given(limit: Seq<char>)
    ensures
        limit_or_max(Some(limit)) == limit,
        limit_or_max(None) == "max"@,
{
}

} // verus!
