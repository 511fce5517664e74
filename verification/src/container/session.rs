//! What each of the processes that run a container has to do.
use vstd::prelude::*;
use vstd::string::*;

use crate::container::network::{
    enable_host_ip_forwarding, init_network_isolation, ip_forwarding_program,
    network_isolation_program, remove_firewall_program, remove_firewall_rules, setup_nftables,
    setup_nftables_program,
};
use crate::container::process::{
    cleanup_cgroup, cleanup_cgroup_program, setup_cgroup, setup_cgroup_program, setup_child_process,
    setup_child_program,
};
use crate::container::{Container, ContainerView};
use crate::namespaces::{
    bits, law_flags_are_those_of_the_names, lowercased, namespace_bit, namespace_bits,
    namespace_named, namespaces_named, unknown_lines, warnings_for, Namespace,
};
use crate::run::{after, resumed, started};
use crate::session::{
    begun, branched, entered, followed, Progress, ProgressView, Session, SessionView, Stage,
};
use crate::steps::{
    environment, failing, in_context, no_texts, one_text, or_expect, or_fail, or_report, plain,
    reported, same_course, split_vars, step, warning, ActionOf, ActionView, Command, CommandView,
    MountMode, OnErrorOf, OnErrorView, OtherwiseOf, OtherwiseView, Program, Reply, ReplyOf,
    ReplyView, Step, StepOf, StepView,
};
use crate::text::{copy_texts, digits, lowercase, natural_text, texts};

verus! {

broadcast use vstd::string::to_string_from_display_ensures_for_str;

/// The flags for the container's namespaces.
pub open spec fn container_flags(container: ContainerView) -> i32 {
    namespace_bits(namespaces_named(lowercased(container.namespaces)))
}

/// Tells of namespaces that are not known, makes the pipes and forks.
pub open spec fn launch_program(container: ContainerView) -> Seq<StepView> {
    warning(unknown_lines(lowercased(container.namespaces))) + seq![
        plain(ActionOf::OpenPipe, OnErrorOf::Unwrap),
        plain(ActionOf::OpenReadyPipe, OnErrorOf::Unwrap),
        plain(ActionOf::Fork, reported("Fork failed"@)),
    ]
}

/// A step that waits for the child to be ready, and fails if the child has ended.
pub open spec fn awaiting_child() -> StepView {
    StepOf {
        no: OtherwiseOf::Fail {
            contexts: seq!["Child process ended before it was ready"@],
            notes: Seq::empty(),
        },
        ..plain(ActionOf::AwaitReady, failing("Failed to read from pipe"@))
    }
}

/// Waits for the child to be ready, sets the host up for it, lets it go on, waits for it
/// to end, and cleans up.
pub open spec fn host_program(container: ContainerView, child: u32) -> Seq<StepView> {
    let pid = digits(child as nat);
    seq![awaiting_child()] + in_context(ip_forwarding_program(), "Failed to toggle IP forwarding"@) + in_context(
        setup_cgroup_program(
            container.cgroup_config.max_pid,
            container.cgroup_config.max_memory,
            pid,
        ),
        "Failed to setup cgroup"@,
    ) + seq![plain(ActionOf::StartRuntime, failing("Failed to create tokio runtime"@))]
        + in_context(network_isolation_program(child), "failed to init network isolation "@)
        + in_context(setup_nftables_program(container.id), "Failed to setup nftables"@) + seq![
        plain(ActionOf::WakeChild, failing("Failed to write to pipe"@)),
        plain(ActionOf::WaitChild, failing("Failed to wait for child process"@)),
    ] + in_context(cleanup_cgroup_program(pid), "Failed to cleanup cgroup"@) + in_context(
        remove_firewall_program(container.id),
        "Failed to remove firewall rules"@,
    )
}

/// Leaves the host's namespaces, tells the host side so and waits for it, and forks into
/// the new ones.
pub open spec fn child_program(container: ContainerView) -> Seq<StepView> {
    seq![
        plain(
            ActionOf::Unshare(container_flags(container)),
            failing("[child] Failed to unshare namespaces"@),
        ),
        plain(ActionOf::SignalReady, failing("[child] Failed to write to pipe"@)),
        plain(ActionOf::AwaitWake, failing("[child] Failed to read from pipe"@)),
        plain(
            ActionOf::Mount { source: None, target: "/"@, kind: None, mode: MountMode::Private },
            failing("[child] Failed to remount root filesystem as private"@),
        ),
        plain(
            ActionOf::Fork,
            OnErrorOf::Report {
                lines: seq!["Fork failed"@, "[child] Secondary PID engine fork failed"@],
                skip: 0,
            },
        ),
        plain(ActionOf::Exit(1), OnErrorOf::Ignore),
    ]
}

/// Waits for the container to end.
pub open spec fn supervisor_program() -> Seq<StepView> {
    seq![plain(ActionOf::WaitChild, OnErrorOf::Unwrap)]
}

/// The command of a container.
pub open spec fn container_command(container: ContainerView) -> CommandView {
    CommandView {
        program: container.container_command,
        args: container.args,
        env: environment(container.env_vars),
        cwd: Some(container.cwd),
    }
}

/// Prepares the container from the inside, and lets its command take the place of the
/// process: nothing of the runtime stays behind the command.
pub open spec fn workload_program(container: ContainerView) -> Seq<StepView> {
    in_context(
        setup_child_program(container.chroot_path, container),
        "[grand child] Failed to setup grand child process"@,
    ) + seq![
        plain(
            ActionOf::Exec(container_command(container)),
            OnErrorOf::Expect("[grand child] Failed to execute command"@),
        ),
    ]
}

/// What the process of a stage does. The number is that of its child, if it has
/// forked one.
pub open spec fn stage_program(
    container: ContainerView,
    stage: Stage,
    child: u32,
) -> Seq<StepView> {
    match stage {
        Stage::Launch => launch_program(container),
        Stage::Host => host_program(container, child),
        Stage::Child => child_program(container),
        Stage::Supervisor => supervisor_program(),
        Stage::Workload => workload_program(container),
    }
}

/// A session at the start of a stage of the container.
pub open spec fn staged(container: ContainerView, stage: Stage, child: u32) -> SessionView {
    entered(stage, stage_program(container, stage, child))
}

/// What a reply leads to. Each side of a fork goes on with the program of its own
/// stage; any other reply is the matter of the running program.
pub open spec fn session_resumed(
    container: ContainerView,
    session: SessionView,
    reply: ReplyView,
) -> ProgressView {
    match branched(session, reply) {
        Some((stage, child)) => begun(staged(container, stage, child)),
        None => followed(session, reply),
    }
}

impl Container {
    fn launch(&self) -> (out: Program)
        ensures
            out@ == launch_program(self@),
    {
        Program::warn(&warnings_for(&self.namespaces))
            .with(step(ActionOf::OpenPipe, OnErrorOf::Unwrap))
            .with(step(ActionOf::OpenReadyPipe, OnErrorOf::Unwrap))
            .with(step(ActionOf::Fork, or_report("Fork failed")))
    }

    fn host(&self, child: u32) -> (out: Program)
        ensures
            out@ == host_program(self@, child),
    {
        let pid: String = natural_text(child as u64);
        let limits: Program = setup_cgroup(
            self.cgroup_config.max_pid.as_str(),
            self.cgroup_config.max_memory.as_str(),
            pid.as_str(),
        );
        let executor: Program = Program::new().with(
            step(ActionOf::StartRuntime, or_fail("Failed to create tokio runtime")),
        );
        let wake: Program = Program::new()
            .with(step(ActionOf::WakeChild, or_fail("Failed to write to pipe")))
            .with(step(ActionOf::WaitChild, or_fail("Failed to wait for child process")));
        let ready: Step = StepOf {
            action: ActionOf::AwaitReady,
            yes: 0,
            no: OtherwiseOf::Fail {
                contexts: one_text("Child process ended before it was ready"),
                notes: no_texts(),
            },
            exists: None,
            error: or_fail("Failed to read from pipe"),
        };
        Program::new()
            .with(ready)
            .followed_by(
                enable_host_ip_forwarding().context("Failed to toggle IP forwarding"),
            )
            .followed_by(limits.context("Failed to setup cgroup"))
            .followed_by(executor)
            .followed_by(init_network_isolation(child).context("failed to init network isolation "))
            .followed_by(setup_nftables(self.id).context("Failed to setup nftables"))
            .followed_by(wake)
            .followed_by(cleanup_cgroup(pid.as_str()).context("Failed to cleanup cgroup"))
            .followed_by(
                remove_firewall_rules(self.id).context("Failed to remove firewall rules"),
            )
    }

    fn child(&self) -> (out: Program)
        ensures
            out@ == child_program(self@),
    {
        let mut lines: Vec<String> = Vec::new();
        lines.push("Fork failed".to_owned());
        lines.push("[child] Secondary PID engine fork failed".to_owned());
        assert(texts(lines@) =~= seq!["Fork failed"@, "[child] Secondary PID engine fork failed"@]);
        Program::new()
            .with(
                step(
                    ActionOf::Unshare(bits(&self.clone_flags())),
                    or_fail("[child] Failed to unshare namespaces"),
                ),
            )
            .with(step(ActionOf::SignalReady, or_fail("[child] Failed to write to pipe")))
            .with(step(ActionOf::AwaitWake, or_fail("[child] Failed to read from pipe")))
            .with(
                step(
                    ActionOf::Mount {
                        source: None,
                        target: "/".to_owned(),
                        kind: None,
                        mode: MountMode::Private,
                    },
                    or_fail("[child] Failed to remount root filesystem as private"),
                ),
            )
            .with(step(ActionOf::Fork, OnErrorOf::Report { lines, skip: 0 }))
            .with(step(ActionOf::Exit(1), OnErrorOf::Ignore))
    }

    fn workload(&self) -> (out: Program)
        ensures
            out@ == workload_program(self@),
    {
        let command: Command = Command {
            program: self.container_command.clone(),
            args: copy_texts(&self.args),
            env: split_vars(&self.env_vars),
            cwd: Some(self.cwd.clone()),
        };
        setup_child_process(self.chroot_path.as_str(), self)
            .context("[grand child] Failed to setup grand child process")
            .with(
                step(
                    ActionOf::Exec(command),
                    or_expect("[grand child] Failed to execute command"),
                ),
            )
    }

    fn stage(&self, stage: Stage, child: u32) -> (session: Session)
        ensures
            session@ == staged(self@, stage, child),
    {
        let program: Program = match stage {
            Stage::Launch => self.launch(),
            Stage::Host => self.host(child),
            Stage::Child => self.child(),
            Stage::Supervisor => Program::new().with(step(ActionOf::WaitChild, OnErrorOf::Unwrap)),
            Stage::Workload => self.workload(),
        };
        Session::enter(stage, program)
    }

    /// Starts to run the container.
    pub fn run(&self) -> (session: Session)
        ensures
            session@ == staged(self@, Stage::Launch, 0),
    {
        self.fork_and_run()
    }

    /// Starts to run the container.
    pub fn fork_and_run(&self) -> (session: Session)
        ensures
            session@ == staged(self@, Stage::Launch, 0),
    {
        self.stage(Stage::Launch, 0)
    }

    /// Takes the system's reply to the session's current action.
    pub fn resume(&self, session: Session, reply: Reply) -> (progress: Progress)
        ensures
            progress@ == session_resumed(self@, session@, reply@),
    {
        match session.branch(&reply) {
            Some((stage, child)) => self.stage(stage, child).begin(),
            None => session.follow(reply),
        }
    }
}

/// Where a session stands after the replies, as long as it has neither failed nor
/// panicked.
pub open spec fn session_after(
    container: ContainerView,
    session: SessionView,
    replies: Seq<ReplyView>,
) -> Option<SessionView>
    decreases replies.len(),
{
    if replies.len() == 0 {
        Some(session)
    } else {
        match session_after(container, session, replies.drop_last()) {
            Some(before) => {
                let progress = session_resumed(container, before, replies.last());
                if progress.status is Going {
                    Some(progress.session)
                } else {
                    None
                }
            },
            None => None,
        }
    }
}

/// A process runs the program of its stage: until it forks, its session is a run of
/// that program.
pub proof fn law_a_stage_runs_its_program(
    container: ContainerView,
    stage: Stage,
    child: u32,
    replies: Seq<ReplyView>,
)
    requires
        forall|i: int|
            0 <= i < replies.len() ==> !(#[trigger] replies[i] is Parent) && !(replies[i] is Child),
    ensures
        session_after(container, staged(container, stage, child), replies) == match after(
            started(stage_program(container, stage, child)),
            replies,
        ) {
            Some(run) => Some(SessionView { stage, run }),
            None => None,
        },
    decreases replies.len(),
{
    if replies.len() > 0 {
        let fewer = replies.drop_last();
        assert forall|i: int| 0 <= i < fewer.len() implies !(#[trigger] fewer[i] is Parent) && !(
        fewer[i] is Child) by {
            assert(fewer[i] == replies[i]);
        }
        law_a_stage_runs_its_program(container, stage, child, fewer);
    }
}

/// Before it forks, the launching process writes a line for each unknown namespace, in
/// order, and makes both pipes.
pub proof fn law_the_launch_makes_the_pipes(container: ContainerView)
    ensures
        ({
            let program = launch_program(container);
            let lines = unknown_lines(lowercased(container.namespaces));
            let n = lines.len() as int;
            &&& program.len() == n + 3
            &&& forall|i: int|
                0 <= i < n ==> (#[trigger] program[i]).action == ActionView::Warn(lines[i])
            &&& program[n] == plain(ActionOf::OpenPipe, OnErrorOf::Unwrap)
            &&& program[n + 1] == plain(ActionOf::OpenReadyPipe, OnErrorOf::Unwrap)
            &&& program[n + 2] == plain(ActionOf::Fork, reported("Fork failed"@))
        }),
{
}

/// Each side of a fork goes on with a program of its own, from its start: the parent of the
/// first child as its host, for the very child that it was told of, the first child as
/// such, and then as the supervisor of the second, which is the workload.
pub proof fn law_each_side_of_a_fork_goes_on(
    container: ContainerView,
    session: SessionView,
    child: u32,
)
    requires
        session.run.pending.len() > 0,
        session.run.pending[0].action is Fork,
    ensures
        ({
            let parent = session_resumed(container, session, ReplyOf::Parent(child));
            let forked = session_resumed(container, session, ReplyOf::Child);
            &&& session.stage is Launch ==> {
                &&& parent.session.stage is Host
                &&& parent.session.run.pending == host_program(container, child)
                &&& forked.session.stage is Child
                &&& forked.session.run.pending == child_program(container)
            }
            &&& session.stage is Child ==> {
                &&& parent.session.stage is Supervisor
                &&& parent.session.run.pending == seq![
                    plain(ActionOf::WaitChild, OnErrorOf::Unwrap),
                ]
                &&& forked.session.stage is Workload
                &&& forked.session.run.pending == workload_program(container)
            }
            &&& session.stage is Launch || session.stage is Child ==> {
                &&& parent.status is Going && parent.said.len() == 0
                &&& forked.status is Going && forked.said.len() == 0
                &&& parent.session.run.link is None && forked.session.run.link is None
            }
        }),
{
}

/// Any other reply is the matter of the running program: what it leads to there, it leads to
/// in the session, and the stage stays.
pub proof fn law_other_replies_are_the_programs(
    container: ContainerView,
    session: SessionView,
    reply: ReplyView,
)
    requires
        session.run.pending.len() == 0 || !(session.run.pending[0].action is Fork) || !(
        reply is Parent || reply is Child),
    ensures
        ({
            let progress = session_resumed(container, session, reply);
            let turn = resumed(session.run, reply);
            &&& progress.session.stage == session.stage
            &&& progress.session.run == turn.run
            &&& progress.said == turn.said
            &&& progress.status == turn.status
        }),
{
}

/// What the host side does, part by part, and how the failures of each part are explained.
pub proof fn law_the_course_of_the_host(container: ContainerView, child: u32)
    ensures
        ({
            let program = host_program(container, child);
            let pid = digits(child as nat);
            &&& program.len() == 45
            &&& program[0].action is AwaitReady
            &&& program[0].error == failing("Failed to read from pipe"@)
            &&& program[0].no == (OtherwiseView::Fail {
                contexts: seq!["Child process ended before it was ready"@],
                notes: Seq::empty(),
            })
            &&& same_course(program.subrange(1, 10), ip_forwarding_program())
            &&& same_course(
                program.subrange(10, 15),
                setup_cgroup_program(
                    container.cgroup_config.max_pid,
                    container.cgroup_config.max_memory,
                    pid,
                ),
            )
            &&& program[15] == plain(
                ActionOf::StartRuntime,
                failing("Failed to create tokio runtime"@),
            )
            &&& same_course(program.subrange(16, 31), network_isolation_program(child))
            &&& same_course(program.subrange(31, 34), setup_nftables_program(container.id))
            &&& program[34] == plain(ActionOf::WakeChild, failing("Failed to write to pipe"@))
            &&& program[35] == plain(
                ActionOf::WaitChild,
                failing("Failed to wait for child process"@),
            )
            &&& same_course(program.subrange(36, 42), cleanup_cgroup_program(pid))
            &&& same_course(program.subrange(42, 45), remove_firewall_program(container.id))
            &&& is_explained(program.subrange(1, 10), "Failed to toggle IP forwarding"@)
            &&& is_explained(program.subrange(10, 15), "Failed to setup cgroup"@)
            &&& is_explained(program.subrange(16, 31), "failed to init network isolation "@)
            &&& is_explained(program.subrange(31, 34), "Failed to setup nftables"@)
            &&& is_explained(program.subrange(36, 42), "Failed to cleanup cgroup"@)
            &&& is_explained(program.subrange(42, 45), "Failed to remove firewall rules"@)
        }),
{
    let program = host_program(container, child);
    let pid = digits(child as nat);
    let limits = setup_cgroup_program(
        container.cgroup_config.max_pid,
        container.cgroup_config.max_memory,
        pid,
    );
    assert(program.subrange(1, 10) =~= in_context(
        ip_forwarding_program(),
        "Failed to toggle IP forwarding"@,
    ));
    assert(program.subrange(10, 15) =~= in_context(limits, "Failed to setup cgroup"@));
    assert(program.subrange(16, 31) =~= in_context(
        network_isolation_program(child),
        "failed to init network isolation "@,
    ));
    assert(program.subrange(31, 34) =~= in_context(
        setup_nftables_program(container.id),
        "Failed to setup nftables"@,
    ));
    assert(program.subrange(36, 42) =~= in_context(
        cleanup_cgroup_program(pid),
        "Failed to cleanup cgroup"@,
    ));
    assert(program.subrange(42, 45) =~= in_context(
        remove_firewall_program(container.id),
        "Failed to remove firewall rules"@,
    ));
}

/// Whether the context is the outermost explanation of each failure of the program.
pub open spec fn is_explained(program: Seq<StepView>, context: Seq<char>) -> bool {
    forall|i: int|
        0 <= i < program.len() ==> ((#[trigger] program[i]).error matches OnErrorOf::Fail {
            contexts,
            ..
        } ==> contexts.len() > 0 && contexts.last() == context)
}

/// What the first child does, step by step. It leaves the namespaces that the container's
/// names name: the flags hold the flag of a kind of namespace just if one of the names, in
/// lower case, is its name, and no other flag.
pub proof fn law_the_child_leaves_the_named_namespaces(
    container: ContainerView,
    namespace: Namespace,
)
    ensures
        ({
            let program = child_program(container);
            let flags = program[0].action->Unshare_0;
            &&& program.len() == 6
            &&& program[0].action is Unshare
            &&& program[0].error == failing("[child] Failed to unshare namespaces"@)
            &&& flags == namespace_bits(namespaces_named(lowercased(container.namespaces)))
            &&& flags & namespace_bit(namespace) != 0 <==> exists|i: int|
                0 <= i < container.namespaces.len() && namespace_named(
                    lowercase(#[trigger] container.namespaces[i]),
                ) == Some(namespace)
            &&& flags & !0x7e02_0000i32 == 0
            &&& program[1] == plain(
                ActionOf::SignalReady,
                failing("[child] Failed to write to pipe"@),
            )
            &&& program[2] == plain(
                ActionOf::AwaitWake,
                failing("[child] Failed to read from pipe"@),
            )
            &&& program[3] == plain(
                ActionOf::Mount {
                    source: None,
                    target: "/"@,
                    kind: None,
                    mode: MountMode::Private,
                },
                failing("[child] Failed to remount root filesystem as private"@),
            )
            &&& program[4].action is Fork
            &&& program[5].action == ActionView::Exit(1)
        }),
{
    let names = lowercased(container.namespaces);
    law_flags_are_those_of_the_names(names, namespace);
    if exists|i: int| 0 <= i < names.len() && namespace_named(#[trigger] names[i]) == Some(namespace) {
        let i = choose|i: int|
            0 <= i < names.len() && namespace_named(#[trigger] names[i]) == Some(namespace);
        assert(names[i] == lowercase(container.namespaces[i]));
    }
    if exists|i: int|
        0 <= i < container.namespaces.len() && namespace_named(
            lowercase(#[trigger] container.namespaces[i]),
        ) == Some(namespace) {
        let i = choose|i: int|
            0 <= i < container.namespaces.len() && namespace_named(
                lowercase(#[trigger] container.namespaces[i]),
            ) == Some(namespace);
        assert(names[i] == lowercase(container.namespaces[i]));
    }
}

/// The workload is the preparation of the container, whose failures are explained, and then
/// its command: the container's program, with all of the container's arguments, in the
/// container's working directory and with the variables of the container.
pub proof fn law_the_workload_is_the_containers_command(container: ContainerView)
    ensures
        ({
            let program = workload_program(container);
            let setup = setup_child_program(container.chroot_path, container);
            let n = setup.len() as int;
            let command = program[n].action->Exec_0;
            &&& program.len() == n + 1
            &&& same_course(program.take(n), setup)
            &&& is_explained(
                program.take(n),
                "[grand child] Failed to setup grand child process"@,
            )
            &&& program[n].action is Exec
            &&& program[n].error == OnErrorView::Expect(
                "[grand child] Failed to execute command"@,
            )
            &&& command.program == container.container_command
            &&& command.args == container.args
            &&& command.env == environment(container.env_vars)
            &&& command.cwd == Some(container.cwd)
        }),
{
    let setup = setup_child_program(container.chroot_path, container);
    let n = setup.len() as int;
    assert(workload_program(container).take(n) =~= in_context(
        setup,
        "[grand child] Failed to setup grand child process"@,
    ));
}

/// The replies to a session are taken one after the other, as long as none of them makes it
/// fail or panic.
pub proof fn law_sessions_take_replies_one_by_one(
    container: ContainerView,
    session: SessionView,
    replies: Seq<ReplyView>,
    reply: ReplyView,
)
    ensures
        session_after(container, session, Seq::empty()) == Some(session),
        session_after(container, session, replies.push(reply)) == match session_after(
            container,
            session,
            replies,
        ) {
            Some(before) => if session_resumed(container, before, reply).status is Going {
                Some(session_resumed(container, before, reply).session)
            } else {
                None
            },
            None => None,
        },
        staged(container, Stage::Launch, 0).stage is Launch,
        staged(container, Stage::Launch, 0).run.pending == launch_program(container),
{
    assert(replies.push(reply).drop_last() =~= replies);
}

/// A second fork that fails is told twice, and the process exits.
pub proof fn law_a_failed_second_fork_is_told(
    container: ContainerView,
    code: Option<i32>,
    why: Seq<char>,
)
    ensures
        ({
            let run = started(child_program(container).skip(4));
            let turn = resumed(run, ReplyOf::Failed { code, why });
            &&& run.pending[0].action is Fork
            &&& turn.said == seq![
                "Fork failed"@ + ": "@ + why,
                "[child] Secondary PID engine fork failed"@ + ": "@ + why,
            ]
            &&& turn.status is Going
            &&& turn.run.pending.len() == 1
            &&& turn.run.pending[0].action == ActionView::Exit(1)
        }),
{
    let run = started(child_program(container).skip(4));
    let turn = resumed(run, ReplyOf::Failed { code, why });
    assert(turn.said =~= seq![
        "Fork failed"@ + ": "@ + why,
        "[child] Secondary PID engine fork failed"@ + ": "@ + why,
    ]);
}

} // verus!
