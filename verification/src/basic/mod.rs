//! The plain runtimes: containers with a root, a hostname and limits of their own, on
//! the host's network. One is described by arguments and environment variables, one by
//! a bundle.
//!
//! Where something fails that the container can do without, they tell of it and go on.
use vstd::prelude::*;
use vstd::string::*;

use nix::sched::CloneFlags;

use crate::container::process::{
    ask, asking, cgroup_dir, cgroup_path, lemma_cgroup_files, mount, mounting, SETTLE_MILLIS,
};
use crate::namespaces::{
    bits, insert, law_flags_hold_what_is_named, lemma_bits_of_one_more, namespace_bit,
    namespace_bits, no_flags, Namespace,
};
use crate::run::{
    after, is_closed, is_firm, is_given, law_no_step_is_bypassed, law_runs_follow_the_program,
    lemma_closed_in_a_row, lemma_firm_within, started, was_done,
};
use crate::steps::{
    or_expect, or_raise, or_report, plain, raised, reported, same_course, say, saying, step,
    tolerated, ActionOf, ActionView, Command, CommandView, MountMode, OldRoot, OldRootView, OnError,
    OnErrorOf, OnErrorView, OtherwiseView, Program, ReplyView, Step, StepView,
};
use crate::text::{digits, join, joined, joint, natural_text, quote_path, quoted_path};

pub mod bundle;
pub mod environment;

verus! {

broadcast use vstd::string::to_string_from_display_ensures_for_str;

/// The limits of a container, as the files of its control group take them.
pub struct CgroupConfig {
    pub max_pid: String,
    pub max_memory: String,
}

/// The limits of a container, by the characters of their texts.
#[verifier::ext_equal]
pub struct CgroupConfigView {
    pub max_pid: Seq<char>,
    pub max_memory: Seq<char>,
}

impl View for CgroupConfig {
    type V = CgroupConfigView;

    open spec fn view(&self) -> CgroupConfigView {
        CgroupConfigView { max_pid: self.max_pid@, max_memory: self.max_memory@ }
    }
}

/// A panic with a message.
pub open spec fn expecting(message: Seq<char>) -> OnErrorView {
    OnErrorOf::Expect(message)
}

/// Makes a control group with the limits and puts the process into it. `quoted` is the
/// path of the group as lines show it.
pub open spec fn limiting(
    max_pid: Seq<char>,
    max_memory: Seq<char>,
    child_pid: Seq<char>,
    quoted: Seq<char>,
) -> Seq<StepView> {
    let path = cgroup_path(child_pid);
    seq![
        saying("[cgroup] Initializing limits for child process: "@ + child_pid),
        saying("[cgroup] Creating directory at: "@ + quoted),
        plain(ActionOf::CreateTree(path), raised()),
        plain(ActionOf::Sleep(SETTLE_MILLIS), OnErrorOf::Ignore),
        saying("[cgroup] Configuring pids.max -> "@ + max_pid),
        plain(
            ActionOf::WriteFile { path: joined(path, "pids.max"@), contents: max_pid },
            raised(),
        ),
        saying("[cgroup] Configuring memory.max -> "@ + max_memory),
        plain(
            ActionOf::WriteFile { path: joined(path, "memory.max"@), contents: max_memory },
            raised(),
        ),
        saying("[cgroup] Attaching PID "@ + child_pid + " to cgroup.procs"@),
        plain(
            ActionOf::WriteFile { path: joined(path, "cgroup.procs"@), contents: child_pid },
            raised(),
        ),
        saying("[cgroup] Resource boundaries successfully active."@),
    ]
}

fn write(path: String, contents: &str, error: OnError) -> (out: Step)
    ensures
        out@ == plain(ActionOf::WriteFile { path: path@, contents: contents@ }, error@),
{
    step(ActionOf::WriteFile { path, contents: contents.to_owned() }, error)
}

/// Makes a control group with the limits and puts the process into it.
pub fn limit(max_pid: &str, max_memory: &str, child_pid: &str, quoted: &str) -> (out: Program)
    ensures
        out@ == limiting(max_pid@, max_memory@, child_pid@, quoted@),
{
    let path: String = cgroup_dir(child_pid);
    let attaching: String = joint("[cgroup] Attaching PID ", child_pid);
    Program::new()
        .with(say(joint("[cgroup] Initializing limits for child process: ", child_pid).as_str()))
        .with(say(joint("[cgroup] Creating directory at: ", quoted).as_str()))
        .with(step(ActionOf::CreateTree(path.clone()), or_raise()))
        .with(step(ActionOf::Sleep(SETTLE_MILLIS), OnErrorOf::Ignore))
        .with(say(joint("[cgroup] Configuring pids.max -> ", max_pid).as_str()))
        .with(write(join(path.as_str(), "pids.max"), max_pid, or_raise()))
        .with(say(joint("[cgroup] Configuring memory.max -> ", max_memory).as_str()))
        .with(write(join(path.as_str(), "memory.max"), max_memory, or_raise()))
        .with(say(joint(attaching.as_str(), " to cgroup.procs").as_str()))
        .with(write(join(path.as_str(), "cgroup.procs"), child_pid, or_raise()))
        .with(say("[cgroup] Resource boundaries successfully active."))
}

/// Makes a control group with the limits and puts the process into it.
pub open spec fn setup_cgroup_program(
    max_pid: Seq<char>,
    max_memory: Seq<char>,
    child_pid: Seq<char>,
) -> Seq<StepView> {
    limiting(max_pid, max_memory, child_pid, quoted_path(cgroup_path(child_pid)))
}

/// Makes a control group with the limits and puts the process into it.
pub fn setup_cgroup(max_pid: &str, max_memory: &str, child_pid: &str) -> (out: Program)
    ensures
        out@ == setup_cgroup_program(max_pid@, max_memory@, child_pid@),
{
    let quoted: String = quote_path(cgroup_dir(child_pid).as_str());
    limit(max_pid, max_memory, child_pid, quoted.as_str())
}

/// Removes the control group of a process, if it is there, once its remaining
/// processes are killed.
pub open spec fn cleanup_cgroup_program(child_pid: Seq<char>) -> Seq<StepView> {
    let path = cgroup_path(child_pid);
    let kill = joined(path, "cgroup.kill"@);
    seq![
        saying("cleaning up cgroup for child process "@ + child_pid),
        asking(path, 6),
        asking(kill, 3),
        saying("killing any remaining processes in cgroup"@),
        plain(
            ActionOf::WriteFile { path: kill, contents: "1"@ },
            reported("Failed to kill processes in cgroup"@),
        ),
        plain(ActionOf::Sleep(SETTLE_MILLIS), OnErrorOf::Ignore),
        saying("removing cgroup directory at: "@ + path),
        plain(ActionOf::RemoveDir(path), reported("Failed to remove cgroup directory"@)),
    ]
}

/// Removes the control group of a process.
pub fn cleanup_cgroup(child_pid: &str) -> (out: Program)
    ensures
        out@ == cleanup_cgroup_program(child_pid@),
{
    let path: String = cgroup_dir(child_pid);
    let kill: String = join(path.as_str(), "cgroup.kill");
    Program::new()
        .with(say(joint("cleaning up cgroup for child process ", child_pid).as_str()))
        .with(ask(path.as_str(), 6))
        .with(ask(kill.as_str(), 3))
        .with(say("killing any remaining processes in cgroup"))
        .with(write(kill, "1", or_report("Failed to kill processes in cgroup")))
        .with(step(ActionOf::Sleep(SETTLE_MILLIS), OnErrorOf::Ignore))
        .with(say(joint("removing cgroup directory at: ", path.as_str()).as_str()))
        .with(step(ActionOf::RemoveDir(path), or_report("Failed to remove cgroup directory")))
}

/// Binds the new root to itself, which makes it a mount point.
pub open spec fn bind_mount_program(path: Seq<char>, error: OnErrorView) -> Seq<StepView> {
    seq![
        plain(
            ActionOf::Mount { source: Some(path), target: path, kind: None, mode: MountMode::Bind },
            error,
        ),
    ]
}

/// Binds the new root to itself.
pub fn bind_mount(path: &str, error: OnError) -> (out: Program)
    ensures
        out@ == bind_mount_program(path@, error@),
{
    Program::new().with(
        step(
            ActionOf::Mount {
                source: Some(path.to_owned()),
                target: path.to_owned(),
                kind: None,
                mode: MountMode::Bind,
            },
            error,
        ),
    )
}

/// Makes `path` the root directory and does away with the old one. The new root is
/// bound by `bind`, and the old one is put at `place`.
pub open spec fn pivot_root_program(
    path: Seq<char>,
    bind: Seq<StepView>,
    place: OldRootView,
) -> Seq<StepView> {
    seq![
        saying("Setting up pivot root to: "@ + path),
        plain(
            ActionOf::ChangeDir(path),
            expecting("Failed to change directory to pivot root path"@),
        ),
    ] + bind + seq![
        plain(
            ActionOf::CurrentDir(place),
            expecting("Failed to get current working directory"@),
        ),
        plain(
            ActionOf::PivotRoot { new_root: "."@, put_old: "old_root"@ },
            expecting("Failed to pivot root"@),
        ),
        plain(ActionOf::ChangeDir("/"@), expecting("Failed to change directory to new root"@)),
        plain(ActionOf::Detach("/old_root"@), reported("Failed to unmount old root directory"@)),
        plain(ActionOf::RemoveTree("/old_root"@), reported("Failed to remove old root directory"@)),
        plain(ActionOf::ChangeRoot("/"@), expecting("Failed to chroot"@)),
        plain(ActionOf::ChangeDir("/"@), expecting("Failed to change directory to new root"@)),
        saying("Pivot root setup complete"@),
    ]
}

/// Makes `path` the root directory and does away with the old one.
pub fn pivot_root_setup(path: &str, bind: Program, place: OldRoot) -> (out: Program)
    ensures
        out@ == pivot_root_program(path@, bind@, place@),
{
    let swap: Program = Program::new()
        .with(
            step(
                ActionOf::CurrentDir(place),
                or_expect("Failed to get current working directory"),
            ),
        )
        .with(
            step(
                ActionOf::PivotRoot { new_root: ".".to_owned(), put_old: "old_root".to_owned() },
                or_expect("Failed to pivot root"),
            ),
        )
        .with(
            step(
                ActionOf::ChangeDir("/".to_owned()),
                or_expect("Failed to change directory to new root"),
            ),
        )
        .with(
            step(
                ActionOf::Detach("/old_root".to_owned()),
                or_report("Failed to unmount old root directory"),
            ),
        )
        .with(
            step(
                ActionOf::RemoveTree("/old_root".to_owned()),
                or_report("Failed to remove old root directory"),
            ),
        )
        .with(step(ActionOf::ChangeRoot("/".to_owned()), or_expect("Failed to chroot")))
        .with(
            step(
                ActionOf::ChangeDir("/".to_owned()),
                or_expect("Failed to change directory to new root"),
            ),
        )
        .with(say("Pivot root setup complete"));
    Program::new()
        .with(say(joint("Setting up pivot root to: ", path).as_str()))
        .with(
            step(
                ActionOf::ChangeDir(path.to_owned()),
                or_expect("Failed to change directory to pivot root path"),
            ),
        )
        .followed_by(bind)
        .followed_by(swap)
}

/// Sets the hostname and mounts the virtual file systems.
pub open spec fn furnish_program() -> Seq<StepView> {
    seq![
        plain(ActionOf::SetHostname("mini-docker"@), expecting("Failed to set hostname"@)),
        saying("Mounting proc, sys, and dev filesystems..."@),
        mounting("proc"@, "/proc"@, reported("Failed to mount proc filesystem"@)),
        mounting("sysfs"@, "/sys"@, reported("Failed to mount sys filesystem"@)),
        mounting("devtmpfs"@, "/dev"@, reported("Failed to mount dev filesystem"@)),
    ]
}

fn furnish() -> (out: Program)
    ensures
        out@ == furnish_program(),
{
    Program::new()
        .with(
            step(
                ActionOf::SetHostname("mini-docker".to_owned()),
                or_expect("Failed to set hostname"),
            ),
        )
        .with(say("Mounting proc, sys, and dev filesystems..."))
        .with(mount("proc", "/proc", or_report("Failed to mount proc filesystem")))
        .with(mount("sysfs", "/sys", or_report("Failed to mount sys filesystem")))
        .with(mount("devtmpfs", "/dev", or_report("Failed to mount dev filesystem")))
}

/// Takes the virtual file systems of the container down again.
pub open spec fn unmount_program() -> Seq<StepView> {
    seq![
        saying("Unmounting proc, sys, and dev filesystems..."@),
        plain(ActionOf::Unmount("/proc"@), reported("Failed to unmount proc filesystem"@)),
        plain(ActionOf::Unmount("/sys"@), reported("Failed to unmount sys filesystem"@)),
        plain(ActionOf::Unmount("/dev"@), reported("Failed to unmount dev filesystem"@)),
        saying("Unmounted proc, sys, and dev filesystems"@),
    ]
}

/// Takes the virtual file systems of the container down again.
pub fn unmount_setup() -> (out: Program)
    ensures
        out@ == unmount_program(),
{
    Program::new()
        .with(say("Unmounting proc, sys, and dev filesystems..."))
        .with(
            step(
                ActionOf::Unmount("/proc".to_owned()),
                or_report("Failed to unmount proc filesystem"),
            ),
        )
        .with(
            step(
                ActionOf::Unmount("/sys".to_owned()),
                or_report("Failed to unmount sys filesystem"),
            ),
        )
        .with(
            step(
                ActionOf::Unmount("/dev".to_owned()),
                or_report("Failed to unmount dev filesystem"),
            ),
        )
        .with(say("Unmounted proc, sys, and dev filesystems"))
}

/// The namespaces that every container has of its own.
pub open spec fn own_namespaces() -> Set<Namespace> {
    set![Namespace::Uts, Namespace::Pid, Namespace::Mount]
}

/// Their flags.
fn own_flags() -> (out: i32)
    ensures
        out == namespace_bits(own_namespaces()),
{
    let mut flags: CloneFlags = no_flags();
    insert(&mut flags, Namespace::Uts);
    insert(&mut flags, Namespace::Pid);
    insert(&mut flags, Namespace::Mount);
    proof {
        let none = Set::<Namespace>::empty();
        assert(0i32 | 0 | 0 | 0 | 0 | 0 | 0 == 0) by (bit_vector);
        lemma_bits_of_one_more(none, Namespace::Uts);
        lemma_bits_of_one_more(none.insert(Namespace::Uts), Namespace::Pid);
        lemma_bits_of_one_more(
            none.insert(Namespace::Uts).insert(Namespace::Pid),
            Namespace::Mount,
        );
    }
    bits(&flags)
}

/// Waits for the child to be ready by `ready`, sets up its control group, lets it go on by
/// `wake`, waits for it to end, and removes its control group.
pub open spec fn host_program(
    limits: CgroupConfigView,
    child: u32,
    ready: Seq<StepView>,
    wake: Seq<StepView>,
) -> Seq<StepView> {
    let pid = digits(child as nat);
    seq![
        saying("Continuing execution in parent process, new child has pid: "@ + pid),
    ] + ready + tolerated(
        setup_cgroup_program(limits.max_pid, limits.max_memory, pid),
        "failed to setup cgroup for child process"@,
    ) + wake + seq![plain(ActionOf::WaitChild, OnErrorOf::Unwrap)] + cleanup_cgroup_program(pid)
}

fn host(limits: &CgroupConfig, child: u32, ready: Program, wake: Program) -> (out: Program)
    ensures
        out@ == host_program(limits@, child, ready@, wake@),
{
    let pid: String = natural_text(child as u64);
    let hello: String = joint(
        "Continuing execution in parent process, new child has pid: ",
        pid.as_str(),
    );
    let group: Program = setup_cgroup(
        limits.max_pid.as_str(),
        limits.max_memory.as_str(),
        pid.as_str(),
    );
    let wait: Program = Program::new().with(step(ActionOf::WaitChild, OnErrorOf::Unwrap));
    Program::new()
        .with(say(hello.as_str()))
        .followed_by(ready)
        .followed_by(group.tolerate("failed to setup cgroup for child process"))
        .followed_by(wake)
        .followed_by(wait)
        .followed_by(cleanup_cgroup(pid.as_str()))
}

/// Leaves the host's namespaces, waits for the host side by `wait`, and forks into the
/// new ones.
pub open spec fn child_program(wait: Seq<StepView>) -> Seq<StepView> {
    seq![
        plain(
            ActionOf::Unshare(namespace_bits(own_namespaces())),
            expecting("Failed to unshare namespaces"@),
        ),
    ] + wait + seq![
        plain(
            ActionOf::Mount { source: None, target: "/"@, kind: None, mode: MountMode::Private },
            reported("Failed to remount root filesystem as private"@),
        ),
        plain(ActionOf::Fork, reported("Fork failed"@)),
        plain(ActionOf::Exit(1), OnErrorOf::Ignore),
    ]
}

fn child(wait: Program) -> (out: Program)
    ensures
        out@ == child_program(wait@),
{
    let fork: Program = Program::new()
        .with(
            step(
                ActionOf::Mount {
                    source: None,
                    target: "/".to_owned(),
                    kind: None,
                    mode: MountMode::Private,
                },
                or_report("Failed to remount root filesystem as private"),
            ),
        )
        .with(step(ActionOf::Fork, or_report("Fork failed")))
        .with(step(ActionOf::Exit(1), OnErrorOf::Ignore));
    Program::new()
        .with(step(ActionOf::Unshare(own_flags()), or_expect("Failed to unshare namespaces")))
        .followed_by(wait)
        .followed_by(fork)
}

/// Waits for the container to end.
pub open spec fn supervisor_program() -> Seq<StepView> {
    seq![
        plain(ActionOf::WaitChild, OnErrorOf::Unwrap),
        plain(ActionOf::ExitNow(0), OnErrorOf::Ignore),
    ]
}

fn supervisor() -> (out: Program)
    ensures
        out@ == supervisor_program(),
{
    Program::new()
        .with(step(ActionOf::WaitChild, OnErrorOf::Unwrap))
        .with(step(ActionOf::ExitNow(0), OnErrorOf::Ignore))
}

/// Prepares the container by `setup`, runs the command, and takes the virtual file
/// systems down.
pub open spec fn workload_program(setup: Seq<StepView>, command: CommandView) -> Seq<StepView> {
    setup + seq![
        plain(ActionOf::Spawn(command), expecting("Failed to execute command"@)),
        plain(ActionOf::WaitCommand, expecting("Failed to wait on command"@)),
    ] + unmount_program() + seq![plain(ActionOf::ExitNow(0), OnErrorOf::Ignore)]
}

fn workload(setup: Program, command: Command) -> (out: Program)
    ensures
        out@ == workload_program(setup@, command@),
{
    let payload: Program = Program::new()
        .with(step(ActionOf::Spawn(command), or_expect("Failed to execute command")))
        .with(step(ActionOf::WaitCommand, or_expect("Failed to wait on command")));
    let end: Program = Program::new().with(step(ActionOf::ExitNow(0), OnErrorOf::Ignore));
    setup.followed_by(payload).followed_by(unmount_setup()).followed_by(end)
}

/// Whatever becomes of its limits, the child is let go on: no reply to the steps that
/// set the limits makes the host side fail or panic, and none of those steps leaves out
/// what follows them.
pub proof fn law_limits_do_not_stop_the_container(
    limits: CgroupConfigView,
    child: Seq<char>,
    line: Seq<char>,
    replies: Seq<ReplyView>,
)
    ensures
        is_closed(tolerated(setup_cgroup_program(limits.max_pid, limits.max_memory, child), line)),
        after(
            started(
                tolerated(setup_cgroup_program(limits.max_pid, limits.max_memory, child), line),
            ),
            replies,
        ) is Some,
    decreases replies.len(),
{
    let program = tolerated(setup_cgroup_program(limits.max_pid, limits.max_memory, child), line);
    assert(is_closed(program));
    if replies.len() > 0 {
        law_limits_do_not_stop_the_container(limits, child, line, replies.drop_last());
        law_runs_follow_the_program(started(program), replies.drop_last());
        let before = after(started(program), replies.drop_last())->0;
        if before.pending.len() > 0 {
            assert(before.pending[0] == program[program.len() - before.pending.len()]);
        }
    }
}

/// The steps by which a host side and its child keep in step: none, or one that panics if
/// it fails.
pub open spec fn is_handshake(steps: Seq<StepView>) -> bool {
    steps == Seq::<StepView>::empty() || exists|action: ActionView|
        steps == seq![#[trigger] plain(action, OnErrorOf::Unwrap)] && !(action is CurrentDir)
}

/// A host side that has done all it has to do has waited for the child to be ready and has
/// let it go on, where the two keep in step, and has seen it end, whatever became of the
/// limits.
pub proof fn law_host_waits_for_the_child(
    limits: CgroupConfigView,
    child: u32,
    ready: Seq<StepView>,
    wake: Seq<StepView>,
    replies: Seq<ReplyView>,
)
    requires
        is_handshake(ready),
        is_handshake(wake),
        after(started(host_program(limits, child, ready, wake)), replies) is Some,
        after(started(host_program(limits, child, ready, wake)), replies)->0.pending.len() == 0,
    ensures
        ({
            let run = started(host_program(limits, child, ready, wake));
            &&& ready.len() > 0 ==> was_done(run, replies, ready[0].action)
            &&& wake.len() > 0 ==> was_done(run, replies, wake[0].action)
            &&& was_done(run, replies, ActionOf::WaitChild)
        }),
{
    let run = started(host_program(limits, child, ready, wake));
    lemma_host_program(limits, child, ready, wake);
    if ready.len() > 0 {
        let told = law_no_step_is_bypassed(run, replies, 1);
    }
    if wake.len() > 0 {
        let woken = law_no_step_is_bypassed(run, replies, 12 + ready.len() as int);
    }
    let waited = law_no_step_is_bypassed(run, replies, 12 + (ready + wake).len() as int);
}

proof fn lemma_host_program(
    limits: CgroupConfigView,
    child: u32,
    ready: Seq<StepView>,
    wake: Seq<StepView>,
)
    requires
        is_handshake(ready),
        is_handshake(wake),
    ensures
        ({
            let program = host_program(limits, child, ready, wake);
            let end = 12 + ready.len() + wake.len();
            &&& program.len() == end + 9
            &&& is_given(program)
            &&& ready.len() > 0 ==> is_firm(program, 1, ready[0].action)
            &&& wake.len() > 0 ==> is_firm(program, 12 + ready.len() as int, wake[0].action)
            &&& is_firm(program, end as int, ActionOf::WaitChild)
        }),
{
    let pid = digits(child as nat);
    let line = "failed to setup cgroup for child process"@;
    let hello = seq![
        saying("Continuing execution in parent process, new child has pid: "@ + pid),
    ];
    let group = tolerated(setup_cgroup_program(limits.max_pid, limits.max_memory, pid), line);
    let wait = seq![plain(ActionOf::WaitChild, OnErrorOf::Unwrap)];
    let clean = cleanup_cgroup_program(pid);
    let program = host_program(limits, child, ready, wake);
    law_limits_do_not_stop_the_container(limits, pid, line, Seq::empty());
    assert(is_closed(hello) && is_closed(ready) && is_closed(wake));
    lemma_closed_in_a_row(hello, ready);
    lemma_closed_in_a_row(hello + ready, group);
    lemma_closed_in_a_row(hello + ready + group, wake);
    assert(program =~= hello + ready + (group + wake + wait + clean));
    assert(program =~= (hello + ready + group) + wake + (wait + clean));
    assert(program =~= (hello + ready + group + wake) + wait + clean);
    assert(is_given(hello + ready + group));
    assert(is_given(wake + wait + clean));
    assert forall|i: int| 0 <= i < program.len() implies !((#[trigger] program[i]).action is CurrentDir) by {
        let n = (hello + ready + group).len();
        if i < n {
            assert(program[i] == (hello + ready + group)[i]);
        } else {
            assert(program[i] == (wake + wait + clean)[i - n]);
        }
    }
    assert(is_firm(wait, 0, ActionOf::WaitChild));
    lemma_firm_within(hello + ready + group + wake, wait, clean, 0, ActionOf::WaitChild);
    if ready.len() > 0 {
        assert(is_firm(ready, 0, ready[0].action));
        lemma_firm_within(hello, ready, group + wake + wait + clean, 0, ready[0].action);
    }
    if wake.len() > 0 {
        assert(is_firm(wake, 0, wake[0].action));
        lemma_firm_within(hello + ready + group, wake, wait + clean, 0, wake[0].action);
    }
}

/// The control group of a process bears its number, and what is written to its files is the
/// one limit, the other, and that number; each is told before.
pub proof fn law_limits_are_written_to_their_files(
    max_pid: Seq<char>,
    max_memory: Seq<char>,
    child_pid: Seq<char>,
    quoted: Seq<char>,
)
    requires
        child_pid.len() > 0,
        child_pid.last() != '/',
    ensures
        ({
            let program = limiting(max_pid, max_memory, child_pid, quoted);
            let group = "/sys/fs/cgroup/minidocker-"@ + child_pid;
            &&& program.len() == 11
            &&& program[0] == saying(
                "[cgroup] Initializing limits for child process: "@ + child_pid,
            )
            &&& program[1] == saying("[cgroup] Creating directory at: "@ + quoted)
            &&& program[2] == plain(ActionOf::CreateTree(group), raised())
            &&& program[3] == plain(ActionOf::Sleep(50), OnErrorOf::Ignore)
            &&& program[4] == saying("[cgroup] Configuring pids.max -> "@ + max_pid)
            &&& program[5] == plain(
                ActionOf::WriteFile { path: group + "/pids.max"@, contents: max_pid },
                raised(),
            )
            &&& program[6] == saying("[cgroup] Configuring memory.max -> "@ + max_memory)
            &&& program[7] == plain(
                ActionOf::WriteFile { path: group + "/memory.max"@, contents: max_memory },
                raised(),
            )
            &&& program[8] == saying(
                "[cgroup] Attaching PID "@ + child_pid + " to cgroup.procs"@,
            )
            &&& program[9] == plain(
                ActionOf::WriteFile { path: group + "/cgroup.procs"@, contents: child_pid },
                raised(),
            )
            &&& program[10] == saying("[cgroup] Resource boundaries successfully active."@)
        }),
        setup_cgroup_program(max_pid, max_memory, child_pid) == limiting(
            max_pid,
            max_memory,
            child_pid,
            quoted_path("/sys/fs/cgroup/minidocker-"@ + child_pid),
        ),
{
    lemma_cgroup_files(child_pid);
}

/// Cleaning up looks for the very directory that the limits were written to, kills what is
/// left in it where it can, and removes it; failures are told and passed over.
pub proof fn law_the_same_group_is_removed(child_pid: Seq<char>)
    requires
        child_pid.len() > 0,
        child_pid.last() != '/',
    ensures
        ({
            let program = cleanup_cgroup_program(child_pid);
            let group = "/sys/fs/cgroup/minidocker-"@ + child_pid;
            &&& program.len() == 8
            &&& program[0] == saying("cleaning up cgroup for child process "@ + child_pid)
            &&& program[1].action == ActionView::Exists(group)
            &&& program[1].no == OtherwiseView::Skip(6)
            &&& program[1].yes == 0
            &&& program[2].action == ActionView::Exists(group + "/cgroup.kill"@)
            &&& program[2].no == OtherwiseView::Skip(3)
            &&& program[2].yes == 0
            &&& program[3] == saying("killing any remaining processes in cgroup"@)
            &&& program[4] == plain(
                ActionOf::WriteFile { path: group + "/cgroup.kill"@, contents: "1"@ },
                reported("Failed to kill processes in cgroup"@),
            )
            &&& program[5] == plain(ActionOf::Sleep(50), OnErrorOf::Ignore)
            &&& program[6] == saying("removing cgroup directory at: "@ + group)
            &&& program[7] == plain(
                ActionOf::RemoveDir(group),
                reported("Failed to remove cgroup directory"@),
            )
        }),
{
    lemma_cgroup_files(child_pid);
}

/// How the root is swapped for the directory at a path, step by step.
pub proof fn law_the_root_is_swapped(
    path: Seq<char>,
    error: OnErrorView,
    place: OldRootView,
)
    ensures
        ({
            let program = pivot_root_program(path, bind_mount_program(path, error), place);
            &&& program.len() == 11
            &&& program[0] == saying("Setting up pivot root to: "@ + path)
            &&& program[1] == plain(
                ActionOf::ChangeDir(path),
                OnErrorOf::Expect("Failed to change directory to pivot root path"@),
            )
            &&& program[2] == plain(
                ActionOf::Mount {
                    source: Some(path),
                    target: path,
                    kind: None,
                    mode: MountMode::Bind,
                },
                error,
            )
            &&& program[3] == plain(
                ActionOf::CurrentDir(place),
                OnErrorOf::Expect("Failed to get current working directory"@),
            )
            &&& program[4] == plain(
                ActionOf::PivotRoot { new_root: "."@, put_old: "old_root"@ },
                OnErrorOf::Expect("Failed to pivot root"@),
            )
            &&& program[5] == plain(
                ActionOf::ChangeDir("/"@),
                OnErrorOf::Expect("Failed to change directory to new root"@),
            )
            &&& program[6] == plain(
                ActionOf::Detach("/old_root"@),
                reported("Failed to unmount old root directory"@),
            )
            &&& program[7] == plain(
                ActionOf::RemoveTree("/old_root"@),
                reported("Failed to remove old root directory"@),
            )
            &&& program[8] == plain(
                ActionOf::ChangeRoot("/"@),
                OnErrorOf::Expect("Failed to chroot"@),
            )
            &&& program[9] == program[5]
        }),
{
}

/// The hostname and the virtual file systems of a plain container, and how they are taken
/// down; a file system that cannot be had is told of and done without.
pub proof fn law_plain_containers_are_furnished()
    ensures
        furnish_program().len() == 5,
        furnish_program()[0] == plain(
            ActionOf::SetHostname("mini-docker"@),
            OnErrorOf::Expect("Failed to set hostname"@),
        ),
        furnish_program()[2] == mounting(
            "proc"@,
            "/proc"@,
            reported("Failed to mount proc filesystem"@),
        ),
        furnish_program()[3] == mounting(
            "sysfs"@,
            "/sys"@,
            reported("Failed to mount sys filesystem"@),
        ),
        furnish_program()[4] == mounting(
            "devtmpfs"@,
            "/dev"@,
            reported("Failed to mount dev filesystem"@),
        ),
        unmount_program().len() == 5,
        unmount_program()[1] == plain(
            ActionOf::Unmount("/proc"@),
            reported("Failed to unmount proc filesystem"@),
        ),
        unmount_program()[2] == plain(
            ActionOf::Unmount("/sys"@),
            reported("Failed to unmount sys filesystem"@),
        ),
        unmount_program()[3] == plain(
            ActionOf::Unmount("/dev"@),
            reported("Failed to unmount dev filesystem"@),
        ),
{
}

/// The host side, part by part: it tells the number of the child, waits for the child,
/// writes the limits for that number, lets the child go on and waits for its end, and cleans
/// up for that number.
pub proof fn law_the_course_of_the_host(
    limits: CgroupConfigView,
    child: u32,
    ready: Seq<StepView>,
    wake: Seq<StepView>,
)
    ensures
        ({
            let program = host_program(limits, child, ready, wake);
            let pid = digits(child as nat);
            let a = 1 + ready.len() as int;
            let b = a + 11 + wake.len();
            let group = program.subrange(a, a + 11);
            let setup = setup_cgroup_program(limits.max_pid, limits.max_memory, pid);
            &&& program.len() == b + 9
            &&& program[0] == saying(
                "Continuing execution in parent process, new child has pid: "@ + pid,
            )
            &&& program.subrange(1, a) == ready
            &&& same_course(group, setup)
            &&& forall|i: int|
                0 <= i < 11 && setup[i].error is Fail ==> (#[trigger] group[i]).error
                    == OnErrorView::Report {
                    lines: seq!["failed to setup cgroup for child process"@],
                    skip: (10 - i) as usize,
                }
            &&& program.subrange(a + 11, b) == wake
            &&& program[b] == plain(ActionOf::WaitChild, OnErrorOf::Unwrap)
            &&& program.skip(b + 1) == cleanup_cgroup_program(pid)
        }),
{
    let program = host_program(limits, child, ready, wake);
    let pid = digits(child as nat);
    let a = 1 + ready.len() as int;
    let b = a + 11 + wake.len();
    let setup = setup_cgroup_program(limits.max_pid, limits.max_memory, pid);
    assert(program.subrange(1, a) =~= ready);
    assert(program.subrange(a, a + 11) =~= tolerated(
        setup,
        "failed to setup cgroup for child process"@,
    ));
    assert(program.subrange(a + 11, b) =~= wake);
    assert(program.skip(b + 1) =~= cleanup_cgroup_program(pid));
}

/// The first child of a plain container, part by part: it leaves the three namespaces that
/// the container has of its own, and no other.
pub proof fn law_the_course_of_the_child(wait: Seq<StepView>, namespace: Namespace)
    ensures
        ({
            let program = child_program(wait);
            let n = wait.len() as int;
            let flags = program[0].action->Unshare_0;
            &&& program.len() == n + 4
            &&& program[0].action is Unshare
            &&& program[0].error == OnErrorView::Expect("Failed to unshare namespaces"@)
            &&& flags & namespace_bit(namespace) != 0 <==> namespace is Uts || namespace is Pid
                || namespace is Mount
            &&& program.subrange(1, n + 1) == wait
            &&& program[n + 1] == plain(
                ActionOf::Mount {
                    source: None,
                    target: "/"@,
                    kind: None,
                    mode: MountMode::Private,
                },
                reported("Failed to remount root filesystem as private"@),
            )
            &&& program[n + 2] == plain(ActionOf::Fork, reported("Fork failed"@))
            &&& program[n + 3].action == ActionView::Exit(1)
        }),
{
    law_flags_hold_what_is_named(own_namespaces(), namespace);
    assert(child_program(wait).subrange(1, wait.len() as int + 1) =~= wait);
}

/// The workload of a plain container, part by part: it is prepared, its command is started
/// and waited for, and its virtual file systems are taken down.
pub proof fn law_the_course_of_the_workload(setup: Seq<StepView>, command: CommandView)
    ensures
        ({
            let program = workload_program(setup, command);
            let n = setup.len() as int;
            &&& program.len() == n + 8
            &&& program.take(n) == setup
            &&& program[n] == plain(
                ActionOf::Spawn(command),
                OnErrorOf::Expect("Failed to execute command"@),
            )
            &&& program[n + 1] == plain(
                ActionOf::WaitCommand,
                OnErrorOf::Expect("Failed to wait on command"@),
            )
            &&& program.subrange(n + 2, n + 7) == unmount_program()
            &&& program[n + 7].action == ActionView::ExitNow(0)
        }),
{
    let n = setup.len() as int;
    assert(workload_program(setup, command).take(n) =~= setup);
    assert(workload_program(setup, command).subrange(n + 2, n + 7) =~= unmount_program());
}

} // verus!
