//! What the container's process asks of the system, and what the host asks for it.
use vstd::prelude::*;
use vstd::string::*;

use crate::container::network::{config_container_network, container_network_program};
use crate::container::{Container, ContainerView};
use crate::steps::{
    failing, in_context, or_expect, or_fail, or_raise, plain, raised, same_course, say, saying,
    step, with_note, ActionOf, ActionView, MountMode, OnError, OnErrorOf, OnErrorView, OtherwiseOf,
    OtherwiseView, Program, Step, StepOf, StepView,
};
use crate::text::{digits, join, joined, joint, law_digits_tell_numbers_apart};

verus! {

broadcast use vstd::string::to_string_from_display_ensures_for_str;

/// How long the kernel is given to fill or clear a control group, in milliseconds.
pub const SETTLE_MILLIS: u64 = 50;

/// The directory of the control group for a process.
pub open spec fn cgroup_path(child_pid: Seq<char>) -> Seq<char> {
    "/sys/fs/cgroup/minidocker-"@ + child_pid
}

/// The directory of the control group for a process.
pub fn cgroup_dir(child_pid: &str) -> (path: String)
    ensures
        path@ == cgroup_path(child_pid@),
{
    joint("/sys/fs/cgroup/minidocker-", child_pid)
}

/// A step that writes a file.
pub open spec fn writing(
    path: Seq<char>,
    contents: Seq<char>,
    context: Seq<char>,
) -> StepView {
    plain(ActionOf::WriteFile { path, contents }, failing(context))
}

fn write(path: String, contents: &str, context: &str) -> (out: Step)
    ensures
        out@ == writing(path@, contents@, context@),
{
    step(ActionOf::WriteFile { path, contents: contents.to_owned() }, or_fail(context))
}

/// A step that asks whether there is something at a path, and leaves out so many
/// further steps if there is not.
pub open spec fn asking(path: Seq<char>, skip: usize) -> StepView {
    StepOf {
        no: OtherwiseOf::Skip(skip),
        ..plain(ActionOf::Exists(path), OnErrorOf::Ignore)
    }
}

/// A step that asks whether there is something at a path, and leaves out so many
/// further steps if there is not.
pub fn ask(path: &str, skip: usize) -> (out: Step)
    ensures
        out@ == asking(path@, skip),
{
    StepOf {
        action: ActionOf::Exists(path.to_owned()),
        yes: 0,
        no: OtherwiseOf::Skip(skip),
        exists: None,
        error: OnErrorOf::Ignore,
    }
}

/// Makes a control group with the limits and puts the process into it.
pub open spec fn setup_cgroup_program(
    max_pid: Seq<char>,
    max_memory: Seq<char>,
    child_pid: Seq<char>,
) -> Seq<StepView> {
    let path = cgroup_path(child_pid);
    seq![
        plain(
            ActionOf::CreateTree(path),
            failing("failed to create directories for cgroups"@),
        ),
        plain(ActionOf::Sleep(SETTLE_MILLIS), OnErrorOf::Ignore),
        writing(
            joined(path, "pids.max"@),
            max_pid,
            "Error applying pids limit, failed to write to pids.max file "@,
        ),
        writing(
            joined(path, "memory.max"@),
            max_memory,
            "Error applying memory limit, failed to write to memory.max file "@,
        ),
        writing(
            joined(path, "cgroup.procs"@),
            child_pid,
            "Error inserting child process into cgroups, failed to write cgroup.procs file"@,
        ),
    ]
}

/// Makes a control group with the limits and puts the process into it.
pub fn setup_cgroup(max_pid: &str, max_memory: &str, child_pid: &str) -> (out: Program)
    ensures
        out@ == setup_cgroup_program(max_pid@, max_memory@, child_pid@),
{
    let path: String = cgroup_dir(child_pid);
    Program::new()
        .with(
            step(
                ActionOf::CreateTree(path.clone()),
                or_fail("failed to create directories for cgroups"),
            ),
        )
        .with(step(ActionOf::Sleep(SETTLE_MILLIS), OnErrorOf::Ignore))
        .with(
            write(
                join(path.as_str(), "pids.max"),
                max_pid,
                "Error applying pids limit, failed to write to pids.max file ",
            ),
        )
        .with(
            write(
                join(path.as_str(), "memory.max"),
                max_memory,
                "Error applying memory limit, failed to write to memory.max file ",
            ),
        )
        .with(
            write(
                join(path.as_str(), "cgroup.procs"),
                child_pid,
                "Error inserting child process into cgroups, failed to write cgroup.procs file",
            ),
        )
}

/// Removes the control group of a process, if it is there, once its remaining
/// processes are killed. The directory is removed as such: the files in it are
/// the kernel's and cannot be removed one by one.
pub open spec fn cleanup_cgroup_program(child_pid: Seq<char>) -> Seq<StepView> {
    let path = cgroup_path(child_pid);
    let kill = joined(path, "cgroup.kill"@);
    seq![
        asking(path, 5),
        asking(kill, 2),
        writing(kill, "1"@, "Failed to kill processes in cgroup:"@),
        plain(ActionOf::Sleep(SETTLE_MILLIS), OnErrorOf::Ignore),
        saying("removing cgroup directory at: "@ + path),
        plain(ActionOf::RemoveDir(path), failing("Failed to remove cgroup directory: "@)),
    ]
}

/// Removes the control group of a process.
pub fn cleanup_cgroup(child_pid: &str) -> (out: Program)
    ensures
        out@ == cleanup_cgroup_program(child_pid@),
{
    let path: String = cgroup_dir(child_pid);
    let kill: String = join(path.as_str(), "cgroup.kill");
    Program::new()
        .with(ask(path.as_str(), 5))
        .with(ask(kill.as_str(), 2))
        .with(write(kill, "1", "Failed to kill processes in cgroup:"))
        .with(step(ActionOf::Sleep(SETTLE_MILLIS), OnErrorOf::Ignore))
        .with(say(joint("removing cgroup directory at: ", path.as_str()).as_str()))
        .with(
            step(ActionOf::RemoveDir(path), or_fail("Failed to remove cgroup directory: ")),
        )
}

/// Binds the new root to itself, which makes it a mount point.
pub open spec fn bind_mount_program(path: Seq<char>) -> Seq<StepView> {
    seq![
        plain(
            ActionOf::Mount {
                source: Some(path),
                target: path,
                kind: None,
                mode: MountMode::Bind,
            },
            OnErrorOf::Expect("CRITICAL: Failed to bind mount pivot root path"@),
        ),
    ]
}

/// Binds the new root to itself.
pub fn bind_mount(path: &str) -> (out: Program)
    ensures
        out@ == bind_mount_program(path@),
{
    Program::new().with(
        step(
            ActionOf::Mount {
                source: Some(path.to_owned()),
                target: path.to_owned(),
                kind: None,
                mode: MountMode::Bind,
            },
            or_expect("CRITICAL: Failed to bind mount pivot root path"),
        ),
    )
}

/// Makes `path` the root directory and does away with the old one.
pub open spec fn pivot_root_program(path: Seq<char>) -> Seq<StepView> {
    let old_root = joined(path, "old_root"@);
    seq![saying("[child] Pivot root targeted to: "@ + path)] + bind_mount_program(path) + seq![
        plain(
            ActionOf::ChangeDir(path),
            failing("Failed to change directory to pivot root path"@),
        ),
        asking(old_root, 1),
        plain(
            ActionOf::RemoveTree(old_root),
            failing("Failed to remove already existing old root directory"@),
        ),
        plain(
            ActionOf::CreateTree(old_root),
            failing("Failed to create old root directory at "@ + old_root),
        ),
        plain(
            ActionOf::PivotRoot { new_root: "."@, put_old: "old_root"@ },
            failing("Failed to pivot root"@),
        ),
        plain(ActionOf::ChangeDir("/"@), failing("Failed to change directory to new root"@)),
        plain(ActionOf::Detach("/old_root"@), failing("Failed to unmount old root"@)),
        plain(
            ActionOf::RemoveTree("/old_root"@),
            failing("failed to remove old root directory after unmounting"@),
        ),
        plain(ActionOf::ChangeRoot("/"@), failing("Failed to chroot "@)),
        plain(ActionOf::ChangeDir("/"@), failing("Failed to change directory to new root"@)),
        saying("[child] Pivot root swap complete"@),
    ]
}

/// Makes `path` the root directory and does away with the old one.
pub fn pivot_root_setup(path: &str) -> (out: Program)
    ensures
        out@ == pivot_root_program(path@),
{
    let old_root: String = join(path, "old_root");
    let start: Program = Program::new().with(
        say(joint("[child] Pivot root targeted to: ", path).as_str()),
    );
    let swap: Program = Program::new()
        .with(
            step(
                ActionOf::ChangeDir(path.to_owned()),
                or_fail("Failed to change directory to pivot root path"),
            ),
        )
        .with(ask(old_root.as_str(), 1))
        .with(
            step(
                ActionOf::RemoveTree(old_root.clone()),
                or_fail("Failed to remove already existing old root directory"),
            ),
        )
        .with(
            step(
                ActionOf::CreateTree(old_root.clone()),
                or_fail(
                    joint("Failed to create old root directory at ", old_root.as_str()).as_str(),
                ),
            ),
        )
        .with(
            step(
                ActionOf::PivotRoot { new_root: ".".to_owned(), put_old: "old_root".to_owned() },
                or_fail("Failed to pivot root"),
            ),
        )
        .with(
            step(
                ActionOf::ChangeDir("/".to_owned()),
                or_fail("Failed to change directory to new root"),
            ),
        )
        .with(step(ActionOf::Detach("/old_root".to_owned()), or_fail("Failed to unmount old root")))
        .with(
            step(
                ActionOf::RemoveTree("/old_root".to_owned()),
                or_fail("failed to remove old root directory after unmounting"),
            ),
        )
        .with(step(ActionOf::ChangeRoot("/".to_owned()), or_fail("Failed to chroot ")))
        .with(
            step(
                ActionOf::ChangeDir("/".to_owned()),
                or_fail("Failed to change directory to new root"),
            ),
        )
        .with(say("[child] Pivot root swap complete"));
    start.followed_by(bind_mount(path)).followed_by(swap)
}

/// A step that mounts a virtual file system.
pub open spec fn mounting(
    kind: Seq<char>,
    target: Seq<char>,
    error: OnErrorView,
) -> StepView {
    plain(
        ActionOf::Mount {
            source: Some(kind),
            target,
            kind: Some(kind),
            mode: MountMode::Plain,
        },
        error,
    )
}

/// A step that mounts a virtual file system.
pub fn mount(kind: &str, target: &str, error: OnError) -> (out: Step)
    ensures
        out@ == mounting(kind@, target@, error@),
{
    step(
        ActionOf::Mount {
            source: Some(kind.to_owned()),
            target: target.to_owned(),
            kind: Some(kind.to_owned()),
            mode: MountMode::Plain,
        },
        error,
    )
}

/// Makes the root read-only.
pub open spec fn clamp_root_program() -> Seq<StepView> {
    seq![
        plain(
            ActionOf::Mount {
                source: None,
                target: "/"@,
                kind: None,
                mode: MountMode::ReadOnly,
            },
            failing("Failed to remount root filesystem as read-only"@),
        ),
    ]
}

fn clamp_root() -> (out: Program)
    ensures
        out@ == clamp_root_program(),
{
    Program::new().with(
        step(
            ActionOf::Mount {
                source: None,
                target: "/".to_owned(),
                kind: None,
                mode: MountMode::ReadOnly,
            },
            or_fail("Failed to remount root filesystem as read-only"),
        ),
    )
}

/// Prepares the container from the inside: its root, its hostname, its virtual file
/// systems and its network.
///
/// The network comes last. What configures it runs on threads, and the kernel does
/// not swap the root of a process that has threads on the old one.
pub open spec fn setup_child_program(
    chroot_path: Seq<char>,
    container: ContainerView,
) -> Seq<StepView> {
    in_context(pivot_root_program(chroot_path), "Failed to setup pivot root"@) + seq![
        saying("[child] isolating system hostname"@),
        plain(ActionOf::SetHostname(container.hostname), failing("Failed to set hostname"@)),
        saying("[child] Mounting virtual filesystems into new rootfs"@),
        mounting("proc"@, "/proc"@, failing("Failed to mount proc filesystem"@)),
        mounting("sysfs"@, "/sys"@, failing("Failed to mount sys filesystem"@)),
        mounting("devtmpfs"@, "/dev"@, failing("Failed to mount dev filesystem"@)),
    ] + (if container.readonly {
        clamp_root_program()
    } else {
        Seq::empty()
    }) + seq![
        saying("starting container network state machine ..."@),
        plain(ActionOf::StartRuntime, raised()),
    ] + with_note(
        in_context(container_network_program(), "Failed to config container network: "@),
        "[child] Critical failure setting up internal networking: Failed to config container network: "@,
    ) + seq![plain(ActionOf::StopRuntime, OnErrorOf::Ignore)]
}

/// Prepares the container from the inside.
pub fn setup_child_process(chroot_path: &str, container: &Container) -> (out: Program)
    ensures
        out@ == setup_child_program(chroot_path@, container@),
{
    let systems: Program = Program::new()
        .with(say("[child] isolating system hostname"))
        .with(
            step(
                ActionOf::SetHostname(container.hostname.clone()),
                or_fail("Failed to set hostname"),
            ),
        )
        .with(say("[child] Mounting virtual filesystems into new rootfs"))
        .with(mount("proc", "/proc", or_fail("Failed to mount proc filesystem")))
        .with(mount("sysfs", "/sys", or_fail("Failed to mount sys filesystem")))
        .with(mount("devtmpfs", "/dev", or_fail("Failed to mount dev filesystem")));
    let clamp: Program = if container.readonly {
        clamp_root()
    } else {
        Program::new()
    };
    let network: Program = config_container_network()
        .context("Failed to config container network: ")
        .note(
            "[child] Critical failure setting up internal networking: Failed to config container network: ",
        );
    let start: Program = Program::new()
        .with(say("starting container network state machine ..."))
        .with(step(ActionOf::StartRuntime, or_raise()));
    let stop: Program = Program::new().with(step(ActionOf::StopRuntime, OnErrorOf::Ignore));
    pivot_root_setup(chroot_path)
        .context("Failed to setup pivot root")
        .followed_by(systems)
        .followed_by(clamp)
        .followed_by(start)
        .followed_by(network)
        .followed_by(stop)
}

/// Takes the virtual file systems of the container down again.
pub open spec fn unmount_program() -> Seq<StepView> {
    seq![
        saying("[child] Unmounting proc, sys, and dev filesystems..."@),
        plain(ActionOf::Unmount("/proc"@), failing("Failed to unmount proc filesystem"@)),
        plain(ActionOf::Unmount("/sys"@), failing("Failed to unmount sys filesystem"@)),
        plain(ActionOf::Unmount("/dev"@), failing("Failed to unmount dev filesystem"@)),
    ]
}

/// Takes the virtual file systems of the container down again.
pub fn unmount_setup() -> (out: Program)
    ensures
        out@ == unmount_program(),
{
    Program::new()
        .with(say("[child] Unmounting proc, sys, and dev filesystems..."))
        .with(
            step(
                ActionOf::Unmount("/proc".to_owned()),
                or_fail("Failed to unmount proc filesystem"),
            ),
        )
        .with(
            step(ActionOf::Unmount("/sys".to_owned()), or_fail("Failed to unmount sys filesystem")),
        )
        .with(
            step(ActionOf::Unmount("/dev".to_owned()), or_fail("Failed to unmount dev filesystem")),
        )
}

/// Two processes have different control groups.
pub proof fn law_control_groups_are_distinct(a: u32, b: u32)
    requires
        a != b,
    ensures
        cgroup_path(digits(a as nat)) != cgroup_path(digits(b as nat)),
{
    let (x, y) = (digits(a as nat), digits(b as nat));
    if cgroup_path(x) == cgroup_path(y) {
        let n = "/sys/fs/cgroup/minidocker-"@.len() as int;
        assert(cgroup_path(x).skip(n) =~= x);
        assert(cgroup_path(y).skip(n) =~= y);
        law_digits_tell_numbers_apart(a as nat, b as nat);
    }
}

/// The control group of a process is a directory that bears the number of the process, and
/// what is written to its files is the one limit, the other, and that number.
pub proof fn law_limits_are_written_to_their_files(
    max_pid: Seq<char>,
    max_memory: Seq<char>,
    child_pid: Seq<char>,
)
    requires
        child_pid.len() > 0,
        child_pid.last() != '/',
    ensures
        ({
            let program = setup_cgroup_program(max_pid, max_memory, child_pid);
            let group = "/sys/fs/cgroup/minidocker-"@ + child_pid;
            &&& program.len() == 5
            &&& program[0] == plain(
                ActionOf::CreateTree(group),
                failing("failed to create directories for cgroups"@),
            )
            &&& program[1] == plain(ActionOf::Sleep(50), OnErrorOf::Ignore)
            &&& program[2] == plain(
                ActionOf::WriteFile { path: group + "/pids.max"@, contents: max_pid },
                failing("Error applying pids limit, failed to write to pids.max file "@),
            )
            &&& program[3] == plain(
                ActionOf::WriteFile { path: group + "/memory.max"@, contents: max_memory },
                failing("Error applying memory limit, failed to write to memory.max file "@),
            )
            &&& program[4] == plain(
                ActionOf::WriteFile { path: group + "/cgroup.procs"@, contents: child_pid },
                failing(
                    "Error inserting child process into cgroups, failed to write cgroup.procs file"@,
                ),
            )
        }),
{
    let group = "/sys/fs/cgroup/minidocker-"@ + child_pid;
    lemma_cgroup_files(child_pid);
}

/// The paths of the files of a control group.
pub proof fn lemma_cgroup_files(child_pid: Seq<char>)
    requires
        child_pid.len() > 0,
        child_pid.last() != '/',
    ensures
        ({
            let group = "/sys/fs/cgroup/minidocker-"@ + child_pid;
            &&& cgroup_path(child_pid) == group
            &&& joined(group, "pids.max"@) == group + "/pids.max"@
            &&& joined(group, "memory.max"@) == group + "/memory.max"@
            &&& joined(group, "cgroup.procs"@) == group + "/cgroup.procs"@
            &&& joined(group, "cgroup.kill"@) == group + "/cgroup.kill"@
        }),
{
    let group = "/sys/fs/cgroup/minidocker-"@ + child_pid;
    assert(group.last() == child_pid.last());
    reveal_strlit("pids.max");
    reveal_strlit("/pids.max");
    reveal_strlit("memory.max");
    reveal_strlit("/memory.max");
    reveal_strlit("cgroup.procs");
    reveal_strlit("/cgroup.procs");
    reveal_strlit("cgroup.kill");
    reveal_strlit("/cgroup.kill");
    assert("/pids.max"@ =~= seq!['/'] + "pids.max"@);
    assert("/memory.max"@ =~= seq!['/'] + "memory.max"@);
    assert("/cgroup.procs"@ =~= seq!['/'] + "cgroup.procs"@);
    assert("/cgroup.kill"@ =~= seq!['/'] + "cgroup.kill"@);
    assert(joined(group, "pids.max"@) =~= group + "/pids.max"@);
    assert(joined(group, "memory.max"@) =~= group + "/memory.max"@);
    assert(joined(group, "cgroup.procs"@) =~= group + "/cgroup.procs"@);
    assert(joined(group, "cgroup.kill"@) =~= group + "/cgroup.kill"@);
}

/// Cleaning up looks for the very directory that the limits were written to, kills what is
/// left in it where it can, and removes it; all of that is left out if it is not there.
pub proof fn law_the_same_group_is_removed(child_pid: Seq<char>)
    requires
        child_pid.len() > 0,
        child_pid.last() != '/',
    ensures
        ({
            let program = cleanup_cgroup_program(child_pid);
            let group = "/sys/fs/cgroup/minidocker-"@ + child_pid;
            &&& program.len() == 6
            &&& program[0].action == ActionView::Exists(group)
            &&& program[0].no == OtherwiseView::Skip(5)
            &&& program[0].yes == 0
            &&& program[1].action == ActionView::Exists(group + "/cgroup.kill"@)
            &&& program[1].no == OtherwiseView::Skip(2)
            &&& program[1].yes == 0
            &&& program[2] == plain(
                ActionOf::WriteFile { path: group + "/cgroup.kill"@, contents: "1"@ },
                failing("Failed to kill processes in cgroup:"@),
            )
            &&& program[3] == plain(ActionOf::Sleep(50), OnErrorOf::Ignore)
            &&& program[4] == saying("removing cgroup directory at: "@ + group)
            &&& program[5] == plain(
                ActionOf::RemoveDir(group),
                failing("Failed to remove cgroup directory: "@),
            )
        }),
{
    lemma_cgroup_files(child_pid);
}

/// How the root is swapped for the directory at a path, step by step: it is bound to itself
/// and entered, an empty directory for the old root is made in it, the roots are swapped,
/// and the old one is detached and removed.
pub proof fn law_the_root_is_swapped(path: Seq<char>)
    ensures
        ({
            let program = pivot_root_program(path);
            let old_root = joined(path, "old_root"@);
            &&& program.len() == 13
            &&& program[0] == saying("[child] Pivot root targeted to: "@ + path)
            &&& program[1] == plain(
                ActionOf::Mount {
                    source: Some(path),
                    target: path,
                    kind: None,
                    mode: MountMode::Bind,
                },
                OnErrorOf::Expect("CRITICAL: Failed to bind mount pivot root path"@),
            )
            &&& program[2] == plain(
                ActionOf::ChangeDir(path),
                failing("Failed to change directory to pivot root path"@),
            )
            &&& program[3].action == ActionView::Exists(old_root)
            &&& program[3].no == OtherwiseView::Skip(1)
            &&& program[3].yes == 0
            &&& program[4] == plain(
                ActionOf::RemoveTree(old_root),
                failing("Failed to remove already existing old root directory"@),
            )
            &&& program[5] == plain(
                ActionOf::CreateTree(old_root),
                failing("Failed to create old root directory at "@ + old_root),
            )
            &&& program[6] == plain(
                ActionOf::PivotRoot { new_root: "."@, put_old: "old_root"@ },
                failing("Failed to pivot root"@),
            )
            &&& program[7] == plain(
                ActionOf::ChangeDir("/"@),
                failing("Failed to change directory to new root"@),
            )
            &&& program[8] == plain(
                ActionOf::Detach("/old_root"@),
                failing("Failed to unmount old root"@),
            )
            &&& program[9] == plain(
                ActionOf::RemoveTree("/old_root"@),
                failing("failed to remove old root directory after unmounting"@),
            )
            &&& program[10] == plain(ActionOf::ChangeRoot("/"@), failing("Failed to chroot "@))
            &&& program[11] == program[7]
        }),
{
}

/// How the container is prepared, step by step: the root is swapped first; the hostname and
/// the file systems are those of the container; the root is made read-only just if the
/// container is to have it so; and the network comes last. Every failure is explained.
pub proof fn law_the_container_is_furnished(path: Seq<char>, container: ContainerView)
    ensures
        ({
            let program = setup_child_program(path, container);
            let swap = in_context(pivot_root_program(path), "Failed to setup pivot root"@);
            let clamped: int = if container.readonly {
                1
            } else {
                0
            };
            let network = program.subrange(21 + clamped, 28 + clamped);
            &&& program.len() == 29 + clamped
            &&& program.take(13) == swap
            &&& program[14] == plain(
                ActionOf::SetHostname(container.hostname),
                failing("Failed to set hostname"@),
            )
            &&& program[16].action == mount_action("proc"@, "/proc"@)
            &&& program[16].error == failing("Failed to mount proc filesystem"@)
            &&& program[17].action == mount_action("sysfs"@, "/sys"@)
            &&& program[17].error == failing("Failed to mount sys filesystem"@)
            &&& program[18].action == mount_action("devtmpfs"@, "/dev"@)
            &&& program[18].error == failing("Failed to mount dev filesystem"@)
            &&& container.readonly ==> program[19] == plain(
                ActionOf::Mount {
                    source: None,
                    target: "/"@,
                    kind: None,
                    mode: MountMode::ReadOnly,
                },
                failing("Failed to remount root filesystem as read-only"@),
            )
            &&& forall|i: int|
                0 <= i < program.len() && (#[trigger] program[i]).action is Mount
                    && program[i].action->Mount_mode is ReadOnly ==> container.readonly
            &&& program[20 + clamped] == plain(ActionOf::StartRuntime, raised())
            &&& same_course(network, container_network_program())
            &&& forall|i: int|
                0 <= i < 7 ==> match (#[trigger] network[i]).error {
                    OnErrorOf::Fail { contexts, notes, .. } => {
                        &&& contexts.last() == "Failed to config container network: "@
                        &&& notes == seq![
                            "[child] Critical failure setting up internal networking: Failed to config container network: "@,
                        ]
                    },
                    _ => false,
                }
            &&& program[28 + clamped].action is StopRuntime
        }),
{
    let program = setup_child_program(path, container);
    let clamped: int = if container.readonly {
        1
    } else {
        0
    };
    let swap = in_context(pivot_root_program(path), "Failed to setup pivot root"@);
    assert(program.take(13) =~= swap);
    let network = with_note(
        in_context(container_network_program(), "Failed to config container network: "@),
        "[child] Critical failure setting up internal networking: Failed to config container network: "@,
    );
    assert(program.subrange(21 + clamped, 28 + clamped) =~= network);
    assert forall|i: int| 0 <= i < 7 implies match (#[trigger] network[i]).error {
        OnErrorOf::Fail { contexts, notes, .. } => {
            &&& contexts.last() == "Failed to config container network: "@
            &&& notes == seq![
                "[child] Critical failure setting up internal networking: Failed to config container network: "@,
            ]
        },
        _ => false,
    } by {
        let notes = network[i].error->Fail_notes;
        assert(notes =~= seq![
            "[child] Critical failure setting up internal networking: Failed to config container network: "@,
        ]);
    }
}

/// The mount of a virtual file system.
pub open spec fn mount_action(kind: Seq<char>, target: Seq<char>) -> ActionView {
    ActionOf::Mount { source: Some(kind), target, kind: Some(kind), mode: MountMode::Plain }
}

/// Unmounting goes through the three virtual file systems, and a failure is explained.
pub proof fn law_unmounting_is_explained()
    ensures
        unmount_program().len() == 4,
        unmount_program()[1] == plain(
            ActionOf::Unmount("/proc"@),
            failing("Failed to unmount proc filesystem"@),
        ),
        unmount_program()[2] == plain(
            ActionOf::Unmount("/sys"@),
            failing("Failed to unmount sys filesystem"@),
        ),
        unmount_program()[3] == plain(
            ActionOf::Unmount("/dev"@),
            failing("Failed to unmount dev filesystem"@),
        ),
{
}

/// What asking for a path, mounting and writing come to as steps.
pub proof fn law_steps_on_files(
    path: Seq<char>,
    skip: usize,
    kind: Seq<char>,
    contents: Seq<char>,
    error: OnErrorView,
    context: Seq<char>,
)
    ensures
        asking(path, skip).action == ActionView::Exists(path),
        asking(path, skip).yes == 0,
        asking(path, skip).no == OtherwiseView::Skip(skip),
        asking(path, skip).exists is None,
        asking(path, skip).error is Ignore,
        mounting(kind, path, error) == plain(mount_action(kind, path), error),
        writing(path, contents, context) == plain(
            ActionOf::WriteFile { path, contents },
            failing(context),
        ),
{
}

} // verus!
