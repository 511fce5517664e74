//! What the processes that run a container can rely on.
use vstd::prelude::*;

use crate::container::cli::{
    asked_for, bundle_of, law_basic_variables_are_always_set, law_container_is_as_asked_for,
    CliView,
};
use crate::container::network::{
    container_network_program, everywhere, firewall, firewall_removal, forwarding_switch,
    ip_forwarding_program, network_isolation_program, remove_firewall_program,
    setup_nftables_program, VETH1_CONT, VETH1_HOST,
};
use crate::container::process::{
    asking, cgroup_path, clamp_root_program, cleanup_cgroup_program, lemma_cgroup_files, mounting,
    pivot_root_program, setup_cgroup_program, setup_child_program, unmount_program,
};
use crate::container::ruleset::ruleset_json;
use crate::container::session::{
    awaiting_child, child_program, container_command, container_flags, host_program,
    law_the_child_leaves_the_named_namespaces, law_the_workload_is_the_containers_command,
    workload_program,
};
use crate::container::{configured, ContainerView};
use crate::namespaces::{namespace_bit, namespace_named, Namespace};
use crate::run::{
    after, fails_for_good, is_closed, is_firm, is_given, is_unavoidable, law_no_step_is_bypassed,
    law_only_a_denial_leaves_out, law_only_an_affirmation_leaves_out, law_runs_follow_the_program,
    leaves_out_at_most, lemma_closed_in_a_row, lemma_context_keeps, lemma_firm_within, resumed,
    started, was_affirmed, was_denied, was_done, was_done_at,
};
use crate::steps::{
    environment, failing, in_context, plain, raised, saying, with_note, ActionOf, ActionView,
    CommandView, MountMode, OnErrorOf, OnErrorView, OtherwiseView, ReplyOf, ReplyView, StatusView,
    StepView,
};
use crate::text::{all_words, decimal, digits, joined, law_digits_write_their_number, lowercase};

verus! {

/// When the host side is about to let the child go on, the host passes on packets, the
/// child is in its control group with both limits set, it holds its end of the cable,
/// and the firewall is in place.
pub proof fn law_child_is_woken_when_all_is_ready(
    container: ContainerView,
    child: u32,
    replies: Seq<ReplyView>,
)
    requires
        after(started(host_program(container, child)), replies) is Some,
        after(started(host_program(container, child)), replies)->0.pending.len() > 0,
        after(started(host_program(container, child)), replies)->0.pending[0].action is WakeChild,
    ensures
        ({
            let run = started(host_program(container, child));
            let pid = digits(child as nat);
            let group = cgroup_path(pid);
            &&& was_affirmed(run, replies, ActionOf::ReadFile(forwarding_switch())) || was_done(
                run,
                replies,
                ActionOf::WriteFile { path: forwarding_switch(), contents: "1"@ },
            )
            &&& was_done(
                run,
                replies,
                ActionOf::WriteFile {
                    path: joined(group, "pids.max"@),
                    contents: container.cgroup_config.max_pid,
                },
            )
            &&& was_done(
                run,
                replies,
                ActionOf::WriteFile {
                    path: joined(group, "memory.max"@),
                    contents: container.cgroup_config.max_memory,
                },
            )
            &&& was_done(
                run,
                replies,
                ActionOf::WriteFile { path: joined(group, "cgroup.procs"@), contents: pid },
            )
            &&& was_done(run, replies, ActionOf::AttachLink(VETH1_HOST@))
            &&& was_done(run, replies, ActionOf::MoveLink { name: VETH1_CONT@, pid: child })
            &&& was_done(run, replies, ActionOf::ApplyRuleset(ruleset_json(firewall(container.id))))
        }),
{
    let run = started(host_program(container, child));
    lemma_host_program(container, child);
    law_runs_follow_the_program(run, replies);
    let left = after(run, replies)->0.pending;
    assert(left[0] == run.pending[run.pending.len() - left.len()]);
    law_only_an_affirmation_leaves_out(run, replies, 2, 5);
    let limit = law_no_step_is_bypassed(run, replies, 12);
    let memory = law_no_step_is_bypassed(run, replies, 13);
    let entry = law_no_step_is_bypassed(run, replies, 14);
    let attached = law_no_step_is_bypassed(run, replies, 29);
    let moved = law_no_step_is_bypassed(run, replies, 30);
    let guarded = law_no_step_is_bypassed(run, replies, 32);
}

/// The host side works for a child that is ready: when it asks for anything but that, the
/// child has told it so. (By then the child has left the host's namespaces, see
/// `law_child_is_ready_when_it_says_so`.)
pub proof fn law_host_works_for_a_child_that_is_ready(
    container: ContainerView,
    child: u32,
    replies: Seq<ReplyView>,
)
    requires
        after(started(host_program(container, child)), replies) is Some,
        after(started(host_program(container, child)), replies)->0.pending.len() > 0,
        !(after(started(host_program(container, child)), replies)->0.pending[0].action is AwaitReady),
    ensures
        was_affirmed(started(host_program(container, child)), replies, ActionOf::AwaitReady),
{
    let run = started(host_program(container, child));
    lemma_host_program(container, child);
    law_runs_follow_the_program(run, replies);
    let left = after(run, replies)->0.pending;
    assert(left[0] == run.pending[run.pending.len() - left.len()]);
    let at = law_no_step_is_bypassed(run, replies, 0);
    let before = after(run, replies.take(at))->0;
    assert(before.pending[0] == awaiting_child());
    assert(was_done_at(run, replies, ActionOf::AwaitReady, at));
}

/// A host side that has done all it has to do has seen the child end and has taken
/// the child's firewall away. The child's control group is removed, unless there was
/// none when it came to that.
pub proof fn law_host_cleans_up(
    container: ContainerView,
    child: u32,
    replies: Seq<ReplyView>,
)
    requires
        after(started(host_program(container, child)), replies) is Some,
        after(started(host_program(container, child)), replies)->0.pending.len() == 0,
    ensures
        ({
            let run = started(host_program(container, child));
            let group = cgroup_path(digits(child as nat));
            &&& was_done(run, replies, ActionOf::WaitChild)
            &&& was_done(run, replies, ActionOf::RemoveDir(group)) || was_denied(
                run,
                replies,
                ActionOf::Exists(group),
            )
            &&& was_done(
                run,
                replies,
                ActionOf::ApplyRuleset(ruleset_json(firewall_removal(container.id))),
            )
        }),
{
    let run = started(host_program(container, child));
    lemma_host_program(container, child);
    let waited = law_no_step_is_bypassed(run, replies, 35);
    let cleared = law_no_step_is_bypassed(run, replies, 43);
    law_only_a_denial_leaves_out(run, replies, 36, 41);
}

/// A program that is part of preparing the host: it cannot leave out what follows it,
/// and it does not let the child go on.
spec fn is_preparation(program: Seq<StepView>) -> bool {
    &&& is_closed(program)
    &&& is_given(program)
    &&& forall|i: int| 0 <= i < program.len() ==> !((#[trigger] program[i]).action is WakeChild)
}

proof fn lemma_preparations_in_a_row(a: Seq<StepView>, b: Seq<StepView>)
    requires
        is_preparation(a),
        is_preparation(b),
    ensures
        is_preparation(a + b),
{
    lemma_closed_in_a_row(a, b);
    assert forall|i: int| 0 <= i < (a + b).len() implies !((#[trigger] (a + b)[i]).action is WakeChild)
        && !((a + b)[i].action is CurrentDir) by {
        if i < a.len() {
            assert((a + b)[i] == a[i]);
        } else {
            assert((a + b)[i] == b[i - a.len()]);
        }
    }
}

proof fn lemma_parts_of_host_program(
    a: Seq<StepView>,
    b: Seq<StepView>,
    c: Seq<StepView>,
    d: Seq<StepView>,
    e: Seq<StepView>,
    f: Seq<StepView>,
    g: Seq<StepView>,
    h: Seq<StepView>,
)
    requires
        is_preparation(a),
        is_preparation(b),
        is_preparation(c),
        is_preparation(d),
        is_preparation(e),
        f.len() > 0,
        is_closed(f),
        is_given(f),
        is_preparation(f.skip(1)),
        is_preparation(g),
        is_preparation(h),
    ensures
        ({
            let all = a + b + c + d + e + f + g + h;
            let x = a.len() as int;
            let y = x + b.len() + c.len();
            let z = y + d.len() + e.len();
            let w = z + f.len();
            &&& is_given(all)
            &&& forall|i: int| 0 <= i < all.len() && (#[trigger] all[i]).action is WakeChild ==> i == z
            &&& forall|i: int, action: ActionView|
                #[trigger] is_firm(b, i, action) ==> is_firm(all, x + i, action)
            &&& forall|i: int, action: ActionView|
                #[trigger] is_firm(d, i, action) ==> is_firm(all, y + i, action)
            &&& forall|i: int, action: ActionView|
                #[trigger] is_firm(e, i, action) ==> is_firm(all, y + d.len() + i, action)
            &&& forall|i: int, action: ActionView|
                #[trigger] is_firm(f, i, action) ==> is_firm(all, z + i, action)
            &&& forall|i: int, action: ActionView|
                #[trigger] is_firm(h, i, action) ==> is_firm(all, w + g.len() + i, action)
            &&& is_unavoidable(all, w)
            &&& all.skip(w) == g + h
        }),
{
    let all = a + b + c + d + e + f + g + h;
    assert(all =~= a + b + (c + d + e + f + g + h));
    assert(all =~= (a + b + c) + d + (e + f + g + h));
    assert(all =~= (a + b + c + d) + e + (f + g + h));
    assert(all =~= (a + b + c + d + e) + f + (g + h));
    assert(all =~= (a + b + c + d + e + f) + (g + h));
    assert(all =~= (a + b + c + d + e + f + g) + h + Seq::empty());
    lemma_preparations_in_a_row(a, b);
    lemma_preparations_in_a_row(a + b, c);
    lemma_preparations_in_a_row(a + b + c, d);
    lemma_preparations_in_a_row(a + b + c + d, e);
    lemma_closed_in_a_row(a + b + c + d + e, f);
    lemma_closed_in_a_row(a + b + c + d + e + f, g);
    lemma_preparations_in_a_row(g, h);
    assert forall|i: int, action: ActionView| #[trigger] is_firm(b, i, action) implies is_firm(
        all,
        a.len() + i,
        action,
    ) by {
        lemma_firm_within(a, b, c + d + e + f + g + h, i, action);
    }
    assert forall|i: int, action: ActionView| #[trigger] is_firm(d, i, action) implies is_firm(
        all,
        (a + b + c).len() + i,
        action,
    ) by {
        lemma_firm_within(a + b + c, d, e + f + g + h, i, action);
    }
    assert forall|i: int, action: ActionView| #[trigger] is_firm(e, i, action) implies is_firm(
        all,
        (a + b + c + d).len() + i,
        action,
    ) by {
        lemma_firm_within(a + b + c + d, e, f + g + h, i, action);
    }
    assert forall|i: int, action: ActionView| #[trigger] is_firm(f, i, action) implies is_firm(
        all,
        (a + b + c + d + e).len() + i,
        action,
    ) by {
        lemma_firm_within(a + b + c + d + e, f, g + h, i, action);
    }
    assert forall|i: int, action: ActionView| #[trigger] is_firm(h, i, action) implies is_firm(
        all,
        (a + b + c + d + e + f + g).len() + i,
        action,
    ) by {
        lemma_firm_within(a + b + c + d + e + f + g, h, Seq::empty(), i, action);
    }
    let before = a + b + c + d + e + f;
    assert forall|i: int| 0 <= i < before.len() implies leaves_out_at_most(
        #[trigger] all[i],
        before.len() - i - 1,
    ) by {
        assert(all[i] == before[i]);
    }
    assert(all.skip(before.len() as int) =~= g + h);
    let z = (a + b + c + d + e).len() as int;
    assert forall|i: int| 0 <= i < all.len() implies !((#[trigger] all[i]).action is CurrentDir)
        && (all[i].action is WakeChild ==> i == z) by {
        if i < z {
            assert(all[i] == (a + b + c + d + e)[i]);
        } else if i < z + f.len() {
            assert(all[i] == f[i - z]);
            if i > z {
                assert(f[i - z] == f.skip(1)[i - z - 1]);
            }
        } else {
            assert(all[i] == (g + h)[i - z - f.len()]);
        }
    }
}

proof fn lemma_host_program(container: ContainerView, child: u32)
    ensures
        ({
            let program = host_program(container, child);
            let pid = digits(child as nat);
            let group = cgroup_path(pid);
            &&& program.len() == 45
            &&& is_given(program)
            &&& forall|i: int|
                0 <= i < 45 && (#[trigger] program[i]).action is WakeChild ==> i == 34
            &&& program[0] == awaiting_child()
            &&& is_unavoidable(program, 2)
            &&& program[2].action == ActionView::ReadFile(forwarding_switch())
            &&& program[2].no == OtherwiseView::Skip(1)
            &&& fails_for_good(program[2])
            &&& program[5].action == ActionView::WriteFile {
                path: forwarding_switch(),
                contents: "1"@,
            }
            &&& is_firm(
                program.skip(4),
                1,
                ActionOf::WriteFile { path: forwarding_switch(), contents: "1"@ },
            )
            &&& is_firm(
                program,
                12,
                ActionOf::WriteFile {
                    path: joined(group, "pids.max"@),
                    contents: container.cgroup_config.max_pid,
                },
            )
            &&& is_firm(
                program,
                13,
                ActionOf::WriteFile {
                    path: joined(group, "memory.max"@),
                    contents: container.cgroup_config.max_memory,
                },
            )
            &&& is_firm(
                program,
                14,
                ActionOf::WriteFile { path: joined(group, "cgroup.procs"@), contents: pid },
            )
            &&& is_firm(program, 29, ActionOf::AttachLink(VETH1_HOST@))
            &&& is_firm(program, 30, ActionOf::MoveLink { name: VETH1_CONT@, pid: child })
            &&& is_firm(
                program,
                32,
                ActionOf::ApplyRuleset(ruleset_json(firewall(container.id))),
            )
            &&& is_firm(program, 35, ActionOf::WaitChild)
            &&& is_unavoidable(program, 36)
            &&& program[36] == asking(group, 5)
            &&& is_firm(program.skip(37), 4, ActionOf::RemoveDir(group))
            &&& is_firm(
                program,
                43,
                ActionOf::ApplyRuleset(ruleset_json(firewall_removal(container.id))),
            )
        }),
{
    let pid = digits(child as nat);
    let group = cgroup_path(pid);
    let a = seq![awaiting_child()] + in_context(
        ip_forwarding_program(),
        "Failed to toggle IP forwarding"@,
    );
    let b = in_context(
        setup_cgroup_program(
            container.cgroup_config.max_pid,
            container.cgroup_config.max_memory,
            pid,
        ),
        "Failed to setup cgroup"@,
    );
    let c = seq![plain(ActionOf::StartRuntime, failing("Failed to create tokio runtime"@))];
    let d = in_context(network_isolation_program(child), "failed to init network isolation "@);
    let e = in_context(setup_nftables_program(container.id), "Failed to setup nftables"@);
    let f = seq![
        plain(ActionOf::WakeChild, failing("Failed to write to pipe"@)),
        plain(ActionOf::WaitChild, failing("Failed to wait for child process"@)),
    ];
    let g = in_context(cleanup_cgroup_program(pid), "Failed to cleanup cgroup"@);
    let h = in_context(
        remove_firewall_program(container.id),
        "Failed to remove firewall rules"@,
    );
    assert(is_preparation(a) && a.len() == 10);
    assert(is_preparation(b) && b.len() == 5);
    assert(is_preparation(c));
    assert(is_preparation(d) && d.len() == 15);
    assert(is_preparation(e) && e.len() == 3);
    assert(is_preparation(g) && g.len() == 6);
    assert(is_preparation(h) && h.len() == 3);
    assert(f.skip(1) =~= seq![f[1]]);
    lemma_parts_of_host_program(a, b, c, d, e, f, g, h);
    let program = host_program(container, child);
    let behind = b + c + d + e + f + g + h;
    assert(program =~= a + behind);
    assert(program[0] == a[0] && program[1] == a[1] && program[2] == a[2] && program[5] == a[5]);
    assert(program.skip(4) =~= Seq::empty() + a.skip(4) + behind);
    lemma_firm_within(Seq::empty(), a.skip(4), behind, 1, a[5].action);
    assert(program == a + b + c + d + e + f + g + h);
    assert(is_firm(b, 2, b[2].action));
    assert(is_firm(b, 3, b[3].action));
    assert(is_firm(b, 4, b[4].action));
    assert(is_firm(d, 13, ActionOf::AttachLink(VETH1_HOST@)));
    assert(is_firm(d, 14, ActionOf::MoveLink { name: VETH1_CONT@, pid: child }));
    assert(is_firm(e, 1, e[1].action));
    assert(is_firm(f, 1, ActionOf::WaitChild));
    assert(is_firm(h, 1, h[1].action));
    assert(program[36] == program.skip(36)[0]);
    assert(program.skip(37) =~= Seq::empty() + g.skip(1) + h) by {
        assert(program.skip(37) =~= program.skip(36).skip(1));
    }
    lemma_firm_within(Seq::empty(), g.skip(1), h, 4, ActionOf::RemoveDir(group));
}

/// When the child is about to tell the host side that it is ready, it has left the host's
/// namespaces; and it goes on to wait for the host side.
pub proof fn law_child_is_ready_when_it_says_so(
    container: ContainerView,
    replies: Seq<ReplyView>,
)
    requires
        after(started(child_program(container)), replies) is Some,
        after(started(child_program(container)), replies)->0.pending.len() > 0,
        after(started(child_program(container)), replies)->0.pending[0].action is SignalReady,
    ensures
        was_done(
            started(child_program(container)),
            replies,
            ActionOf::Unshare(container_flags(container)),
        ),
        after(started(child_program(container)), replies)->0.pending[1].action is AwaitWake,
{
    let run = started(child_program(container));
    law_runs_follow_the_program(run, replies);
    let left = after(run, replies)->0.pending;
    assert(left[0] == run.pending[run.pending.len() - left.len()]);
    let unshared = law_no_step_is_bypassed(run, replies, 0);
}

/// The child does nothing in the new namespaces before the host side lets it go on:
/// when it is about to change a mount or to fork, it has left the host's namespaces, has
/// told the host side so, and has been woken.
pub proof fn law_child_waits_for_the_host(container: ContainerView, replies: Seq<ReplyView>)
    requires
        after(started(child_program(container)), replies) is Some,
        after(started(child_program(container)), replies)->0.pending.len() > 0,
        ({
            let action = after(started(child_program(container)), replies)->0.pending[0].action;
            action is Mount || action is Fork
        }),
    ensures
        was_done(
            started(child_program(container)),
            replies,
            ActionOf::Unshare(container_flags(container)),
        ),
        was_done(started(child_program(container)), replies, ActionOf::SignalReady),
        was_done(started(child_program(container)), replies, ActionOf::AwaitWake),
{
    let run = started(child_program(container));
    law_runs_follow_the_program(run, replies);
    let left = after(run, replies)->0.pending;
    assert(left[0] == run.pending[run.pending.len() - left.len()]);
    let unshared = law_no_step_is_bypassed(run, replies, 0);
    let told = law_no_step_is_bypassed(run, replies, 1);
    let woken = law_no_step_is_bypassed(run, replies, 2);
}

/// The mount of a virtual file system.
pub open spec fn mount_of(kind: Seq<char>, target: Seq<char>) -> ActionView {
    ActionOf::Mount { source: Some(kind), target, kind: Some(kind), mode: MountMode::Plain }
}

/// What has to be achieved to prepare a container from the inside.
pub open spec fn inside(container: ContainerView, action: ActionView) -> bool {
    ||| action == ActionOf::<Seq<char>, CommandView>::CreateTree(
        joined(container.chroot_path, "old_root"@),
    )
    ||| action == ActionOf::<Seq<char>, CommandView>::PivotRoot {
        new_root: "."@,
        put_old: "old_root"@,
    }
    ||| action == ActionOf::<Seq<char>, CommandView>::Detach("/old_root"@)
    ||| action == ActionOf::<Seq<char>, CommandView>::ChangeRoot("/"@)
    ||| action == ActionOf::<Seq<char>, CommandView>::SetHostname(container.hostname)
    ||| action == mount_of("proc"@, "/proc"@)
    ||| action == mount_of("sysfs"@, "/sys"@)
    ||| action == mount_of("devtmpfs"@, "/dev"@)
    ||| container.readonly && action == ActionOf::<Seq<char>, CommandView>::Mount {
        source: None,
        target: "/"@,
        kind: None,
        mode: MountMode::ReadOnly,
    }
    ||| action == ActionOf::<Seq<char>, CommandView>::RaiseLink("lo"@)
    ||| action == ActionOf::<Seq<char>, CommandView>::RaiseLink(VETH1_CONT@)
    ||| action == ActionOf::<Seq<char>, CommandView>::AddRoute {
        destination: everywhere(),
        gateway: 0x0a00_0001,
    }
}

proof fn lemma_setup_parts(
    a: Seq<StepView>,
    b: Seq<StepView>,
    c: Seq<StepView>,
    d: Seq<StepView>,
    e: Seq<StepView>,
    f: Seq<StepView>,
)
    requires
        is_closed(a),
        is_closed(b),
        is_closed(c),
        is_closed(d),
        is_closed(e),
        is_closed(f),
    ensures
        ({
            let all = a + b + c + d + e + f;
            let x = a.len() as int;
            let y = x + b.len();
            let z = y + c.len() + d.len();
            &&& is_closed(all)
            &&& forall|i: int, action: ActionView|
                #[trigger] is_firm(a, i, action) ==> is_firm(all, i, action)
            &&& forall|i: int, action: ActionView|
                #[trigger] is_firm(b, i, action) ==> is_firm(all, x + i, action)
            &&& forall|i: int, action: ActionView|
                #[trigger] is_firm(c, i, action) ==> is_firm(all, y + i, action)
            &&& forall|i: int, action: ActionView|
                #[trigger] is_firm(e, i, action) ==> is_firm(all, z + i, action)
        }),
{
    let all = a + b + c + d + e + f;
    let none = Seq::<StepView>::empty();
    assert(all =~= none + a + (b + c + d + e + f));
    assert(all =~= a + b + (c + d + e + f));
    assert(all =~= (a + b) + c + (d + e + f));
    assert(all =~= (a + b + c + d) + e + f);
    lemma_closed_in_a_row(a, b);
    lemma_closed_in_a_row(a + b, c);
    lemma_closed_in_a_row(a + b + c, d);
    lemma_closed_in_a_row(a + b + c + d, e);
    lemma_closed_in_a_row(a + b + c + d + e, f);
    assert forall|i: int, action: ActionView| #[trigger] is_firm(a, i, action) implies is_firm(
        all,
        i,
        action,
    ) by {
        lemma_firm_within(none, a, b + c + d + e + f, i, action);
    }
    assert forall|i: int, action: ActionView| #[trigger] is_firm(b, i, action) implies is_firm(
        all,
        a.len() + i,
        action,
    ) by {
        lemma_firm_within(a, b, c + d + e + f, i, action);
    }
    assert forall|i: int, action: ActionView| #[trigger] is_firm(c, i, action) implies is_firm(
        all,
        (a + b).len() + i,
        action,
    ) by {
        lemma_firm_within(a + b, c, d + e + f, i, action);
    }
    assert forall|i: int, action: ActionView| #[trigger] is_firm(e, i, action) implies is_firm(
        all,
        (a + b + c + d).len() + i,
        action,
    ) by {
        lemma_firm_within(a + b + c + d, e, f, i, action);
    }
}

/// Where the setup of a container does what it has to achieve.
spec fn place(container: ContainerView, action: ActionView) -> int {
    let clamped: int = if container.readonly {
        1
    } else {
        0
    };
    match action {
        ActionOf::CreateTree(_) => 5,
        ActionOf::PivotRoot { .. } => 6,
        ActionOf::Detach(_) => 8,
        ActionOf::ChangeRoot(_) => 10,
        ActionOf::SetHostname(_) => 14,
        ActionOf::Mount { source: None, .. } => 19,
        ActionOf::Mount { target, .. } => if target == "/proc"@ {
            16
        } else if target == "/sys"@ {
            17
        } else {
            18
        },
        ActionOf::RaiseLink(name) => if name == "lo"@ {
            22 + clamped
        } else {
            25 + clamped
        },
        _ => 27 + clamped,
    }
}

proof fn lemma_setup_program(container: ContainerView)
    ensures
        ({
            let program = setup_child_program(container.chroot_path, container);
            &&& is_closed(program)
            &&& is_given(program)
            &&& forall|i: int|
                0 <= i < program.len() ==> !((#[trigger] program[i]).action is Exec)
            &&& forall|action: ActionView|
                inside(container, action) ==> is_firm(
                    program,
                    #[trigger] place(container, action),
                    action,
                )
        }),
{
    let a = in_context(
        pivot_root_program(container.chroot_path),
        "Failed to setup pivot root"@,
    );
    let b = seq![
        saying("[child] isolating system hostname"@),
        plain(ActionOf::SetHostname(container.hostname), failing("Failed to set hostname"@)),
        saying("[child] Mounting virtual filesystems into new rootfs"@),
        mounting("proc"@, "/proc"@, failing("Failed to mount proc filesystem"@)),
        mounting("sysfs"@, "/sys"@, failing("Failed to mount sys filesystem"@)),
        mounting("devtmpfs"@, "/dev"@, failing("Failed to mount dev filesystem"@)),
    ];
    let c = if container.readonly {
        clamp_root_program()
    } else {
        Seq::empty()
    };
    let d = seq![
        saying("starting container network state machine ..."@),
        plain(ActionOf::StartRuntime, raised()),
    ];
    let e = with_note(
        in_context(container_network_program(), "Failed to config container network: "@),
        "[child] Critical failure setting up internal networking: Failed to config container network: "@,
    );
    let f = seq![plain(ActionOf::StopRuntime, OnErrorOf::Ignore)];
    reveal_strlit("/proc");
    reveal_strlit("/sys");
    reveal_strlit("/dev");
    reveal_strlit("lo");
    reveal_strlit("veth1_cont");
    assert("/sys"@[1] != "/dev"@[1]);
    assert(a.len() == 13 && is_closed(a));
    assert(e.len() == 7 && is_closed(e));
    lemma_setup_parts(a, b, c, d, e, f);
    let program = setup_child_program(container.chroot_path, container);
    assert(program == a + b + c + d + e + f);
    assert(is_firm(a, 5, a[5].action));
    assert(is_firm(a, 6, a[6].action));
    assert(is_firm(a, 8, a[8].action));
    assert(is_firm(a, 10, a[10].action));
    assert(is_firm(b, 1, b[1].action));
    assert(is_firm(b, 3, b[3].action));
    assert(is_firm(b, 4, b[4].action));
    assert(is_firm(b, 5, b[5].action));
    if container.readonly {
        assert(is_firm(c, 0, c[0].action));
    }
    assert(is_firm(e, 1, e[1].action));
    assert(is_firm(e, 4, e[4].action));
    assert(is_firm(e, 6, e[6].action));
}

/// When the container's command is about to be started, all that makes up the
/// container is in place: the new root, without a way back to the old one, and
/// read-only if that is asked for; the hostname; the virtual file systems; and the
/// network.
pub proof fn law_command_starts_inside_the_container(
    container: ContainerView,
    replies: Seq<ReplyView>,
    action: ActionView,
)
    requires
        after(started(workload_program(container)), replies) is Some,
        after(started(workload_program(container)), replies)->0.pending.len() > 0,
        after(started(workload_program(container)), replies)->0.pending[0].action is Exec,
        inside(container, action),
    ensures
        was_done(started(workload_program(container)), replies, action),
{
    let run = started(workload_program(container));
    lemma_workload_program(container);
    law_runs_follow_the_program(run, replies);
    let left = after(run, replies)->0.pending;
    assert(left[0] == run.pending[run.pending.len() - left.len()]);
    let at = law_no_step_is_bypassed(run, replies, place(container, action));
}

/// The command takes the place of the container's process: starting it is the last that
/// the process asks for, so no part of the runtime stays behind the command. A command
/// that cannot be started makes the process panic.
pub proof fn law_command_replaces_the_process(
    container: ContainerView,
    replies: Seq<ReplyView>,
    code: Option<i32>,
    why: Seq<char>,
)
    requires
        after(started(workload_program(container)), replies) is Some,
        after(started(workload_program(container)), replies)->0.pending.len() > 0,
        after(started(workload_program(container)), replies)->0.pending[0].action is Exec,
    ensures
        ({
            let run = after(started(workload_program(container)), replies)->0;
            &&& run.pending.len() == 1
            &&& run.pending[0].action == ActionView::Exec(container_command(container))
            &&& resumed(run, ReplyOf::Failed { code, why }).status == StatusView::Panicked {
                message: Some("[grand child] Failed to execute command"@),
                why,
            }
        }),
{
    let run = started(workload_program(container));
    lemma_workload_program(container);
    law_runs_follow_the_program(run, replies);
    let left = after(run, replies)->0.pending;
    assert(left[0] == run.pending[run.pending.len() - left.len()]);
}

/// A container that has come to an end without failing has started its command.
pub proof fn law_container_runs_its_command(container: ContainerView, replies: Seq<ReplyView>)
    requires
        after(started(workload_program(container)), replies) is Some,
        after(started(workload_program(container)), replies)->0.pending.len() == 0,
    ensures
        was_done(
            started(workload_program(container)),
            replies,
            ActionOf::Exec(container_command(container)),
        ),
{
    let run = started(workload_program(container));
    lemma_workload_program(container);
    let at = law_no_step_is_bypassed(run, replies, run.pending.len() - 1);
}

/// Unmounting takes down every virtual file system that is mounted for a container, and
/// no other.
pub proof fn law_unmounting_matches_mounting(
    container: ContainerView,
    replies: Seq<ReplyView>,
    target: Seq<char>,
)
    requires
        after(started(unmount_program()), replies) is Some,
        after(started(unmount_program()), replies)->0.pending.len() == 0,
    ensures
        (exists|kind: Seq<char>| inside(container, #[trigger] mount_of(kind, target))) ==> was_done(
            started(unmount_program()),
            replies,
            ActionOf::Unmount(target),
        ),
        was_done(started(unmount_program()), replies, ActionOf::Unmount(target)) ==> exists|
            kind: Seq<char>,
        | inside(container, #[trigger] mount_of(kind, target)),
{
    let run = started(unmount_program());
    let first = law_no_step_is_bypassed(run, replies, 1);
    let second = law_no_step_is_bypassed(run, replies, 2);
    let third = law_no_step_is_bypassed(run, replies, 3);
    if was_done(run, replies, ActionOf::Unmount(target)) {
        let at = choose|at: int| was_done_at(run, replies, ActionOf::Unmount(target), at);
        law_runs_follow_the_program(run, replies.take(at));
        let left = after(run, replies.take(at))->0.pending;
        assert(left[0] == run.pending[run.pending.len() - left.len()]);
        assert(inside(container, mount_of("proc"@, "/proc"@)));
        assert(inside(container, mount_of("sysfs"@, "/sys"@)));
        assert(inside(container, mount_of("devtmpfs"@, "/dev"@)));
    }
}

proof fn lemma_workload_program(container: ContainerView)
    ensures
        ({
            let program = workload_program(container);
            let n = setup_child_program(container.chroot_path, container).len() as int;
            &&& program.len() == n + 1
            &&& is_given(program)
            &&& forall|i: int|
                0 <= i < program.len() && (#[trigger] program[i]).action is Exec ==> i == n
            &&& forall|action: ActionView|
                inside(container, action) ==> is_firm(
                    program,
                    #[trigger] place(container, action),
                    action,
                ) && place(container, action) < n
            &&& is_firm(program, n, ActionOf::Exec(container_command(container)))
            &&& program[n].error == OnErrorView::Expect(
                "[grand child] Failed to execute command"@,
            )
        }),
{
    let setup = setup_child_program(container.chroot_path, container);
    let context = "[grand child] Failed to setup grand child process"@;
    let a = in_context(setup, context);
    let b = seq![
        plain(
            ActionOf::Exec(container_command(container)),
            OnErrorOf::Expect("[grand child] Failed to execute command"@),
        ),
    ];
    let none = Seq::<StepView>::empty();
    lemma_setup_program(container);
    lemma_context_keeps(setup, context);
    let program = workload_program(container);
    assert(program =~= none + a + b);
    assert(program =~= a + b + none);
    assert forall|action: ActionView| inside(container, action) implies is_firm(
        program,
        #[trigger] place(container, action),
        action,
    ) by {
        assert(is_firm(a, place(container, action), action));
        lemma_firm_within(none, a, b, place(container, action), action);
    }
    assert(is_firm(b, 0, ActionOf::Exec(container_command(container))));
    lemma_firm_within(a, b, none, 0, ActionOf::Exec(container_command(container)));
    assert forall|i: int| 0 <= i < program.len() implies !((#[trigger] program[i]).action is CurrentDir)
        && (program[i].action is Exec ==> i == setup.len()) by {
        if i < setup.len() {
            assert(program[i] == a[i]);
            assert(a[i].action == setup[i].action);
        } else {
            assert(program[i] == b[i - setup.len()]);
        }
    }
    assert(program[setup.len() as int] == b[0]);
}

/// When the container's command is about to be started, it is the program of the container,
/// with just the container's arguments, however many they are, the container's working
/// directory and its variables.
pub proof fn law_the_command_is_the_containers(container: ContainerView, replies: Seq<ReplyView>)
    requires
        after(started(workload_program(container)), replies) is Some,
        after(started(workload_program(container)), replies)->0.pending.len() > 0,
        after(started(workload_program(container)), replies)->0.pending[0].action is Exec,
    ensures
        ({
            let run = after(started(workload_program(container)), replies)->0;
            let command = run.pending[0].action->Exec_0;
            &&& command.program == container.container_command
            &&& command.args.len() == container.args.len()
            &&& forall|i: int|
                0 <= i < container.args.len() ==> #[trigger] command.args[i] == container.args[i]
            &&& command.cwd == Some(container.cwd)
            &&& command.env == environment(container.env_vars)
        }),
{
    law_command_replaces_the_process(container, replies, None, Seq::empty());
    law_the_workload_is_the_containers_command(container);
    lemma_workload_program(container);
    law_runs_follow_the_program(started(workload_program(container)), replies);
}

/// What is asked for on the command line is what is started: the first word of the command
/// is the program, all the others are its arguments, and it has the two basic variables and
/// then those that are asked for, in the working directory that is asked for.
pub proof fn law_options_reach_the_command(
    cli: CliView,
    cwd: Seq<char>,
    id: u128,
    replies: Seq<ReplyView>,
)
    requires
        all_words(cli.args).len() > 0,
        ({
            let container = configured(
                bundle_of(cwd, cli.output),
                asked_for(cli),
                cli.hostname,
                id,
            );
            &&& after(started(workload_program(container)), replies) is Some
            &&& after(started(workload_program(container)), replies)->0.pending.len() > 0
            &&& after(started(workload_program(container)), replies)->0.pending[0].action is Exec
        }),
    ensures
        ({
            let container = configured(
                bundle_of(cwd, cli.output),
                asked_for(cli),
                cli.hostname,
                id,
            );
            let run = after(started(workload_program(container)), replies)->0;
            let command = run.pending[0].action->Exec_0;
            &&& seq![command.program] + command.args == all_words(cli.args)
            &&& command.cwd == Some(cli.cwd)
            &&& command.env == seq![
                ("PATH"@, "/usr/local/sbin:/usr/local/bin:/usr/sbin:/usr/bin:/sbin:/bin"@),
                ("TERM"@, "xterm"@),
            ] + environment(cli.extra_env)
        }),
{
    let container = configured(bundle_of(cwd, cli.output), asked_for(cli), cli.hostname, id);
    law_container_is_as_asked_for(cli, cwd, id);
    law_the_command_is_the_containers(container, replies);
    law_basic_variables_are_always_set(cli.extra_env);
    let run = after(started(workload_program(container)), replies)->0;
    let command = run.pending[0].action->Exec_0;
    assert(command.args =~= all_words(cli.args).skip(1));
    assert(seq![command.program] + command.args =~= all_words(cli.args));
}

/// When the child is let go on, the files of its control group hold the limits that were
/// asked for, in decimal, and its own number.
pub proof fn law_options_reach_the_limits(
    cli: CliView,
    cwd: Seq<char>,
    id: u128,
    child: u32,
    replies: Seq<ReplyView>,
)
    requires
        all_words(cli.args).len() > 0,
        ({
            let container = configured(
                bundle_of(cwd, cli.output),
                asked_for(cli),
                cli.hostname,
                id,
            );
            let run = after(started(host_program(container, child)), replies);
            run is Some && run->0.pending.len() > 0 && run->0.pending[0].action is WakeChild
        }),
    ensures
        ({
            let container = configured(
                bundle_of(cwd, cli.output),
                asked_for(cli),
                cli.hostname,
                id,
            );
            let run = started(host_program(container, child));
            let pid = digits(child as nat);
            let group = "/sys/fs/cgroup/minidocker-"@ + pid;
            &&& was_done(
                run,
                replies,
                ActionOf::WriteFile {
                    path: group + "/pids.max"@,
                    contents: decimal(cli.pid_limit as int),
                },
            )
            &&& was_done(
                run,
                replies,
                ActionOf::WriteFile {
                    path: group + "/memory.max"@,
                    contents: decimal(cli.memory_limit as int),
                },
            )
            &&& was_done(
                run,
                replies,
                ActionOf::WriteFile { path: group + "/cgroup.procs"@, contents: pid },
            )
        }),
{
    let container = configured(bundle_of(cwd, cli.output), asked_for(cli), cli.hostname, id);
    let pid = digits(child as nat);
    law_container_is_as_asked_for(cli, cwd, id);
    law_digits_write_their_number(child as nat);
    assert('0' <= pid[pid.len() - 1] <= '9');
    lemma_cgroup_files(pid);
    law_child_is_woken_when_all_is_ready(container, child, replies);
}

/// The namespaces that are asked for are those that the container's processes leave the
/// host's for.
pub proof fn law_options_reach_the_namespaces(
    cli: CliView,
    cwd: Seq<char>,
    id: u128,
    namespace: Namespace,
)
    requires
        all_words(cli.args).len() > 0,
    ensures
        ({
            let container = configured(
                bundle_of(cwd, cli.output),
                asked_for(cli),
                cli.hostname,
                id,
            );
            let action = child_program(container)[0].action;
            &&& action is Unshare
            &&& action->Unshare_0 & namespace_bit(namespace) != 0 <==> exists|i: int|
                0 <= i < cli.namespaces.len() && namespace_named(
                    lowercase(#[trigger] cli.namespaces[i]),
                ) == Some(namespace)
        }),
{
    let container = configured(bundle_of(cwd, cli.output), asked_for(cli), cli.hostname, id);
    law_container_is_as_asked_for(cli, cwd, id);
    law_the_child_leaves_the_named_namespaces(container, namespace);
}

} // verus!
