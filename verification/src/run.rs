//! The machine that takes a program from reply to reply.
//!
//! A `Run` holds the steps that are still to be taken. Its owner performs the action
//! of the first one, hands the system's `Reply` to `Run::resume` and learns what to say
//! and whether to go on.
use vstd::prelude::*;
use vstd::string::*;

use crate::steps::{
    in_context, no_texts, or_expect, plain, say, saying, step, tolerated, with_note, Action,
    ActionOf, ActionView, OldRootOf, OldRootView, OnErrorOf, OnErrorView, OtherwiseOf,
    OtherwiseView, Program, Reply, ReplyOf, ReplyView, Status, StatusOf, StatusView, Step, StepOf,
    StepView,
};
use crate::text::{
    is_blank, is_white_space, join, joined, joint, law_trimming_drops_outer_white_space, same_text,
    texts, trim, trimmed,
};

verus! {

broadcast use vstd::string::to_string_from_display_ensures_for_str;

/// The code by which the kernel says that something exists already.
pub const ALREADY_EXISTS: i32 = -17;

/// A program that is being run.
pub struct Run {
    /// The steps that are still to be taken; the first is the current one.
    pub pending: Program,
    /// The index of the link that was found last.
    pub link: Option<u32>,
}

/// A run, by the characters of its texts.
#[verifier::ext_equal]
pub struct RunView {
    pub pending: Seq<StepView>,
    pub link: Option<u32>,
}

impl View for Run {
    type V = RunView;

    open spec fn view(&self) -> RunView {
        RunView { pending: self.pending@, link: self.link }
    }
}

/// What a reply leads to.
pub struct Turn {
    /// How the run goes on.
    pub run: Run,
    /// The lines to write to the standard error.
    pub said: Vec<String>,
    pub status: Status,
}

/// What a reply leads to, by the characters of its texts.
#[verifier::ext_equal]
pub struct TurnView {
    pub run: RunView,
    pub said: Seq<Seq<char>>,
    pub status: StatusView,
}

impl View for Turn {
    type V = TurnView;

    open spec fn view(&self) -> TurnView {
        TurnView { run: self.run@, said: texts(self.said@), status: self.status@ }
    }
}

/// A program at its start.
pub open spec fn started(program: Seq<StepView>) -> RunView {
    RunView { pending: program, link: None }
}

/// The steps behind the first `count`, if there are any.
pub open spec fn beyond(steps: Seq<StepView>, count: int) -> Seq<StepView> {
    if count < steps.len() {
        steps.skip(count)
    } else {
        Seq::empty()
    }
}

/// The current step is done, and so many further steps are left out.
pub open spec fn moved(run: RunView, skip: usize) -> TurnView {
    TurnView {
        run: RunView { pending: beyond(run.pending, skip + 1), link: run.link },
        said: Seq::empty(),
        status: StatusOf::Going,
    }
}

/// The run has ended early: nothing is pending any more.
pub open spec fn ended(run: RunView, said: Seq<Seq<char>>, status: StatusView) -> TurnView {
    TurnView { run: RunView { pending: Seq::empty(), link: run.link }, said, status }
}

/// Each line with the reason behind it.
pub open spec fn with_reason(lines: Seq<Seq<char>>, why: Seq<char>) -> Seq<Seq<char>> {
    Seq::new(lines.len(), |i: int| lines[i] + ": "@ + why)
}

/// The current step's action has failed.
pub open spec fn broken(run: RunView, error: OnErrorView, why: Seq<char>) -> TurnView {
    match error {
        OnErrorOf::Ignore => moved(run, 0),
        OnErrorOf::Report { lines, skip } => TurnView {
            said: with_reason(lines, why),
            ..moved(run, skip)
        },
        OnErrorOf::Fail { contexts, reports, notes } => ended(
            run,
            with_reason(reports, why) + notes,
            StatusOf::Failed(contexts),
        ),
        OnErrorOf::Expect(message) => ended(
            run,
            Seq::empty(),
            StatusOf::Panicked { message: Some(message), why },
        ),
        OnErrorOf::Unwrap => ended(run, Seq::empty(), StatusOf::Panicked { message: None, why }),
    }
}

/// The answer to the current step's question is negative.
pub open spec fn refused(run: RunView, no: OtherwiseView) -> TurnView {
    match no {
        OtherwiseOf::Skip(count) => moved(run, count),
        OtherwiseOf::Fail { contexts, notes } => ended(run, notes, StatusOf::Failed(contexts)),
    }
}

/// Where the old root is to be put.
pub open spec fn old_root_path(place: OldRootView, cwd: Seq<char>) -> Seq<char> {
    match place {
        OldRootOf::Inside(name) => joined(cwd, name),
        OldRootOf::At(path) => path,
    }
}

/// Makes an empty directory for the old root, whatever was there before.
pub open spec fn old_root_program(cwd: Seq<char>, path: Seq<char>) -> Seq<StepView> {
    seq![
        saying("cwd = "@ + cwd),
        saying("old_root = "@ + path),
        StepOf {
            no: OtherwiseOf::Skip(2),
            ..plain(ActionOf::Exists(path), OnErrorOf::Ignore)
        },
        saying("removing old_root directory"@),
        plain(ActionOf::RemoveTree(path), OnErrorOf::Unwrap),
        plain(
            ActionOf::CreateTree(path),
            OnErrorOf::Expect("Failed to create old root directory"@),
        ),
    ]
}

/// What a reply to the current step leads to.
///
/// An error ends the run, or does not, as the step says; a positive and a negative
/// answer lead on as the step says. Whether a file's content is a positive answer
/// depends on its being a switch that is on: the digit 1, with white space around
/// it or without. The current directory brings in the steps that prepare the
/// place of the old root. A finished run stays as it is.
pub open spec fn resumed(run: RunView, reply: ReplyView) -> TurnView {
    if run.pending.len() == 0 {
        TurnView { run, said: Seq::empty(), status: StatusOf::Going }
    } else {
        let step = run.pending[0];
        match reply {
            ReplyOf::Failed { code, why } => if code == Some(ALREADY_EXISTS) && step.exists is Some {
                moved(run, step.exists->0)
            } else {
                broken(run, step.error, why)
            },
            ReplyOf::Present(false) | ReplyOf::Link(None) => refused(run, step.no),
            ReplyOf::Content(text) => if trimmed(text) == "1"@ {
                moved(run, step.yes)
            } else {
                refused(run, step.no)
            },
            ReplyOf::Link(Some(index)) => moved(RunView { link: Some(index), ..run }, step.yes),
            ReplyOf::Directory(cwd) => match step.action {
                ActionOf::CurrentDir(place) => TurnView {
                    run: RunView {
                        pending: old_root_program(cwd, old_root_path(place, cwd))
                            + run.pending.skip(1),
                        link: run.link,
                    },
                    said: Seq::empty(),
                    status: StatusOf::Going,
                },
                _ => moved(run, step.yes),
            },
            _ => moved(run, step.yes),
        }
    }
}

/// Makes an empty directory for the old root, whatever was there before.
pub fn prepare_old_root(cwd: &str, path: &str) -> (out: Program)
    ensures
        out@ == old_root_program(cwd@, path@),
{
    let mut exists: Step = step(ActionOf::Exists(path.to_owned()), OnErrorOf::Ignore);
    exists.no = OtherwiseOf::Skip(2);
    Program::new()
        .with(say(joint("cwd = ", cwd).as_str()))
        .with(say(joint("old_root = ", path).as_str()))
        .with(exists)
        .with(say("removing old_root directory"))
        .with(step(ActionOf::RemoveTree(path.to_owned()), OnErrorOf::Unwrap))
        .with(
            step(
                ActionOf::CreateTree(path.to_owned()),
                or_expect("Failed to create old root directory"),
            ),
        )
}

fn reasons(lines: &Vec<String>, why: &str) -> (out: Vec<String>)
    ensures
        texts(out@) == with_reason(texts(lines@), why@),
{
    let mut out: Vec<String> = Vec::new();
    let mut i: usize = 0;
    while i < lines.len()
        invariant
            i <= lines.len(),
            out@.len() == i,
            forall|k: int| 0 <= k < i ==> (#[trigger] out@[k])@ == lines@[k]@ + ": "@ + why@,
        decreases lines.len() - i,
    {
        out.push(joint(joint(lines[i].as_str(), ": ").as_str(), why));
        i = i + 1;
    }
    assert(texts(out@) =~= with_reason(texts(lines@), why@));
    out
}

impl Run {
    /// Starts a program.
    pub fn start(program: Program) -> (run: Run)
        ensures
            run@ == started(program@),
    {
        Run { pending: program, link: None }
    }

    /// The action to perform next; `None` where the run is finished.
    pub fn current(&self) -> (action: Option<&Action>)
        ensures
            match action {
                Some(action) => self@.pending.len() > 0 && action@ == self@.pending[0].action,
                None => self@.pending.len() == 0,
            },
    {
        if self.pending.steps.len() > 0 {
            Some(&self.pending.steps[0].action)
        } else {
            None
        }
    }

    /// Takes the current step out, and leaves out so many further ones.
    fn take_out(self, skip: usize) -> (out: (Step, Run))
        requires
            self@.pending.len() > 0,
        ensures
            out.0@ == self@.pending[0],
            out.1@ == moved(self@, skip).run,
    {
        let link: Option<u32> = self.link;
        let mut steps: Vec<Step> = self.pending.steps;
        let ghost all = self@.pending;
        let ghost mut gone: int = 1;
        let first: Step = steps.remove(0);
        let mut left: usize = skip;
        while left > 0 && steps.len() > 0
            invariant
                left <= skip,
                gone == 1 + skip - left,
                gone + steps@.len() == all.len(),
                forall|i: int| 0 <= i < steps@.len() ==> (#[trigger] steps@[i])@ == all[gone + i],
            ensures
                left == 0 || steps@.len() == 0,
            decreases left,
        {
            let _ = steps.remove(0);
            left = left - 1;
            proof {
                gone = gone + 1;
            }
        }
        let run: Run = Run { pending: Program { steps }, link };
        assert(run@.pending =~= beyond(all, skip + 1));
        (first, run)
    }

    fn advance(self, skip: usize) -> (turn: Turn)
        requires
            self@.pending.len() > 0,
        ensures
            turn@ == moved(self@, skip),
    {
        let (_, run): (Step, Run) = self.take_out(skip);
        Turn { run, said: no_texts(), status: StatusOf::Going }
    }

    fn fail(self, why: String) -> (turn: Turn)
        requires
            self@.pending.len() > 0,
        ensures
            turn@ == broken(self@, self@.pending[0].error, why@),
    {
        let skip: usize = match &self.pending.steps[0].error {
            OnErrorOf::Report { lines: _, skip } => *skip,
            _ => 0,
        };
        let link: Option<u32> = self.link;
        let (step, run): (Step, Run) = self.take_out(skip);
        let finished: Run = Run { pending: Program::new(), link };
        match step.error {
            OnErrorOf::Ignore => Turn { run, said: no_texts(), status: StatusOf::Going },
            OnErrorOf::Report { lines, skip: _ } => Turn {
                run,
                said: reasons(&lines, why.as_str()),
                status: StatusOf::Going,
            },
            OnErrorOf::Fail { contexts, reports, notes } => {
                let mut said: Vec<String> = reasons(&reports, why.as_str());
                let mut rest: Vec<String> = notes;
                let ghost first = texts(said@);
                let ghost last = texts(notes@);
                said.append(&mut rest);
                assert(texts(said@) =~= first + last);
                Turn { run: finished, said, status: StatusOf::Failed(contexts) }
            },
            OnErrorOf::Expect(message) => Turn {
                run: finished,
                said: no_texts(),
                status: StatusOf::Panicked { message: Some(message), why },
            },
            OnErrorOf::Unwrap => Turn {
                run: finished,
                said: no_texts(),
                status: StatusOf::Panicked { message: None, why },
            },
        }
    }

    fn decline(self) -> (turn: Turn)
        requires
            self@.pending.len() > 0,
        ensures
            turn@ == refused(self@, self@.pending[0].no),
    {
        let skip: usize = match &self.pending.steps[0].no {
            OtherwiseOf::Skip(count) => *count,
            OtherwiseOf::Fail { contexts: _, notes: _ } => 0,
        };
        let link: Option<u32> = self.link;
        let (step, run): (Step, Run) = self.take_out(skip);
        match step.no {
            OtherwiseOf::Skip(_) => Turn { run, said: no_texts(), status: StatusOf::Going },
            OtherwiseOf::Fail { contexts, notes } => Turn {
                run: Run { pending: Program::new(), link },
                said: notes,
                status: StatusOf::Failed(contexts),
            },
        }
    }

    fn enter(self, cwd: &str) -> (turn: Turn)
        requires
            self@.pending.len() > 0,
        ensures
            turn@ == resumed(self@, ReplyOf::Directory(cwd@)),
    {
        let yes: usize = self.pending.steps[0].yes;
        let place: String = match &self.pending.steps[0].action {
            ActionOf::CurrentDir(OldRootOf::Inside(name)) => join(cwd, name.as_str()),
            ActionOf::CurrentDir(OldRootOf::At(path)) => path.clone(),
            _ => {
                return self.advance(yes);
            },
        };
        let link: Option<u32> = self.link;
        let ghost all = self@.pending;
        let (_, run): (Step, Run) = self.take_out(0);
        let pending: Program = prepare_old_root(cwd, place.as_str()).followed_by(run.pending);
        assert(beyond(all, 1) =~= all.skip(1));
        Turn { run: Run { pending, link }, said: no_texts(), status: StatusOf::Going }
    }

    /// Takes the system's reply to the current action.
    pub fn resume(self, reply: Reply) -> (turn: Turn)
        ensures
            turn@ == resumed(self@, reply@),
    {
        let mut run: Run = self;
        if run.pending.steps.len() == 0 {
            return Turn { run, said: no_texts(), status: StatusOf::Going };
        }
        let yes: usize = run.pending.steps[0].yes;
        match reply {
            ReplyOf::Failed { code, why } => {
                if let (Some(code), Some(skip)) = (code, run.pending.steps[0].exists) {
                    if code == ALREADY_EXISTS {
                        return run.advance(skip);
                    }
                }
                run.fail(why)
            },
            ReplyOf::Present(present) => if present {
                run.advance(yes)
            } else {
                run.decline()
            },
            ReplyOf::Content(text) => if same_text(trim(text.as_str()).as_str(), "1") {
                run.advance(yes)
            } else {
                run.decline()
            },
            ReplyOf::Link(Some(index)) => {
                run.link = Some(index);
                run.advance(yes)
            },
            ReplyOf::Link(None) => run.decline(),
            ReplyOf::Directory(cwd) => run.enter(cwd.as_str()),
            _ => run.advance(yes),
        }
    }
}

/// Where a run stands after the replies, as long as it has neither failed nor
/// panicked.
pub open spec fn after(run: RunView, replies: Seq<ReplyView>) -> Option<RunView>
    decreases replies.len(),
{
    if replies.len() == 0 {
        Some(run)
    } else {
        match after(run, replies.drop_last()) {
            Some(before) => {
                let turn = resumed(before, replies.last());
                if turn.status is Going {
                    Some(turn.run)
                } else {
                    None
                }
            },
            None => None,
        }
    }
}

/// How many replies a program can take at most.
pub open spec fn length_bound(steps: Seq<StepView>) -> nat
    decreases steps.len(),
{
    if steps.len() == 0 {
        0
    } else {
        length_bound(steps.drop_last()) + if steps.last().action is CurrentDir {
            7nat
        } else {
            1nat
        }
    }
}

proof fn lemma_bound_of_sum(a: Seq<StepView>, b: Seq<StepView>)
    ensures
        length_bound(a + b) == length_bound(a) + length_bound(b),
    decreases b.len(),
{
    if b.len() == 0 {
        assert(a + b =~= a);
    } else {
        assert((a + b).drop_last() =~= a + b.drop_last());
        lemma_bound_of_sum(a, b.drop_last());
    }
}

/// A program that does not ask for the current directory: its steps are all given
/// from the start.
pub open spec fn is_given(program: Seq<StepView>) -> bool {
    forall|i: int| 0 <= i < program.len() ==> !((#[trigger] program[i]).action is CurrentDir)
}

proof fn lemma_bound_of_given(steps: Seq<StepView>)
    requires
        is_given(steps),
    ensures
        length_bound(steps) == steps.len(),
    decreases steps.len(),
{
    if steps.len() > 0 {
        lemma_bound_of_given(steps.drop_last());
    }
}

proof fn lemma_bound_of_suffix(steps: Seq<StepView>, count: int)
    requires
        0 < count <= steps.len(),
    ensures
        length_bound(steps.skip(count)) < length_bound(steps),
        length_bound(steps) == length_bound(steps.skip(1)) + if steps[0].action is CurrentDir {
            7nat
        } else {
            1nat
        },
{
    let first = steps.take(1);
    assert(steps =~= first + steps.skip(1));
    lemma_bound_of_sum(first, steps.skip(1));
    reveal_with_fuel(length_bound, 2);
    assert(steps.skip(1) =~= steps.subrange(1, count) + steps.skip(count));
    lemma_bound_of_sum(steps.subrange(1, count), steps.skip(count));
}

/// Every reply takes a run that is not finished nearer to its end: no program keeps
/// its process busy for more than its bound of replies.
pub proof fn law_runs_come_to_an_end(run: RunView, reply: ReplyView)
    requires
        run.pending.len() > 0,
    ensures
        length_bound(resumed(run, reply).run.pending) < length_bound(run.pending),
{
    let left = resumed(run, reply).run.pending;
    lemma_bound_of_suffix(run.pending, 1);
    if reply is Directory && run.pending[0].action is CurrentDir {
        let cwd = reply->Directory_0;
        let more = old_root_program(cwd, old_root_path(run.pending[0].action->CurrentDir_0, cwd));
        lemma_bound_of_sum(more, run.pending.skip(1));
        lemma_bound_of_given(more);
    } else if left.len() > 0 {
        let count = run.pending.len() - left.len();
        assert(left =~= run.pending.skip(count));
        lemma_bound_of_suffix(run.pending, count);
    }
}

/// A run that has failed, or that makes its process panic, asks for nothing any more.
pub proof fn law_failure_is_the_end(run: RunView, reply: ReplyView, later: ReplyView)
    requires
        !(resumed(run, reply).status is Going),
    ensures
        resumed(run, reply).run.pending.len() == 0,
        resumed(resumed(run, reply).run, later).run.pending.len() == 0,
        resumed(resumed(run, reply).run, later).said.len() == 0,
{
}

/// Whether a step leaves out at most so many further steps, whatever the reply.
pub open spec fn leaves_out_at_most(step: StepView, count: int) -> bool {
    &&& step.yes <= count
    &&& step.no matches OtherwiseOf::Skip(skip) ==> skip <= count
    &&& step.exists matches Some(skip) ==> skip <= count
    &&& step.error matches OnErrorOf::Report { skip, .. } ==> skip <= count
    &&& 0 <= count
}

/// Whether no earlier step can leave out the step at `index`.
pub open spec fn is_unavoidable(program: Seq<StepView>, index: int) -> bool {
    forall|i: int|
        0 <= i < index ==> leaves_out_at_most(#[trigger] program[i], index - i - 1)
}

/// Whether a run that has taken the replies stood, when it got the reply at `at`, at
/// the step that is `index` steps behind its first, and went on.
pub open spec fn has_passed(run: RunView, replies: Seq<ReplyView>, index: int, at: int) -> bool {
    &&& 0 <= at < replies.len()
    &&& after(run, replies.take(at)) is Some
    &&& after(run, replies.take(at))->0.pending == run.pending.skip(index)
    &&& resumed(after(run, replies.take(at))->0, replies[at]).status is Going
}

/// Whether a run that has taken the replies was told that the action succeeded.
pub open spec fn was_done(run: RunView, replies: Seq<ReplyView>, action: ActionView) -> bool {
    exists|at: int| was_done_at(run, replies, action, at)
}

/// Whether the reply at `at` told the run that the action succeeded.
pub open spec fn was_done_at(
    run: RunView,
    replies: Seq<ReplyView>,
    action: ActionView,
    at: int,
) -> bool {
    &&& 0 <= at < replies.len()
    &&& after(run, replies.take(at)) is Some
    &&& after(run, replies.take(at))->0.pending.len() > 0
    &&& after(run, replies.take(at))->0.pending[0].action == action
    &&& !(replies[at] is Failed)
}

proof fn lemma_stays_a_suffix(program: Seq<StepView>, run: RunView, at: int, reply: ReplyView)
    requires
        is_given(program),
        0 <= at <= program.len(),
        run.pending == program.skip(at),
        resumed(run, reply).status is Going,
    ensures
        ({
            let left = resumed(run, reply).run.pending;
            &&& left.len() <= program.len() - at
            &&& at < program.len() ==> left.len() < program.len() - at
            &&& left == program.skip(program.len() - left.len())
            &&& forall|count: int|
                at < program.len() && #[trigger] leaves_out_at_most(program[at], count)
                    ==> left.len() >= program.len() - at - 1 - count
        }),
{
    if at < program.len() {
        assert(run.pending[0] == program[at]);
        let left = resumed(run, reply).run.pending;
        let gone = run.pending.len() - left.len();
        assert(left =~= run.pending.skip(gone as int));
        assert(left =~= program.skip(program.len() - left.len()));
    }
}

/// A run of a given program only ever has a rest of the program before it.
pub proof fn law_runs_follow_the_program(run: RunView, replies: Seq<ReplyView>)
    requires
        is_given(run.pending),
        after(run, replies) is Some,
    ensures
        ({
            let left = after(run, replies)->0.pending;
            left.len() <= run.pending.len() && left == run.pending.skip(
                run.pending.len() - left.len(),
            )
        }),
    decreases replies.len(),
{
    if replies.len() == 0 {
        assert(run.pending.skip(0) =~= run.pending);
    } else {
        law_runs_follow_the_program(run, replies.drop_last());
        let before = after(run, replies.drop_last())->0;
        lemma_stays_a_suffix(
            run.pending,
            before,
            run.pending.len() - before.pending.len(),
            replies.last(),
        );
    }
}

/// A run that has come to the steps behind a step which nothing can leave out has
/// stood at that step and got a reply on which it went on. If failure of the step is
/// not passed over, that reply was no failure.
pub proof fn law_no_step_is_bypassed(
    run: RunView,
    replies: Seq<ReplyView>,
    index: int,
) -> (at: int)
    requires
        is_given(run.pending),
        0 <= index < run.pending.len(),
        is_unavoidable(run.pending, index),
        after(run, replies) is Some,
        after(run, replies)->0.pending.len() < run.pending.len() - index,
    ensures
        has_passed(run, replies, index, at),
        fails_for_good(run.pending[index]) ==> was_done_at(
            run,
            replies,
            run.pending[index].action,
            at,
        ),
    decreases replies.len(),
{
    let fewer = replies.drop_last();
    law_runs_follow_the_program(run, fewer);
    let before = after(run, fewer)->0;
    let position = run.pending.len() - before.pending.len();
    if position > index {
        let at = law_no_step_is_bypassed(run, fewer, index);
        assert(fewer.take(at) =~= replies.take(at));
        at
    } else {
        lemma_stays_a_suffix(run.pending, before, position, replies.last());
        if position < index {
            assert(leaves_out_at_most(run.pending[position], index - position - 1));
        }
        assert(before.pending[0] == run.pending[index]);
        assert(replies.take(replies.len() - 1) =~= fewer);
        replies.len() - 1
    }
}

/// Whether failure of a step is the end of its run.
pub open spec fn fails_for_good(step: StepView) -> bool {
    !(step.error is Ignore) && !(step.error is Report) && step.exists is None
}

/// Taking replies in two goes is taking them in one.
pub proof fn law_replies_add_up(run: RunView, first: Seq<ReplyView>, rest: Seq<ReplyView>)
    requires
        after(run, first) is Some,
    ensures
        after(run, first + rest) == after(after(run, first)->0, rest),
    decreases rest.len(),
{
    if rest.len() == 0 {
        assert(first + rest =~= first);
    } else {
        assert((first + rest).drop_last() =~= first + rest.drop_last());
        law_replies_add_up(run, first, rest.drop_last());
    }
}

/// No run takes more replies than its bound: it is finished, or has failed.
pub proof fn law_every_run_finishes(run: RunView, replies: Seq<ReplyView>)
    requires
        after(run, replies) is Some,
        after(run, replies)->0.pending.len() > 0,
    ensures
        replies.len() + length_bound(after(run, replies)->0.pending) <= length_bound(run.pending),
    decreases replies.len(),
{
    if replies.len() > 0 {
        let before = after(run, replies.drop_last())->0;
        law_every_run_finishes(run, replies.drop_last());
        law_runs_come_to_an_end(before, replies.last());
    }
}

/// Whether no step of the program can leave out steps that follow the program.
pub open spec fn is_closed(program: Seq<StepView>) -> bool {
    forall|i: int|
        0 <= i < program.len() ==> leaves_out_at_most(#[trigger] program[i], program.len() - i - 1)
}

/// Whether the step at `index` asks for the action, and no run comes behind it but by
/// that action's success.
pub open spec fn is_firm(program: Seq<StepView>, index: int, action: ActionView) -> bool {
    &&& 0 <= index < program.len()
    &&& is_unavoidable(program, index)
    &&& program[index].action == action
    &&& fails_for_good(program[index])
}

/// Closed programs in a row are closed.
pub proof fn lemma_closed_in_a_row(a: Seq<StepView>, b: Seq<StepView>)
    requires
        is_closed(a),
        is_closed(b),
    ensures
        is_closed(a + b),
{
    let all = a + b;
    assert forall|i: int| 0 <= i < all.len() implies leaves_out_at_most(
        #[trigger] all[i],
        all.len() - i - 1,
    ) by {
        if i < a.len() {
            assert(leaves_out_at_most(a[i], a.len() - i - 1));
        } else {
            assert(leaves_out_at_most(b[i - a.len()], b.len() - (i - a.len()) - 1));
        }
    }
}

/// What is firm in a program is firm where a closed program comes before it, and
/// whatever comes behind it.
pub proof fn lemma_firm_within(
    before: Seq<StepView>,
    program: Seq<StepView>,
    behind: Seq<StepView>,
    index: int,
    action: ActionView,
)
    requires
        is_closed(before),
        is_firm(program, index, action),
    ensures
        is_firm(before + program + behind, before.len() + index, action),
{
    let all = before + program + behind;
    assert forall|i: int| 0 <= i < before.len() + index implies leaves_out_at_most(
        #[trigger] all[i],
        before.len() + index - i - 1,
    ) by {
        if i < before.len() {
            assert(all[i] == before[i]);
            assert(leaves_out_at_most(before[i], before.len() - i - 1));
        } else {
            assert(all[i] == program[i - before.len()]);
            assert(leaves_out_at_most(program[i - before.len()], index - (i - before.len()) - 1));
        }
    }
}

/// An explanation around a program changes nothing of the way through it.
pub proof fn lemma_context_keeps(program: Seq<StepView>, context: Seq<char>)
    ensures
        is_closed(program) ==> is_closed(in_context(program, context)),
        is_given(program) ==> is_given(in_context(program, context)),
        forall|i: int, action: ActionView|
            is_firm(program, i, action) ==> #[trigger] is_firm(
                in_context(program, context),
                i,
                action,
            ),
{
    let whole = in_context(program, context);
    assert forall|i: int, count: int|
        0 <= i < program.len() && #[trigger] leaves_out_at_most(
            program[i],
            count,
        ) implies leaves_out_at_most(whole[i], count) by {}
    if is_closed(program) {
        assert forall|i: int| 0 <= i < whole.len() implies leaves_out_at_most(
            #[trigger] whole[i],
            whole.len() - i - 1,
        ) by {
            assert(leaves_out_at_most(program[i], program.len() - i - 1));
        }
    }
    assert forall|i: int, action: ActionView| is_firm(program, i, action) implies #[trigger] is_firm(
        whole,
        i,
        action,
    ) by {
        assert forall|k: int| 0 <= k < i implies leaves_out_at_most(#[trigger] whole[k], i - k - 1) by {
            assert(leaves_out_at_most(program[k], i - k - 1));
        }
    }
}

/// Whether a reply is a negative answer.
pub open spec fn is_negative(reply: ReplyView) -> bool {
    match reply {
        ReplyOf::Present(false) | ReplyOf::Link(None) => true,
        ReplyOf::Content(text) => trimmed(text) != "1"@,
        _ => false,
    }
}

/// Whether a run that has taken the replies got a negative answer to the action.
pub open spec fn was_denied(run: RunView, replies: Seq<ReplyView>, action: ActionView) -> bool {
    exists|at: int| was_denied_at(run, replies, action, at)
}

/// Whether the reply at `at` gave the run a negative answer to the action.
pub open spec fn was_denied_at(
    run: RunView,
    replies: Seq<ReplyView>,
    action: ActionView,
    at: int,
) -> bool {
    &&& 0 <= at < replies.len()
    &&& after(run, replies.take(at)) is Some
    &&& after(run, replies.take(at))->0.pending.len() > 0
    &&& after(run, replies.take(at))->0.pending[0].action == action
    &&& is_negative(replies[at])
}

/// A run that stood at `position` when it got the reply at `at`, and went on to `next`,
/// has had a firm action behind `next` done, once it is behind that.
proof fn lemma_done_from_there(
    run: RunView,
    replies: Seq<ReplyView>,
    at: int,
    next: int,
    index: int,
)
    requires
        is_given(run.pending),
        0 <= next <= index < run.pending.len(),
        0 <= at < replies.len(),
        after(run, replies.take(at)) is Some,
        resumed(after(run, replies.take(at))->0, replies[at]).status is Going,
        resumed(after(run, replies.take(at))->0, replies[at]).run.pending == run.pending.skip(next),
        is_firm(run.pending.skip(next), index - next, run.pending[index].action),
        after(run, replies) is Some,
        after(run, replies)->0.pending.len() < run.pending.len() - index,
    ensures
        was_done(run, replies, run.pending[index].action),
{
    let there = resumed(after(run, replies.take(at))->0, replies[at]).run;
    let first = replies.take(at + 1);
    let rest = replies.skip(at + 1);
    assert(first.drop_last() =~= replies.take(at));
    assert(after(run, first) == Some(there));
    assert(replies =~= first + rest);
    law_replies_add_up(run, first, rest);
    let done = law_no_step_is_bypassed(there, rest, index - next);
    law_replies_add_up(run, first, rest.take(done));
    assert(replies.take(at + 1 + done) =~= first + rest.take(done));
    assert(was_done_at(run, replies, run.pending[index].action, at + 1 + done));
}

/// A run that has come behind a step has had that action done, or has got a negative
/// answer to a question before it, where nothing but that answer can leave the step
/// out.
pub proof fn law_only_a_denial_leaves_out(
    run: RunView,
    replies: Seq<ReplyView>,
    question: int,
    index: int,
)
    requires
        is_given(run.pending),
        0 <= question < index < run.pending.len(),
        is_unavoidable(run.pending, question),
        run.pending[question].yes == 0,
        run.pending[question].exists is None,
        run.pending[question].error is Ignore,
        is_firm(run.pending.skip(question + 1), index - question - 1, run.pending[index].action),
        after(run, replies) is Some,
        after(run, replies)->0.pending.len() < run.pending.len() - index,
    ensures
        was_done(run, replies, run.pending[index].action) || was_denied(
            run,
            replies,
            run.pending[question].action,
        ),
{
    let asked = law_no_step_is_bypassed(run, replies, question);
    let before = after(run, replies.take(asked))->0;
    assert(before.pending[0] == run.pending[question]);
    if is_negative(replies[asked]) {
        assert(was_denied_at(run, replies, run.pending[question].action, asked));
    } else {
        let next = resumed(before, replies[asked]).run;
        assert(next.pending =~= run.pending.skip(question + 1));
        lemma_done_from_there(run, replies, asked, question + 1, index);
    }
}

/// Whether a run that has taken the replies got a positive answer to the action.
pub open spec fn was_affirmed(run: RunView, replies: Seq<ReplyView>, action: ActionView) -> bool {
    exists|at: int|
        #[trigger] was_done_at(run, replies, action, at) && !is_negative(replies[at])
}

/// A run that has come behind a step has had that action done, or has got a positive
/// answer to a question before it, where nothing but that answer can leave the step
/// out.
pub proof fn law_only_an_affirmation_leaves_out(
    run: RunView,
    replies: Seq<ReplyView>,
    question: int,
    index: int,
)
    requires
        is_given(run.pending),
        0 <= question < index < run.pending.len(),
        is_unavoidable(run.pending, question),
        fails_for_good(run.pending[question]),
        run.pending[question].no matches OtherwiseOf::Skip(skip) && {
            let next = question + 1 + skip;
            next <= index && is_firm(
                run.pending.skip(next),
                index - next,
                run.pending[index].action,
            )
        },
        after(run, replies) is Some,
        after(run, replies)->0.pending.len() < run.pending.len() - index,
    ensures
        was_done(run, replies, run.pending[index].action) || was_affirmed(
            run,
            replies,
            run.pending[question].action,
        ),
{
    let asked = law_no_step_is_bypassed(run, replies, question);
    let before = after(run, replies.take(asked))->0;
    assert(before.pending[0] == run.pending[question]);
    if is_negative(replies[asked]) {
        let next = resumed(before, replies[asked]).run;
        let to = question + 1 + run.pending[question].no->Skip_0;
        assert(next.pending =~= run.pending.skip(to));
        lemma_done_from_there(run, replies, asked, to, index);
    } else {
        assert(was_done_at(run, replies, run.pending[question].action, asked));
    }
}

/// When the roots are about to be swapped, the directory for the old root has just been
/// made, and what was there before has been removed, if there was anything.
pub proof fn law_old_root_is_made_afresh(
    run: RunView,
    replies: Seq<ReplyView>,
    cwd: Seq<char>,
    path: Seq<char>,
    rest: Seq<StepView>,
)
    requires
        run.pending == old_root_program(cwd, path) + rest,
        is_given(rest),
        after(run, replies) is Some,
        after(run, replies)->0.pending.len() <= rest.len(),
    ensures
        was_done(run, replies, ActionOf::CreateTree(path)),
        was_done(run, replies, ActionOf::RemoveTree(path)) || was_denied(
            run,
            replies,
            ActionOf::Exists(path),
        ),
{
    let program = run.pending;
    assert forall|i: int| 0 <= i < program.len() implies !((#[trigger] program[i]).action is CurrentDir) by {
        if i >= 6 {
            assert(program[i] == rest[i - 6]);
        }
    }
    let made = law_no_step_is_bypassed(run, replies, 5);
    law_only_a_denial_leaves_out(run, replies, 2, 4);
}

/// When a step of a tolerated program fails, its reason is told, the rest of that
/// program is left out, and what follows it goes on.
pub proof fn law_tolerated_failure_is_told(
    program: Seq<StepView>,
    line: Seq<char>,
    rest: Seq<StepView>,
    index: int,
    link: Option<u32>,
    code: Option<i32>,
    why: Seq<char>,
)
    requires
        program.len() <= usize::MAX,
        0 <= index < program.len(),
        program[index].error is Fail,
        program[index].exists is None,
    ensures
        ({
            let run = RunView { pending: tolerated(program, line).skip(index) + rest, link };
            let turn = resumed(run, ReplyOf::Failed { code, why });
            &&& turn.run == (RunView { pending: rest, link })
            &&& turn.said == seq![line + ": "@ + why]
            &&& turn.status is Going
        }),
{
    let run = RunView { pending: tolerated(program, line).skip(index) + rest, link };
    let turn = resumed(run, ReplyOf::Failed { code, why });
    assert(run.pending[0] == tolerated(program, line)[index]);
    assert(turn.run.pending =~= rest);
    assert(turn.said =~= seq![line + ": "@ + why]);
}

/// A run goes on behind its current step when that has succeeded, and leaves out as many
/// further steps as the step says; a negative answer leaves out as many as the step says
/// for that. Nothing is said, and what is behind stays as it is.
pub proof fn law_answers_lead_on(run: RunView, reply: ReplyView, skip: usize)
    requires
        run.pending.len() > 0,
        !(run.pending[0].action is CurrentDir),
        !(reply is Failed),
        is_negative(reply) ==> run.pending[0].no == OtherwiseView::Skip(skip),
    ensures
        ({
            let turn = resumed(run, reply);
            let gone = 1 + if is_negative(reply) {
                skip
            } else {
                run.pending[0].yes
            };
            &&& turn.status is Going
            &&& turn.said.len() == 0
            &&& gone < run.pending.len() ==> turn.run.pending == run.pending.skip(gone as int)
            &&& gone >= run.pending.len() ==> turn.run.pending.len() == 0
            &&& turn.run.link == match reply {
                ReplyOf::Link(Some(index)) => Some(index),
                _ => run.link,
            }
        }),
{
}

/// The answers are what they say: nothing there and no link are negative; a file that is to
/// be a switch is on just if it holds the digit 1, white space around it aside.
pub proof fn law_what_is_negative(reply: ReplyView, a: Seq<char>, b: Seq<char>)
    requires
        is_blank(a),
        is_blank(b),
    ensures
        is_negative(ReplyOf::Present(false)),
        !is_negative(ReplyOf::Present(true)),
        is_negative(ReplyOf::Link(None)),
        !is_negative(ReplyOf::Content(a + seq!['1'] + b)),
        reply is Done ==> !is_negative(reply),
        reply is Parent || reply is Child || reply is Directory || reply is Failed ==> !is_negative(
            reply,
        ),
        reply matches ReplyOf::Link(Some(_)) ==> !is_negative(reply),
{
    reveal_strlit("1");
    law_trimming_drops_outer_white_space(a, seq!['1'], b);
    assert(seq!['1'] =~= "1"@);
}

/// A file that holds anything but the digit 1, white space around it aside, is a switch
/// that is not on.
pub proof fn law_a_switch_that_is_not_on(a: Seq<char>, core: Seq<char>, b: Seq<char>)
    requires
        is_blank(a),
        is_blank(b),
        core.len() > 0 ==> !is_white_space(core[0]) && !is_white_space(core.last()),
        core.len() == 0 ==> b.len() == 0,
        core != seq!['1'],
    ensures
        is_negative(ReplyOf::Content(a + core + b)),
{
    reveal_strlit("1");
    law_trimming_drops_outer_white_space(a, core, b);
    assert(seq!['1'] =~= "1"@);
}

/// What a failure leads to, for each thing that a step can say of it. The lines that are
/// told have the reason behind them, one by one; a failure ends the run, and the contexts
/// are handed on.
pub proof fn law_failures_are_handled(run: RunView, code: Option<i32>, why: Seq<char>)
    requires
        run.pending.len() > 0,
        code != Some(-17i32) || run.pending[0].exists is None,
    ensures
        ({
            let turn = resumed(run, ReplyOf::Failed { code, why });
            match run.pending[0].error {
                OnErrorOf::Ignore => {
                    &&& turn.status is Going
                    &&& turn.said.len() == 0
                    &&& turn.run.pending == run.pending.skip(1)
                },
                OnErrorOf::Report { lines, skip } => {
                    &&& turn.status is Going
                    &&& turn.said.len() == lines.len()
                    &&& forall|i: int|
                        0 <= i < lines.len() ==> #[trigger] turn.said[i] == lines[i] + ": "@ + why
                    &&& skip + 1 < run.pending.len() ==> turn.run.pending == run.pending.skip(
                        skip + 1,
                    )
                    &&& skip + 1 >= run.pending.len() ==> turn.run.pending.len() == 0
                },
                OnErrorOf::Fail { contexts, reports, notes } => {
                    &&& turn.status == StatusView::Failed(contexts)
                    &&& turn.said.len() == reports.len() + notes.len()
                    &&& forall|i: int|
                        0 <= i < reports.len() ==> #[trigger] turn.said[i] == reports[i] + ": "@
                            + why
                    &&& forall|i: int|
                        0 <= i < notes.len() ==> #[trigger] notes[i] == turn.said[reports.len()
                            + i]
                    &&& turn.run.pending.len() == 0
                },
                OnErrorOf::Expect(message) => {
                    &&& turn.status == StatusView::Panicked { message: Some(message), why }
                    &&& turn.said.len() == 0
                    &&& turn.run.pending.len() == 0
                },
                OnErrorOf::Unwrap => {
                    &&& turn.status == StatusView::Panicked { message: None, why }
                    &&& turn.said.len() == 0
                    &&& turn.run.pending.len() == 0
                },
            }
        }),
{
    let turn = resumed(run, ReplyOf::Failed { code, why });
    if run.pending[0].error is Ignore {
        assert(turn.run.pending =~= run.pending.skip(1));
    }
}

/// Where it is fine that something exists already, the run goes on; a negative answer that
/// is a failure ends it.
pub proof fn law_what_else_a_reply_leads_to(run: RunView, why: Seq<char>, reply: ReplyView)
    requires
        run.pending.len() > 0,
    ensures
        run.pending[0].exists matches Some(skip) ==> {
            let turn = resumed(run, ReplyOf::Failed { code: Some(-17i32), why });
            &&& turn.status is Going
            &&& turn.said.len() == 0
            &&& skip + 1 < run.pending.len() ==> turn.run.pending == run.pending.skip(skip + 1)
            &&& skip + 1 >= run.pending.len() ==> turn.run.pending.len() == 0
        },
        is_negative(reply) ==> (run.pending[0].no matches OtherwiseOf::Fail { contexts, notes } ==> {
            let turn = resumed(run, reply);
            &&& turn.status == StatusView::Failed(contexts)
            &&& turn.said == notes
            &&& turn.run.pending.len() == 0
        }),
{
}

/// The current directory brings in the steps for the old root, at its place, before those
/// that follow.
pub proof fn law_the_old_root_comes_first(run: RunView, cwd: Seq<char>)
    requires
        run.pending.len() > 0,
        run.pending[0].action is CurrentDir,
    ensures
        ({
            let turn = resumed(run, ReplyOf::Directory(cwd));
            let path = match run.pending[0].action->CurrentDir_0 {
                OldRootOf::Inside(name) => joined(cwd, name),
                OldRootOf::At(path) => path,
            };
            &&& turn.status is Going
            &&& turn.said.len() == 0
            &&& turn.run.link == run.link
            &&& turn.run.pending == old_root_program(cwd, path) + run.pending.skip(1)
        }),
{
}

/// What the preparation of the old root asks for.
pub proof fn law_old_root_actions(cwd: Seq<char>, path: Seq<char>)
    ensures
        ({
            let program = old_root_program(cwd, path);
            &&& program.len() == 6
            &&& program[0].action == ActionView::Print("cwd = "@ + cwd)
            &&& program[1].action == ActionView::Print("old_root = "@ + path)
            &&& program[2].action == ActionView::Exists(path)
            &&& program[2].no == OtherwiseView::Skip(2)
            &&& program[4].action == ActionView::RemoveTree(path)
            &&& program[5].action == ActionView::CreateTree(path)
        }),
{
}

/// An explanation around a program shows in its failures, and in nothing else: the program
/// with it and the program without it run alike, and where the one fails, the other fails
/// with one more context, the outermost.
pub proof fn law_contexts_show_in_failures(
    program: Seq<StepView>,
    context: Seq<char>,
    link: Option<u32>,
    reply: ReplyView,
)
    requires
        is_given(program),
    ensures
        ({
            let bare = resumed(RunView { pending: program, link }, reply);
            let turn = resumed(RunView { pending: in_context(program, context), link }, reply);
            &&& turn.said == bare.said
            &&& turn.run.link == bare.run.link
            &&& turn.run.pending == in_context(bare.run.pending, context)
            &&& turn.status == match bare.status {
                StatusOf::Failed(contexts) => StatusView::Failed(contexts.push(context)),
                other => other,
            }
        }),
{
    let bare = resumed(RunView { pending: program, link }, reply);
    let turn = resumed(RunView { pending: in_context(program, context), link }, reply);
    assert(turn.run.pending =~= in_context(bare.run.pending, context));
    assert(turn.said =~= bare.said);
}

/// A note on a program shows in its failures, and in nothing else: it is said last.
pub proof fn law_notes_show_in_failures(
    program: Seq<StepView>,
    note: Seq<char>,
    link: Option<u32>,
    reply: ReplyView,
)
    requires
        is_given(program),
    ensures
        ({
            let bare = resumed(RunView { pending: program, link }, reply);
            let turn = resumed(RunView { pending: with_note(program, note), link }, reply);
            &&& turn.run.link == bare.run.link
            &&& turn.run.pending == with_note(bare.run.pending, note)
            &&& turn.status == bare.status
            &&& turn.said == if bare.status is Failed {
                bare.said.push(note)
            } else {
                bare.said
            }
        }),
{
    let bare = resumed(RunView { pending: program, link }, reply);
    let turn = resumed(RunView { pending: with_note(program, note), link }, reply);
    assert(turn.run.pending =~= with_note(bare.run.pending, note));
    if bare.status is Failed {
        assert(turn.said =~= bare.said.push(note));
    } else {
        assert(turn.said =~= bare.said);
    }
}

/// A run starts with the whole program before it, and no link found; the replies are taken
/// one after the other, as long as none of them makes it fail or panic.
pub proof fn law_replies_are_taken_one_by_one(
    program: Seq<StepView>,
    run: RunView,
    replies: Seq<ReplyView>,
    reply: ReplyView,
)
    ensures
        started(program) == (RunView { pending: program, link: None }),
        after(run, Seq::empty()) == Some(run),
        after(run, replies.push(reply)) == match after(run, replies) {
            Some(before) => if resumed(before, reply).status is Going {
                Some(resumed(before, reply).run)
            } else {
                None
            },
            None => None,
        },
{
    assert(replies.push(reply).drop_last() =~= replies);
}

/// What it means that an action was done, or was answered: once, when the run stood at it, a
/// reply said so.
pub proof fn law_what_a_run_was_told(run: RunView, replies: Seq<ReplyView>, action: ActionView)
    ensures
        was_done(run, replies, action) <==> exists|at: int|
            0 <= at < replies.len() && stood_at(run, #[trigger] replies.take(at), action) && !(
            replies[at] is Failed),
        was_denied(run, replies, action) <==> exists|at: int|
            0 <= at < replies.len() && stood_at(run, #[trigger] replies.take(at), action)
                && is_negative(replies[at]),
        was_affirmed(run, replies, action) <==> exists|at: int|
            0 <= at < replies.len() && stood_at(run, #[trigger] replies.take(at), action) && !(
            replies[at] is Failed) && !is_negative(replies[at]),
{
    if was_done(run, replies, action) {
        let at = choose|at: int| was_done_at(run, replies, action, at);
        assert(stood_at(run, replies.take(at), action));
    }
    if was_denied(run, replies, action) {
        let at = choose|at: int| was_denied_at(run, replies, action, at);
        assert(stood_at(run, replies.take(at), action));
    }
    if was_affirmed(run, replies, action) {
        let at = choose|at: int|
            #[trigger] was_done_at(run, replies, action, at) && !is_negative(replies[at]);
        assert(stood_at(run, replies.take(at), action));
    }
    assert forall|at: int|
        0 <= at < replies.len() && stood_at(run, #[trigger] replies.take(at), action) implies {
        &&& !(replies[at] is Failed) ==> was_done_at(run, replies, action, at)
        &&& is_negative(replies[at]) ==> was_denied_at(run, replies, action, at)
    } by {}
}

/// Whether a run that has taken the replies asks for the action.
pub open spec fn stood_at(run: RunView, replies: Seq<ReplyView>, action: ActionView) -> bool {
    &&& after(run, replies) is Some
    &&& after(run, replies)->0.pending.len() > 0
    &&& after(run, replies)->0.pending[0].action == action
}

} // verus!
