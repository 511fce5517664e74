//! Programs of system requests.
//!
//! A `Program` lists what the runtime asks of the system, step by step, and says
//! of each step what its failure means.
//!
//! The types that carry text are generic in it: with `String` they are what
//! programs are made of, with `Seq<char>` what contracts speak of.
use vstd::prelude::*;
use vstd::string::*;

use crate::text::{
    key_value, law_no_variable_without_an_equals_sign, law_variables_are_read_back, split_once,
    texts,
};

verus! {

broadcast use vstd::string::to_string_from_display_ensures_for_str;

/// How a file system is mounted.
#[derive(Clone, Copy, PartialEq, Eq, Structural, Debug)]
pub enum MountMode {
    /// With no flags.
    Plain,
    /// The tree's propagation becomes private (`MS_REC | MS_PRIVATE`).
    Private,
    /// The tree is bound to another place (`MS_BIND | MS_REC`).
    Bind,
    /// The mount is made read-only (`MS_REMOUNT | MS_BIND | MS_RDONLY`).
    ReadOnly,
}

/// An address with the length of its network prefix. The address is held as the
/// number that its bytes form, the first byte being the highest.
#[allow(inconsistent_fields)]
#[derive(Clone, Copy, PartialEq, Eq, Structural, Debug)]
pub enum InterfaceAddress {
    V4 { address: u32, prefix: u8 },
    V6 { address: u128, prefix: u8 },
}

/// A command to start.
#[derive(Debug, PartialEq, Eq)]
pub struct Command {
    pub program: String,
    pub args: Vec<String>,
    pub env: Vec<(String, String)>,
    /// The directory to start it in; `None` for the current one.
    pub cwd: Option<String>,
}

/// A command, by the characters of its texts.
#[verifier::ext_equal]
pub struct CommandView {
    pub program: Seq<char>,
    pub args: Seq<Seq<char>>,
    pub env: Seq<(Seq<char>, Seq<char>)>,
    pub cwd: Option<Seq<char>>,
}

/// The characters of each pair of a list.
pub open spec fn pairs(list: Seq<(String, String)>) -> Seq<(Seq<char>, Seq<char>)> {
    Seq::new(list.len(), |i: int| (list[i].0@, list[i].1@))
}

/// The characters of an optional text.
pub open spec fn maybe(text: Option<String>) -> Option<Seq<char>> {
    match text {
        Some(text) => Some(text@),
        None => None,
    }
}

impl View for Command {
    type V = CommandView;

    open spec fn view(&self) -> CommandView {
        CommandView {
            program: self.program@,
            args: texts(self.args@),
            env: pairs(self.env@),
            cwd: maybe(self.cwd),
        }
    }
}

/// The environment variables that a list of `KEY=VALUE` texts sets, in order. A text
/// without an equals sign sets none.
pub open spec fn environment(vars: Seq<Seq<char>>) -> Seq<(Seq<char>, Seq<char>)>
    decreases vars.len(),
{
    if vars.len() == 0 {
        Seq::empty()
    } else {
        let before = environment(vars.drop_last());
        match key_value(vars.last()) {
            Some(pair) => before.push(pair),
            None => before,
        }
    }
}

/// The environment variables that a list of `KEY=VALUE` texts sets, in order.
pub fn split_vars(vars: &Vec<String>) -> (out: Vec<(String, String)>)
    ensures
        pairs(out@) == environment(texts(vars@)),
{
    let mut out: Vec<(String, String)> = Vec::new();
    let mut i: usize = 0;
    let ghost all = texts(vars@);
    assert(pairs(out@) =~= environment(all.take(0)));
    while i < vars.len()
        invariant
            i <= vars.len(),
            all == texts(vars@),
            pairs(out@) == environment(all.take(i as int)),
        decreases vars.len() - i,
    {
        let ghost had = out@;
        assert(all.take(i as int + 1).drop_last() =~= all.take(i as int));
        if let Some(pair) = split_once(vars[i].as_str()) {
            out.push(pair);
            assert(pairs(out@) =~= pairs(had).push((pair.0@, pair.1@)));
        }
        i = i + 1;
    }
    assert(all.take(i as int) =~= all);
    out
}

/// The variables of two lists in a row are those of the one and then those of the other.
pub proof fn law_environments_add_up(a: Seq<Seq<char>>, b: Seq<Seq<char>>)
    ensures
        environment(a + b) == environment(a) + environment(b),
    decreases b.len(),
{
    if b.len() == 0 {
        assert(a + b =~= a);
        assert(environment(a) + environment(b) =~= environment(a));
    } else {
        assert((a + b).drop_last() =~= a + b.drop_last());
        law_environments_add_up(a, b.drop_last());
        assert(environment(a + b) =~= environment(a) + environment(b));
    }
}

/// Where the directory for the old root is made.
#[derive(Debug, PartialEq, Eq)]
pub enum OldRootOf<S> {
    /// In the current directory.
    Inside(S),
    /// At a given path.
    At(S),
}

/// A request to the system.
#[derive(Debug, PartialEq, Eq)]
pub enum ActionOf<S, C> {
    /// Write a line to the standard output.
    Print(S),
    /// Write a line to the standard error.
    Warn(S),
    /// Make the pipe on which the child waits for the host side.
    OpenPipe,
    /// Make the pipe on which the host side waits for the child.
    OpenReadyPipe,
    /// Tell the host side that the child is ready: write one byte to its pipe.
    SignalReady,
    /// Ask whether the child is ready: read one byte from its pipe. There is none if the
    /// child has ended.
    AwaitReady,
    /// Let the child go on: write one byte to the pipe.
    WakeChild,
    /// Wait for the host side: read one byte from the pipe.
    AwaitWake,
    Fork,
    /// Wait for the forked process to end.
    WaitChild,
    /// Leave the namespaces that the flags name.
    Unshare(i32),
    Mount { source: Option<S>, target: S, kind: Option<S>, mode: MountMode },
    Unmount(S),
    /// Unmount lazily (`MNT_DETACH`).
    Detach(S),
    ChangeDir(S),
    /// Ask for the current directory, in which to place the old root.
    CurrentDir(OldRootOf<S>),
    /// Ask whether there is something at the path.
    Exists(S),
    /// Remove a directory with all that it holds.
    RemoveTree(S),
    /// Make a directory, and those above it that are missing.
    CreateTree(S),
    /// Remove an empty directory.
    RemoveDir(S),
    PivotRoot { new_root: S, put_old: S },
    ChangeRoot(S),
    SetHostname(S),
    ReadFile(S),
    WriteFile { path: S, contents: S },
    /// Sleep for so many milliseconds.
    Sleep(u64),
    /// Start a command on the standard streams.
    Spawn(C),
    /// Wait for the started command to end.
    WaitCommand,
    /// Let a command take the place of the process, on the standard streams.
    Exec(C),
    /// End the process, running what is registered for its end.
    Exit(i32),
    /// End the process at once.
    ExitNow(i32),
    /// Start the executor that network requests run on.
    StartRuntime,
    StopRuntime,
    /// Open the connection to the kernel's network configuration.
    OpenNetlink,
    AddBridge(S),
    AddVeth { host: S, peer: S },
    /// Ask for the index of the link with a name.
    FindLink(S),
    /// Delete the link that was found last.
    DeleteLink,
    /// Put the named link under the link that was found last, and raise it.
    AttachLink(S),
    /// Move the named link to the network namespace of a process, and raise it.
    MoveLink { name: S, pid: u32 },
    RaiseLink(S),
    /// Give the link that was found last an address.
    AddAddress(InterfaceAddress),
    /// Route a network through a gateway on the link that was found last.
    AddRoute { destination: InterfaceAddress, gateway: u32 },
    /// Apply a firewall ruleset, given as the text that `nft` reads.
    ApplyRuleset(S),
}

/// What a step's failure means.
#[derive(Debug, PartialEq, Eq)]
pub enum OnErrorOf<S, L> {
    /// Nothing: the run goes on.
    Ignore,
    /// Each line is said with the reason behind it, so many further steps are
    /// left out, and the run goes on.
    Report { lines: L, skip: usize },
    /// The run fails. The reports are said with the reason behind each, then the
    /// notes as they are. The contexts explain the failure, the innermost first.
    Fail { contexts: L, reports: L, notes: L },
    /// The process panics with the message.
    Expect(S),
    /// The process panics.
    Unwrap,
}

/// What a negative answer means.
#[derive(Debug, PartialEq, Eq)]
pub enum OtherwiseOf<L> {
    /// So many further steps are left out.
    Skip(usize),
    /// The run fails, as above.
    Fail { contexts: L, notes: L },
}

/// One step of a program.
#[derive(Debug, PartialEq, Eq)]
pub struct StepOf<S, L, C> {
    pub action: ActionOf<S, C>,
    /// How many further steps are left out after success or a positive answer.
    pub yes: usize,
    pub no: OtherwiseOf<L>,
    /// Where it is fine that a link exists already: how many further steps are
    /// left out then.
    pub exists: Option<usize>,
    pub error: OnErrorOf<S, L>,
}

/// What the system replies to an action.
#[derive(Debug, PartialEq, Eq)]
pub enum ReplyOf<S> {
    Done,
    /// The action failed, with the kernel's error code where it gave one.
    Failed { code: Option<i32>, why: S },
    /// Whether there is something at the path.
    Present(bool),
    /// What the file holds.
    Content(S),
    /// The current directory.
    Directory(S),
    /// The index of the link, if there is one.
    Link(Option<u32>),
    /// The process was forked; this is the parent, and the child has the number.
    Parent(u32),
    /// The process was forked; this is the child.
    Child,
}

/// Where a run stands after a reply.
#[derive(Debug, PartialEq, Eq)]
pub enum StatusOf<S, L> {
    /// It goes on with its next step, or is finished if there is none.
    Going,
    /// It has failed; the contexts explain the failure, the innermost first.
    Failed(L),
    /// The process is to panic, with the message if there is one, and the reason.
    Panicked { message: Option<S>, why: S },
}

pub type OldRoot = OldRootOf<String>;

pub type Action = ActionOf<String, Command>;

pub type OnError = OnErrorOf<String, Vec<String>>;

pub type Otherwise = OtherwiseOf<Vec<String>>;

pub type Step = StepOf<String, Vec<String>, Command>;

pub type Reply = ReplyOf<String>;

pub type Status = StatusOf<String, Vec<String>>;

pub type OldRootView = OldRootOf<Seq<char>>;

pub type ActionView = ActionOf<Seq<char>, CommandView>;

pub type OnErrorView = OnErrorOf<Seq<char>, Seq<Seq<char>>>;

pub type OtherwiseView = OtherwiseOf<Seq<Seq<char>>>;

pub type StepView = StepOf<Seq<char>, Seq<Seq<char>>, CommandView>;

pub type ReplyView = ReplyOf<Seq<char>>;

pub type StatusView = StatusOf<Seq<char>, Seq<Seq<char>>>;

impl View for OldRootOf<String> {
    type V = OldRootView;

    open spec fn view(&self) -> OldRootView {
        match self {
            OldRootOf::Inside(name) => OldRootOf::Inside(name@),
            OldRootOf::At(path) => OldRootOf::At(path@),
        }
    }
}

impl View for ActionOf<String, Command> {
    type V = ActionView;

    open spec fn view(&self) -> ActionView {
        match self {
            ActionOf::Print(text) => ActionOf::Print(text@),
            ActionOf::Warn(text) => ActionOf::Warn(text@),
            ActionOf::OpenPipe => ActionOf::OpenPipe,
            ActionOf::OpenReadyPipe => ActionOf::OpenReadyPipe,
            ActionOf::SignalReady => ActionOf::SignalReady,
            ActionOf::AwaitReady => ActionOf::AwaitReady,
            ActionOf::WakeChild => ActionOf::WakeChild,
            ActionOf::AwaitWake => ActionOf::AwaitWake,
            ActionOf::Fork => ActionOf::Fork,
            ActionOf::WaitChild => ActionOf::WaitChild,
            ActionOf::Unshare(flags) => ActionOf::Unshare(*flags),
            ActionOf::Mount { source, target, kind, mode } => ActionOf::Mount {
                source: maybe(*source),
                target: target@,
                kind: maybe(*kind),
                mode: *mode,
            },
            ActionOf::Unmount(path) => ActionOf::Unmount(path@),
            ActionOf::Detach(path) => ActionOf::Detach(path@),
            ActionOf::ChangeDir(path) => ActionOf::ChangeDir(path@),
            ActionOf::CurrentDir(place) => ActionOf::CurrentDir(place@),
            ActionOf::Exists(path) => ActionOf::Exists(path@),
            ActionOf::RemoveTree(path) => ActionOf::RemoveTree(path@),
            ActionOf::CreateTree(path) => ActionOf::CreateTree(path@),
            ActionOf::RemoveDir(path) => ActionOf::RemoveDir(path@),
            ActionOf::PivotRoot { new_root, put_old } => ActionOf::PivotRoot {
                new_root: new_root@,
                put_old: put_old@,
            },
            ActionOf::ChangeRoot(path) => ActionOf::ChangeRoot(path@),
            ActionOf::SetHostname(name) => ActionOf::SetHostname(name@),
            ActionOf::ReadFile(path) => ActionOf::ReadFile(path@),
            ActionOf::WriteFile { path, contents } => ActionOf::WriteFile {
                path: path@,
                contents: contents@,
            },
            ActionOf::Sleep(millis) => ActionOf::Sleep(*millis),
            ActionOf::Spawn(command) => ActionOf::Spawn(command@),
            ActionOf::WaitCommand => ActionOf::WaitCommand,
            ActionOf::Exec(command) => ActionOf::Exec(command@),
            ActionOf::Exit(code) => ActionOf::Exit(*code),
            ActionOf::ExitNow(code) => ActionOf::ExitNow(*code),
            ActionOf::StartRuntime => ActionOf::StartRuntime,
            ActionOf::StopRuntime => ActionOf::StopRuntime,
            ActionOf::OpenNetlink => ActionOf::OpenNetlink,
            ActionOf::AddBridge(name) => ActionOf::AddBridge(name@),
            ActionOf::AddVeth { host, peer } => ActionOf::AddVeth { host: host@, peer: peer@ },
            ActionOf::FindLink(name) => ActionOf::FindLink(name@),
            ActionOf::DeleteLink => ActionOf::DeleteLink,
            ActionOf::AttachLink(name) => ActionOf::AttachLink(name@),
            ActionOf::MoveLink { name, pid } => ActionOf::MoveLink { name: name@, pid: *pid },
            ActionOf::RaiseLink(name) => ActionOf::RaiseLink(name@),
            ActionOf::AddAddress(address) => ActionOf::AddAddress(*address),
            ActionOf::AddRoute { destination, gateway } => ActionOf::AddRoute {
                destination: *destination,
                gateway: *gateway,
            },
            ActionOf::ApplyRuleset(ruleset) => ActionOf::ApplyRuleset(ruleset@),
        }
    }
}

impl View for OnErrorOf<String, Vec<String>> {
    type V = OnErrorView;

    open spec fn view(&self) -> OnErrorView {
        match self {
            OnErrorOf::Ignore => OnErrorOf::Ignore,
            OnErrorOf::Report { lines, skip } => OnErrorOf::Report {
                lines: texts(lines@),
                skip: *skip,
            },
            OnErrorOf::Fail { contexts, reports, notes } => OnErrorOf::Fail {
                contexts: texts(contexts@),
                reports: texts(reports@),
                notes: texts(notes@),
            },
            OnErrorOf::Expect(message) => OnErrorOf::Expect(message@),
            OnErrorOf::Unwrap => OnErrorOf::Unwrap,
        }
    }
}

impl View for OtherwiseOf<Vec<String>> {
    type V = OtherwiseView;

    open spec fn view(&self) -> OtherwiseView {
        match self {
            OtherwiseOf::Skip(count) => OtherwiseOf::Skip(*count),
            OtherwiseOf::Fail { contexts, notes } => OtherwiseOf::Fail {
                contexts: texts(contexts@),
                notes: texts(notes@),
            },
        }
    }
}

impl View for StepOf<String, Vec<String>, Command> {
    type V = StepView;

    open spec fn view(&self) -> StepView {
        StepOf {
            action: self.action@,
            yes: self.yes,
            no: self.no@,
            exists: self.exists,
            error: self.error@,
        }
    }
}

impl View for ReplyOf<String> {
    type V = ReplyView;

    open spec fn view(&self) -> ReplyView {
        match self {
            ReplyOf::Done => ReplyOf::Done,
            ReplyOf::Failed { code, why } => ReplyOf::Failed { code: *code, why: why@ },
            ReplyOf::Present(present) => ReplyOf::Present(*present),
            ReplyOf::Content(text) => ReplyOf::Content(text@),
            ReplyOf::Directory(path) => ReplyOf::Directory(path@),
            ReplyOf::Link(index) => ReplyOf::Link(*index),
            ReplyOf::Parent(pid) => ReplyOf::Parent(*pid),
            ReplyOf::Child => ReplyOf::Child,
        }
    }
}

impl View for StatusOf<String, Vec<String>> {
    type V = StatusView;

    open spec fn view(&self) -> StatusView {
        match self {
            StatusOf::Going => StatusOf::Going,
            StatusOf::Failed(contexts) => StatusOf::Failed(texts(contexts@)),
            StatusOf::Panicked { message, why } => StatusOf::Panicked {
                message: maybe(*message),
                why: why@,
            },
        }
    }
}

/// The steps of a program, in order.
#[derive(Debug, PartialEq, Eq)]
pub struct Program {
    pub steps: Vec<Step>,
}

impl View for Program {
    type V = Seq<StepView>;

    open spec fn view(&self) -> Seq<StepView> {
        Seq::new(self.steps@.len(), |i: int| self.steps@[i]@)
    }
}

/// A step without branches.
pub open spec fn plain(action: ActionView, error: OnErrorView) -> StepView {
    StepOf { action, yes: 0, no: OtherwiseOf::Skip(0), exists: None, error }
}

/// A step that prints a line.
pub open spec fn saying(text: Seq<char>) -> StepView {
    plain(ActionOf::Print(text), OnErrorOf::Ignore)
}

/// A failure of the run, without an explanation.
pub open spec fn raised() -> OnErrorView {
    OnErrorOf::Fail { contexts: Seq::empty(), reports: Seq::empty(), notes: Seq::empty() }
}

/// A failure of the run, with an explanation.
pub open spec fn failing(context: Seq<char>) -> OnErrorView {
    OnErrorOf::Fail { contexts: seq![context], reports: Seq::empty(), notes: Seq::empty() }
}

/// A failure that is told with its reason, after which the run goes on.
pub open spec fn reported(line: Seq<char>) -> OnErrorView {
    OnErrorOf::Report { lines: seq![line], skip: 0 }
}

/// A program that writes the lines to the standard error.
pub open spec fn warning(lines: Seq<Seq<char>>) -> Seq<StepView> {
    Seq::new(lines.len(), |i: int| plain(ActionOf::Warn(lines[i]), OnErrorOf::Ignore))
}

/// A list of one text.
pub fn one_text(text: &str) -> (out: Vec<String>)
    ensures
        texts(out@) == seq![text@],
{
    let mut out: Vec<String> = Vec::new();
    out.push(text.to_owned());
    assert(texts(out@) =~= seq![text@]);
    out
}

/// A list of no text.
pub fn no_texts() -> (out: Vec<String>)
    ensures
        texts(out@) == Seq::<Seq<char>>::empty(),
{
    let out: Vec<String> = Vec::new();
    assert(texts(out@) =~= Seq::<Seq<char>>::empty());
    out
}

/// A step without branches.
pub fn step(action: Action, error: OnError) -> (out: Step)
    ensures
        out@ == plain(action@, error@),
{
    StepOf { action, yes: 0, no: OtherwiseOf::Skip(0), exists: None, error }
}

/// A step that prints a line.
pub fn say(text: &str) -> (out: Step)
    ensures
        out@ == saying(text@),
{
    step(ActionOf::Print(text.to_owned()), OnErrorOf::Ignore)
}

/// Fail without an explanation.
pub fn or_raise() -> (out: OnError)
    ensures
        out@ == raised(),
{
    OnErrorOf::Fail { contexts: no_texts(), reports: no_texts(), notes: no_texts() }
}

/// Fail with an explanation.
pub fn or_fail(context: &str) -> (out: OnError)
    ensures
        out@ == failing(context@),
{
    OnErrorOf::Fail { contexts: one_text(context), reports: no_texts(), notes: no_texts() }
}

/// Tell the failure and go on.
pub fn or_report(line: &str) -> (out: OnError)
    ensures
        out@ == reported(line@),
{
    OnErrorOf::Report { lines: one_text(line), skip: 0 }
}

/// Panic with a message.
pub fn or_expect(message: &str) -> (out: OnError)
    ensures
        out@ == OnErrorOf::<Seq<char>, Seq<Seq<char>>>::Expect(message@),
{
    OnErrorOf::Expect(message.to_owned())
}

/// A failure with a further explanation around it.
pub open spec fn explained(error: OnErrorView, context: Seq<char>) -> OnErrorView {
    match error {
        OnErrorOf::Fail { contexts, reports, notes } => OnErrorOf::Fail {
            contexts: contexts.push(context),
            reports,
            notes,
        },
        other => other,
    }
}

/// A negative answer's failure with a further explanation around it.
pub open spec fn refusal_explained(no: OtherwiseView, context: Seq<char>) -> OtherwiseView {
    match no {
        OtherwiseOf::Fail { contexts, notes } => OtherwiseOf::Fail {
            contexts: contexts.push(context),
            notes,
        },
        other => other,
    }
}

/// A step, whose failure has a further explanation around it.
pub open spec fn step_in_context(step: StepView, context: Seq<char>) -> StepView {
    StepOf {
        error: explained(step.error, context),
        no: refusal_explained(step.no, context),
        ..step
    }
}

/// The program, each of whose failures has a further explanation around it.
pub open spec fn in_context(program: Seq<StepView>, context: Seq<char>) -> Seq<StepView> {
    Seq::new(program.len(), |i: int| step_in_context(program[i], context))
}

/// A failure that also says a line.
pub open spec fn annotated(error: OnErrorView, note: Seq<char>) -> OnErrorView {
    match error {
        OnErrorOf::Fail { contexts, reports, notes } => OnErrorOf::Fail {
            contexts,
            reports,
            notes: notes.push(note),
        },
        other => other,
    }
}

/// A negative answer's failure that also says a line.
pub open spec fn refusal_annotated(no: OtherwiseView, note: Seq<char>) -> OtherwiseView {
    match no {
        OtherwiseOf::Fail { contexts, notes } => OtherwiseOf::Fail {
            contexts,
            notes: notes.push(note),
        },
        other => other,
    }
}

/// A step, whose failure also says a line.
pub open spec fn step_with_note(step: StepView, note: Seq<char>) -> StepView {
    StepOf {
        error: annotated(step.error, note),
        no: refusal_annotated(step.no, note),
        ..step
    }
}

/// The program, each of whose failures also says a line.
pub open spec fn with_note(program: Seq<StepView>, note: Seq<char>) -> Seq<StepView> {
    Seq::new(program.len(), |i: int| step_with_note(program[i], note))
}

/// A failure that is told with its reason, after which so many further steps are left
/// out.
pub open spec fn told(error: OnErrorView, line: Seq<char>, skip: usize) -> OnErrorView {
    match error {
        OnErrorOf::Fail { .. } => OnErrorOf::Report { lines: seq![line], skip },
        other => other,
    }
}

/// The program, whose failure is told with its reason; the rest of the program is left
/// out, and what follows it goes on.
pub open spec fn tolerated(program: Seq<StepView>, line: Seq<char>) -> Seq<StepView> {
    Seq::new(
        program.len(),
        |i: int|
            StepOf {
                error: told(program[i].error, line, (program.len() - i - 1) as usize),
                ..program[i]
            },
    )
}

fn push_text(list: Vec<String>, text: &str) -> (out: Vec<String>)
    ensures
        texts(out@) == texts(list@).push(text@),
{
    let mut out: Vec<String> = list;
    out.push(text.to_owned());
    assert(texts(out@) =~= texts(list@).push(text@));
    out
}

fn explain_step(step: Step, context: &str) -> (out: Step)
    ensures
        out@ == step_in_context(step@, context@),
{
    let error: OnError = match step.error {
        OnErrorOf::Fail { contexts, reports, notes } => OnErrorOf::Fail {
            contexts: push_text(contexts, context),
            reports,
            notes,
        },
        other => other,
    };
    let no: Otherwise = match step.no {
        OtherwiseOf::Fail { contexts, notes } => OtherwiseOf::Fail {
            contexts: push_text(contexts, context),
            notes,
        },
        other => other,
    };
    StepOf { action: step.action, yes: step.yes, no, exists: step.exists, error }
}

fn annotate_step(step: Step, note: &str) -> (out: Step)
    ensures
        out@ == step_with_note(step@, note@),
{
    let error: OnError = match step.error {
        OnErrorOf::Fail { contexts, reports, notes } => OnErrorOf::Fail {
            contexts,
            reports,
            notes: push_text(notes, note),
        },
        other => other,
    };
    let no: Otherwise = match step.no {
        OtherwiseOf::Fail { contexts, notes } => OtherwiseOf::Fail {
            contexts,
            notes: push_text(notes, note),
        },
        other => other,
    };
    StepOf { action: step.action, yes: step.yes, no, exists: step.exists, error }
}

fn tell_step(step: Step, line: &str, skip: usize) -> (out: Step)
    ensures
        out@ == (StepOf { error: told(step@.error, line@, skip), ..step@ }),
{
    let error: OnError = match step.error {
        OnErrorOf::Fail { contexts: _, reports: _, notes: _ } => OnErrorOf::Report {
            lines: one_text(line),
            skip,
        },
        other => other,
    };
    StepOf { action: step.action, yes: step.yes, no: step.no, exists: step.exists, error }
}

impl Program {
    /// The program of no step.
    pub fn new() -> (out: Program)
        ensures
            out@ == Seq::<StepView>::empty(),
    {
        let out: Program = Program { steps: Vec::new() };
        assert(out@ =~= Seq::<StepView>::empty());
        out
    }

    /// The program that writes the lines to the standard error.
    pub fn warn(lines: &Vec<String>) -> (out: Program)
        ensures
            out@ == warning(texts(lines@)),
    {
        let mut out: Program = Program::new();
        let mut i: usize = 0;
        let ghost whole = warning(texts(lines@));
        while i < lines.len()
            invariant
                i <= lines.len(),
                whole == warning(texts(lines@)),
                out@ == whole.take(i as int),
            decreases lines.len() - i,
        {
            out = out.with(step(ActionOf::Warn(lines[i].clone()), OnErrorOf::Ignore));
            i = i + 1;
            assert(out@ =~= whole.take(i as int));
        }
        assert(whole.take(i as int) =~= whole);
        out
    }

    /// The program with one more step at its end.
    pub fn with(self, step: Step) -> (out: Program)
        ensures
            out@ == self@.push(step@),
    {
        let mut out: Program = self;
        out.steps.push(step);
        assert(out@ =~= self@.push(step@));
        out
    }

    /// The program, and then another.
    pub fn followed_by(self, other: Program) -> (out: Program)
        ensures
            out@ == self@ + other@,
    {
        let mut out: Program = self;
        let mut rest: Vec<Step> = other.steps;
        out.steps.append(&mut rest);
        assert(out@ =~= self@ + other@);
        out
    }

    /// The program, each of whose failures has a further explanation around it.
    pub fn context(self, context: &str) -> (out: Program)
        ensures
            out@ == in_context(self@, context@),
    {
        let mut rest: Vec<Step> = self.steps;
        let mut out: Program = Program::new();
        let ghost whole = in_context(self@, context@);
        while rest.len() > 0
            invariant
                whole.len() == self@.len(),
                whole == in_context(self@, context@),
                out@.len() + rest@.len() == whole.len(),
                out@ == whole.take(out@.len() as int),
                forall|i: int| 0 <= i < rest@.len() ==> #[trigger] rest@[i]@ == self@[out@.len() + i],
            decreases rest.len(),
        {
            let step: Step = explain_step(rest.remove(0), context);
            let ghost had = out@;
            out = out.with(step);
            assert(step@ == whole[had.len() as int]);
            assert(out@ =~= whole.take(had.len() as int + 1));
        }
        assert(whole.take(out@.len() as int) =~= whole);
        out
    }

    /// The program, each of whose failures also says a line.
    pub fn note(self, note: &str) -> (out: Program)
        ensures
            out@ == with_note(self@, note@),
    {
        let mut rest: Vec<Step> = self.steps;
        let mut out: Program = Program::new();
        let ghost whole = with_note(self@, note@);
        while rest.len() > 0
            invariant
                whole.len() == self@.len(),
                whole == with_note(self@, note@),
                out@.len() + rest@.len() == whole.len(),
                out@ == whole.take(out@.len() as int),
                forall|i: int| 0 <= i < rest@.len() ==> #[trigger] rest@[i]@ == self@[out@.len() + i],
            decreases rest.len(),
        {
            let step: Step = annotate_step(rest.remove(0), note);
            let ghost had = out@;
            out = out.with(step);
            assert(step@ == whole[had.len() as int]);
            assert(out@ =~= whole.take(had.len() as int + 1));
        }
        assert(whole.take(out@.len() as int) =~= whole);
        out
    }

    /// The program, whose failure is told with its reason and passed over.
    pub fn tolerate(self, line: &str) -> (out: Program)
        ensures
            out@ == tolerated(self@, line@),
    {
        let mut rest: Vec<Step> = self.steps;
        let mut out: Program = Program::new();
        let ghost whole = tolerated(self@, line@);
        while rest.len() > 0
            invariant
                whole.len() == self@.len(),
                whole == tolerated(self@, line@),
                out@.len() + rest@.len() == whole.len(),
                out@ == whole.take(out@.len() as int),
                forall|i: int| 0 <= i < rest@.len() ==> #[trigger] rest@[i]@ == self@[out@.len() + i],
            decreases rest.len(),
        {
            let first: Step = rest.remove(0);
            let step: Step = tell_step(first, line, rest.len());
            let ghost had = out@;
            out = out.with(step);
            assert(step@ == whole[had.len() as int]);
            assert(out@ =~= whole.take(had.len() as int + 1));
        }
        assert(whole.take(out@.len() as int) =~= whole);
        out
    }
}

/// A text sets the variable before its first equals sign to all that is behind it; a text
/// without one sets nothing. With `law_environments_add_up` this says what a list sets.
pub proof fn law_a_variable_is_set_to_its_whole_value(key: Seq<char>, value: Seq<char>)
    requires
        !key.contains('='),
    ensures
        environment(seq![key + seq!['='] + value]) == seq![(key, value)],
        environment(seq![key]) == Seq::<(Seq<char>, Seq<char>)>::empty(),
{
    let text = key + seq!['='] + value;
    let none = Seq::<(Seq<char>, Seq<char>)>::empty();
    law_variables_are_read_back(key, value);
    law_no_variable_without_an_equals_sign(key);
    assert(seq![text].drop_last() =~= Seq::empty());
    assert(seq![key].drop_last() =~= Seq::empty());
    assert(environment(Seq::empty()) =~= none);
    assert(environment(seq![text]) =~= seq![(key, value)]);
}

/// Every line is written, in order.
pub proof fn law_every_warning_is_written(lines: Seq<Seq<char>>)
    ensures
        warning(lines).len() == lines.len(),
        forall|i: int|
            0 <= i < lines.len() ==> (#[trigger] warning(lines)[i]).action == ActionView::Warn(
                lines[i],
            ) && warning(lines)[i].yes == 0 && warning(lines)[i].error is Ignore,
{
}

/// Neither an explanation around a program, nor a note, nor tolerance changes what it asks
/// for or how its answers branch.
pub proof fn law_wrapping_keeps_the_actions(program: Seq<StepView>, text: Seq<char>)
    ensures
        same_course(in_context(program, text), program),
        same_course(with_note(program, text), program),
        same_course(tolerated(program, text), program),
{
}

/// Whether two programs ask for the same and go on alike where nothing fails.
pub open spec fn same_course(a: Seq<StepView>, b: Seq<StepView>) -> bool {
    &&& a.len() == b.len()
    &&& forall|i: int|
        0 <= i < a.len() ==> {
            &&& (#[trigger] a[i]).action == b[i].action
            &&& a[i].yes == b[i].yes
            &&& a[i].exists == b[i].exists
            &&& a[i].no matches OtherwiseOf::Skip(n) ==> b[i].no == OtherwiseView::Skip(n)
            &&& b[i].no matches OtherwiseOf::Skip(n) ==> a[i].no == OtherwiseView::Skip(n)
        }
}

/// Pairs are seen pair by pair, and an optional text by its text.
pub proof fn law_pairs_are_seen_pair_by_pair(list: Seq<(String, String)>, text: String)
    ensures
        pairs(list).len() == list.len(),
        forall|i: int| 0 <= i < list.len() ==> #[trigger] pairs(list)[i] == (list[i].0@, list[i].1@),
        maybe(Some(text)) == Some(text@),
        maybe(None) is None,
{
}

/// What the ready-made steps and errors say.
pub proof fn law_ready_made_steps(
    action: ActionView,
    error: OnErrorView,
    text: Seq<char>,
)
    ensures
        ({
            let step = plain(action, error);
            &&& step.action == action
            &&& step.error == error
            &&& step.yes == 0
            &&& step.no == OtherwiseView::Skip(0)
            &&& step.exists is None
        }),
        saying(text).action == ActionView::Print(text),
        saying(text).error is Ignore,
        saying(text).yes == 0,
        raised() == (OnErrorView::Fail {
            contexts: Seq::empty(),
            reports: Seq::empty(),
            notes: Seq::empty(),
        }),
        failing(text) == (OnErrorView::Fail {
            contexts: seq![text],
            reports: Seq::empty(),
            notes: Seq::empty(),
        }),
        reported(text) == (OnErrorView::Report { lines: seq![text], skip: 0 }),
{
}

} // verus!
