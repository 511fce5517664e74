//! Running a container, process by process.
//!
//! A container takes three processes. The one that was asked to run it forks; on the
//! host's side it goes on to set the host up. Its child leaves the host's namespaces
//! and forks again, because a process number namespace applies to the children of the
//! process that asked for it; the second child is the container's first process. A
//! `Session` holds what one of these processes has to do.
use vstd::prelude::*;

use crate::run::{resumed, started, Run, RunView, Turn};
use crate::steps::{
    no_texts, ActionOf, Program, Reply, ReplyOf, ReplyView, Status, StatusOf, StatusView, StepView,
};
use crate::text::texts;

verus! {

/// Which of the processes a session drives.
#[derive(Clone, Copy, PartialEq, Eq, Structural, Debug)]
pub enum Stage {
    /// The process that was asked to run the container, before it forks.
    Launch,
    /// That process after the fork: it sets the host up and cleans up in the end.
    Host,
    /// The first child, which leaves the host's namespaces.
    Child,
    /// The first child after the second fork, waiting for the container to end.
    Supervisor,
    /// The second child, the first process inside the new namespaces.
    Workload,
}

/// The running of a container, as one process sees it.
pub struct Session {
    pub stage: Stage,
    pub run: Run,
}

/// A session, by the characters of its texts.
#[verifier::ext_equal]
pub struct SessionView {
    pub stage: Stage,
    pub run: RunView,
}

impl View for Session {
    type V = SessionView;

    open spec fn view(&self) -> SessionView {
        SessionView { stage: self.stage, run: self.run@ }
    }
}

/// What a reply leads to.
pub struct Progress {
    /// How the session goes on.
    pub session: Session,
    /// The lines to write to the standard error.
    pub said: Vec<String>,
    pub status: Status,
}

/// What a reply leads to, by the characters of its texts.
#[verifier::ext_equal]
pub struct ProgressView {
    pub session: SessionView,
    pub said: Seq<Seq<char>>,
    pub status: StatusView,
}

impl View for Progress {
    type V = ProgressView;

    open spec fn view(&self) -> ProgressView {
        ProgressView { session: self.session@, said: texts(self.said@), status: self.status@ }
    }
}

/// A session at the start of a stage.
pub open spec fn entered(stage: Stage, program: Seq<StepView>) -> SessionView {
    SessionView { stage, run: started(program) }
}

/// The stage that a fork leads to, on either side of it.
pub open spec fn forked(stage: Stage, reply: ReplyView) -> Option<Stage> {
    match (stage, reply) {
        (Stage::Launch, ReplyOf::Parent(_)) => Some(Stage::Host),
        (Stage::Launch, ReplyOf::Child) => Some(Stage::Child),
        (Stage::Child, ReplyOf::Parent(_)) => Some(Stage::Supervisor),
        (Stage::Child, ReplyOf::Child) => Some(Stage::Workload),
        _ => None,
    }
}

/// The number of the child that a reply tells of.
pub open spec fn child_of(reply: ReplyView) -> u32 {
    match reply {
        ReplyOf::Parent(child) => child,
        _ => 0,
    }
}

/// Whether the session is about to fork.
pub open spec fn forking(session: SessionView) -> bool {
    session.run.pending.len() > 0 && session.run.pending[0].action is Fork
}

/// The stage that a reply leads to, and the number of the child if there is one;
/// `None` where the session stays in its stage.
pub open spec fn branched(session: SessionView, reply: ReplyView) -> Option<(Stage, u32)> {
    if forking(session) && forked(session.stage, reply) is Some {
        Some((forked(session.stage, reply)->0, child_of(reply)))
    } else {
        None
    }
}

/// What a reply leads to where the session stays in its stage.
pub open spec fn followed(session: SessionView, reply: ReplyView) -> ProgressView {
    let turn = resumed(session.run, reply);
    ProgressView {
        session: SessionView { stage: session.stage, run: turn.run },
        said: turn.said,
        status: turn.status,
    }
}

/// What a fork leads to: a session at the start of a stage.
pub open spec fn begun(session: SessionView) -> ProgressView {
    ProgressView { session, said: Seq::empty(), status: StatusOf::Going }
}

impl Session {
    /// A session at the start of a stage.
    pub fn enter(stage: Stage, program: Program) -> (session: Session)
        ensures
            session@ == entered(stage, program@),
    {
        Session { stage, run: Run::start(program) }
    }

    /// The stage that a reply leads to, and the number of the child if there is one.
    pub fn branch(&self, reply: &Reply) -> (next: Option<(Stage, u32)>)
        ensures
            next == branched(self@, reply@),
    {
        match self.run.current() {
            Some(ActionOf::Fork) => match (self.stage, reply) {
                (Stage::Launch, ReplyOf::Parent(child)) => Some((Stage::Host, *child)),
                (Stage::Launch, ReplyOf::Child) => Some((Stage::Child, 0)),
                (Stage::Child, ReplyOf::Parent(child)) => Some((Stage::Supervisor, *child)),
                (Stage::Child, ReplyOf::Child) => Some((Stage::Workload, 0)),
                _ => None,
            },
            _ => None,
        }
    }

    /// Takes a reply that keeps the session in its stage.
    pub fn follow(self, reply: Reply) -> (progress: Progress)
        ensures
            progress@ == followed(self@, reply@),
    {
        let stage: Stage = self.stage;
        let turn: Turn = self.run.resume(reply);
        Progress {
            session: Session { stage, run: turn.run },
            said: turn.said,
            status: turn.status,
        }
    }

    /// Starts with the session.
    pub fn begin(self) -> (progress: Progress)
        ensures
            progress@ == begun(self@),
    {
        Progress { session: self, said: no_texts(), status: StatusOf::Going }
    }
}

/// Only a fork takes a session to another stage, and only the launching process and the
/// first child fork: a container takes three processes.
pub proof fn law_only_forks_change_the_stage(session: SessionView, reply: ReplyView)
    ensures
        branched(session, reply) is Some ==> forking(session) && (session.stage is Launch
            || session.stage is Child),
        branched(session, reply) matches Some((stage, _)) ==> !(stage is Launch),
        followed(session, reply).session.stage == session.stage,
{
}

} // verus!
