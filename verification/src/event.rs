//! What changed between two snapshots of a run.

use vstd::prelude::*;

use crate::model::{
    Conclusion, ConclusionView, JobRef, JobRefView, RunRef, RunRefView, StepRef, StepRefView,
};

verus! {

/// One change between two snapshots of a run.
#[derive(Debug, Clone, PartialEq)]
pub enum DomainEvent {
    RunStarted { run: RunRef },
    RunCompleted { run: RunRef, conclusion: Conclusion },
    RunRequeued { run: RunRef },
    JobAppeared { job: JobRef },
    JobStarted { job: JobRef },
    JobCompleted { job: JobRef, conclusion: Conclusion },
    JobRequeued { job: JobRef },
    StepStarted { job: JobRef, step: StepRef },
    StepFinished { job: JobRef, step: StepRef, conclusion: Conclusion },
}

/// What a `DomainEvent` holds.
pub enum DomainEventView {
    RunStarted { run: RunRefView },
    RunCompleted { run: RunRefView, conclusion: ConclusionView },
    RunRequeued { run: RunRefView },
    JobAppeared { job: JobRefView },
    JobStarted { job: JobRefView },
    JobCompleted { job: JobRefView, conclusion: ConclusionView },
    JobRequeued { job: JobRefView },
    StepStarted { job: JobRefView, step: StepRefView },
    StepFinished { job: JobRefView, step: StepRefView, conclusion: ConclusionView },
}

impl View for DomainEvent {
    type V = DomainEventView;

    open spec fn view(&self) -> DomainEventView {
        match self {
            DomainEvent::RunStarted { run } => DomainEventView::RunStarted { run: run@ },
            DomainEvent::RunCompleted { run, conclusion } => DomainEventView::RunCompleted {
                run: run@,
                conclusion: conclusion@,
            },
            DomainEvent::RunRequeued { run } => DomainEventView::RunRequeued { run: run@ },
            DomainEvent::JobAppeared { job } => DomainEventView::JobAppeared { job: job@ },
            DomainEvent::JobStarted { job } => DomainEventView::JobStarted { job: job@ },
            DomainEvent::JobCompleted { job, conclusion } => DomainEventView::JobCompleted {
                job: job@,
                conclusion: conclusion@,
            },
            DomainEvent::JobRequeued { job } => DomainEventView::JobRequeued { job: job@ },
            DomainEvent::StepStarted { job, step } => DomainEventView::StepStarted {
                job: job@,
                step: step@,
            },
            DomainEvent::StepFinished { job, step, conclusion } => DomainEventView::StepFinished {
                job: job@,
                step: step@,
                conclusion: conclusion@,
            },
        }
    }
}

impl DeepView for DomainEvent {
    type V = DomainEventView;

    open spec fn deep_view(&self) -> DomainEventView {
        self@
    }
}

} // verus!
