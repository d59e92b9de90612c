//! Progress accounting for asset-loading tasks.
//!
//! A task reports its progress as a total amount of work, the work
//! completed so far, and a stack of stage titles; a loading screen reads
//! those to give the user consistent feedback. The loop that actually
//! runs a task — performing GPU work and refreshing the window between
//! steps — lives outside the verified core and drives this accounting
//! through the methods below.

use vstd::prelude::*;

verus! {

/// The progress of a task.
pub struct Progress {
    /// Total units of work the task has to complete.
    pub total_work: u32,
    /// Units of work completed so far. May briefly exceed the total if a
    /// task misreports; readers see it clamped.
    pub work_completed: u32,
    /// Titles of the stages currently in progress, innermost last.
    pub stages: Vec<String>,
}

impl Progress {
    /// Fresh progress for a task of `total_work` units: nothing done,
    /// no stage.
    pub fn new(total_work: u32) -> (p: Progress)
        ensures
            p.total_work == total_work,
            p.work_completed == 0,
            p.stages@.len() == 0,
    {
        Progress { total_work, work_completed: 0, stages: Vec::new() }
    }

    /// The total amount of work of the related task.
    pub fn total_work(&self) -> (r: u32)
        ensures
            r == self.total_work,
    {
        self.total_work
    }

    /// The amount of completed work, clamped into `[0, total_work]`.
    pub fn completed_work(&self) -> (r: u32)
        ensures
            r == if self.work_completed < self.total_work {
                self.work_completed
            } else {
                self.total_work
            },
            r <= self.total_work,
    {
        if self.work_completed < self.total_work {
            self.work_completed
        } else {
            self.total_work
        }
    }

    /// The title of the current stage, if there is one: the innermost
    /// stage pushed and not yet popped.
    pub fn stage(&self) -> (r: Option<&String>)
        ensures
            match r {
                None => self.stages@.len() == 0,
                Some(title) => self.stages@.len() > 0 && title@ == self.stages@[self.stages@.len()
                    - 1]@,
            },
    {
        if self.stages.len() == 0 {
            None
        } else {
            Some(&self.stages[self.stages.len() - 1])
        }
    }

    /// Records `work` more completed units, saturating at the pixel of
    /// the counter's range rather than wrapping.
    pub fn notify_progress(&mut self, work: u32)
        ensures
            final(self).total_work == old(self).total_work,
            final(self).stages == old(self).stages,
            final(self).work_completed as int == if old(self).work_completed + work
                > u32::MAX {
                u32::MAX as int
            } else {
                old(self).work_completed + work
            },
    {
        let s: u64 = self.work_completed as u64 + work as u64;
        self.work_completed = if s > u32::MAX as u64 {
            u32::MAX
        } else {
            s as u32
        };
    }

    /// Enters a named stage.
    pub fn push_stage(&mut self, title: String)
        ensures
            final(self).total_work == old(self).total_work,
            final(self).work_completed == old(self).work_completed,
            final(self).stages@ == old(self).stages@.push(title),
    {
        self.stages.push(title);
    }

    /// Leaves the innermost stage, if any.
    pub fn pop_stage(&mut self)
        ensures
            final(self).total_work == old(self).total_work,
            final(self).work_completed == old(self).work_completed,
            final(self).stages@ == if old(self).stages@.len() == 0 {
                old(self).stages@
            } else {
                old(self).stages@.drop_last()
            },
    {
        if self.stages.len() > 0 {
            let _ = self.stages.pop();
            proof {
                assert(self.stages@ =~= old(self).stages@.drop_last());
            }
        }
    }
}

} // verus!
