//! The tasks a request schedules to run after its response is sent.

use vstd::prelude::*;

verus! {

/// Tasks waiting to run, in the order they were added.
#[derive(Debug)]
pub struct BackgroundTasks<F> {
    tasks: Vec<F>,
}

impl<F> View for BackgroundTasks<F> {
    type V = Seq<F>;

    closed spec fn view(&self) -> Seq<F> {
        self.tasks@
    }
}

impl<F> BackgroundTasks<F> {
    /// No task waiting.
    pub fn new() -> (r: Self)
        ensures
            r@ == Seq::<F>::empty(),
    {
        BackgroundTasks { tasks: Vec::new() }
    }

    /// Adds a task after those already waiting.
    pub fn add_task(&mut self, task: F)
        ensures
            final(self)@ == old(self)@.push(task),
    {
        self.tasks.push(task);
    }

    /// Takes every waiting task, in order, leaving none.
    pub fn take_tasks(&mut self) -> (r: Vec<F>)
        ensures
            r@ == old(self)@,
            final(self)@ == Seq::<F>::empty(),
    {
        let mut taken: Vec<F> = Vec::new();
        std::mem::swap(&mut taken, &mut self.tasks);
        taken
    }

    /// How many tasks wait.
    pub fn len(&self) -> (r: usize)
        ensures
            r == self@.len(),
    {
        self.tasks.len()
    }
}

} // verus!
