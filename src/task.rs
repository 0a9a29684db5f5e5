use vstd::prelude::*;

verus! {

/// What a task is to the contracts: its completion flag and its text.
pub struct TaskView {
    pub completed: bool,
    pub content: Seq<char>,
}

/// A unit of work: a text and whether it is done.
pub struct Task {
    pub completed: bool,
    pub content: String,
}

/// A task as it is saved to disk.
pub struct TaskData {
    pub completed: bool,
    pub content: String,
}

impl View for Task {
    type V = TaskView;

    open spec fn view(&self) -> TaskView {
        TaskView { completed: self.completed, content: self.content@ }
    }
}

impl View for TaskData {
    type V = TaskView;

    open spec fn view(&self) -> TaskView {
        TaskView { completed: self.completed, content: self.content@ }
    }
}

impl Task {
    pub fn new(completed: bool, content: String) -> (t: Task)
        ensures
            t@ == (TaskView { completed, content: content@ }),
    {
        Task { completed, content }
    }

    pub fn is_completed(&self) -> (r: bool)
        ensures
            r == self@.completed,
    {
        self.completed
    }

    pub fn set_completed(&mut self, completed: bool)
        ensures
            final(self)@ == (TaskView { completed, content: old(self)@.content }),
    {
        self.completed = completed;
    }

    /// Flips the completion flag and leaves the text alone.
    pub fn toggle(&mut self)
        ensures
            final(self)@ == (TaskView { completed: !old(self)@.completed, content: old(self)@.content }),
    {
        self.completed = !self.completed;
    }

    /// The data written to disk for the task.
    pub fn task_data(&self) -> (d: TaskData)
        ensures
            d@ == self@,
    {
        TaskData { completed: self.completed, content: self.content.clone() }
    }

    /// The task that saved data describes.
    pub fn from_task_data(data: TaskData) -> (t: Task)
        ensures
            t@ == data@,
    {
        Task { completed: data.completed, content: data.content }
    }
}

} // verus!
