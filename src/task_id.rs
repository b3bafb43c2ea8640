use vstd::prelude::*;

verus! {

/// Identity of a module as recognised while parsing a task.
#[derive(Debug, PartialEq)]
pub enum TaskId {
    /// The key was the module's fully-qualified name.
    Task(String),
    /// The key was not recognised.
    Unknown(String),
    /// The key was an alias of the module named `id`.
    Alias { id: String, alias: String },
}

/// Model of a [`TaskId`].
pub ghost enum TaskIdView {
    Task(Seq<char>),
    Unknown(Seq<char>),
    Alias { id: Seq<char>, alias: Seq<char> },
}

impl TaskIdView {
    /// The canonical name this identity stands for.
    pub open spec fn name(self) -> Seq<char> {
        match self {
            TaskIdView::Task(id) => id,
            TaskIdView::Unknown(id) => id,
            TaskIdView::Alias { id, .. } => id,
        }
    }
}

impl View for TaskId {
    type V = TaskIdView;

    open spec fn view(&self) -> TaskIdView {
        match self {
            TaskId::Task(id) => TaskIdView::Task(id@),
            TaskId::Unknown(id) => TaskIdView::Unknown(id@),
            TaskId::Alias { id, alias } => TaskIdView::Alias { id: id@, alias: alias@ },
        }
    }
}

impl TaskId {
    pub fn name(&self) -> (r: String)
        ensures
            r@ == self@.name(),
    {
        match self {
            TaskId::Task(id) => id.clone(),
            TaskId::Unknown(id) => id.clone(),
            TaskId::Alias { id, .. } => id.clone(),
        }
    }

    pub fn copy(&self) -> (r: TaskId)
        ensures
            r@ == self@,
    {
        match self {
            TaskId::Task(id) => TaskId::Task(id.clone()),
            TaskId::Unknown(id) => TaskId::Unknown(id.clone()),
            TaskId::Alias { id, alias } => TaskId::Alias { id: id.clone(), alias: alias.clone() },
        }
    }
}

} // verus!
