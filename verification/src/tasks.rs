//! Task-list shapes and the minimal task forms handed to agents.

use vstd::prelude::*;
use crate::token::opt_text_view;

verus! {

pub struct TaskList {
    pub kind: Option<String>,
    pub id: String,
    pub etag: Option<String>,
    pub title: String,
    pub updated: Option<String>,
    pub self_link: Option<String>,
}

pub struct TaskLists {
    pub items: Vec<TaskList>,
    pub next_page_token: Option<String>,
}

pub struct Task {
    pub kind: Option<String>,
    pub id: Option<String>,
    pub etag: Option<String>,
    pub title: String,
    pub notes: Option<String>,
    pub status: Option<String>,
    pub due: Option<String>,
    pub completed: Option<String>,
    pub parent: Option<String>,
    pub position: Option<String>,
    pub links: Vec<TaskLink>,
    pub updated: Option<String>,
    pub self_link: Option<String>,
    pub hidden: Option<bool>,
    pub deleted: Option<bool>,
}

pub struct TaskLink {
    pub link_type: String,
    pub description: Option<String>,
    pub link: Option<String>,
}

pub struct Tasks {
    pub items: Vec<Task>,
    pub next_page_token: Option<String>,
}

/// The reduced task shape: identity, title, status, due instant, notes and
/// completion only.
pub struct MinimalTask {
    pub id: Option<String>,
    pub title: String,
    pub status: Option<String>,
    pub due: Option<String>,
    pub notes: Option<String>,
    pub completed: Option<String>,
}

pub struct MinimalTasks {
    pub items: Vec<MinimalTask>,
    pub next_page_token: Option<String>,
}

/// What a task reduces to.
pub open spec fn minimal_of_task(t: Task) -> (
    Option<Seq<char>>,
    Seq<char>,
    Option<Seq<char>>,
    Option<Seq<char>>,
    Option<Seq<char>>,
    Option<Seq<char>>,
) {
    (
        opt_text_view(t.id),
        t.title@,
        opt_text_view(t.status),
        opt_text_view(t.due),
        opt_text_view(t.notes),
        opt_text_view(t.completed),
    )
}

pub open spec fn minimal_view(m: MinimalTask) -> (
    Option<Seq<char>>,
    Seq<char>,
    Option<Seq<char>>,
    Option<Seq<char>>,
    Option<Seq<char>>,
    Option<Seq<char>>,
) {
    (
        opt_text_view(m.id),
        m.title@,
        opt_text_view(m.status),
        opt_text_view(m.due),
        opt_text_view(m.notes),
        opt_text_view(m.completed),
    )
}

impl MinimalTask {
    /// Reduce one task: identity and content fields are kept, bookkeeping
    /// fields dropped.
    pub fn from_task(task: &Task) -> (r: MinimalTask)
        ensures
            minimal_view(r) == minimal_of_task(*task),
    {
        MinimalTask {
            id: crate::token::clone_opt_string(&task.id),
            title: task.title.clone(),
            status: crate::token::clone_opt_string(&task.status),
            due: crate::token::clone_opt_string(&task.due),
            notes: crate::token::clone_opt_string(&task.notes),
            completed: crate::token::clone_opt_string(&task.completed),
        }
    }
}

impl MinimalTasks {
    /// Reduce every task of a listing, keeping order and the page token.
    pub fn from_tasks(tasks: &Tasks) -> (r: MinimalTasks)
        ensures
            r.items@.len() == tasks.items@.len(),
            forall|i: int|
                0 <= i < r.items@.len() ==> minimal_view(r.items@[i]) == minimal_of_task(
                    tasks.items@[i],
                ),
            opt_text_view(r.next_page_token) == opt_text_view(tasks.next_page_token),
    {
        let mut items: Vec<MinimalTask> = Vec::new();
        let mut i: usize = 0;
        while i < tasks.items.len()
            invariant
                i <= tasks.items@.len(),
                items@.len() == i,
                forall|q: int|
                    0 <= q < i ==> minimal_view(items@[q]) == minimal_of_task(tasks.items@[q]),
            decreases tasks.items@.len() - i,
        {
            items.push(MinimalTask::from_task(&tasks.items[i]));
            i = i + 1;
        }
        MinimalTasks {
            items,
            next_page_token: crate::token::clone_opt_string(&tasks.next_page_token),
        }
    }
}

impl Task {
    /// A new task with the given title, initially needing action.
    pub fn new(title: String) -> (r: Task)
        ensures
            r.title@ == title@,
            r.status matches Some(s) && s@ == "needsAction"@,
            r.id is None,
            r.notes is None,
            r.due is None,
            r.completed is None,
            r.kind is None,
            r.etag is None,
            r.parent is None,
            r.position is None,
            r.links@.len() == 0,
            r.updated is None,
            r.self_link is None,
            r.hidden is None,
            r.deleted is None,
    {
        Task {
            kind: None,
            id: None,
            etag: None,
            title,
            notes: None,
            status: Some(String::from_str("needsAction")),
            due: None,
            completed: None,
            parent: None,
            position: None,
            links: Vec::new(),
            updated: None,
            self_link: None,
            hidden: None,
            deleted: None,
        }
    }

    /// The same task, carrying these notes.
    pub fn with_notes(self, notes: String) -> (r: Task)
        ensures
            r.notes matches Some(n) && n@ == notes@,
            r.title == self.title,
            r.status == self.status,
            r.due == self.due,
            r.id == self.id,
    {
        Task { notes: Some(notes), ..self }
    }

    /// The same task, due at the given instant.
    pub fn with_due(self, due: String) -> (r: Task)
        ensures
            r.due matches Some(d) && d@ == due@,
            r.title == self.title,
            r.status == self.status,
            r.notes == self.notes,
            r.id == self.id,
    {
        Task { due: Some(due), ..self }
    }
}

} // verus!
