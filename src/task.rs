use vstd::prelude::*;

verus! {

/// One task record.
#[derive(Clone, Debug)]
pub struct Task {
    pub id: u64,
    pub title: String,
    pub description: String,
    pub done: bool,
    pub is_important: bool,
    pub created_at: u64,
    pub updated_at: u64,
}

impl Task {
    /// A field-by-field copy of the record.
    pub fn duplicate(&self) -> (r: Task)
        ensures
            r == *self,
    {
        Task {
            id: self.id,
            title: self.title.clone(),
            description: self.description.clone(),
            done: self.done,
            is_important: self.is_important,
            created_at: self.created_at,
            updated_at: self.updated_at,
        }
    }
}

/// The ways an operation on the store can fail.
#[derive(Clone, Copy, Debug, PartialEq, Eq, Structural)]
pub enum TaskError {
    /// The operation named an identifier that no stored record has.
    NotFound,
    /// A text field that must be non-empty was empty.
    InvalidInput,
    /// Reserved for duplicate detection; no operation raises it.
    DuplicateTask,
}

/// The message under which an error is shown to a caller.
pub open spec fn error_message(e: TaskError) -> Seq<char> {
    match e {
        TaskError::NotFound => "Task not found"@,
        TaskError::InvalidInput => "Invalid input"@,
        TaskError::DuplicateTask => "Duplicate task"@,
    }
}

impl TaskError {
    /// The message under which this error is shown to a caller.
    pub fn message(&self) -> (r: String)
        ensures
            r@ == error_message(*self),
    {
        match self {
            TaskError::NotFound => "Task not found".to_owned(),
            TaskError::InvalidInput => "Invalid input".to_owned(),
            TaskError::DuplicateTask => "Duplicate task".to_owned(),
        }
    }
}

/// Renders an error as its message; see `TaskError::message` for the text.
impl From<TaskError> for String {
    fn from(e: TaskError) -> (r: String) {
        e.message()
    }
}

impl vstd::std_specs::convert::FromSpecImpl<TaskError> for String {
    // A `String` value cannot be written in a specification, so no result
    // is claimed here; `error_message` gives the text.
    open spec fn obeys_from_spec() -> bool {
        false
    }

    open spec fn from_spec(e: TaskError) -> String {
        arbitrary()
    }
}

} // verus!
