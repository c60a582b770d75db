//! Failures of the collaborators and the errors that operations end with.

use vstd::prelude::*;

verus! {

/// The status that the runtime answers with when a container does not exist.
pub const STATUS_NOT_FOUND: u16 = 404;

/// A failure of the container runtime, as plain values: the status
/// of the runtime's answer where it gave one, and its message.
#[derive(Clone, Debug, PartialEq, Eq)]
pub struct RuntimeFailure {
    pub status_code: Option<u16>,
    pub message: String,
}

/// A failure of the runtime, with its message as its characters.
pub struct RuntimeFailureView {
    pub status_code: Option<u16>,
    pub message: Seq<char>,
}

impl View for RuntimeFailure {
    type V = RuntimeFailureView;

    open spec fn view(&self) -> RuntimeFailureView {
        RuntimeFailureView { status_code: self.status_code, message: self.message@ }
    }
}

impl RuntimeFailureView {
    /// Whether the runtime said that what was asked for does not exist.
    pub open spec fn is_absent(self) -> bool {
        self.status_code == Some(STATUS_NOT_FOUND)
    }
}

impl RuntimeFailure {
    /// Whether the runtime said that what was asked for does not exist.
    pub fn is_absent(&self) -> (res: bool)
        ensures
            res == self@.is_absent(),
    {
        match self.status_code {
            Some(code) => code == STATUS_NOT_FOUND,
            None => false,
        }
    }
}

/// A failure of the process store or of the lookup that a notice needs in
/// it: whether the record asked for is missing, and the message.
#[derive(Clone, Debug, PartialEq, Eq)]
pub struct StoreFailure {
    pub not_found: bool,
    pub message: String,
}

/// A failure of the store, with its message as its characters.
pub struct StoreFailureView {
    pub not_found: bool,
    pub message: Seq<char>,
}

impl View for StoreFailure {
    type V = StoreFailureView;

    open spec fn view(&self) -> StoreFailureView {
        StoreFailureView { not_found: self.not_found, message: self.message@ }
    }
}

/// Why an operation failed.
#[derive(Clone, Debug, PartialEq, Eq)]
pub enum ProcessError {
    /// The input was rejected before anything was done.
    Validation(String),
    /// The workload, the exec session or the container does not exist.
    NotFound(String),
    /// The container runtime failed in any other way.
    Runtime(String),
    /// The process store failed.
    Store(String),
    /// The driver of an operation answered a request that was not pending.
    OutOfTurn,
}

/// An error, with its message as its characters.
pub enum ProcessErrorView {
    Validation(Seq<char>),
    NotFound(Seq<char>),
    Runtime(Seq<char>),
    Store(Seq<char>),
    OutOfTurn,
}

impl View for ProcessError {
    type V = ProcessErrorView;

    open spec fn view(&self) -> ProcessErrorView {
        match *self {
            ProcessError::Validation(m) => ProcessErrorView::Validation(m@),
            ProcessError::NotFound(m) => ProcessErrorView::NotFound(m@),
            ProcessError::Runtime(m) => ProcessErrorView::Runtime(m@),
            ProcessError::Store(m) => ProcessErrorView::Store(m@),
            ProcessError::OutOfTurn => ProcessErrorView::OutOfTurn,
        }
    }
}

impl ProcessErrorView {
    /// The error that a failure of the runtime is surfaced as: not found
    /// where the runtime said so, a runtime error otherwise.
    pub open spec fn of_runtime(failure: RuntimeFailureView) -> ProcessErrorView {
        if failure.is_absent() {
            ProcessErrorView::NotFound(failure.message)
        } else {
            ProcessErrorView::Runtime(failure.message)
        }
    }

    /// The error that a failure of the store is surfaced as.
    pub open spec fn of_store(failure: StoreFailureView) -> ProcessErrorView {
        if failure.not_found {
            ProcessErrorView::NotFound(failure.message)
        } else {
            ProcessErrorView::Store(failure.message)
        }
    }

    /// The HTTP status that the error is answered with.
    pub open spec fn status(self) -> u16 {
        match self {
            ProcessErrorView::Validation(_) => 400,
            ProcessErrorView::NotFound(_) => 404,
            ProcessErrorView::Runtime(_) => 500,
            ProcessErrorView::Store(_) => 500,
            ProcessErrorView::OutOfTurn => 500,
        }
    }

    /// The message that the error is answered with.
    pub open spec fn message(self) -> Seq<char> {
        match self {
            ProcessErrorView::Validation(m) => m,
            ProcessErrorView::NotFound(m) => m,
            ProcessErrorView::Runtime(m) => m,
            ProcessErrorView::Store(m) => m,
            ProcessErrorView::OutOfTurn => out_of_turn_message(),
        }
    }
}

/// The message of an error that has none of its own.
pub open spec fn out_of_turn_message() -> Seq<char> {
    "the answer fits no pending request"@
}

impl ProcessError {
    /// Surfaces a failure of the runtime.
    pub fn from_runtime(failure: RuntimeFailure) -> (res: ProcessError)
        ensures
            res@ == ProcessErrorView::of_runtime(failure@),
    {
        if failure.is_absent() {
            ProcessError::NotFound(failure.message)
        } else {
            ProcessError::Runtime(failure.message)
        }
    }

    /// Surfaces a failure of the store.
    pub fn from_store(failure: StoreFailure) -> (res: ProcessError)
        ensures
            res@ == ProcessErrorView::of_store(failure@),
    {
        if failure.not_found {
            ProcessError::NotFound(failure.message)
        } else {
            ProcessError::Store(failure.message)
        }
    }

    /// The HTTP status that the error is answered with: 400 for rejected
    /// input, 404 for what does not exist, 500 for the rest.
    pub fn status(&self) -> (res: u16)
        ensures
            res == self@.status(),
    {
        match self {
            ProcessError::Validation(_) => 400,
            ProcessError::NotFound(_) => 404,
            ProcessError::Runtime(_) => 500,
            ProcessError::Store(_) => 500,
            ProcessError::OutOfTurn => 500,
        }
    }

    /// The message that the error is answered with.
    pub fn message(&self) -> (res: String)
        ensures
            res@ == self@.message(),
    {
        match self {
            ProcessError::Validation(m) => m.clone(),
            ProcessError::NotFound(m) => m.clone(),
            ProcessError::Runtime(m) => m.clone(),
            ProcessError::Store(m) => m.clone(),
            ProcessError::OutOfTurn => "the answer fits no pending request".to_owned(),
        }
    }
}

} // verus!
