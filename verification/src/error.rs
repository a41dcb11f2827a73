use vstd::prelude::*;

verus! {

/// Every failure the recorder and the replay engine report.
#[derive(Debug)]
pub enum AutomationError {
    AlreadyRecording,
    NotRecording,
    AlreadyReplaying,
    NotReplaying,
    InputBackend(String),
    InvalidRecording(String),
    InvalidOptions(String),
    InvalidFile(String),
    Io(String),
    ListenerUnavailable(String),
}

impl Clone for AutomationError {
    fn clone(&self) -> (r: Self)
        ensures
            r == *self,
    {
        match self {
            AutomationError::AlreadyRecording => AutomationError::AlreadyRecording,
            AutomationError::NotRecording => AutomationError::NotRecording,
            AutomationError::AlreadyReplaying => AutomationError::AlreadyReplaying,
            AutomationError::NotReplaying => AutomationError::NotReplaying,
            AutomationError::InputBackend(s) => AutomationError::InputBackend(s.clone()),
            AutomationError::InvalidRecording(s) => AutomationError::InvalidRecording(s.clone()),
            AutomationError::InvalidOptions(s) => AutomationError::InvalidOptions(s.clone()),
            AutomationError::InvalidFile(s) => AutomationError::InvalidFile(s.clone()),
            AutomationError::Io(s) => AutomationError::Io(s.clone()),
            AutomationError::ListenerUnavailable(s) => AutomationError::ListenerUnavailable(
                s.clone(),
            ),
        }
    }
}

/// The human-readable text of an error.
pub open spec fn error_message(e: AutomationError) -> Seq<char> {
    match e {
        AutomationError::AlreadyRecording => "already recording"@,
        AutomationError::NotRecording => "not recording"@,
        AutomationError::AlreadyReplaying => "already replaying"@,
        AutomationError::NotReplaying => "not replaying"@,
        AutomationError::InputBackend(s) => "input backend error: "@ + s@,
        AutomationError::InvalidRecording(s) => "invalid recording: "@ + s@,
        AutomationError::InvalidOptions(s) => "invalid replay options: "@ + s@,
        AutomationError::InvalidFile(s) => "invalid recording file: "@ + s@,
        AutomationError::Io(s) => "io error: "@ + s@,
        AutomationError::ListenerUnavailable(s) => "input listener unavailable: "@ + s@,
    }
}

impl AutomationError {
    /// The error's message, as shown to the user.
    pub fn message(&self) -> (m: String)
        ensures
            m@ == error_message(*self),
    {
        match self {
            AutomationError::AlreadyRecording => String::from_str("already recording"),
            AutomationError::NotRecording => String::from_str("not recording"),
            AutomationError::AlreadyReplaying => String::from_str("already replaying"),
            AutomationError::NotReplaying => String::from_str("not replaying"),
            AutomationError::InputBackend(s) => String::from_str("input backend error: ").concat(
                s.as_str(),
            ),
            AutomationError::InvalidRecording(s) => String::from_str("invalid recording: ").concat(
                s.as_str(),
            ),
            AutomationError::InvalidOptions(s) => String::from_str(
                "invalid replay options: ",
            ).concat(s.as_str()),
            AutomationError::InvalidFile(s) => String::from_str("invalid recording file: ").concat(
                s.as_str(),
            ),
            AutomationError::Io(s) => String::from_str("io error: ").concat(s.as_str()),
            AutomationError::ListenerUnavailable(s) => String::from_str(
                "input listener unavailable: ",
            ).concat(s.as_str()),
        }
    }
}

} // verus!
