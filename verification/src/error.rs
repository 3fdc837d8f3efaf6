use vstd::prelude::*;

verus! {

/// Every failure the backup core can report. Payload strings carry the
/// human-readable detail (for operating-system errors, the text of the
/// underlying error as the caller rendered it).
#[derive(Debug, Clone, PartialEq, Eq)]
pub enum BackupError {
    /// A filesystem operation failed.
    Io(String),
    /// A run was requested for a position outside the schedule list.
    InvalidScheduleIndex,
    /// Writing the persisted schedule store failed.
    ConfigSaveError(String),
    /// A persisted count or a timestamp could not be parsed.
    Parse(String),
    /// A path or file name could not be represented as text.
    Path(String),
    /// The external compression tool could not be launched.
    Execute(String),
    /// Any other failure.
    Other(String),
}

impl BackupError {
    /// What `message` returns for each variant: a fixed prefix naming the
    /// error class, followed by the carried detail.
    pub open spec fn message_spec(&self) -> Seq<char> {
        match self {
            BackupError::Io(m) => "I/O error: "@ + m@,
            BackupError::InvalidScheduleIndex => "Invalid schedule index"@,
            BackupError::ConfigSaveError(m) => "Failed to save config: "@ + m@,
            BackupError::Parse(m) => "Parse error: "@ + m@,
            BackupError::Path(m) => "Path error: "@ + m@,
            BackupError::Execute(m) => "Execution error: "@ + m@,
            BackupError::Other(m) => m@,
        }
    }

    /// Renders the error as display text.
    pub fn message(&self) -> (r: String)
        ensures
            r@ == self.message_spec(),
    {
        match self {
            BackupError::Io(m) => {
                let mut s = String::from_str("I/O error: ");
                s.append(m.as_str());
                s
            },
            BackupError::InvalidScheduleIndex => String::from_str("Invalid schedule index"),
            BackupError::ConfigSaveError(m) => {
                let mut s = String::from_str("Failed to save config: ");
                s.append(m.as_str());
                s
            },
            BackupError::Parse(m) => {
                let mut s = String::from_str("Parse error: ");
                s.append(m.as_str());
                s
            },
            BackupError::Path(m) => {
                let mut s = String::from_str("Path error: ");
                s.append(m.as_str());
                s
            },
            BackupError::Execute(m) => {
                let mut s = String::from_str("Execution error: ");
                s.append(m.as_str());
                s
            },
            BackupError::Other(m) => {
                let mut s = String::new();
                s.append(m.as_str());
                s
            },
        }
    }
}

} // verus!
