use vstd::prelude::*;

verus! {

/// The stable kind of every error the control plane reports.
#[derive(Clone, Copy, Debug, PartialEq, Eq, Structural)]
pub enum ErrorKind {
    /// The lifecycle gate rejected the request.
    InvalidState,
    /// The authorization gate rejected the request.
    PermissionDenied,
    /// No route matched, or a referenced record is absent.
    NotFound,
    /// A uniqueness rule would be broken.
    Conflict,
    /// The parameters are malformed.
    InvalidInput,
    /// A collaborator failed.
    Internal,
}

impl ErrorKind {
    /// A human-readable description of the kind.
    pub fn message(&self) -> (r: &'static str)
        ensures
            r@.len() > 0,
    {
        match self {
            ErrorKind::InvalidState => {
                proof {
                    reveal_strlit("operation not allowed in the current lifecycle state");
                }
                "operation not allowed in the current lifecycle state"
            },
            ErrorKind::PermissionDenied => {
                proof {
                    reveal_strlit("permission denied");
                }
                "permission denied"
            },
            ErrorKind::NotFound => {
                proof {
                    reveal_strlit("not found");
                }
                "not found"
            },
            ErrorKind::Conflict => {
                proof {
                    reveal_strlit("already exists or is bound elsewhere");
                }
                "already exists or is bound elsewhere"
            },
            ErrorKind::InvalidInput => {
                proof {
                    reveal_strlit("invalid input");
                }
                "invalid input"
            },
            ErrorKind::Internal => {
                proof {
                    reveal_strlit("internal error");
                }
                "internal error"
            },
        }
    }
}

} // verus!
