//! The failures of workspace operations.
use vstd::prelude::*;

verus! {

/// The kinds of failure.
#[derive(Clone, Copy, Debug, PartialEq, Eq, Structural)]
pub enum ErrorKind {
    /// A lookup by handle or index found nothing.
    NotFound,
    /// The layout lacks what the operation needs of it.
    InvalidLayoutConfiguration,
}

/// Why a workspace operation did not take place. A failed operation leaves
/// the workspace as it was.
#[derive(Clone, Copy, Debug, PartialEq, Eq, Structural)]
pub enum WorkspaceError {
    NoContainer,
    NoWindow,
    NoContainerOrWindow,
    NoFloatingWindow,
    NoMonocleContainer,
    NoMonocleRestoreIdx,
    NoMaximizedWindow,
    NoMaximizedRestoreIdx,
    NoPrimaryColumn,
    NoPrimarySlot,
    PositionOutOfRange,
}

impl WorkspaceError {
    /// The kind of this failure.
    pub open spec fn spec_kind(&self) -> ErrorKind {
        match self {
            WorkspaceError::NoPrimaryColumn => ErrorKind::InvalidLayoutConfiguration,
            WorkspaceError::PositionOutOfRange => ErrorKind::InvalidLayoutConfiguration,
            _ => ErrorKind::NotFound,
        }
    }

    /// The kind of this failure.
    #[verifier::when_used_as_spec(spec_kind)]
    pub fn kind(&self) -> (k: ErrorKind)
        ensures
            k == self.spec_kind(),
    {
        match self {
            WorkspaceError::NoPrimaryColumn => ErrorKind::InvalidLayoutConfiguration,
            WorkspaceError::PositionOutOfRange => ErrorKind::InvalidLayoutConfiguration,
            _ => ErrorKind::NotFound,
        }
    }

    /// The sentence that names this failure.
    pub open spec fn spec_message(self) -> Seq<char> {
        match self {
            WorkspaceError::NoContainer => "there is no container"@,
            WorkspaceError::NoWindow => "there is no window"@,
            WorkspaceError::NoContainerOrWindow => "there is no container/window"@,
            WorkspaceError::NoFloatingWindow => "there is no floating window"@,
            WorkspaceError::NoMonocleContainer => "there is no monocle container"@,
            WorkspaceError::NoMonocleRestoreIdx => "there is no monocle restore index"@,
            WorkspaceError::NoMaximizedWindow => "there is no maximized window"@,
            WorkspaceError::NoMaximizedRestoreIdx => "there is no maximized restore index"@,
            WorkspaceError::NoPrimaryColumn => "this custom layout does not have a primary column"@,
            WorkspaceError::NoPrimarySlot => "there is no container slot for the primary column"@,
            WorkspaceError::PositionOutOfRange => "a window position does not fit the screen coordinates"@,
        }
    }

    /// A sentence that names the failure.
    pub fn message(&self) -> (s: String)
        ensures
            s@ == self.spec_message(),
    {
        broadcast use vstd::string::to_string_from_display_ensures_for_str;

        match self {
            WorkspaceError::NoContainer => "there is no container".to_string(),
            WorkspaceError::NoWindow => "there is no window".to_string(),
            WorkspaceError::NoContainerOrWindow => "there is no container/window".to_string(),
            WorkspaceError::NoFloatingWindow => "there is no floating window".to_string(),
            WorkspaceError::NoMonocleContainer => "there is no monocle container".to_string(),
            WorkspaceError::NoMonocleRestoreIdx => "there is no monocle restore index".to_string(),
            WorkspaceError::NoMaximizedWindow => "there is no maximized window".to_string(),
            WorkspaceError::NoMaximizedRestoreIdx => "there is no maximized restore index".to_string(),
            WorkspaceError::NoPrimaryColumn => "this custom layout does not have a primary column".to_string(),
            WorkspaceError::NoPrimarySlot => "there is no container slot for the primary column".to_string(),
            WorkspaceError::PositionOutOfRange => "a window position does not fit the screen coordinates".to_string(),
        }
    }
}

} // verus!
