use vstd::prelude::*;

verus! {

/// Every way an operation on the contact graph or on a group can be refused.
/// Each refusal leaves every record that the operation was handed unchanged.
#[derive(Debug, Clone, Copy, PartialEq, Eq, Structural)]
pub enum ErrorCode {
    AlreadyInvited,
    NotInvited,
    NotRequested,
    InvalidHash,
    DisplayNameTooLong,
    GroupNameTooLong,
    GroupFull,
    NotGroupMember,
    NotGroupAdmin,
    CannotRemoveCreator,
    InsufficientTokenBalance,
    TokenAccountRequired,
    InvalidTokenAccount,
    Unauthorized,
}

/// The message shown to a user for each error.
pub open spec fn error_text(e: ErrorCode) -> &'static str {
    match e {
        ErrorCode::AlreadyInvited => "Already invited",
        ErrorCode::NotInvited => "Not invited",
        ErrorCode::NotRequested => "Not requested",
        ErrorCode::InvalidHash => "Invalid hash",
        ErrorCode::DisplayNameTooLong => "Display name too long",
        ErrorCode::GroupNameTooLong => "Group name too long",
        ErrorCode::GroupFull => "Group is full",
        ErrorCode::NotGroupMember => "Not a group member",
        ErrorCode::NotGroupAdmin => "Not group admin",
        ErrorCode::CannotRemoveCreator => "Cannot remove creator",
        ErrorCode::InsufficientTokenBalance => "Insufficient token balance",
        ErrorCode::TokenAccountRequired => "Token account required",
        ErrorCode::InvalidTokenAccount => "Token account does not belong to user",
        ErrorCode::Unauthorized => "Unauthorized",
    }
}

impl ErrorCode {
    /// The message shown to a user for this error.
    pub fn message(&self) -> (r: &'static str)
        ensures
            r == error_text(*self),
    {
        match self {
            ErrorCode::AlreadyInvited => "Already invited",
            ErrorCode::NotInvited => "Not invited",
            ErrorCode::NotRequested => "Not requested",
            ErrorCode::InvalidHash => "Invalid hash",
            ErrorCode::DisplayNameTooLong => "Display name too long",
            ErrorCode::GroupNameTooLong => "Group name too long",
            ErrorCode::GroupFull => "Group is full",
            ErrorCode::NotGroupMember => "Not a group member",
            ErrorCode::NotGroupAdmin => "Not group admin",
            ErrorCode::CannotRemoveCreator => "Cannot remove creator",
            ErrorCode::InsufficientTokenBalance => "Insufficient token balance",
            ErrorCode::TokenAccountRequired => "Token account required",
            ErrorCode::InvalidTokenAccount => "Token account does not belong to user",
            ErrorCode::Unauthorized => "Unauthorized",
        }
    }
}

} // verus!
