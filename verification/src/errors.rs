//! The three-layer error taxonomy: storage-level outcomes, use-case-level
//! outcomes per entity kind, and the sign-in-level outcomes that never leak
//! whether a username exists.

use vstd::prelude::*;

verus! {

/// Storage-level outcome of an access-model call. `TemporaryError` is a
/// retryable infrastructure fault; `FatalError` is everything else that is
/// not retryable.
#[derive(Clone, Copy, Debug, PartialEq, Eq, Structural)]
pub enum AccessModelError {
    FatalError,
    TemporaryError,
    NotFoundError,
    AlreadyExists,
}

#[derive(Clone, Copy, Debug, PartialEq, Eq, Structural)]
pub enum UserUCError {
    FatalError,
    TemporaryError,
    NotFoundError,
    AlreadyExists,
}

#[derive(Clone, Copy, Debug, PartialEq, Eq, Structural)]
pub enum RoleUCError {
    FatalError,
    TemporaryError,
    NotFoundError,
    AlreadyExists,
}

#[derive(Clone, Copy, Debug, PartialEq, Eq, Structural)]
pub enum PermissionUCError {
    FatalError,
    TemporaryError,
    NotFoundError,
    AlreadyExists,
}

#[derive(Clone, Copy, Debug, PartialEq, Eq, Structural)]
pub enum GroupUCError {
    FatalError,
    TemporaryError,
    NotFoundError,
    AlreadyExists,
}

/// Sign-in-level outcome. `VerificationError` is the single caller-visible
/// "denied" signal: it replaces `NotFoundError` so that a failed sign-in does
/// not reveal whether the username existed.
#[derive(Clone, Copy, Debug, PartialEq, Eq, Structural)]
pub enum SignError {
    FatalError,
    TemporaryError,
    VerificationError,
}

} // verus!
