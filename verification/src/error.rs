//! The error returned by the service functions: an HTTP status and a message.
use vstd::prelude::*;

use crate::text::owned;

verus! {

pub const STATUS_BAD_REQUEST: u16 = 400;
pub const STATUS_FORBIDDEN: u16 = 403;
pub const STATUS_NOT_FOUND: u16 = 404;
pub const STATUS_TOO_MANY_REQUESTS: u16 = 429;
pub const STATUS_INTERNAL: u16 = 500;

/// An API error: the HTTP status it maps to and a human-readable message.
#[derive(Debug)]
pub struct ApiError {
    pub status: u16,
    pub message: String,
}

impl ApiError {
    /// The error is a bad request with the given message.
    pub open spec fn is_bad_request(self, message: Seq<char>) -> bool {
        self.status == STATUS_BAD_REQUEST && self.message@ == message
    }

    /// The error is an internal error with the given message.
    pub open spec fn is_internal(self, message: Seq<char>) -> bool {
        self.status == STATUS_INTERNAL && self.message@ == message
    }

    /// The error is a forbidden error with the given message.
    pub open spec fn is_forbidden(self, message: Seq<char>) -> bool {
        self.status == STATUS_FORBIDDEN && self.message@ == message
    }

    pub fn bad_request(message: &str) -> (e: ApiError)
        ensures
            e.is_bad_request(message@),
    {
        ApiError { status: STATUS_BAD_REQUEST, message: owned(message) }
    }

    pub fn bad_request_owned(message: String) -> (e: ApiError)
        ensures
            e.is_bad_request(message@),
    {
        ApiError { status: STATUS_BAD_REQUEST, message }
    }

    pub fn forbidden_owned(message: String) -> (e: ApiError)
        ensures
            e.is_forbidden(message@),
    {
        ApiError { status: STATUS_FORBIDDEN, message }
    }

    /// The error is a too-many-requests error with the given message.
    pub open spec fn is_too_many_requests(self, message: Seq<char>) -> bool {
        self.status == STATUS_TOO_MANY_REQUESTS && self.message@ == message
    }

    pub fn too_many_requests_owned(message: String) -> (e: ApiError)
        ensures
            e.is_too_many_requests(message@),
    {
        ApiError { status: STATUS_TOO_MANY_REQUESTS, message }
    }

    pub fn forbidden(message: &str) -> (e: ApiError)
        ensures
            e.is_forbidden(message@),
    {
        ApiError { status: STATUS_FORBIDDEN, message: owned(message) }
    }

    pub fn not_found(message: &str) -> (e: ApiError)
        ensures
            e.status == STATUS_NOT_FOUND,
            e.message@ == message@,
    {
        ApiError { status: STATUS_NOT_FOUND, message: owned(message) }
    }

    pub fn internal(message: &str) -> (e: ApiError)
        ensures
            e.is_internal(message@),
    {
        ApiError { status: STATUS_INTERNAL, message: owned(message) }
    }

    pub fn internal_owned(message: String) -> (e: ApiError)
        ensures
            e.is_internal(message@),
    {
        ApiError { status: STATUS_INTERNAL, message }
    }
}

} // verus!
