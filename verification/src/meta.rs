//! Decisions of the HTTP client's metadata layer: which headers and
//! statistics to set around a call of the inner service, and when a response
//! status is turned into an error.

use vstd::prelude::*;

verus! {

/// A service layer that wraps an inner service and looks after request
/// metadata on its behalf.
#[derive(Clone)]
pub struct MetaService<S> {
    inner: S,
}

impl<S> MetaService<S> {
    /// The wrapped service.
    pub closed spec fn inner_spec(&self) -> S {
        self.inner
    }

    /// Wraps `inner`.
    pub fn new(inner: S) -> (service: Self)
        ensures
            service.inner_spec() == inner,
    {
        Self { inner }
    }

    /// The wrapped service.
    pub fn inner(&self) -> (inner: &S)
        ensures
            *inner == self.inner_spec(),
    {
        &self.inner
    }

    /// Unwraps the service.
    pub fn into_inner(self) -> (inner: S)
        ensures
            inner == self.inner_spec(),
    {
        self.inner
    }
}

/// A status in the range 400 to 499.
pub open spec fn client_error(status: u16) -> bool {
    400 <= status < 500
}

/// A status in the range 500 to 599.
pub open spec fn server_error(status: u16) -> bool {
    500 <= status < 600
}

/// What the layer knows of a request before it is sent.
#[derive(Debug, Clone, Copy, PartialEq, Eq)]
pub struct RequestFacts {
    /// The body's exact length, where its size hint gives one.
    pub exact_len: Option<u64>,
    /// Whether the request already carries a `Content-Length` header.
    pub has_content_length: bool,
}

/// What the layer does to a request before handing it to the inner service.
#[derive(Debug, Clone, Copy, PartialEq, Eq)]
pub struct RequestPlan {
    /// The value of the `Content-Length` header to insert, if one is to be
    /// inserted.
    pub content_length: Option<u64>,
    /// The request size to record in the statistics, if one is to be
    /// recorded.
    pub request_size: Option<u64>,
}

/// What the layer knows of a response that the inner service returned.
#[derive(Debug, Clone, Copy, PartialEq, Eq)]
pub struct ResponseFacts {
    /// The response's status code.
    pub status: u16,
    /// The body's exact length, where its size hint gives one.
    pub exact_len: Option<u64>,
}

/// What the layer does once the inner service has returned.
#[derive(Debug, Clone, Copy, PartialEq, Eq)]
pub struct ResponsePlan {
    /// The status code to record in the statistics, if one is to be
    /// recorded.
    pub status_code: Option<u16>,
    /// The response size to record in the statistics, if one is to be
    /// recorded.
    pub response_size: Option<u64>,
    /// The status to report as an error in place of the response, if the
    /// response is to be rejected.
    pub error_status: Option<u16>,
}

/// Whether `status` lies in the range 400 to 499.
pub fn is_client_error(status: u16) -> (yes: bool)
    ensures
        yes == client_error(status),
{
    400 <= status && status < 500
}

/// Whether `status` lies in the range 500 to 599.
pub fn is_server_error(status: u16) -> (yes: bool)
    ensures
        yes == server_error(status),
{
    500 <= status && status < 600
}

/// Decides what to do to a request before the inner service sees it.
///
/// A `Content-Length` header is inserted when the body has an exact,
/// non-zero length and the request carries no such header yet. The request
/// size is recorded when statistics are enabled and the length is exact.
pub fn plan_request(facts: RequestFacts, stat_enabled: bool) -> (plan: RequestPlan)
    ensures
        plan.content_length == (if facts.exact_len is Some && facts.exact_len->0 > 0
            && !facts.has_content_length {
            facts.exact_len
        } else {
            None
        }),
        plan.request_size == (if stat_enabled {
            facts.exact_len
        } else {
            None
        }),
{
    let content_length = match facts.exact_len {
        Some(len) => {
            if len > 0 && !facts.has_content_length {
                Some(len)
            } else {
                None
            }
        },
        None => None,
    };
    let request_size = if stat_enabled {
        facts.exact_len
    } else {
        None
    };
    RequestPlan { content_length, request_size }
}

/// Decides what to do once the inner service has returned; `response` is
/// `None` when it returned an error, which is passed on as it is.
///
/// With statistics enabled, the status code of a response is recorded, and
/// its size where that is exact. Where the call is configured to fail on an
/// error status, a response whose status is a client or server error is
/// rejected and its status reported as the error.
pub fn plan_response(
    response: Option<ResponseFacts>,
    stat_enabled: bool,
    fail_on_error_status: bool,
) -> (plan: ResponsePlan)
    ensures
        plan.status_code == (if stat_enabled && response is Some {
            Some(response->0.status)
        } else {
            None
        }),
        plan.response_size == (if stat_enabled && response is Some {
            response->0.exact_len
        } else {
            None
        }),
        plan.error_status == (if fail_on_error_status && response is Some && (client_error(
            response->0.status,
        ) || server_error(response->0.status)) {
            Some(response->0.status)
        } else {
            None
        }),
{
    match response {
        Some(facts) => {
            let status_code = if stat_enabled {
                Some(facts.status)
            } else {
                None
            };
            let response_size = if stat_enabled {
                facts.exact_len
            } else {
                None
            };
            let rejected = fail_on_error_status && (is_client_error(facts.status)
                || is_server_error(facts.status));
            let error_status = if rejected {
                Some(facts.status)
            } else {
                None
            };
            ResponsePlan { status_code, response_size, error_status }
        },
        None => ResponsePlan { status_code: None, response_size: None, error_status: None },
    }
}

} // verus!
