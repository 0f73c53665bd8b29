//! The outcome of validating one URL, and the healthy-status policy.
//!
//! A response with status in `[200, 300)` is healthy; anything else —
//! redirects included — is reported broken with the numeric status. This
//! crate deliberately narrows the healthy range to `[200, 300)` rather than
//! tolerating redirects.

use vstd::prelude::*;

verus! {

/// Why a validated URL is reported broken: a response arrived with an
/// unhealthy status, or no response arrived at all.
pub enum Reason {
    /// A response was received, with this status code.
    Status(u16),
    /// A transport-level failure: connection error, timeout, DNS failure.
    Transport(String),
}

/// The mathematical shape of a [`Reason`].
pub enum ReasonModel {
    Status(u16),
    Transport(Seq<char>),
}

impl View for Reason {
    type V = ReasonModel;

    open spec fn view(&self) -> ReasonModel {
        match self {
            Reason::Status(s) => ReasonModel::Status(*s),
            Reason::Transport(m) => ReasonModel::Transport(m@),
        }
    }
}

impl DeepView for Reason {
    type V = ReasonModel;

    open spec fn deep_view(&self) -> ReasonModel {
        self.view()
    }
}

/// The outcome of validating one URL: healthy, or broken with the page that
/// referenced it and the reason.
pub enum CheckResult {
    Healthy { url: String },
    Failed { url: String, context_page: String, reason: Reason },
}

/// The mathematical shape of a [`CheckResult`].
pub enum CheckModel {
    Healthy { url: Seq<char> },
    Failed { url: Seq<char>, context_page: Seq<char>, reason: ReasonModel },
}

impl View for CheckResult {
    type V = CheckModel;

    open spec fn view(&self) -> CheckModel {
        match self {
            CheckResult::Healthy { url } => CheckModel::Healthy { url: url@ },
            CheckResult::Failed { url, context_page, reason } => CheckModel::Failed {
                url: url@,
                context_page: context_page@,
                reason: reason@,
            },
        }
    }
}

impl DeepView for CheckResult {
    type V = CheckModel;

    open spec fn deep_view(&self) -> CheckModel {
        self.view()
    }
}

/// The URL a check outcome is about.
pub open spec fn spec_result_url(c: CheckModel) -> Seq<char> {
    match c {
        CheckModel::Healthy { url } => url,
        CheckModel::Failed { url, .. } => url,
    }
}

/// Whether a check outcome reports a broken URL.
pub open spec fn spec_is_failed(c: CheckModel) -> bool {
    c is Failed
}

impl CheckResult {
    /// The URL this outcome is about.
    pub fn url(&self) -> (r: &String)
        ensures
            r@ == spec_result_url(self@),
    {
        match self {
            CheckResult::Healthy { url } => url,
            CheckResult::Failed { url, .. } => url,
        }
    }

    /// Whether this outcome reports a broken URL.
    pub fn is_failed(&self) -> (r: bool)
        ensures
            r == spec_is_failed(self@),
    {
        match self {
            CheckResult::Healthy { .. } => false,
            CheckResult::Failed { .. } => true,
        }
    }
}

/// The healthy range of HTTP statuses: `[200, 300)`.
pub open spec fn spec_healthy_status(status: u16) -> bool {
    200 <= status < 300
}

/// True iff `status` counts as a successful check outcome.
pub fn is_healthy_status(status: u16) -> (r: bool)
    ensures
        r == spec_healthy_status(status),
{
    200 <= status && status < 300
}

} // verus!
