//! Data model of the status surface: health probe outcomes, service
//! records, and the uniform response envelope, together with their
//! mathematical views.

use vstd::prelude::*;

verus! {

/// The fields this core reads from a service's health reply. The health
/// protocol hands back a loosely shaped object; every field is optional and
/// a missing field degrades to `None`, never to an error.
#[derive(Debug, PartialEq)]
pub struct HealthPayload {
    /// Status string self-reported by the service (any string is allowed).
    pub status: Option<String>,
    /// Version self-reported by the service.
    pub version: Option<String>,
    /// Uptime in seconds self-reported by the service.
    pub uptime_seconds: Option<u64>,
}

/// Mathematical view of `HealthPayload`.
#[verifier::ext_equal]
pub ghost struct HealthPayloadView {
    pub status: Option<Seq<char>>,
    pub version: Option<Seq<char>>,
    pub uptime_seconds: Option<u64>,
}

/// View of an optional owned string as an optional character sequence.
pub open spec fn opt_view(o: Option<String>) -> Option<Seq<char>> {
    match o {
        Some(s) => Some(s@),
        None => None,
    }
}

impl View for HealthPayload {
    type V = HealthPayloadView;

    open spec fn view(&self) -> HealthPayloadView {
        HealthPayloadView {
            status: opt_view(self.status),
            version: opt_view(self.version),
            uptime_seconds: self.uptime_seconds,
        }
    }
}

/// Outcome of one health probe of one service. Produced at the I/O edge,
/// consumed immediately by the classifier; never persisted.
#[derive(Debug, PartialEq)]
pub enum HealthResult {
    /// The health call completed and returned an envelope: `ok` is the
    /// envelope's verdict, `error` its optional error message, and
    /// `payload` the fields read from its result object (all empty when
    /// the service omitted the object).
    Responding { ok: bool, error: Option<String>, payload: HealthPayload },
    /// The endpoint exists but the connection could not be opened or the
    /// call itself failed; `message` is the transport error text.
    ConnectError { message: String },
    /// No control endpoint exists for the service at all.
    NotInstalled,
}

/// Mathematical view of `HealthResult`.
#[verifier::ext_equal]
pub ghost enum HealthResultView {
    Responding { ok: bool, error: Option<Seq<char>>, payload: HealthPayloadView },
    ConnectError { message: Seq<char> },
    NotInstalled,
}

impl View for HealthResult {
    type V = HealthResultView;

    open spec fn view(&self) -> HealthResultView {
        match self {
            HealthResult::Responding { ok, error, payload } => HealthResultView::Responding {
                ok: *ok,
                error: opt_view(*error),
                payload: payload@,
            },
            HealthResult::ConnectError { message } => HealthResultView::ConnectError {
                message: message@,
            },
            HealthResult::NotInstalled => HealthResultView::NotInstalled,
        }
    }
}

/// Everything the aggregation needs to know about one installed service
/// for one listing cycle: its name, its control address, whether an
/// endpoint exists at that address, and the probe's outcome.
#[derive(Debug, PartialEq)]
pub struct ProbeOutcome {
    pub name: String,
    pub socket_path: String,
    pub endpoint_exists: bool,
    pub result: HealthResult,
}

/// Mathematical view of `ProbeOutcome`.
#[verifier::ext_equal]
pub ghost struct ProbeOutcomeView {
    pub name: Seq<char>,
    pub socket_path: Seq<char>,
    pub endpoint_exists: bool,
    pub result: HealthResultView,
}

impl View for ProbeOutcome {
    type V = ProbeOutcomeView;

    open spec fn view(&self) -> ProbeOutcomeView {
        ProbeOutcomeView {
            name: self.name@,
            socket_path: self.socket_path@,
            endpoint_exists: self.endpoint_exists,
            result: self.result@,
        }
    }
}

/// One entry of the listing: a service together with its classified
/// status for the current probe cycle.
#[derive(Debug, PartialEq)]
pub struct ServiceInfo {
    pub name: String,
    pub status: String,
    pub version: Option<String>,
    pub uptime_seconds: Option<u64>,
    pub socket_path: String,
}

/// Mathematical view of `ServiceInfo`.
#[verifier::ext_equal]
pub ghost struct ServiceInfoView {
    pub name: Seq<char>,
    pub status: Seq<char>,
    pub version: Option<Seq<char>>,
    pub uptime_seconds: Option<u64>,
    pub socket_path: Seq<char>,
}

impl View for ServiceInfo {
    type V = ServiceInfoView;

    open spec fn view(&self) -> ServiceInfoView {
        ServiceInfoView {
            name: self.name@,
            status: self.status@,
            version: opt_view(self.version),
            uptime_seconds: self.uptime_seconds,
            socket_path: self.socket_path@,
        }
    }
}

/// Uniform response envelope: exactly one of `data` and `error` is
/// populated, according to `ok`.
#[derive(Debug, PartialEq)]
pub struct ApiResponse<T> {
    pub ok: bool,
    pub data: Option<T>,
    pub error: Option<String>,
}

impl<T> ApiResponse<T> {
    /// The envelope invariant: `ok` holds exactly when `data` is present,
    /// and fails exactly when `error` is present.
    pub open spec fn wf(&self) -> bool {
        &&& self.ok <==> self.data is Some
        &&& !self.ok <==> self.error is Some
    }

    /// Affirmative envelope carrying `data`.
    pub fn success(data: T) -> (r: Self)
        ensures
            r.ok,
            r.data == Some(data),
            r.error is None,
            r.wf(),
    {
        ApiResponse { ok: true, data: Some(data), error: None }
    }

    /// Negative envelope carrying exactly the given message.
    pub fn error(message: &str) -> (r: Self)
        ensures
            !r.ok,
            r.data is None,
            r.error matches Some(m) && m@ == message@,
            r.wf(),
    {
        ApiResponse { ok: false, data: None, error: Some(String::from_str(message)) }
    }
}

} // verus!
