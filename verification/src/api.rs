//! The status surface itself: classification of probe outcomes into the
//! status vocabulary, the directory-wide listing, the single-service
//! health detail, and the start/stop control relay.

use vstd::prelude::*;
use crate::model::{
    ApiResponse, HealthPayload, HealthResult, HealthResultView, ProbeOutcome, ProbeOutcomeView,
    ServiceInfo, ServiceInfoView, opt_view,
};
use crate::sort::{
    distinct_names, lemma_sorted_listing_canonical, recs, sort_by_name, sorted_by_name,
};

verus! {

/// Status precedence, first match wins: no endpoint means cleanly stopped;
/// an endpoint that cannot be talked to is unreachable; a reply with a
/// negative envelope is unhealthy; an affirmative reply reports the
/// payload's own status, defaulting to running, together with whatever
/// version and uptime the payload carries.
pub open spec fn classify_view(endpoint_exists: bool, result: HealthResultView) -> (Seq<char>,
    Option<Seq<char>>,
    Option<u64>) {
    if !endpoint_exists {
        ("stopped"@, None, None)
    } else {
        match result {
            HealthResultView::Responding { ok, error, payload } => {
                if ok {
                    (
                        match payload.status {
                            Some(s) => s,
                            None => "running"@,
                        },
                        payload.version,
                        payload.uptime_seconds,
                    )
                } else {
                    ("unhealthy"@, None, None)
                }
            },
            HealthResultView::ConnectError { message } => ("unreachable"@, None, None),
            HealthResultView::NotInstalled => ("stopped"@, None, None),
        }
    }
}

/// Classifies one probe outcome into `(status, version, uptime_seconds)`.
pub fn classify(endpoint_exists: bool, result: &HealthResult) -> (r: (String, Option<String>,
    Option<u64>))
    ensures
        (r.0@, opt_view(r.1), r.2) == classify_view(endpoint_exists, result@),
        // a service with no live endpoint is stopped and reports nothing
        !endpoint_exists ==> r.0@ == "stopped"@ && r.1 is None && r.2 is None,
        // an endpoint that does not answer is unreachable — a distinct
        // status from stopped
        endpoint_exists && result@ is ConnectError ==> r.0@ == "unreachable"@ && r.0@
            != "stopped"@,
{
    if !endpoint_exists {
        (String::from_str("stopped"), None, None)
    } else {
        match result {
            HealthResult::Responding { ok, error: _, payload } => {
                if *ok {
                    let status = match &payload.status {
                        Some(s) => s.clone(),
                        None => String::from_str("running"),
                    };
                    let version = match &payload.version {
                        Some(v) => Some(v.clone()),
                        None => None,
                    };
                    (status, version, payload.uptime_seconds)
                } else {
                    (String::from_str("unhealthy"), None, None)
                }
            },
            HealthResult::ConnectError { message: _ } => {
                proof {
                    // the two labels differ already in length
                    reveal_strlit("stopped");
                    reveal_strlit("unreachable");
                    assert("unreachable"@.len() != "stopped"@.len());
                }
                (String::from_str("unreachable"), None, None)
            },
            HealthResult::NotInstalled => (String::from_str("stopped"), None, None),
        }
    }
}

/// The record the listing shows for one probe outcome.
pub open spec fn record_of(p: ProbeOutcomeView) -> ServiceInfoView {
    ServiceInfoView {
        name: p.name,
        status: classify_view(p.endpoint_exists, p.result).0,
        version: classify_view(p.endpoint_exists, p.result).1,
        uptime_seconds: classify_view(p.endpoint_exists, p.result).2,
        socket_path: p.socket_path,
    }
}

/// The views of a sequence of probe outcomes.
pub open spec fn probe_views(ps: Seq<ProbeOutcome>) -> Seq<ProbeOutcomeView> {
    ps.map_values(|p: ProbeOutcome| p@)
}

/// The records the listing shows for a sequence of probe outcomes.
pub open spec fn records_of(ps: Seq<ProbeOutcomeView>) -> Seq<ServiceInfoView> {
    ps.map_values(|p: ProbeOutcomeView| record_of(p))
}

/// Builds the directory-wide listing from this cycle's probe outcomes:
/// every probed service appears, classified, and the records come back
/// sorted ascending by name whatever order the probes arrived in. The
/// listing never fails: probing errors are absorbed into each record's
/// status, and an empty registry yields an affirmative empty listing.
pub fn list_services(probes: &Vec<ProbeOutcome>) -> (resp: ApiResponse<Vec<ServiceInfo>>)
    ensures
        resp.ok,
        resp.wf(),
        resp.error is None,
        resp.data is Some,
        sorted_by_name(recs(resp.data.unwrap()@)),
        recs(resp.data.unwrap()@).to_multiset() == records_of(probe_views(probes@)).to_multiset(),
        resp.data.unwrap()@.len() == probes@.len(),
        // zero installed services yield an affirmative empty listing
        probes@.len() == 0 ==> resp.data.unwrap()@.len() == 0,
{
    let mut records: Vec<ServiceInfo> = Vec::new();
    let mut i: usize = 0;
    while i < probes.len()
        invariant
            i <= probes@.len(),
            records@.len() == i,
            forall|j: int| 0 <= j < i ==> recs(records@)[j] == record_of(
                #[trigger] probes@[j]@,
            ),
        decreases probes@.len() - i,
    {
        let p = &probes[i];
        let (status, version, uptime) = classify(p.endpoint_exists, &p.result);
        let rec = ServiceInfo {
            name: p.name.clone(),
            status,
            version,
            uptime_seconds: uptime,
            socket_path: p.socket_path.clone(),
        };
        proof {
            assert(rec@ =~= record_of(probes@[i as int]@));
        }
        records.push(rec);
        i += 1;
    }
    proof {
        assert(recs(records@) =~= records_of(probe_views(probes@)));
    }
    let sorted = sort_by_name(records);
    ApiResponse::success(sorted)
}

/// The message shown when a health detail is asked of a service with no
/// control endpoint.
pub open spec fn not_running_message(name: Seq<char>) -> Seq<char> {
    "Service '"@ + name + "' is not running"@
}

/// HTTP outcome of the single-service health detail: a status code and
/// the response envelope. A service with no endpoint at all is not found;
/// a present endpoint that cannot be talked to, or a negative reply, is a
/// server-side error carrying the respective message; an affirmative
/// reply passes the payload through unreduced.
pub fn service_health(service: &str, probe: HealthResult) -> (r: (u16, ApiResponse<HealthPayload>))
    ensures
        r.1.wf(),
        r.0 == 200 <==> r.1.ok,
        // a name with no endpoint is not found
        probe@ is NotInstalled ==> r.0 == 404 && !r.1.ok && (r.1.error matches Some(m) && m@
            == not_running_message(service@) && m@.len() > 0),
        // an affirmative reply passes the payload through unmodified; a
        // negative reply is a server-side error with the service's own
        // error message
        probe@ matches HealthResultView::Responding { ok, error, payload } ==> ((ok ==> r.0 == 200
            && r.1.ok && (r.1.data matches Some(p) && p@ == payload)) && (!ok ==> r.0 == 500
            && !r.1.ok && (r.1.error matches Some(m) && m@ == (match error {
            Some(e) => e,
            None => Seq::<char>::empty(),
        })))),
        // a transport failure: its error text
        probe@ matches HealthResultView::ConnectError { message } ==> r.0 == 500 && !r.1.ok && (
        r.1.error matches Some(m) && m@ == message),
{
    match probe {
        HealthResult::NotInstalled => {
            let msg = String::from_str("Service '").concat(service).concat("' is not running");
            proof {
                reveal_strlit("Service '");
            }
            (404, ApiResponse::error(msg.as_str()))
        },
        HealthResult::Responding { ok, error, payload } => {
            if ok {
                (200, ApiResponse::success(payload))
            } else {
                let msg = match error {
                    Some(e) => e,
                    None => String::new(),
                };
                (500, ApiResponse::error(msg.as_str()))
            }
        },
        HealthResult::ConnectError { message } => (500, ApiResponse::error(message.as_str())),
    }
}

/// The affirmative message of a start relay.
pub open spec fn started_message(name: Seq<char>) -> Seq<char> {
    "Service '"@ + name + "' started"@
}

/// The affirmative message of a stop relay.
pub open spec fn stopped_message(name: Seq<char>) -> Seq<char> {
    "Service '"@ + name + "' stopped"@
}

/// The message surfaced when the supervisor denies an operation: its own
/// message when it gave one, otherwise a fixed human-readable text — a
/// denied operation is never silently swallowed.
pub open spec fn control_failure_message(e: Seq<char>) -> Seq<char> {
    if e.len() > 0 {
        e
    } else {
        "the supervisor reported no error message"@
    }
}

/// Relays a start outcome from the supervisor into the API's result
/// shape: affirmative with a message on success, a server-side error
/// carrying a non-empty message on denial.
pub fn start_service(service: &str, outcome: Result<(), String>) -> (r: (u16, ApiResponse<String>))
    ensures
        r.1.wf(),
        r.0 == 200 <==> r.1.ok,
        outcome is Ok ==> r.0 == 200 && r.1.ok && (r.1.data matches Some(m) && m@
            == started_message(service@)),
        outcome matches Err(e) ==> r.0 == 500 && !r.1.ok && r.1.data is None && (
        r.1.error matches Some(m) && m@ == control_failure_message(e@) && m@.len() > 0),
{
    match outcome {
        Ok(()) => {
            let msg = String::from_str("Service '").concat(service).concat("' started");
            (200, ApiResponse::success(msg))
        },
        Err(e) => (500, control_failure(e)),
    }
}

/// Relays a stop outcome from the supervisor, exactly as `start_service`
/// relays a start outcome.
pub fn stop_service(service: &str, outcome: Result<(), String>) -> (r: (u16, ApiResponse<String>))
    ensures
        r.1.wf(),
        r.0 == 200 <==> r.1.ok,
        outcome is Ok ==> r.0 == 200 && r.1.ok && (r.1.data matches Some(m) && m@
            == stopped_message(service@)),
        outcome matches Err(e) ==> r.0 == 500 && !r.1.ok && r.1.data is None && (
        r.1.error matches Some(m) && m@ == control_failure_message(e@) && m@.len() > 0),
{
    match outcome {
        Ok(()) => {
            let msg = String::from_str("Service '").concat(service).concat("' stopped");
            (200, ApiResponse::success(msg))
        },
        Err(e) => (500, control_failure(e)),
    }
}

/// The negative envelope of a denied control operation.
fn control_failure(e: String) -> (resp: ApiResponse<String>)
    ensures
        resp.wf(),
        !resp.ok,
        resp.data is None,
        resp.error matches Some(m) && m@ == control_failure_message(e@) && m@.len() > 0,
{
    let msg = if e.as_str().is_empty() {
        String::from_str("the supervisor reported no error message")
    } else {
        e
    };
    proof {
        reveal_strlit("the supervisor reported no error message");
    }
    ApiResponse::error(msg.as_str())
}

/// Distinct names carry over to any reordering: a sequence holding the
/// same records as one with pairwise distinct names has pairwise distinct
/// names itself.
pub proof fn lemma_distinct_names_transfer(x: Seq<ServiceInfoView>, y: Seq<ServiceInfoView>)
    requires
        x.to_multiset() == y.to_multiset(),
        distinct_names(x),
    ensures
        distinct_names(y),
{
    assert forall|i: int, j: int| 0 <= i < j < y.len() implies y[i].name != y[j].name by {
        if y[i].name == y[j].name {
            if y[i] == y[j] {
                // the record would occur twice, so it would occur twice in `x`
                vstd::seq_lib::to_multiset_remove(y, i);
                assert(y.remove(i)[j - 1] == y[j]);
                assert(y.remove(i).contains(y[j]));
                vstd::seq_lib::to_multiset_contains(y.remove(i), y[j]);
                assert(y.to_multiset().count(y[j]) >= 2);
                assert(x.to_multiset().count(y[j]) >= 2);
                vstd::seq_lib::to_multiset_contains(x, y[j]);
                assert(x.contains(y[j]));
                let k = choose|k: int| 0 <= k < x.len() && x[k] == y[j];
                vstd::seq_lib::to_multiset_remove(x, k);
                assert(x.remove(k).to_multiset().count(y[j]) >= 1);
                vstd::seq_lib::to_multiset_contains(x.remove(k), y[j]);
                assert(x.remove(k).contains(y[j]));
                let l = choose|l: int| 0 <= l < x.remove(k).len() && x.remove(k)[l] == y[j];
                let l2: int = if l < k {
                    l
                } else {
                    l + 1
                };
                assert(x[l2] == y[j]);
                assert(l2 != k);
                assert(x[l2].name == x[k].name);
            } else {
                // two different records with one name would both stand in `x`
                vstd::seq_lib::to_multiset_contains(y, y[i]);
                vstd::seq_lib::to_multiset_contains(y, y[j]);
                vstd::seq_lib::to_multiset_contains(x, y[i]);
                vstd::seq_lib::to_multiset_contains(x, y[j]);
                assert(y.contains(y[i]));
                assert(y.contains(y[j]));
                assert(x.contains(y[i]));
                assert(x.contains(y[j]));
                let k = choose|k: int| 0 <= k < x.len() && x[k] == y[i];
                let l = choose|l: int| 0 <= l < x.len() && x[l] == y[j];
                assert(k != l);
                assert(x[k].name == x[l].name);
            }
        }
    }
}

/// Listing output is canonical. Any two listings that satisfy
/// `list_services`'s postcondition for probe collections carrying the
/// same records — the same services, in whatever discovery order — are
/// identical, provided service names are distinct (names are the unique
/// identifiers of services). In particular two immediately consecutive
/// listings over unchanged probe outcomes agree exactly.
pub proof fn lemma_listing_order_independent(
    p: Seq<ProbeOutcomeView>,
    q: Seq<ProbeOutcomeView>,
    a: Seq<ServiceInfoView>,
    b: Seq<ServiceInfoView>,
)
    requires
        records_of(p).to_multiset() == records_of(q).to_multiset(),
        distinct_names(records_of(p)),
        sorted_by_name(a),
        a.to_multiset() == records_of(p).to_multiset(),
        sorted_by_name(b),
        b.to_multiset() == records_of(q).to_multiset(),
    ensures
        a == b,
{
    lemma_distinct_names_transfer(records_of(p), a);
    lemma_sorted_listing_canonical(a, b);
}

} // verus!
