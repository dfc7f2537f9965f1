//! The health RPC surface: entries in their wire form, listing, and lookup by
//! identifier text.
use vstd::prelude::*;

use crate::error::AppError;
use crate::health::{first_named, has_id, lemma_uptime_increases, uptime_at, HealthRegistry, ServiceHealth, ServiceStatus};
use crate::ids::{hyphenated, id_text, parse_id, parsed_id};

verus! {

/// Nanoseconds in one second.
pub const NANOS_PER_SEC: u64 = 1_000_000_000;

/// A duration on the wire: whole seconds and the remaining nanoseconds.
#[derive(Debug, Clone, Copy, PartialEq, Eq, Structural)]
pub struct WireDuration {
    pub seconds: i64,
    pub nanos: i32,
}

/// One entry on the wire.
#[derive(Debug)]
pub struct WireHealth {
    /// The identifier in its hyphenated text form.
    pub id: String,
    pub name: String,
    pub status: ServiceStatus,
    pub interval: WireDuration,
    pub uptime: WireDuration,
    pub version: Option<String>,
    pub message: Option<String>,
}

/// Wire form of a duration of `nanos` nanoseconds.
pub open spec fn wire_duration(nanos: u64) -> WireDuration {
    WireDuration {
        seconds: (nanos / NANOS_PER_SEC) as i64,
        nanos: (nanos % NANOS_PER_SEC) as i32,
    }
}

/// `w` is the wire form of `h` observed at the monotonic instant `now`.
pub open spec fn is_wire_of(w: WireHealth, h: ServiceHealth, now: u64) -> bool {
    &&& w.id@ == hyphenated(h.id)
    &&& w.name == h.name
    &&& w.status == h.status
    &&& w.interval == wire_duration(h.interval_nanos)
    &&& w.uptime == wire_duration(uptime_at(h, now))
    &&& w.version == h.version
    &&& w.message == h.message
}

/// Splits a duration of `nanos` nanoseconds into seconds and nanoseconds.
pub fn duration_of(nanos: u64) -> (r: WireDuration)
    ensures
        r == wire_duration(nanos),
{
    let seconds = nanos / NANOS_PER_SEC;
    let rest = nanos % NANOS_PER_SEC;
    WireDuration { seconds: seconds as i64, nanos: rest as i32 }
}

/// The wire form of an entry, with its uptime at the monotonic instant `now_nanos`.
pub fn to_proto(h: &ServiceHealth, now_nanos: u64) -> (r: WireHealth)
    ensures
        is_wire_of(r, *h, now_nanos),
{
    let copy = h.clone();
    WireHealth {
        id: id_text(h.id),
        name: copy.name,
        status: h.status,
        interval: duration_of(h.interval_nanos),
        uptime: duration_of(h.uptime(now_nanos)),
        version: copy.version,
        message: copy.message,
    }
}

/// Every registered entry in wire form, in iteration order.
pub fn list_health_services(registry: &HealthRegistry, now_nanos: u64) -> (r: Vec<WireHealth>)
    ensures
        r@.len() == registry@.len(),
        forall|i: int| 0 <= i < r@.len() ==> is_wire_of(#[trigger] r@[i], registry@[i], now_nanos),
{
    let entries = registry.list();
    let mut out: Vec<WireHealth> = Vec::new();
    let mut i: usize = 0;
    while i < entries.len()
        invariant
            0 <= i <= entries@.len(),
            entries@ == registry@,
            out@.len() == i,
            forall|j: int| 0 <= j < i ==> is_wire_of(#[trigger] out@[j], entries@[j], now_nanos),
        decreases entries@.len() - i,
    {
        out.push(to_proto(&entries[i], now_nanos));
        i += 1;
    }
    out
}

/// The identifier text of a request: empty when absent.
pub open spec fn requested(id: Option<&str>) -> Seq<char> {
    match id {
        Some(s) => s@,
        None => Seq::empty(),
    }
}

/// `r` is the error of kind `NotFound` with description `d`.
pub open spec fn is_not_found(r: Result<ServiceHealth, AppError>, d: Seq<char>) -> bool {
    match r {
        Err(AppError::NotFound(m)) => m@ == d,
        _ => false,
    }
}

/// `r` is the error of kind `InvalidArgument` with description `d`.
pub open spec fn is_invalid_argument(r: Result<ServiceHealth, AppError>, d: Seq<char>) -> bool {
    match r {
        Err(AppError::InvalidArgument(m)) => m@ == d,
        _ => false,
    }
}

/// `r` is what a lookup of the request `id` in the entries `s` yields. An absent
/// or empty identifier names the primary entry, the first one called `server`;
/// any other text must parse as an identifier, and names the entry that carries it.
pub open spec fn is_lookup_of(
    r: Result<ServiceHealth, AppError>,
    s: Seq<ServiceHealth>,
    id: Option<&str>,
) -> bool {
    if requested(id).len() == 0 {
        match first_named(s, "server"@) {
            Some(h) => r == Ok::<ServiceHealth, AppError>(h),
            None => is_not_found(r, "server service not registered"@),
        }
    } else {
        match parsed_id(requested(id)) {
            None => is_invalid_argument(r, "invalid uuid: "@ + requested(id)),
            Some(u) => if has_id(s, u) {
                exists|i: int|
                    0 <= i < s.len() && s[i].id == u && r == Ok::<ServiceHealth, AppError>(s[i])
            } else {
                is_not_found(r, "unknown service: "@ + requested(id))
            },
        }
    }
}

/// The entry that the request `id` names.
pub fn lookup_service(registry: &HealthRegistry, id: Option<&str>) -> (r: Result<
    ServiceHealth,
    AppError,
>)
    ensures
        is_lookup_of(r, registry@, id),
        forall|i: int|
            0 <= i < registry@.len() && requested(id) == hyphenated(registry@[i].id) ==> r == Ok::<
                ServiceHealth,
                AppError,
            >(registry@[i]),
{
    let text: &str = match id {
        Some(s) => s,
        None => "",
    };
    proof {
        reveal_strlit("");
    }
    assert(text@ =~= requested(id));
    if text.is_empty() {
        return match registry.get_by_name("server") {
            Some(h) => Ok(h),
            None => Err(AppError::NotFound(String::from_str("server service not registered"))),
        };
    }
    match parse_id(text) {
        None => {
            let mut m = String::from_str("invalid uuid: ");
            m.append(text);
            Err(AppError::InvalidArgument(m))
        },
        Some(u) => match registry.get(u) {
            Some(h) => {
                assert(exists|i: int| 0 <= i < registry@.len() && registry@[i].id == u);
                Ok(h)
            },
            None => {
                let mut m = String::from_str("unknown service: ");
                m.append(text);
                Err(AppError::NotFound(m))
            },
        },
    }
}

/// The wire form of the entry a request names (see `lookup_service`), with its
/// uptime at the monotonic instant `now_nanos`.
pub fn get_health_service(registry: &HealthRegistry, id: Option<&str>, now_nanos: u64) -> (r:
    Result<WireHealth, AppError>)
    ensures
        match r {
            Ok(w) => exists|h: ServiceHealth|
                is_lookup_of(Ok(h), registry@, id) && is_wire_of(w, h, now_nanos),
            Err(e) => is_lookup_of(Err(e), registry@, id),
        },
        forall|i: int|
            0 <= i < registry@.len() && requested(id) == hyphenated(registry@[i].id) ==> r.is_ok()
                && is_wire_of(r.unwrap(), registry@[i], now_nanos),
{
    match lookup_service(registry, id) {
        Ok(h) => {
            let w = to_proto(&h, now_nanos);
            assert(is_lookup_of(Ok(h), registry@, id) && is_wire_of(w, h, now_nanos));
            Ok(w)
        },
        Err(e) => Err(e),
    }
}

/// `a` is a longer duration than `b`: more seconds, or as many seconds and
/// more nanoseconds.
pub open spec fn is_longer(a: WireDuration, b: WireDuration) -> bool {
    a.seconds > b.seconds || (a.seconds == b.seconds && a.nanos > b.nanos)
}

/// A longer count of nanoseconds is a longer duration on the wire.
pub proof fn lemma_wire_duration_increases(a: u64, b: u64)
    requires
        a < b,
    ensures
        is_longer(wire_duration(b), wire_duration(a)),
{
    let n = NANOS_PER_SEC as int;
    let (qa, ra) = (a as int / n, a as int % n);
    let (qb, rb) = (b as int / n, b as int % n);
    assert(a as int == n * qa + ra && 0 <= ra < n) by (nonlinear_arith)
        requires n == 1_000_000_000, qa == a as int / n, ra == a as int % n;
    assert(b as int == n * qb + rb && 0 <= rb < n) by (nonlinear_arith)
        requires n == 1_000_000_000, qb == b as int / n, rb == b as int % n;
    assert(qa <= qb) by (nonlinear_arith)
        requires a < b, a as int == n * qa + ra, b as int == n * qb + rb, 0 <= ra < n, 0 <= rb < n, n > 0;
    assert(qa < qb || ra < rb) by (nonlinear_arith)
        requires a < b, a as int == n * qa + ra, b as int == n * qb + rb, qa <= qb;
    assert(0 <= qa <= qb <= 18_446_744_073) by (nonlinear_arith)
        requires b <= 0xffff_ffff_ffff_ffff, b as int == n * qb + rb, 0 <= rb < n, n == 1_000_000_000, qa <= qb, 0 <= a, a as int == n * qa + ra, 0 <= ra < n;
}

/// The wire uptime of an entry grows with the instant it is measured at, from
/// registration on.
pub proof fn lemma_wire_uptime_increases(h: ServiceHealth, t1: u64, t2: u64)
    requires
        h.registered_at_nanos <= t1 < t2,
    ensures
        is_longer(wire_duration(uptime_at(h, t2)), wire_duration(uptime_at(h, t1))),
{
    lemma_uptime_increases(h, t1, t2);
    lemma_wire_duration_increases(uptime_at(h, t1), uptime_at(h, t2));
}

} // verus!
