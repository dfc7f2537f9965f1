use vstd::prelude::*;

use crate::ids::random_id;
use crate::text::opt_view;
use std::collections::HashSet;

verus! {

/// Two-valued health of a tracked service.
#[derive(Debug, Clone, Copy, PartialEq, Eq, Structural)]
pub enum ServiceStatus {
    Serving,
    NotServing,
}

/// How one execution of a check function ended, as seen by the probe runner.
#[derive(Debug, Clone)]
pub enum ProbeOutcome {
    /// The check completed with success before the timeout.
    Passed,
    /// The check completed with an error description before the timeout.
    Failed(String),
    /// The check did not complete before the timeout.
    TimedOut,
}

/// Upper bound, in milliseconds, on how long one probe may run.
pub const PROBE_TIMEOUT_MILLIS: u64 = 5000;

/// The message recorded for a probe that ran out of time.
pub open spec fn timeout_text() -> Seq<char> {
    "probe timed out"@
}

/// Status and message that a probe outcome reduces to.
pub open spec fn verdict(outcome: ProbeOutcome) -> (ServiceStatus, Option<Seq<char>>) {
    match outcome {
        ProbeOutcome::Passed => (ServiceStatus::Serving, None),
        ProbeOutcome::Failed(err) => (ServiceStatus::NotServing, Some(err@)),
        ProbeOutcome::TimedOut => (ServiceStatus::NotServing, Some(timeout_text())),
    }
}

/// Reduces a probe outcome to the status and message it stands for.
pub fn probe_verdict(outcome: ProbeOutcome) -> (r: (ServiceStatus, Option<String>))
    ensures
        r.0 == verdict(outcome).0,
        opt_view(r.1) == verdict(outcome).1,
{
    match outcome {
        ProbeOutcome::Passed => (ServiceStatus::Serving, None),
        ProbeOutcome::Failed(err) => (ServiceStatus::NotServing, Some(err)),
        ProbeOutcome::TimedOut => {
            (ServiceStatus::NotServing, Some(String::from_str("probe timed out")))
        },
    }
}

/// One registered service and the latest result of its probe.
///
/// Durations and instants are counted in nanoseconds; instants are read from a
/// monotonic clock whose origin is fixed for the life of the process.
#[derive(Debug)]
pub struct ServiceHealth {
    /// Process-unique identifier, drawn at registration.
    pub id: u128,
    /// Human-readable label; several entries may share one.
    pub name: String,
    pub status: ServiceStatus,
    /// Period of the recurring probe, fixed at registration.
    pub interval_nanos: u64,
    /// Monotonic instant of registration.
    pub registered_at_nanos: u64,
    /// Free-form version text attached at registration.
    pub version: Option<String>,
    /// Diagnostic text of the latest failed probe.
    pub message: Option<String>,
}

/// Copies an optional string.
fn copy_text(o: &Option<String>) -> (r: Option<String>)
    ensures
        r == *o,
{
    match o {
        Some(s) => Some(s.clone()),
        None => None,
    }
}

impl Clone for ServiceHealth {
    fn clone(&self) -> (r: Self)
        ensures
            r == *self,
    {
        ServiceHealth {
            id: self.id,
            name: self.name.clone(),
            status: self.status,
            interval_nanos: self.interval_nanos,
            registered_at_nanos: self.registered_at_nanos,
            version: copy_text(&self.version),
            message: copy_text(&self.message),
        }
    }
}

/// Time elapsed between registration and `now`; zero for an instant before registration.
pub open spec fn uptime_at(h: ServiceHealth, now: u64) -> u64 {
    if now >= h.registered_at_nanos {
        (now - h.registered_at_nanos) as u64
    } else {
        0
    }
}

impl ServiceHealth {
    /// Elapsed time since registration, measured at the monotonic instant `now_nanos`.
    /// It never resets when a probe fails.
    pub fn uptime(&self, now_nanos: u64) -> (r: u64)
        ensures
            r == uptime_at(*self, now_nanos),
    {
        now_nanos.saturating_sub(self.registered_at_nanos)
    }
}

/// Whether some entry of `s` carries identifier `id`.
pub open spec fn has_id(s: Seq<ServiceHealth>, id: u128) -> bool {
    exists|i: int| 0 <= i < s.len() && s[i].id == id
}

/// No two entries of `s` share an identifier.
pub open spec fn ids_unique(s: Seq<ServiceHealth>) -> bool {
    forall|i: int, j: int| 0 <= i < s.len() && 0 <= j < s.len() && i != j ==> s[i].id != s[j].id
}

/// `h` is the entry that a registration with these arguments creates.
pub open spec fn is_new_entry(
    h: ServiceHealth,
    id: u128,
    name: String,
    interval_nanos: u64,
    version: Option<String>,
    outcome: ProbeOutcome,
    now_nanos: u64,
) -> bool {
    &&& h.id == id
    &&& h.name == name
    &&& h.status == verdict(outcome).0
    &&& opt_view(h.message) == verdict(outcome).1
    &&& h.interval_nanos == interval_nanos
    &&& h.registered_at_nanos == now_nanos
    &&& h.version == version
}

/// `after` is `before` with one entry added at the end, under the new identifier `id`.
pub open spec fn is_appended(before: Seq<ServiceHealth>, after: Seq<ServiceHealth>, id: u128) -> bool {
    &&& !has_id(before, id)
    &&& after.len() == before.len() + 1
    &&& after.drop_last() == before
    &&& after.last().id == id
}

/// `after` is `before` without the entry carrying `id`, or `before` itself when
/// there is none.
pub open spec fn is_removal(before: Seq<ServiceHealth>, after: Seq<ServiceHealth>, id: u128) -> bool {
    &&& forall|i: int| 0 <= i < before.len() && before[i].id == id ==> after == before.remove(i)
    &&& !has_id(before, id) ==> after == before
}

/// `after` is `before` with its status and message replaced by what `outcome` reduces to.
pub open spec fn is_probed(after: ServiceHealth, before: ServiceHealth, outcome: ProbeOutcome) -> bool {
    &&& after.id == before.id
    &&& after.name == before.name
    &&& after.interval_nanos == before.interval_nanos
    &&& after.registered_at_nanos == before.registered_at_nanos
    &&& after.version == before.version
    &&& after.status == verdict(outcome).0
    &&& opt_view(after.message) == verdict(outcome).1
}

/// The first entry of `s` whose name is `name`, if any.
pub open spec fn first_named(s: Seq<ServiceHealth>, name: Seq<char>) -> Option<ServiceHealth>
    decreases s.len(),
{
    if s.len() == 0 {
        None
    } else if s[0].name@ == name {
        Some(s[0])
    } else {
        first_named(s.drop_first(), name)
    }
}

/// Text naming a failing entry: `name: message`, or the bare name without a message.
pub open spec fn failure_text(h: ServiceHealth) -> Seq<char> {
    match h.message {
        Some(m) => h.name@ + ": "@ + m@,
        None => h.name@,
    }
}

/// Texts naming the entries of `s` that are not serving, in order.
pub open spec fn failure_texts(s: Seq<ServiceHealth>) -> Seq<Seq<char>>
    decreases s.len(),
{
    if s.len() == 0 {
        Seq::empty()
    } else if s.last().status == ServiceStatus::NotServing {
        failure_texts(s.drop_last()).push(failure_text(s.last()))
    } else {
        failure_texts(s.drop_last())
    }
}

/// `parts` with `sep` between each pair of neighbours.
pub open spec fn joined(parts: Seq<Seq<char>>, sep: Seq<char>) -> Seq<char>
    decreases parts.len(),
{
    if parts.len() == 0 {
        Seq::empty()
    } else if parts.len() == 1 {
        parts[0]
    } else {
        joined(parts.drop_last(), sep) + sep + parts.last()
    }
}

/// Aggregate status and message of the entries `s`.
pub open spec fn aggregate_of(s: Seq<ServiceHealth>) -> (ServiceStatus, Option<Seq<char>>) {
    let parts = failure_texts(s);
    if parts.len() == 0 {
        (ServiceStatus::Serving, None)
    } else {
        (ServiceStatus::NotServing, Some(joined(parts, "; "@)))
    }
}

/// A status with its optional message, as reported for one entry or for all.
#[derive(Debug)]
pub struct HealthSummary {
    pub status: ServiceStatus,
    pub message: Option<String>,
}

/// The table of registered services.
///
/// Its view is the sequence of entries in iteration order; identifiers are unique.
pub struct HealthRegistry {
    entries: Vec<ServiceHealth>,
    issued: HashSet<u128>,
}

/// The entries `s` carry pairwise distinct identifiers, each one among `issued`.
pub open spec fn well_keyed(s: Seq<ServiceHealth>, issued: Set<u128>) -> bool {
    &&& ids_unique(s)
    &&& forall|i: int| 0 <= i < s.len() ==> issued.contains(#[trigger] s[i].id)
}

impl View for HealthRegistry {
    type V = Seq<ServiceHealth>;

    closed spec fn view(&self) -> Seq<ServiceHealth> {
        self.entries@
    }
}

impl HealthRegistry {
    #[verifier::type_invariant]
    spec fn inv(&self) -> bool {
        well_keyed(self.entries@, self.issued@)
    }

    /// Every identifier this registry has handed out, including those of
    /// entries since removed; none is handed out twice.
    pub closed spec fn issued(&self) -> Set<u128> {
        self.issued@
    }

    /// An empty registry that has handed out no identifier.
    pub fn new() -> (r: Self)
        ensures
            r@ == Seq::<ServiceHealth>::empty(),
            r.issued() == Set::<u128>::empty(),
            well_keyed(r@, r.issued()),
    {
        HealthRegistry { entries: Vec::new(), issued: HashSet::new() }
    }

    /// Index of the entry with identifier `id`, if any.
    fn position(&self, id: u128) -> (r: Option<usize>)
        ensures
            match r {
                Some(i) => i < self@.len() && self@[i as int].id == id,
                None => !has_id(self@, id),
            },
    {
        let mut i: usize = 0;
        while i < self.entries.len()
            invariant
                0 <= i <= self.entries@.len(),
                forall|j: int| 0 <= j < i ==> self.entries@[j].id != id,
            decreases self.entries@.len() - i,
        {
            if self.entries[i].id == id {
                return Some(i);
            }
            i += 1;
        }
        None
    }

    /// Adds an entry under identifier `id`, unless this registry has handed
    /// that identifier out before. Returns whether the entry was added.
    pub fn register_with_id(
        &mut self,
        id: u128,
        name: String,
        interval_nanos: u64,
        version: Option<String>,
        outcome: ProbeOutcome,
        now_nanos: u64,
    ) -> (added: bool)
        ensures
            added == !old(self).issued().contains(id),
            added ==> is_appended(old(self)@, final(self)@, id),
            added ==> is_new_entry(
                final(self)@.last(),
                id,
                name,
                interval_nanos,
                version,
                outcome,
                now_nanos,
            ),
            added ==> final(self).issued() == old(self).issued().insert(id),
            !added ==> final(self)@ == old(self)@ && final(self).issued() == old(self).issued(),
            well_keyed(final(self)@, final(self).issued()),
    {
        broadcast use vstd::std_specs::hash::group_hash_axioms;

        proof { use_type_invariant(&*self); }
        if self.issued.contains(&id) {
            return false;
        }
        assert(!has_id(self@, id));
        let (status, message) = probe_verdict(outcome);
        let entry = ServiceHealth {
            id,
            name,
            status,
            interval_nanos,
            registered_at_nanos: now_nanos,
            version,
            message,
        };
        let mut entries = Vec::new();
        std::mem::swap(&mut entries, &mut self.entries);
        let mut issued = HashSet::new();
        std::mem::swap(&mut issued, &mut self.issued);
        entries.push(entry);
        issued.insert(id);
        assert(entries@.drop_last() =~= old(self)@);
        self.issued = issued;
        self.entries = entries;
        proof { use_type_invariant(&*self); }
        true
    }

    /// Registers a service under a freshly drawn identifier, with the status and
    /// message of its first probe, and returns that identifier. Should the drawn
    /// identifier have been handed out before, nothing is added and `None` comes
    /// back; a registry that has handed out none always succeeds.
    pub fn register(
        &mut self,
        name: String,
        interval_nanos: u64,
        version: Option<String>,
        outcome: ProbeOutcome,
        now_nanos: u64,
    ) -> (r: Option<u128>)
        ensures
            old(self).issued() == Set::<u128>::empty() ==> r.is_some(),
            match r {
                Some(id) => {
                    &&& !old(self).issued().contains(id)
                    &&& final(self).issued() == old(self).issued().insert(id)
                    &&& is_appended(old(self)@, final(self)@, id)
                    &&& is_new_entry(
                        final(self)@.last(),
                        id,
                        name,
                        interval_nanos,
                        version,
                        outcome,
                        now_nanos,
                    )
                },
                None => final(self)@ == old(self)@ && final(self).issued() == old(self).issued(),
            },
            well_keyed(final(self)@, final(self).issued()),
    {
        let id = random_id();
        if self.register_with_id(id, name, interval_nanos, version, outcome, now_nanos) {
            Some(id)
        } else {
            None
        }
    }

    /// Removes the entry with identifier `id`; does nothing when there is none.
    pub fn deregister(&mut self, id: u128)
        ensures
            is_removal(old(self)@, final(self)@, id),
            !has_id(final(self)@, id),
            final(self).issued() == old(self).issued(),
            well_keyed(final(self)@, final(self).issued()),
    {
        proof { use_type_invariant(&*self); }
        match self.position(id) {
            None => {},
            Some(i) => {
                let mut entries = Vec::new();
                std::mem::swap(&mut entries, &mut self.entries);
                entries.remove(i);
                self.entries = entries;
                proof { use_type_invariant(&*self); }
                assert(!has_id(self@, id)) by {
                    assert forall|k: int| 0 <= k < self@.len() implies self@[k].id != id by {
                        if k < i {
                            assert(self@[k] == old(self)@[k]);
                        } else {
                            assert(self@[k] == old(self)@[k + 1]);
                        }
                    }
                }
            },
        }
    }

    /// The entry with identifier `id`, if any.
    pub fn get(&self, id: u128) -> (r: Option<ServiceHealth>)
        ensures
            r.is_some() == has_id(self@, id),
            forall|i: int| 0 <= i < self@.len() && self@[i].id == id ==> r == Some(self@[i]),
    {
        proof { use_type_invariant(self); }
        match self.position(id) {
            Some(i) => Some(self.entries[i].clone()),
            None => None,
        }
    }

    /// The first entry, in iteration order, whose name is `name`, if any.
    pub fn get_by_name(&self, name: &str) -> (r: Option<ServiceHealth>)
        ensures
            r == first_named(self@, name@),
    {
        let target = name.to_owned();
        let mut i: usize = 0;
        assert(self.entries@.skip(0) =~= self.entries@);
        while i < self.entries.len()
            invariant
                0 <= i <= self.entries@.len(),
                target@ == name@,
                first_named(self.entries@, name@) == first_named(self.entries@.skip(i as int), name@),
            decreases self.entries@.len() - i,
        {
            assert(self.entries@.skip(i as int)[0] == self.entries@[i as int]);
            if self.entries[i].name == target {
                return Some(self.entries[i].clone());
            }
            assert(self.entries@.skip(i as int).drop_first() =~= self.entries@.skip(i + 1));
            i += 1;
        }
        assert(self.entries@.skip(i as int) =~= Seq::<ServiceHealth>::empty());
        None
    }

    /// Status and message of the entry named `service` (the first one, in
    /// iteration order). The empty name stands for the primary entry, the one
    /// named `server`; the status of all entries together is `aggregate`.
    pub fn check(&self, service: &str) -> (r: Option<HealthSummary>)
        ensures
            match first_named(self@, if service@.len() == 0 { "server"@ } else { service@ }) {
                Some(h) => r == Some(HealthSummary { status: h.status, message: h.message }),
                None => r.is_none(),
            },
    {
        let name = if service.is_empty() {
            "server"
        } else {
            service
        };
        match self.get_by_name(name) {
            Some(h) => Some(HealthSummary { status: h.status, message: h.message }),
            None => None,
        }
    }

    /// The aggregate status of all entries: serving when every entry serves;
    /// otherwise not serving, with a message naming each failing entry.
    pub fn aggregate(&self) -> (r: HealthSummary)
        ensures
            r.status == aggregate_of(self@).0,
            opt_view(r.message) == aggregate_of(self@).1,
    {
        let mut text = String::new();
        let mut count: usize = 0;
        let mut i: usize = 0;
        while i < self.entries.len()
            invariant
                0 <= i <= self.entries@.len(),
                count <= i,
                count == 0 ==> text@.len() == 0,
                count == failure_texts(self.entries@.take(i as int)).len(),
                count > 0 ==> text@ == joined(failure_texts(self.entries@.take(i as int)), "; "@),
            decreases self.entries@.len() - i,
        {
            let ghost before = failure_texts(self.entries@.take(i as int));
            let e = &self.entries[i];
            assert(self.entries@.take(i + 1).drop_last() =~= self.entries@.take(i as int));
            assert(self.entries@.take(i + 1).last() == self.entries@[i as int]);
            if e.status == ServiceStatus::NotServing {
                let ghost prior = text@;
                if count > 0 {
                    text.append("; ");
                }
                let ghost sep_part = text@;
                text.append(e.name.as_str());
                match &e.message {
                    Some(m) => {
                        text.append(": ");
                        text.append(m.as_str());
                    },
                    None => {},
                }
                proof {
                    let after = failure_texts(self.entries@.take(i + 1));
                    assert(after == before.push(failure_text(*e)));
                    assert(after.drop_last() =~= before);
                    if count > 0 {
                        assert(text@ =~= prior + "; "@ + failure_text(*e));
                    } else {
                        assert(text@ =~= failure_text(*e));
                    }
                }
                count += 1;
            }
            i += 1;
        }
        assert(self.entries@.take(i as int) =~= self.entries@);
        if count == 0 {
            HealthSummary { status: ServiceStatus::Serving, message: None }
        } else {
            HealthSummary { status: ServiceStatus::NotServing, message: Some(text) }
        }
    }

    /// A snapshot of every entry, in iteration order.
    pub fn list(&self) -> (r: Vec<ServiceHealth>)
        ensures
            r@ == self@,
    {
        let mut out: Vec<ServiceHealth> = Vec::new();
        let mut i: usize = 0;
        while i < self.entries.len()
            invariant
                0 <= i <= self.entries@.len(),
                out@ == self.entries@.take(i as int),
            decreases self.entries@.len() - i,
        {
            out.push(self.entries[i].clone());
            i += 1;
            assert(out@ =~= self.entries@.take(i as int));
        }
        assert(out@ =~= self.entries@);
        out
    }

    /// Stores the result of a background probe in the entry with identifier `id`,
    /// leaving every other field and entry as it was. An identifier that is no
    /// longer registered is left absent. Returns whether an entry was updated.
    pub fn record_probe(&mut self, id: u128, outcome: ProbeOutcome) -> (updated: bool)
        ensures
            updated == has_id(old(self)@, id),
            final(self)@.len() == old(self)@.len(),
            forall|i: int|
                0 <= i < old(self)@.len() && old(self)@[i].id != id ==> final(self)@[i] == old(
                    self,
                )@[i],
            forall|i: int|
                0 <= i < old(self)@.len() && old(self)@[i].id == id ==> is_probed(
                    final(self)@[i],
                    old(self)@[i],
                    outcome,
                ),
            final(self).issued() == old(self).issued(),
            well_keyed(final(self)@, final(self).issued()),
    {
        proof { use_type_invariant(&*self); }
        match self.position(id) {
            None => false,
            Some(i) => {
                let (status, message) = probe_verdict(outcome);
                let mut entries = Vec::new();
                std::mem::swap(&mut entries, &mut self.entries);
                let mut entry = entries.remove(i);
                entry.status = status;
                entry.message = message;
                entries.insert(i, entry);
                self.entries = entries;
                proof { use_type_invariant(&*self); }
                true
            },
        }
    }
}

/// Registrations from an empty table: after `n` of them (each adding its entry
/// under a fresh identifier, as `register` does when it returns `Some`) the
/// table holds exactly `n` entries, carrying the `n` returned identifiers,
/// which are pairwise distinct.
pub proof fn lemma_registrations_distinct(states: Seq<Seq<ServiceHealth>>, ids: Seq<u128>)
    requires
        states.len() == ids.len() + 1,
        states[0].len() == 0,
        forall|k: int| 0 <= k < ids.len() ==> is_appended(states[k], #[trigger] states[k + 1], ids[k]),
    ensures
        states.last().len() == ids.len(),
        forall|k: int| 0 <= k < ids.len() ==> states.last()[k].id == ids[k],
        forall|a: int, b: int| 0 <= a < ids.len() && 0 <= b < ids.len() && a != b ==> ids[a] != ids[b],
{
    lemma_registrations_prefix(states, ids, ids.len() as int);
}

/// The first `m` registrations of `lemma_registrations_distinct`.
proof fn lemma_registrations_prefix(states: Seq<Seq<ServiceHealth>>, ids: Seq<u128>, m: int)
    requires
        0 <= m <= ids.len(),
        states.len() == ids.len() + 1,
        states[0].len() == 0,
        forall|k: int| 0 <= k < ids.len() ==> is_appended(states[k], #[trigger] states[k + 1], ids[k]),
    ensures
        states[m].len() == m,
        forall|k: int| 0 <= k < m ==> states[m][k].id == ids[k],
        forall|a: int, b: int| 0 <= a < m && 0 <= b < m && a != b ==> ids[a] != ids[b],
    decreases m,
{
    if m > 0 {
        lemma_registrations_prefix(states, ids, m - 1);
        let k = m - 1;
        assert(is_appended(states[k], states[k + 1], ids[k]));
        let before = states[k];
        let after = states[m];
        assert forall|k: int| 0 <= k < m implies after[k].id == ids[k] by {
            if k < m - 1 {
                assert(after.drop_last()[k] == after[k]);
            }
        }
        assert forall|a: int, b: int| 0 <= a < m && 0 <= b < m && a != b implies ids[a] != ids[b] by {
            if a == m - 1 {
                assert(before[b].id == ids[b]);
            } else if b == m - 1 {
                assert(before[a].id == ids[a]);
            }
        }
    }
}

/// Uptime grows with the instant it is measured at, from registration on.
pub proof fn lemma_uptime_increases(h: ServiceHealth, t1: u64, t2: u64)
    requires
        h.registered_at_nanos <= t1 < t2,
    ensures
        uptime_at(h, t2) > uptime_at(h, t1),
{
}

/// Once the entry carrying `id` is removed, no entry carries it, so a lookup
/// of `id` finds nothing; removing an identifier that no entry carries leaves
/// the table as it was.
pub proof fn lemma_removal_forgets(before: Seq<ServiceHealth>, after: Seq<ServiceHealth>, id: u128)
    requires
        ids_unique(before),
        is_removal(before, after, id),
    ensures
        !has_id(after, id),
        ids_unique(after),
        !has_id(before, id) ==> after == before,
{
    if has_id(before, id) {
        let i = choose|i: int| 0 <= i < before.len() && before[i].id == id;
        assert(after == before.remove(i));
        assert forall|k: int| 0 <= k < after.len() implies after[k].id != id by {
            if k < i {
                assert(after[k] == before[k]);
            } else {
                assert(after[k] == before[k + 1]);
            }
        }
        assert forall|a: int, b: int|
            0 <= a < after.len() && 0 <= b < after.len() && a != b implies after[a].id
            != after[b].id by {
            let ia = if a < i { a } else { a + 1 };
            let ib = if b < i { b } else { b + 1 };
            assert(after[a] == before[ia]);
            assert(after[b] == before[ib]);
        }
    }
}

/// A background probe that fails after a passing one turns a serving entry
/// into a failing one carrying the error; the next passing probe turns it back
/// to serving and clears the message. Nothing else of the entry changes.
pub proof fn lemma_probe_flips(
    h0: ServiceHealth,
    h1: ServiceHealth,
    h2: ServiceHealth,
    err: String,
)
    requires
        h0.status == ServiceStatus::Serving,
        is_probed(h1, h0, ProbeOutcome::Failed(err)),
        is_probed(h2, h1, ProbeOutcome::Passed),
    ensures
        h1.status == ServiceStatus::NotServing,
        opt_view(h1.message) == Some(err@),
        h2.status == ServiceStatus::Serving,
        h2.message.is_none(),
        h2.id == h0.id && h2.name == h0.name && h2.version == h0.version,
        h2.registered_at_nanos == h0.registered_at_nanos && h2.interval_nanos == h0.interval_nanos,
{
}

/// When every entry serves, the aggregate serves and has no message.
pub proof fn lemma_aggregate_all_serving(s: Seq<ServiceHealth>)
    requires
        forall|i: int| 0 <= i < s.len() ==> s[i].status == ServiceStatus::Serving,
    ensures
        aggregate_of(s) == (ServiceStatus::Serving, None::<Seq<char>>),
    decreases s.len(),
{
    if s.len() > 0 {
        lemma_aggregate_all_serving(s.drop_last());
    }
}

/// Each entry that is not serving contributes its text (`name: message`, or the
/// bare name) to the list that the aggregate message joins with `"; "`.
proof fn lemma_failure_listed(s: Seq<ServiceHealth>, i: int)
    requires
        0 <= i < s.len(),
        s[i].status == ServiceStatus::NotServing,
    ensures
        failure_texts(s).contains(failure_text(s[i])),
    decreases s.len(),
{
    if i == s.len() - 1 {
        assert(failure_texts(s).last() == failure_text(s[i]));
    } else {
        lemma_failure_listed(s.drop_last(), i);
        let k = choose|k: int|
            0 <= k < failure_texts(s.drop_last()).len() && failure_texts(s.drop_last())[k]
                == failure_text(s[i]);
        if s.last().status == ServiceStatus::NotServing {
            assert(failure_texts(s)[k] == failure_text(s[i]));
        }
    }
}

/// When some entry is not serving, the aggregate is not serving, and its
/// message joins with `"; "` the texts of the failing entries in order, among
/// which `name: message` (or the bare name) of each failing entry.
pub proof fn lemma_aggregate_failing(s: Seq<ServiceHealth>, i: int)
    requires
        0 <= i < s.len(),
        s[i].status == ServiceStatus::NotServing,
    ensures
        aggregate_of(s).0 == ServiceStatus::NotServing,
        aggregate_of(s).1 == Some(joined(failure_texts(s), "; "@)),
        forall|j: int|
            0 <= j < s.len() && s[j].status == ServiceStatus::NotServing ==> failure_texts(
                s,
            ).contains(failure_text(#[trigger] s[j])),
{
    lemma_failure_listed(s, i);
    assert forall|j: int|
        0 <= j < s.len() && s[j].status == ServiceStatus::NotServing implies failure_texts(
            s,
        ).contains(failure_text(#[trigger] s[j])) by {
        lemma_failure_listed(s, j);
    }
}

/// A name that no entry carries is not found by name.
pub proof fn lemma_unknown_name(s: Seq<ServiceHealth>, name: Seq<char>)
    requires
        forall|i: int| 0 <= i < s.len() ==> s[i].name@ != name,
    ensures
        first_named(s, name).is_none(),
    decreases s.len(),
{
    if s.len() > 0 {
        assert forall|i: int| 0 <= i < s.drop_first().len() implies s.drop_first()[i].name@
            != name by {
            assert(s.drop_first()[i] == s[i + 1]);
        }
        lemma_unknown_name(s.drop_first(), name);
    }
}

/// Registering a service under a name that no entry carried makes a lookup by
/// that name find the new entry, with the identifier the registration returned.
pub proof fn lemma_registered_name_found(
    before: Seq<ServiceHealth>,
    after: Seq<ServiceHealth>,
    id: u128,
    name: Seq<char>,
)
    requires
        is_appended(before, after, id),
        after.last().name@ == name,
        forall|i: int| 0 <= i < before.len() ==> before[i].name@ != name,
    ensures
        first_named(after, name) == Some(after.last()),
        first_named(after, name).unwrap().id == id,
    decreases before.len(),
{
    if before.len() > 0 {
        let b = before.drop_first();
        let a = after.drop_first();
        assert(after[0] == before[0]);
        assert(a.drop_last() =~= b);
        assert forall|i: int| 0 <= i < b.len() implies b[i].name@ != name by {
            assert(b[i] == before[i + 1]);
        }
        assert(!has_id(b, id)) by {
            assert forall|i: int| 0 <= i < b.len() implies b[i].id != id by {
                assert(b[i] == before[i + 1]);
            }
        }
        lemma_registered_name_found(b, a, id, name);
    } else {
        assert(after[0] == after.last());
    }
}

/// Identifiers are never handed out twice: along successive successful
/// registrations (with removals in between, which leave the issued set as it
/// is), each returned identifier was not issued before and is issued after,
/// so all returned identifiers are pairwise distinct.
pub proof fn lemma_ids_never_reused(issued: Seq<Set<u128>>, ids: Seq<u128>)
    requires
        issued.len() == ids.len() + 1,
        forall|k: int|
            #![trigger ids[k]]
            0 <= k < ids.len() ==> !issued[k].contains(ids[k]) && issued[k + 1] == issued[k].insert(
                ids[k],
            ),
    ensures
        forall|k: int| 0 <= k < ids.len() ==> issued.last().contains(ids[k]),
        forall|a: int, b: int| 0 <= a < ids.len() && 0 <= b < ids.len() && a != b ==> ids[a] != ids[b],
{
    lemma_issued_prefix(issued, ids, ids.len() as int);
}

/// The first `m` registrations of `lemma_ids_never_reused`.
proof fn lemma_issued_prefix(issued: Seq<Set<u128>>, ids: Seq<u128>, m: int)
    requires
        0 <= m <= ids.len(),
        issued.len() == ids.len() + 1,
        forall|k: int|
            #![trigger ids[k]]
            0 <= k < ids.len() ==> !issued[k].contains(ids[k]) && issued[k + 1] == issued[k].insert(
                ids[k],
            ),
    ensures
        forall|k: int| 0 <= k < m ==> issued[m].contains(ids[k]),
        forall|a: int, b: int| 0 <= a < m && 0 <= b < m && a != b ==> ids[a] != ids[b],
    decreases m,
{
    if m > 0 {
        lemma_issued_prefix(issued, ids, m - 1);
        let k = m - 1;
        assert(!issued[k].contains(ids[k]) && issued[k + 1] == issued[k].insert(ids[k]));
        assert forall|a: int, b: int| 0 <= a < m && 0 <= b < m && a != b implies ids[a] != ids[b] by {
            if a == m - 1 {
                assert(issued[k].contains(ids[b]));
            } else if b == m - 1 {
                assert(issued[k].contains(ids[a]));
            }
        }
    }
}

/// The entry a registration creates carries the result of its first probe at
/// once: serving with no message for a passing check, not serving with the
/// check's error for a failing one, and not serving with `probe timed out`
/// for one that ran out of time.
pub proof fn lemma_first_probe_recorded(
    h: ServiceHealth,
    id: u128,
    name: String,
    interval_nanos: u64,
    version: Option<String>,
    outcome: ProbeOutcome,
    now_nanos: u64,
)
    requires
        is_new_entry(h, id, name, interval_nanos, version, outcome, now_nanos),
    ensures
        outcome is Passed ==> h.status == ServiceStatus::Serving && h.message.is_none(),
        outcome is Failed ==> h.status == ServiceStatus::NotServing && opt_view(h.message) == Some(
            outcome->Failed_0@,
        ),
        outcome is TimedOut ==> h.status == ServiceStatus::NotServing && opt_view(h.message)
            == Some("probe timed out"@),
{
}

} // verus!
