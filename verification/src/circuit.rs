//! Circuits and the book that is kept of them.

use std::time::{Duration, Instant};
use vstd::prelude::*;
use vstd::string::*;
use crate::error::TorError;
use crate::relay::selection::{exit_relays, guard_relays, middle_relays};
use crate::relay::{any_meets, goes_before, meets, CriteriaView, Relay, RelayManager};

verus! {

/// `std::time::Instant`, a reading of the monotonic clock. It is carried
/// through as it is; nothing is known of what it holds.
#[verifier::external_type_specification]
#[verifier::external_body]
pub struct ExInstant(Instant);

/// `Instant::now`: the present moment. Nothing is claimed about it.
#[verifier::external_body]
fn now() -> (t: Instant) {
    Instant::now()
}

/// `Instant::elapsed`: the time that has passed since `since`. Nothing is
/// claimed about it.
#[verifier::external_body]
fn elapsed(since: &Instant) -> (d: Duration) {
    since.elapsed()
}

/// `Duration::as_nanos`: the span in nanoseconds. Nothing is claimed about
/// the number.
pub assume_specification[ Duration::as_nanos ](d: &Duration) -> (nanos: u128)
;

/// The span of time that `Duration::from_nanos` makes of a number of
/// nanoseconds.
pub uninterp spec fn duration_of_nanos(nanos: u64) -> Duration;

/// `Duration::from_nanos`: the span of `nanos` nanoseconds. The function
/// does not fail or panic for any argument.
pub assume_specification[ Duration::from_nanos ](nanos: u64) -> (d: Duration)
    ensures
        d == duration_of_nanos(nanos),
;

/// `uuid::Uuid::new_v4`, rendered as text: a fresh random identifier.
/// Nothing is claimed about it.
#[verifier::external_body]
fn fresh_uuid() -> (text: String) {
    uuid::Uuid::new_v4().to_string()
}

/// The state of a circuit.
#[derive(Debug, Clone, Copy, PartialEq, Eq, Structural)]
pub enum CircuitStatus {
    Creating,
    Ready,
    Extending,
    Failed,
    Closed,
}

/// A circuit through the network.
#[derive(Debug)]
pub struct Circuit {
    pub id: String,
    pub status: CircuitStatus,
    pub created_at: Instant,
    pub last_used: Instant,
    pub relays: Vec<Relay>,
}

impl Circuit {
    /// A circuit that is being created now and has no relays yet.
    pub fn new(id: String) -> (circuit: Self)
        ensures
            circuit.id == id,
            circuit.status is Creating,
            circuit.relays@.len() == 0,
            circuit.last_used == circuit.created_at,
    {
        let t = now();
        Circuit { id, status: CircuitStatus::Creating, created_at: t, last_used: t, relays: Vec::new() }
    }

    /// The time since the circuit was created.
    pub fn age(&self) -> Duration {
        elapsed(&self.created_at)
    }

    /// The time since the circuit was last used.
    pub fn time_since_last_use(&self) -> Duration {
        elapsed(&self.last_used)
    }

    /// Marks the circuit as used now. Nothing else changes.
    pub fn update_last_used(&mut self)
        ensures
            final(self).id == old(self).id,
            final(self).status == old(self).status,
            final(self).created_at == old(self).created_at,
            final(self).relays == old(self).relays,
    {
        let at = now();
        self.used_at(at);
    }

    /// Marks the circuit as last used at `at`. Nothing else changes.
    pub fn used_at(&mut self, at: Instant)
        ensures
            final(self).last_used == at,
            final(self).id == old(self).id,
            final(self).status == old(self).status,
            final(self).created_at == old(self).created_at,
            final(self).relays == old(self).relays,
    {
        self.last_used = at;
    }

    /// Whether the circuit can carry traffic.
    pub fn is_ready(&self) -> (ready: bool)
        ensures
            ready == (self.status is Ready),
    {
        self.status == CircuitStatus::Ready
    }

    /// Whether building or using the circuit has failed.
    pub fn is_failed(&self) -> (failed: bool)
        ensures
            failed == (self.status is Failed),
    {
        self.status == CircuitStatus::Failed
    }

    /// Whether the circuit has been closed.
    pub fn is_closed(&self) -> (closed: bool)
        ensures
            closed == (self.status is Closed),
    {
        self.status == CircuitStatus::Closed
    }
}

/// How the circuits are doing.
#[derive(Debug)]
pub struct CircuitStatusInfo {
    pub total_circuits: usize,
    pub ready_circuits: usize,
    pub creating_circuits: usize,
    pub failed_circuits: usize,
    pub average_circuit_age: Duration,
}

impl CircuitStatusInfo {
    /// Whether some circuit is ready.
    pub fn has_ready_circuits(&self) -> (ready: bool)
        ensures
            ready == (self.ready_circuits > 0),
    {
        self.ready_circuits > 0
    }

    /// Whether some circuit is ready and none has failed.
    pub fn is_healthy(&self) -> (healthy: bool)
        ensures
            healthy == (self.ready_circuits > 0 && self.failed_circuits == 0),
    {
        self.ready_circuits > 0 && self.failed_circuits == 0
    }
}

/// A circuit older than this, in nanoseconds, is removed: one hour.
pub const MAX_AGE_NANOS: u128 = 3_600_000_000_000;

/// A circuit idle for longer than this, in nanoseconds, is removed unless
/// it is the last one: ten minutes.
pub const MAX_IDLE_NANOS: u128 = 600_000_000_000;

/// How many of the first `n` circuits are in state `status`.
pub open spec fn count_status(circuits: Seq<Circuit>, status: CircuitStatus, n: int) -> int
    decreases n,
{
    if n <= 0 {
        0
    } else {
        count_status(circuits, status, n - 1) + if circuits[n - 1].status == status {
            1int
        } else {
            0int
        }
    }
}

/// The sum of the first `n` ages, held at the largest 128-bit number once
/// it gets there.
pub open spec fn total_age(ages: Seq<u128>, n: int) -> int
    decreases n,
{
    if n <= 0 {
        0
    } else if total_age(ages, n - 1) + ages[n - 1] > u128::MAX {
        u128::MAX as int
    } else {
        total_age(ages, n - 1) + ages[n - 1]
    }
}

/// The mean of `ages` in nanoseconds, 0 where there are none, and held at
/// the largest 64-bit number.
pub open spec fn average_age(ages: Seq<u128>) -> u64 {
    if ages.len() == 0 {
        0
    } else if total_age(ages, ages.len() as int) / (ages.len() as int) > u64::MAX {
        u64::MAX
    } else {
        (total_age(ages, ages.len() as int) / (ages.len() as int)) as u64
    }
}

/// Whether a circuit stays when circuits are cleaned up, `count` circuits
/// being left at that point: it must not have failed, must not be older
/// than an hour, and must not have been idle for more than ten minutes
/// unless it is the only one left.
pub open spec fn stays(status: CircuitStatus, age: u128, idle: u128, count: int) -> bool {
    !(status is Failed) && age <= MAX_AGE_NANOS && !(idle > MAX_IDLE_NANOS && count > 1)
}

/// The circuits from position `from` on that stay, `count` circuits being
/// left when that position is reached. Circuits are looked at in order,
/// and each one that goes leaves one fewer.
pub open spec fn survivors(
    circuits: Seq<Circuit>,
    ages: Seq<u128>,
    idle: Seq<u128>,
    from: int,
    count: int,
) -> Seq<Circuit>
    decreases circuits.len() - from,
{
    if from < 0 || from >= circuits.len() {
        Seq::empty()
    } else if stays(circuits[from].status, ages[from], idle[from], count) {
        seq![circuits[from]] + survivors(circuits, ages, idle, from + 1, count)
    } else {
        survivors(circuits, ages, idle, from + 1, count - 1)
    }
}

/// The circuits of a client and the relays they are built from.
#[derive(Debug)]
pub struct CircuitManager {
    pub circuits: Vec<Circuit>,
    pub relay_manager: RelayManager,
}

/// Whether `relay` is the one that is chosen first under `criteria`.
pub open spec fn is_first_choice(relays: Seq<Relay>, criteria: CriteriaView, relay: Relay) -> bool {
    exists|k: int|
        {
            &&& 0 <= k < relays.len()
            &&& relay@ == (#[trigger] relays[k])@
            &&& meets(relay@, criteria)
            &&& forall|j: int|
                0 <= j < relays.len() && meets((#[trigger] relays[j])@, criteria) ==> j == k
                    || goes_before(relays, k, j)
        }
}

/// The position of the first circuit that is ready, or the number of
/// circuits if none is.
pub open spec fn first_ready(circuits: Seq<Circuit>, from: int) -> int
    decreases circuits.len() - from,
{
    if from < 0 || from >= circuits.len() {
        circuits.len() as int
    } else if circuits[from].status is Ready {
        from
    } else {
        first_ready(circuits, from + 1)
    }
}

impl CircuitManager {
    /// A book without circuits over the relays of `relay_manager`.
    pub fn new(relay_manager: RelayManager) -> (manager: Self)
        ensures
            manager.circuits@.len() == 0,
            manager.relay_manager == relay_manager,
    {
        CircuitManager { circuits: Vec::new(), relay_manager }
    }

    /// Whether a circuit can be built: there is a relay for each of the
    /// three positions.
    pub open spec fn can_build(&self) -> bool {
        &&& any_meets(self.relay_manager.relays@, guard_criteria())
        &&& any_meets(self.relay_manager.relays@, middle_criteria())
        &&& any_meets(self.relay_manager.relays@, exit_criteria())
    }

    /// Whether `circuit` is a ready circuit of three hops: the first
    /// choices for guard, middle and exit, in that order.
    pub open spec fn is_built(&self, circuit: Circuit) -> bool {
        &&& circuit.status is Ready
        &&& "circuit_"@.is_prefix_of(circuit.id@)
        &&& circuit.relays@.len() == 3
        &&& is_first_choice(self.relay_manager.relays@, guard_criteria(), circuit.relays@[0])
        &&& is_first_choice(self.relay_manager.relays@, middle_criteria(), circuit.relays@[1])
        &&& is_first_choice(self.relay_manager.relays@, exit_criteria(), circuit.relays@[2])
    }

    /// Builds a circuit of three hops under a fresh identifier, adds it to
    /// the book as ready and hands back its position there. If a position
    /// of the circuit cannot be filled, it is a `RelaySelection` error and
    /// the book stays as it is.
    pub fn create_circuit(&mut self) -> (r: Result<usize, TorError>)
        ensures
            final(self).relay_manager == old(self).relay_manager,
            r is Ok <==> old(self).can_build(),
            r matches Ok(at) ==> {
                &&& at == old(self).circuits@.len()
                &&& final(self).circuits@.len() == at + 1
                &&& final(self).circuits@.subrange(0, at as int) == old(self).circuits@
                &&& old(self).is_built(final(self).circuits@[at as int])
            },
            r matches Err(e) ==> e is RelaySelection && final(self).circuits == old(self).circuits,
    {
        let guard = self.relay_manager.select_relay(&guard_relays())?;
        let middle = self.relay_manager.select_relay(&middle_relays())?;
        let exit = self.relay_manager.select_relay(&exit_relays())?;
        let id = String::from_str("circuit_").concat(fresh_uuid().as_str());
        let mut circuit = Circuit::new(id);
        circuit.relays.push(guard);
        circuit.relays.push(middle);
        circuit.relays.push(exit);
        circuit.status = CircuitStatus::Ready;
        let at = self.circuits.len();
        self.circuits.push(circuit);
        Ok(at)
    }

    /// The position of a circuit that is ready: the first one in the book
    /// if there is one, and a newly built one otherwise.
    pub fn get_ready_circuit(&mut self) -> (r: Result<usize, TorError>)
        ensures
            final(self).relay_manager == old(self).relay_manager,
            first_ready(old(self).circuits@, 0) < old(self).circuits@.len() ==> {
                &&& r == Ok::<usize, TorError>(first_ready(old(self).circuits@, 0) as usize)
                &&& final(self).circuits == old(self).circuits
            },
            first_ready(old(self).circuits@, 0) >= old(self).circuits@.len() ==> {
                &&& r is Ok <==> old(self).can_build()
                &&& r matches Ok(at) ==> {
                    &&& at == old(self).circuits@.len()
                    &&& final(self).circuits@.len() == at + 1
                    &&& final(self).circuits@.subrange(0, at as int) == old(self).circuits@
                    &&& old(self).is_built(final(self).circuits@[at as int])
                }
                &&& r matches Err(e) ==> e is RelaySelection && final(self).circuits == old(
                    self,
                ).circuits
            },
    {
        let mut i: usize = 0;
        while i < self.circuits.len()
            invariant
                i <= self.circuits@.len(),
                *self == *old(self),
                first_ready(self.circuits@, 0) == first_ready(self.circuits@, i as int),
            decreases self.circuits@.len() - i,
        {
            if self.circuits[i].is_ready() {
                return Ok(i);
            }
            i += 1;
        }
        self.create_circuit()
    }

    /// Counts the circuits by state and averages the ages `ages`, which
    /// are in nanoseconds and given in the order of the book.
    pub fn status_with(&self, ages: &Vec<u128>) -> (info: CircuitStatusInfo)
        requires
            ages@.len() == self.circuits@.len(),
        ensures
            info.total_circuits == self.circuits@.len(),
            info.ready_circuits == count_status(
                self.circuits@,
                CircuitStatus::Ready,
                self.circuits@.len() as int,
            ),
            info.creating_circuits == count_status(
                self.circuits@,
                CircuitStatus::Creating,
                self.circuits@.len() as int,
            ),
            info.failed_circuits == count_status(
                self.circuits@,
                CircuitStatus::Failed,
                self.circuits@.len() as int,
            ),
            info.average_circuit_age == duration_of_nanos(average_age(ages@)),
    {
        let n = self.circuits.len();
        let mut ready: usize = 0;
        let mut creating: usize = 0;
        let mut failed: usize = 0;
        let mut total: u128 = 0;
        let mut i: usize = 0;
        while i < n
            invariant
                i <= n == self.circuits@.len() == ages@.len(),
                ready == count_status(self.circuits@, CircuitStatus::Ready, i as int),
                creating == count_status(self.circuits@, CircuitStatus::Creating, i as int),
                failed == count_status(self.circuits@, CircuitStatus::Failed, i as int),
                ready <= i,
                creating <= i,
                failed <= i,
                total == total_age(ages@, i as int),
            decreases n - i,
        {
            match self.circuits[i].status {
                CircuitStatus::Ready => {
                    ready += 1;
                },
                CircuitStatus::Creating => {
                    creating += 1;
                },
                CircuitStatus::Failed => {
                    failed += 1;
                },
                _ => {},
            }
            let age = ages[i];
            if total > u128::MAX - age {
                total = u128::MAX;
            } else {
                total = total + age;
            }
            i += 1;
        }
        let average: u64 = if n == 0 {
            0
        } else {
            let mean = total / (n as u128);
            if mean > u64::MAX as u128 {
                u64::MAX
            } else {
                mean as u64
            }
        };
        CircuitStatusInfo {
            total_circuits: n,
            ready_circuits: ready,
            creating_circuits: creating,
            failed_circuits: failed,
            average_circuit_age: Duration::from_nanos(average),
        }
    }

    /// The ages of the circuits, in nanoseconds and in the order of the
    /// book, as the clock gives them now.
    fn read_ages(&self) -> (ages: Vec<u128>)
        ensures
            ages@.len() == self.circuits@.len(),
    {
        let mut ages: Vec<u128> = Vec::new();
        let mut i: usize = 0;
        while i < self.circuits.len()
            invariant
                i <= self.circuits@.len(),
                ages@.len() == i,
            decreases self.circuits@.len() - i,
        {
            let age = self.circuits[i].age();
            ages.push(age.as_nanos());
            i += 1;
        }
        ages
    }

    /// For how long each circuit has been idle, in nanoseconds and in the
    /// order of the book, as the clock gives it now.
    fn read_idle(&self) -> (idle: Vec<u128>)
        ensures
            idle@.len() == self.circuits@.len(),
    {
        let mut idle: Vec<u128> = Vec::new();
        let mut i: usize = 0;
        while i < self.circuits.len()
            invariant
                i <= self.circuits@.len(),
                idle@.len() == i,
            decreases self.circuits@.len() - i,
        {
            let since = self.circuits[i].time_since_last_use();
            idle.push(since.as_nanos());
            i += 1;
        }
        idle
    }

    /// Counts the circuits by state and averages their ages as the clock
    /// gives them now.
    pub fn get_circuit_status(&self) -> (info: CircuitStatusInfo)
        ensures
            info.total_circuits == self.circuits@.len(),
            info.ready_circuits == count_status(
                self.circuits@,
                CircuitStatus::Ready,
                self.circuits@.len() as int,
            ),
            info.creating_circuits == count_status(
                self.circuits@,
                CircuitStatus::Creating,
                self.circuits@.len() as int,
            ),
            info.failed_circuits == count_status(
                self.circuits@,
                CircuitStatus::Failed,
                self.circuits@.len() as int,
            ),
            exists|ages: Seq<u128>|
                ages.len() == self.circuits@.len() && info.average_circuit_age == duration_of_nanos(
                    #[trigger] average_age(ages),
                ),
    {
        let ages = self.read_ages();
        self.status_with(&ages)
    }

    /// Replaces the list of relays that circuits are built from.
    pub fn update_relays(&mut self, new_relays: Vec<Relay>)
        ensures
            final(self).relay_manager.relays == new_relays,
            final(self).circuits == old(self).circuits,
    {
        self.relay_manager.update_relays(new_relays);
    }

    /// Removes the circuits that do not stay, given the age of each and
    /// for how long each has been idle, in nanoseconds and in the order of
    /// the book.
    pub fn cleanup_with(&mut self, ages: &Vec<u128>, idle: &Vec<u128>)
        requires
            ages@.len() == old(self).circuits@.len(),
            idle@.len() == old(self).circuits@.len(),
        ensures
            final(self).relay_manager == old(self).relay_manager,
            final(self).circuits@ == survivors(
                old(self).circuits@,
                ages@,
                idle@,
                0,
                old(self).circuits@.len() as int,
            ),
    {
        let n = self.circuits.len();
        let mut count: usize = n;
        let mut at: usize = 0;
        let mut seen: usize = 0;
        let ghost all = self.circuits@;
        while seen < n
            invariant
                seen <= n == all.len() == ages@.len() == idle@.len(),
                at <= seen,
                at + (n - seen) == self.circuits@.len(),
                count == at + (n - seen),
                self.relay_manager == old(self).relay_manager,
                self.circuits@.subrange(at as int, self.circuits@.len() as int) == all.subrange(
                    seen as int,
                    n as int,
                ),
                self.circuits@.subrange(0, at as int) + survivors(
                    all,
                    ages@,
                    idle@,
                    seen as int,
                    count as int,
                ) == survivors(all, ages@, idle@, 0, n as int),
            decreases n - seen,
        {
            let ghost before = self.circuits@;
            assert(before[at as int] == before.subrange(at as int, before.len() as int)[0]);
            let keep = !self.circuits[at].is_failed() && ages[seen] <= MAX_AGE_NANOS && !(idle[seen]
                > MAX_IDLE_NANOS && count > 1);
            assert(all.subrange(seen + 1, n as int) =~= all.subrange(
                seen as int,
                n as int,
            ).subrange(1, n - seen));
            if keep {
                at += 1;
            } else {
                self.circuits.remove(at);
                count -= 1;
            }
            seen += 1;
        }
    }

    /// Removes the circuits that do not stay, going by the clock: failed
    /// ones, ones older than an hour, and ones idle for more than ten
    /// minutes as long as another is left.
    pub fn cleanup_circuits(&mut self) -> (r: Result<(), TorError>)
        ensures
            r is Ok,
            final(self).relay_manager == old(self).relay_manager,
            exists|ages: Seq<u128>, idle: Seq<u128>|
                {
                    &&& ages.len() == old(self).circuits@.len()
                    &&& idle.len() == old(self).circuits@.len()
                    &&& final(self).circuits@ == #[trigger] survivors(
                        old(self).circuits@,
                        ages,
                        idle,
                        0,
                        old(self).circuits@.len() as int,
                    )
                },
    {
        let ages = self.read_ages();
        let idle = self.read_idle();
        self.cleanup_with(&ages, &idle);
        Ok(())
    }
}

/// The criteria for the first hop of a circuit.
pub open spec fn guard_criteria() -> CriteriaView {
    CriteriaView {
        need_flags: set!["Fast"@, "Stable"@, "Guard"@],
        exclude_flags: Set::empty(),
        min_bandwidth: 0,
        max_selection: 10,
    }
}

/// The criteria for the second hop of a circuit.
pub open spec fn middle_criteria() -> CriteriaView {
    CriteriaView {
        need_flags: set!["Fast"@, "Stable"@, "V2Dir"@],
        exclude_flags: Set::empty(),
        min_bandwidth: 0,
        max_selection: 10,
    }
}

/// The criteria for the last hop of a circuit.
pub open spec fn exit_criteria() -> CriteriaView {
    CriteriaView {
        need_flags: set!["Fast"@, "Stable"@, "Exit"@],
        exclude_flags: set!["BadExit"@],
        min_bandwidth: 0,
        max_selection: 10,
    }
}

/// No failed circuit and no circuit older than an hour stays.
pub proof fn lemma_survivors_are_fit(
    circuits: Seq<Circuit>,
    ages: Seq<u128>,
    idle: Seq<u128>,
    from: int,
    count: int,
)
    requires
        0 <= from,
        ages.len() == circuits.len(),
        idle.len() == circuits.len(),
    ensures
        forall|i: int|
            0 <= i < survivors(circuits, ages, idle, from, count).len() ==> !(
            #[trigger] survivors(circuits, ages, idle, from, count)[i].status is Failed),
        survivors(circuits, ages, idle, from, count).len() <= circuits.len() - from || from
            >= circuits.len(),
    decreases circuits.len() - from,
{
    if from < circuits.len() {
        lemma_survivors_are_fit(circuits, ages, idle, from + 1, count);
        lemma_survivors_are_fit(circuits, ages, idle, from + 1, count - 1);
    }
}

} // verus!
