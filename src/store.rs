use vstd::prelude::*;
use crate::process::{collect_records, parse_uptime, publishes, ProcessFiles, ProcessInfo};
use crate::system::logical_cpu_count;

verus! {

#[verifier::external_type_specification]
#[verifier::external_body]
#[verifier::reject_recursive_types(R)]
#[verifier::reject_recursive_types(T)]
pub struct ExLockApiMutex<R, T: ?Sized>(parking_lot::lock_api::Mutex<R, T>);

#[verifier::external_type_specification]
#[verifier::external_body]
pub struct ExRawMutex(parking_lot::RawMutex);

/// The records that a mutex of the snapshot store holds.
pub uninterp spec fn guarded(m: parking_lot::Mutex<Vec<ProcessInfo>>) -> Seq<ProcessInfo>;

/// A mutex that holds `v`.
/// Relies on `parking_lot::Mutex::new`, which wraps the value it is given.
#[verifier::external_body]
fn new_guarded(v: Vec<ProcessInfo>) -> (m: parking_lot::Mutex<Vec<ProcessInfo>>)
    ensures
        guarded(m) == v@,
{
    parking_lot::Mutex::new(v)
}

/// A copy of what `m` holds, taken under its lock.
/// Relies on `parking_lot::Mutex::lock`, which gives access to the value held until the guard
/// is dropped; the clone is made while the guard is held.
#[verifier::external_body]
fn read_guarded(m: &parking_lot::Mutex<Vec<ProcessInfo>>) -> (r: Vec<ProcessInfo>)
    ensures
        r@ == guarded(*m),
{
    m.lock().clone()
}

/// Replaces what `m` holds by `v`, in one step.
/// Relies on `parking_lot::Mutex::get_mut`, which hands out the value held through the exclusive
/// borrow of the mutex, with no locking and no panic.
#[verifier::external_body]
fn write_guarded(m: &mut parking_lot::Mutex<Vec<ProcessInfo>>, v: Vec<ProcessInfo>)
    ensures
        guarded(*final(m)) == v@,
    no_unwind
{
    *m.get_mut() = v;
}

/// Holds the records of the latest sweep; readers get a copy.
pub struct SnapshotStore {
    records: parking_lot::Mutex<Vec<ProcessInfo>>,
}

impl SnapshotStore {
    /// The records of the latest sweep.
    pub closed spec fn snapshot(self) -> Seq<ProcessInfo> {
        guarded(self.records)
    }

    /// Every record held is well formed.
    #[verifier::type_invariant]
    spec fn inv(self) -> bool {
        forall|k: int| 0 <= k < guarded(self.records).len() ==> (#[trigger] guarded(self.records)[k]).wf()
    }

    /// An empty store.
    pub fn new() -> (s: SnapshotStore)
        ensures
            s.snapshot() == Seq::<ProcessInfo>::empty(),
    {
        SnapshotStore { records: new_guarded(Vec::new()) }
    }

    /// A copy of the records of the latest sweep.
    pub fn get_all_process_info(&self) -> (r: Vec<ProcessInfo>)
        ensures
            r@ == self.snapshot(),
            forall|k: int| 0 <= k < r@.len() ==> (#[trigger] r@[k]).wf(),
    {
        proof {
            use_type_invariant(self);
        }
        read_guarded(&self.records)
    }

    /// Replaces all records by `records`, at once.
    pub fn publish(&mut self, records: Vec<ProcessInfo>)
        requires
            forall|k: int| 0 <= k < records@.len() ==> (#[trigger] records@[k]).wf(),
        ensures
            final(self).snapshot() == records@,
    {
        write_guarded(&mut self.records, records);
    }

    /// One sweep with `cpus` logical CPUs: samples every process of `files` against the uptime
    /// that `uptime_text` gives, and publishes exactly the records that succeed.
    pub fn refresh_with(&mut self, files: &Vec<ProcessFiles>, uptime_text: &Option<String>, cpus: usize)
        requires
            cpus > 0,
        ensures
            publishes(final(self).snapshot(), files@, uptime_of(*uptime_text), cpus as nat),
    {
        let uptime = match uptime_text {
            Some(t) => parse_uptime(t.as_str()),
            None => None,
        };
        let records = collect_records(files, uptime, cpus);
        self.publish(records);
    }

    /// One sweep: samples every process of `files` against the uptime that `uptime_text` gives
    /// and the machine's count of logical CPUs, and publishes exactly the records that succeed.
    /// A reported count of zero is taken as one.
    pub fn refresh(&mut self, files: &Vec<ProcessFiles>, uptime_text: &Option<String>)
        ensures
            exists|cpus: nat|
                cpus > 0 && publishes(final(self).snapshot(), files@, uptime_of(*uptime_text), cpus),
    {
        let n = logical_cpu_count();
        let cpus: usize = if n == 0 {
            1
        } else {
            n
        };
        self.refresh_with(files, uptime_text, cpus);
    }
}

/// The uptime, in hundredths of a second, that an optional uptime text gives.
pub open spec fn uptime_of(text: Option<String>) -> Option<nat> {
    match text {
        Some(t) => crate::process::uptime_centis(t@),
        None => None,
    }
}

/// Two reads with no sweep between them return the same records.
pub proof fn lemma_snapshot_idempotent(s: SnapshotStore, first: Seq<ProcessInfo>, second: Seq<ProcessInfo>)
    requires
        first == s.snapshot(),
        second == s.snapshot(),
    ensures
        first == second,
{
}

} // verus!
