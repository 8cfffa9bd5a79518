use vstd::prelude::*;

verus! {

/// Upper bound on a single per-core utilization reading, in tenths of a
/// percent: 1000 stands for 100.0%.
pub const MAX_TENTHS: u32 = 1000;

/// One ordered set of per-core CPU utilization readings captured at a single
/// instant. Each entry is a percentage in tenths of a percent (125 stands
/// for 12.5%); the index position identifies the core and is stable for the
/// lifetime of the process.
pub struct Snapshot {
    cores: Vec<u32>,
}

impl Snapshot {
    /// The mathematical value of a snapshot: the sequence of per-core
    /// readings, in tenths of a percent, in core order.
    pub closed spec fn view(&self) -> Seq<u32> {
        self.cores@
    }

    /// Every reading stays within the representable utilization range.
    pub open spec fn wf(&self) -> bool {
        forall|i: int| 0 <= i < self@.len() ==> self@[i] <= MAX_TENTHS
    }

    /// Builds the snapshot for one sampling tick from raw per-core readings,
    /// clamping each to `MAX_TENTHS`. Core order is preserved: entry `i` of
    /// the result comes from entry `i` of `readings`.
    pub fn from_readings(readings: &Vec<u32>) -> (s: Snapshot)
        ensures
            s@.len() == readings@.len(),
            forall|i: int|
                0 <= i < readings@.len() ==> s@[i] == (if readings@[i] <= MAX_TENTHS {
                    readings@[i]
                } else {
                    MAX_TENTHS
                }),
            s.wf(),
    {
        let mut cores: Vec<u32> = Vec::new();
        let mut i: usize = 0;
        while i < readings.len()
            invariant
                i <= readings@.len(),
                cores@.len() == i as int,
                forall|j: int|
                    0 <= j < i as int ==> cores@[j] == (if readings@[j] <= MAX_TENTHS {
                        readings@[j]
                    } else {
                        MAX_TENTHS
                    }),
            decreases readings@.len() - i,
        {
            let r = readings[i];
            if r <= MAX_TENTHS {
                cores.push(r);
            } else {
                cores.push(MAX_TENTHS);
            }
            i = i + 1;
        }
        Snapshot { cores }
    }

    /// Wraps per-core readings that are already known to be in range; returns
    /// `Some` exactly when every reading is at most `MAX_TENTHS`.
    pub fn from_tenths(cores: Vec<u32>) -> (r: Option<Snapshot>)
        ensures
            (r is Some) <==> (forall|i: int| 0 <= i < cores@.len() ==> cores@[i] <= MAX_TENTHS),
            r matches Some(s) ==> s@ == cores@ && s.wf(),
    {
        let mut i: usize = 0;
        while i < cores.len()
            invariant
                i <= cores@.len(),
                forall|j: int| 0 <= j < i as int ==> cores@[j] <= MAX_TENTHS,
            decreases cores@.len() - i,
        {
            if cores[i] > MAX_TENTHS {
                return None;
            }
            i = i + 1;
        }
        Some(Snapshot { cores })
    }

    /// Number of cores covered by this snapshot.
    pub fn core_count(&self) -> (n: usize)
        ensures
            n == self@.len(),
    {
        self.cores.len()
    }

    /// The reading of core `i`, in tenths of a percent.
    pub fn reading(&self, i: usize) -> (v: u32)
        requires
            i < self@.len(),
        ensures
            v == self@[i as int],
    {
        self.cores[i]
    }

    /// An independent copy with the same per-core readings; each session
    /// owns its own copy of a snapshot during fan-out.
    pub fn duplicate(&self) -> (s: Snapshot)
        ensures
            s@ == self@,
    {
        let mut cores: Vec<u32> = Vec::new();
        let mut i: usize = 0;
        while i < self.cores.len()
            invariant
                i <= self@.len(),
                cores@.len() == i as int,
                forall|j: int| 0 <= j < i as int ==> cores@[j] == self@[j],
            decreases self@.len() - i,
        {
            cores.push(self.cores[i]);
            i = i + 1;
        }
        proof {
            assert(cores@ =~= self@);
        }
        Snapshot { cores }
    }
}

} // verus!
