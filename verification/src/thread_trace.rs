//! Per-thread accounting of the time spent in user and kernel mode on each hart.

use vstd::prelude::*;
use hashbrown::HashMap;

verus! {

#[verifier::external_type_specification]
#[verifier::external_body]
#[verifier::reject_recursive_types(K)]
#[verifier::reject_recursive_types(V)]
#[verifier::reject_recursive_types(S)]
pub struct ExHashMap<K, V, S>(HashMap<K, V, S>);

#[verifier::external_type_specification]
#[verifier::external_body]
pub struct ExDefaultHashBuilder(hashbrown::hash_map::DefaultHashBuilder);

/// A table of the (user, kernel) time of a thread on each hart.
pub type HartTimeTable = HashMap<u64, (u64, u64)>;

/// What a hart-time table holds: for each hart, the (user, kernel) time.
pub uninterp spec fn hart_times(m: HashMap<u64, (u64, u64)>) -> Map<u64, (u64, u64)>;

/// `hashbrown::HashMap::new`: an empty table.
#[verifier::external_body]
fn hart_time_new() -> (r: HartTimeTable)
    ensures
        hart_times(r).dom() == Set::<u64>::empty(),
{
    HashMap::new()
}

/// `hashbrown::HashMap::get`: the times recorded for `hart`, if any.
#[verifier::external_body]
fn hart_time_get(m: &HashMap<u64, (u64, u64)>, hart: u64) -> (r: Option<(u64, u64)>)
    ensures
        r == if hart_times(*m).contains_key(hart) { Some(hart_times(*m)[hart]) } else { None },
{
    match m.get(&hart) {
        Some(v) => Some(*v),
        None => None,
    }
}

/// `hashbrown::HashMap::insert`: records `times` for `hart`, replacing what was there.
#[verifier::external_body]
fn hart_time_insert(m: &mut HashMap<u64, (u64, u64)>, hart: u64, times: (u64, u64))
    ensures
        hart_times(*final(m)) == hart_times(*old(m)).insert(hart, times),
{
    m.insert(hart, times);
}

/// `hashbrown::HashMap::iter`, collected: every entry once, in an order that
/// depends on the table's hasher and is left open.
#[verifier::external_body]
fn hart_time_entries(m: &HashMap<u64, (u64, u64)>) -> (r: Vec<(u64, (u64, u64))>)
    ensures
        forall|i: int| 0 <= i < r@.len() ==> hart_times(*m).contains_key(#[trigger] r@[i].0)
            && hart_times(*m)[r@[i].0] == r@[i].1,
        forall|i: int, j: int| 0 <= i < j < r@.len() ==> #[trigger] r@[i].0 != #[trigger] r@[j].0,
        forall|k: u64| #[trigger] hart_times(*m).contains_key(k) ==> exists|i: int| 0 <= i < r@.len() && r@[i].0 == k,
{
    let mut r = Vec::new();
    for (k, v) in m.iter() {
        r.push((*k, *v));
    }
    r
}

/// Sum of the user and of the kernel times of `entries`.
pub open spec fn sum_times(entries: Seq<(u64, (u64, u64))>) -> (int, int)
    decreases entries.len(),
{
    if entries.len() == 0 {
        (0, 0)
    } else {
        let rest = sum_times(entries.drop_last());
        (rest.0 + entries.last().1.0, rest.1 + entries.last().1.1)
    }
}

/// How long a thread ran in user and kernel mode on each hart.
pub struct ThreadTrace {
    hart_time: HashMap<u64, (u64, u64)>,
    current_hart: u64,
    time_clock: u64,
}

/// The times a trace holds for each hart, with the hart of the current run
/// and the time of the last switch.
pub struct TraceView {
    pub hart_time: Map<u64, (u64, u64)>,
    pub current_hart: u64,
    pub time_clock: u64,
}

impl ThreadTrace {
    pub closed spec fn view(&self) -> TraceView {
        TraceView { hart_time: hart_times(self.hart_time), current_hart: self.current_hart, time_clock: self.time_clock }
    }

    /// No time recorded.
    pub fn new() -> (t: Self)
        ensures
            t@.hart_time == Map::<u64, (u64, u64)>::empty(),
            t@.current_hart == 0,
            t@.time_clock == 0,
    {
        let t = ThreadTrace { hart_time: hart_time_new(), current_hart: 0, time_clock: 0 };
        assert(t@.hart_time =~= Map::<u64, (u64, u64)>::empty());
        t
    }

    /// The time of the last switch between user and kernel mode.
    pub fn last_switch(&self) -> (t: u64)
        ensures
            t == self@.time_clock,
    {
        self.time_clock
    }

    /// The (user, kernel) time recorded for `hart`, if any.
    pub fn hart_time(&self, hart: u64) -> (r: Option<(u64, u64)>)
        ensures
            r == if self@.hart_time.contains_key(hart) { Some(self@.hart_time[hart]) } else { None },
    {
        hart_time_get(&self.hart_time, hart)
    }

    /// Forgets everything recorded.
    pub fn reset(&mut self)
        ensures
            final(self)@.hart_time == Map::<u64, (u64, u64)>::empty(),
            final(self)@.current_hart == 0,
            final(self)@.time_clock == 0,
    {
        *self = Self::new();
    }

    /// The thread starts running on `hart` at `time_clock`.
    pub fn prologue(&mut self, hart: u64, time_clock: u64)
        ensures
            final(self)@.hart_time == old(self)@.hart_time,
            final(self)@.current_hart == hart,
            final(self)@.time_clock == time_clock,
    {
        self.current_hart = hart;
        self.time_clock = time_clock;
    }

    /// The thread enters the kernel on `hart` at `time_clock`: the time since
    /// the last switch counts as user time if it ran in user mode, as kernel
    /// time otherwise.
    pub fn into_kernel(&mut self, hart: u64, time_clock: u64, is_user: bool)
        requires
            time_clock >= old(self)@.time_clock,
            old(self)@.hart_time.contains_key(hart) ==> {
                let p = old(self)@.hart_time[hart];
                let d = time_clock - old(self)@.time_clock;
                if is_user { p.0 + d <= u64::MAX } else { p.1 + d <= u64::MAX }
            },
        ensures
            ({
                let d = (time_clock - old(self)@.time_clock) as u64;
                let p = if old(self)@.hart_time.contains_key(hart) { old(self)@.hart_time[hart] } else { (0u64, 0u64) };
                final(self)@.hart_time == old(self)@.hart_time.insert(hart,
                    if is_user { ((p.0 + d) as u64, p.1) } else { (p.0, (p.1 + d) as u64) })
            }),
            final(self)@.current_hart == old(self)@.current_hart,
            final(self)@.time_clock == time_clock,
    {
        let delta_time = time_clock - self.time_clock;
        match hart_time_get(&self.hart_time, hart) {
            Some(time_pair) => {
                if is_user {
                    hart_time_insert(&mut self.hart_time, hart, (time_pair.0 + delta_time, time_pair.1));
                } else {
                    hart_time_insert(&mut self.hart_time, hart, (time_pair.0, time_pair.1 + delta_time));
                }
            },
            None => {
                if is_user {
                    hart_time_insert(&mut self.hart_time, hart, (delta_time, 0));
                } else {
                    hart_time_insert(&mut self.hart_time, hart, (0, delta_time));
                }
            },
        }
        self.time_clock = time_clock;
    }

    /// The thread leaves the kernel on `hart`, where it ran before, at
    /// `time_clock`: the time since the last switch counts as kernel time.
    pub fn exit_kernel(&mut self, hart: u64, time_clock: u64)
        requires
            old(self)@.hart_time.contains_key(hart),
            time_clock >= old(self)@.time_clock,
            old(self)@.hart_time[hart].1 + (time_clock - old(self)@.time_clock) <= u64::MAX,
        ensures
            ({
                let p = old(self)@.hart_time[hart];
                final(self)@.hart_time == old(self)@.hart_time.insert(hart,
                    (p.0, (p.1 + time_clock - old(self)@.time_clock) as u64))
            }),
            final(self)@.current_hart == old(self)@.current_hart,
            final(self)@.time_clock == time_clock,
    {
        let delta_time = time_clock - self.time_clock;
        match hart_time_get(&self.hart_time, hart) {
            Some(time_pair) => {
                hart_time_insert(&mut self.hart_time, hart, (time_pair.0, time_pair.1 + delta_time));
            },
            None => {},
        }
        self.time_clock = time_clock;
    }

    /// The times per hart, each hart once, in an order left open, with the
    /// total user and total kernel time over all harts.
    pub fn print_trace(&self) -> (r: (Vec<(u64, (u64, u64))>, u128, u128))
        ensures
            forall|i: int| 0 <= i < r.0@.len() ==> self@.hart_time.contains_key(#[trigger] r.0@[i].0)
                && self@.hart_time[r.0@[i].0] == r.0@[i].1,
            forall|i: int, j: int| 0 <= i < j < r.0@.len() ==> #[trigger] r.0@[i].0 != #[trigger] r.0@[j].0,
            forall|k: u64| #[trigger] self@.hart_time.contains_key(k) ==> exists|i: int| 0 <= i < r.0@.len() && r.0@[i].0 == k,
            r.1 == sum_times(r.0@).0,
            r.2 == sum_times(r.0@).1,
    {
        let entries = hart_time_entries(&self.hart_time);
        let mut total_user: u128 = 0;
        let mut total_kernel: u128 = 0;
        let mut i: usize = 0;
        while i < entries.len()
            invariant
                i <= entries@.len(),
                total_user == sum_times(entries@.subrange(0, i as int)).0,
                total_kernel == sum_times(entries@.subrange(0, i as int)).1,
                total_user <= i * 0xffff_ffff_ffff_ffff,
                total_kernel <= i * 0xffff_ffff_ffff_ffff,
            decreases entries@.len() - i,
        {
            proof {
                assert(entries@.subrange(0, i as int + 1).drop_last() =~= entries@.subrange(0, i as int));
            }
            total_user = total_user + entries[i].1.0 as u128;
            total_kernel = total_kernel + entries[i].1.1 as u128;
            i = i + 1;
        }
        proof {
            assert(entries@.subrange(0, entries@.len() as int) =~= entries@);
        }
        let r = (entries, total_user, total_kernel);
        proof {
            assert forall|k: u64| #[trigger] self@.hart_time.contains_key(k)
                implies exists|i: int| 0 <= i < r.0@.len() && r.0@[i].0 == k by {
                assert(hart_times(self.hart_time).contains_key(k));
                let i = choose|i: int| 0 <= i < entries@.len() && entries@[i].0 == k;
                assert(r.0@[i].0 == k);
            }
        }
        r
    }
}

} // verus!
