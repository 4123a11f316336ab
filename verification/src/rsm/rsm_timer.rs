//! The timer service: a dense table of timer records in three duration
//! buckets, driven by a millisecond reference counter. A scan pass walks one
//! bucket, emits one expiry per due timer, moves `last_fired` to the current
//! counter (so drift does not accumulate and a lagging scanner coalesces
//! missed periods into a single fire), and removes a timer whose fire budget
//! is spent, releasing its ID for reuse.

use vstd::prelude::*;
use crate::common::errcode;
use crate::common::tsidallocator::TsIdAllocator;
use crate::rsm::{rsm_component_t, rsm_timer_id_t};

verus! {

/// Capacity of the timer ID space.
pub const MAX_TIMER_COUNT: usize = 192 * 1024;

pub const INVALID_TIMER_ID: rsm_timer_id_t = -1;

/// Duration buckets: below 10 ms, below 100 ms, and the rest.
pub const TIMER_CAT_1MS: u8 = 1;

pub const TIMER_CAT_100MS: u8 = 2;

pub const TIMER_CAT_1S: u8 = 3;

/// One live timer: its period, remaining budget, payload and owner.
#[derive(Clone, Copy, Debug)]
pub struct timer_desc_t {
    pub id: rsm_timer_id_t,
    pub duration_msec: u64,
    pub loop_count: u64,
    pub timer_data: usize,
    pub last_fired: u64,
    pub expired_count: u64,
    pub cid: rsm_component_t,
}

/// One expiry to deliver: the owner, the timer and its payload.
#[derive(Clone, Copy, Debug)]
pub struct timer_fire_t {
    pub cid: rsm_component_t,
    pub timer_id: rsm_timer_id_t,
    pub timer_data: usize,
}

/// Live-timer counts, total and per bucket.
#[derive(Clone, Copy, Debug)]
pub struct timer_stats_t {
    pub total: usize,
    pub timer_count_1ms: usize,
    pub timer_count_100ms: usize,
    pub timer_count_1s: usize,
}

/// The bucket a duration falls in.
pub open spec fn spec_timer_cat(dur_msec: u64) -> u8 {
    if dur_msec < 10 {
        TIMER_CAT_1MS
    } else if dur_msec < 100 {
        TIMER_CAT_100MS
    } else {
        TIMER_CAT_1S
    }
}

/// The bucket a duration falls in: below 10 ms, below 100 ms, or the rest.
pub fn get_timer_cat(dur_msec: u64) -> (r: u8)
    ensures
        r == spec_timer_cat(dur_msec),
{
    if dur_msec < 10 {
        TIMER_CAT_1MS
    } else if dur_msec < 100 {
        TIMER_CAT_100MS
    } else {
        TIMER_CAT_1S
    }
}

/// Whether a timer is due at the given counter value.
pub open spec fn spec_timer_due(t: timer_desc_t, now: u64) -> bool {
    now >= t.last_fired + t.duration_msec
}

/// The timer after one fire at the given counter value.
pub open spec fn spec_timer_fired(t: timer_desc_t, now: u64) -> timer_desc_t {
    timer_desc_t {
        last_fired: now,
        expired_count: crate::rsm::task::spec_bump(t.expired_count),
        ..t
    }
}

/// Whether one fire at the given counter value exhausts the budget.
pub open spec fn spec_timer_spent(t: timer_desc_t, now: u64) -> bool {
    t.loop_count > 0 && spec_timer_fired(t, now).expired_count >= t.loop_count
}

pub struct timer_service_t {
    pub ids: TsIdAllocator,
    pub slots: Vec<Option<timer_desc_t>>,
    pub cur_time_stamp: u64,
}

impl timer_service_t {
    /// The table and the allocator agree: a slot is filled exactly when its
    /// ID is allocated, each record sits under its own ID, and a finite
    /// timer's fire budget is never exceeded.
    pub open spec fn wf(&self) -> bool {
        &&& self.ids.wf()
        &&& self.ids.start == 1
        &&& self.ids.cap == MAX_TIMER_COUNT
        &&& self.slots@.len() == MAX_TIMER_COUNT + 1
        &&& self.slots@[0] is None
        &&& forall|i: int|
            1 <= i <= MAX_TIMER_COUNT ==> ((#[trigger] self.slots@[i]) is Some
                <==> self.ids.spec_is_used(i as i32))
        &&& forall|i: int|
            1 <= i <= MAX_TIMER_COUNT ==> ((#[trigger] self.slots@[i]) matches Some(t) ==> t.id == i
                && (t.loop_count > 0 ==> t.expired_count < t.loop_count))
    }

    /// Whether a timer with this ID is live.
    pub open spec fn spec_has_timer(&self, timer_id: rsm_timer_id_t) -> bool {
        1 <= timer_id <= MAX_TIMER_COUNT && self.slots@[timer_id as int] is Some
    }
}

/// A timer service with every ID free and the reference counter at zero.
pub fn init_timer() -> (r: timer_service_t)
    ensures
        r.wf(),
        r.cur_time_stamp == 0,
        forall|i: rsm_timer_id_t| !r.spec_has_timer(i),
{
    let mut slots: Vec<Option<timer_desc_t>> = Vec::new();
    let mut i: usize = 0;
    while i <= MAX_TIMER_COUNT
        invariant
            i <= MAX_TIMER_COUNT + 1,
            slots@.len() == i,
            forall|j: int| 0 <= j < i ==> (#[trigger] slots@[j]) is None,
        decreases MAX_TIMER_COUNT + 1 - i,
    {
        slots.push(None);
        i = i + 1;
    }
    timer_service_t {
        ids: TsIdAllocator::new(1, MAX_TIMER_COUNT as i32),
        slots,
        cur_time_stamp: 0,
    }
}

impl timer_service_t {
    /// Advance the millisecond reference counter, as the epoch ticker does.
    pub fn incr_inner_time_stamp(&mut self, now_msec: u64)
        requires
            old(self).wf(),
        ensures
            final(self).wf(),
            final(self).cur_time_stamp == (if now_msec >= old(self).cur_time_stamp {
                now_msec
            } else {
                old(self).cur_time_stamp
            }),
            final(self).slots@ == old(self).slots@,
            final(self).ids == old(self).ids,
    {
        if now_msec >= self.cur_time_stamp {
            self.cur_time_stamp = now_msec;
        }
    }

    /// The millisecond reference counter all expiry decisions use.
    pub fn get_inner_time_stamp(&self) -> (r: u64)
        ensures
            r == self.cur_time_stamp,
    {
        self.cur_time_stamp
    }

    /// Arm a timer owned by the caller: `loop_count` fires, or until killed
    /// when `loop_count` is zero. Yields the new timer's ID, or nothing
    /// exactly when the ID space is exhausted.
    pub fn set_timer(
        &mut self,
        dur_msec: u64,
        loop_count: u64,
        timer_data: usize,
        owner: rsm_component_t,
    ) -> (r: Option<rsm_timer_id_t>)
        requires
            old(self).wf(),
        ensures
            final(self).wf(),
            final(self).cur_time_stamp == old(self).cur_time_stamp,
            r is None <==> old(self).ids.allocator@.len() == 0,
            r is None ==> final(self).slots@ == old(self).slots@,
            r matches Some(id) ==> {
                &&& 1 <= id <= MAX_TIMER_COUNT
                &&& !old(self).spec_has_timer(id)
                &&& final(self).spec_has_timer(id)
                &&& final(self).slots@ == old(self).slots@.update(
                    id as int,
                    Some(
                        timer_desc_t {
                            id,
                            duration_msec: dur_msec,
                            loop_count,
                            timer_data,
                            last_fired: old(self).cur_time_stamp,
                            expired_count: 0,
                            cid: owner,
                        },
                    ),
                )
            },
    {
        let id = self.ids.allocate_id();
        if id == TsIdAllocator::INVALID_ID {
            return None;
        }
        let timer = timer_desc_t {
            id,
            duration_msec: dur_msec,
            loop_count,
            timer_data,
            last_fired: self.cur_time_stamp,
            expired_count: 0,
            cid: owner,
        };
        self.slots.set(id as usize, Some(timer));
        Some(id)
    }

    /// Cancel a live timer. `INVALID_PARAM` for an ID outside the space,
    /// `NOT_FOUND` for a free one, `INVALID_STATE` when the caller is not
    /// the owner; otherwise the record is removed and the ID is reusable.
    pub fn kill_timer_by_id(&mut self, caller: rsm_component_t, timer_id: rsm_timer_id_t) -> (res:
        errcode::RESULT)
        requires
            old(self).wf(),
        ensures
            final(self).wf(),
            final(self).cur_time_stamp == old(self).cur_time_stamp,
            !(1 <= timer_id <= MAX_TIMER_COUNT) ==> res == errcode::ERROR_INVALID_PARAM && final(self).slots@ == old(self).slots@,
            1 <= timer_id <= MAX_TIMER_COUNT && !old(self).spec_has_timer(timer_id) ==> res
                == errcode::ERROR_NOT_FOUND && final(self).slots@ == old(self).slots@,
            old(self).spec_has_timer(timer_id) && old(self).slots@[timer_id as int]->Some_0.cid
                != caller ==> res == errcode::ERROR_INVALID_STATE && final(self).slots@ == old(self).slots@,
            old(self).spec_has_timer(timer_id) && old(self).slots@[timer_id as int]->Some_0.cid
                == caller ==> res == errcode::RESULT_SUCCESS && !final(self).spec_has_timer(timer_id) && final(self).slots@ == old(self).slots@.update(timer_id as int, None) && !final(self).ids.spec_is_used(timer_id),
    {
        if timer_id < 1 || timer_id as usize > MAX_TIMER_COUNT {
            return errcode::ERROR_INVALID_PARAM;
        }
        match &self.slots[timer_id as usize] {
            None => { return errcode::ERROR_NOT_FOUND },
            Some(t) => {
                if !(t.cid.cid == caller.cid && t.cid.node_id == caller.node_id && t.cid.inst_id
                    == caller.inst_id) {
                    return errcode::ERROR_INVALID_STATE;
                }
            },
        }
        self.slots.set(timer_id as usize, None);
        self.ids.release_id(timer_id);
        errcode::RESULT_SUCCESS
    }

    /// One scan pass over one bucket: emit one expiry for every due timer of
    /// that bucket, stamp it fired at the current counter, and remove it —
    /// releasing its ID — exactly when the fire spends its budget. Every
    /// other slot is untouched. The emitted expiries carry strictly
    /// increasing timer IDs, so one pass fires a timer at most once.
    pub fn scan_timer_cat(&mut self, cat: u8) -> (fires: Vec<timer_fire_t>)
        requires
            old(self).wf(),
        ensures
            final(self).wf(),
            final(self).cur_time_stamp == old(self).cur_time_stamp,
            final(self).slots@.len() == old(self).slots@.len(),
            forall|i: int|
                1 <= i <= MAX_TIMER_COUNT ==> (#[trigger] final(self).slots@[i]) == ({
                    let now = old(self).cur_time_stamp;
                    match old(self).slots@[i] {
                        Option::None => Option::<timer_desc_t>::None,
                        Option::Some(t) => {
                            if spec_timer_cat(t.duration_msec) == cat && spec_timer_due(t, now) {
                                if spec_timer_spent(t, now) {
                                    Option::<timer_desc_t>::None
                                } else {
                                    Option::Some(spec_timer_fired(t, now))
                                }
                            } else {
                                Option::Some(t)
                            }
                        },
                    }
                }),
            forall|j: int|
                0 <= j < fires@.len() ==> ({
                    let f = #[trigger] fires@[j];
                    let now = old(self).cur_time_stamp;
                    &&& 1 <= f.timer_id <= MAX_TIMER_COUNT
                    &&& old(self).slots@[f.timer_id as int] matches Some(t)
                    &&& spec_timer_cat(t.duration_msec) == cat
                    &&& spec_timer_due(t, now)
                    &&& f.cid == t.cid
                    &&& f.timer_data == t.timer_data
                }),
            forall|j1: int, j2: int|
                0 <= j1 < j2 < fires@.len() ==> fires@[j1].timer_id < fires@[j2].timer_id,
            forall|i: int|
                1 <= i <= MAX_TIMER_COUNT ==> (((#[trigger] old(self).slots@[i]) matches Some(t)
                    && spec_timer_cat(t.duration_msec) == cat && spec_timer_due(
                    t,
                    old(self).cur_time_stamp,
                )) ==> exists|j: int| 0 <= j < fires@.len() && (#[trigger] fires@[j]).timer_id == i),
            forall|i: int|
                1 <= i <= MAX_TIMER_COUNT ==> #[trigger] spec_slot_scan_step(
                    old(self).slots@[i],
                    final(self).slots@[i],
                    spec_fired_for(fires@, i),
                    cat,
                    old(self).cur_time_stamp,
                ),
    {
        let now = self.cur_time_stamp;
        let mut fires: Vec<timer_fire_t> = Vec::new();
        let mut i: usize = 1;
        while i <= MAX_TIMER_COUNT
            invariant
                1 <= i <= MAX_TIMER_COUNT + 1,
                now == old(self).cur_time_stamp,
                self.cur_time_stamp == old(self).cur_time_stamp,
                self.wf(),
                self.slots@.len() == old(self).slots@.len(),
                forall|l: int|
                    i <= l <= MAX_TIMER_COUNT ==> (#[trigger] self.slots@[l]) == old(self).slots@[l]
                        && (self.ids.spec_is_used(l as i32) == old(self).ids.spec_is_used(
                        l as i32,
                    )),
                forall|l: int|
                    1 <= l < i ==> (#[trigger] self.slots@[l]) == ({
                        match old(self).slots@[l] {
                            Option::None => Option::<timer_desc_t>::None,
                            Option::Some(t) => {
                                if spec_timer_cat(t.duration_msec) == cat && spec_timer_due(
                                    t,
                                    now,
                                ) {
                                    if spec_timer_spent(t, now) {
                                        Option::<timer_desc_t>::None
                                    } else {
                                        Option::Some(spec_timer_fired(t, now))
                                    }
                                } else {
                                    Option::Some(t)
                                }
                            },
                        }
                    }),
                forall|j: int|
                    0 <= j < fires@.len() ==> ({
                        let f = #[trigger] fires@[j];
                        &&& 1 <= f.timer_id < i
                        &&& old(self).slots@[f.timer_id as int] matches Some(t)
                        &&& spec_timer_cat(t.duration_msec) == cat
                        &&& spec_timer_due(t, now)
                        &&& f.cid == t.cid
                        &&& f.timer_data == t.timer_data
                    }),
                forall|j1: int, j2: int|
                    0 <= j1 < j2 < fires@.len() ==> fires@[j1].timer_id < fires@[j2].timer_id,
                forall|l: int|
                    1 <= l < i ==> (((#[trigger] old(self).slots@[l]) matches Some(t)
                        && spec_timer_cat(t.duration_msec) == cat && spec_timer_due(t, now))
                        ==> exists|j: int|
                        0 <= j < fires@.len() && (#[trigger] fires@[j]).timer_id == l),
            decreases MAX_TIMER_COUNT + 1 - i,
        {
            let ghost pre_fires = fires@;
            let slot = self.slots[i];
            match slot {
                None => {},
                Some(t) => {
                    let is_cat = get_timer_cat(t.duration_msec) == cat;
                    let due = now >= t.last_fired && now - t.last_fired >= t.duration_msec;
                    if is_cat && due {
                        fires.push(
                            timer_fire_t { cid: t.cid, timer_id: t.id, timer_data: t.timer_data },
                        );
                        proof {
                            assert(t.id == i);
                            assert(fires@[fires@.len() - 1].timer_id == i);
                        }
                        let expired = if t.expired_count < u64::MAX {
                            t.expired_count + 1
                        } else {
                            t.expired_count
                        };
                        if t.loop_count > 0 && expired >= t.loop_count {
                            self.slots.set(i, None);
                            self.ids.release_id(t.id);
                        } else {
                            let t2 = timer_desc_t {
                                last_fired: now,
                                expired_count: expired,
                                ..t
                            };
                            self.slots.set(i, Some(t2));
                        }
                    }
                },
            }
            proof {
                assert forall|l: int|
                    1 <= l < i + 1 && ((#[trigger] old(self).slots@[l]) is Some && spec_timer_cat(
                        old(self).slots@[l]->Some_0.duration_msec,
                    ) == cat && spec_timer_due(old(self).slots@[l]->Some_0, now)) implies exists|
                    j: int,
                |
                    0 <= j < fires@.len() && (#[trigger] fires@[j]).timer_id == l by {
                    if l < i {
                        let j = choose|j: int|
                            0 <= j < pre_fires.len() && (#[trigger] pre_fires[j]).timer_id == l;
                        assert(fires@[j].timer_id == l);
                    } else {
                        assert(fires@[fires@.len() - 1].timer_id == l);
                    }
                }
            }
            i = i + 1;
        }
        fires
    }

    /// How many timers are live in total and per bucket: the total is what
    /// the allocator has handed out, and each bucket count is the number of
    /// live records whose duration falls in that bucket.
    pub fn get_timer_stats(&self) -> (r: timer_stats_t)
        requires
            self.wf(),
        ensures
            r.total == self.ids.cap - self.ids.allocator@.len(),
            r.timer_count_1ms == spec_count_cat(self.slots@, TIMER_CAT_1MS, self.slots@.len() as int),
            r.timer_count_100ms == spec_count_cat(
                self.slots@,
                TIMER_CAT_100MS,
                self.slots@.len() as int,
            ),
            r.timer_count_1s == spec_count_cat(self.slots@, TIMER_CAT_1S, self.slots@.len() as int),
    {
        let total = self.ids.used_count();
        let mut c1: usize = 0;
        let mut c2: usize = 0;
        let mut c3: usize = 0;
        let mut i: usize = 0;
        while i <= MAX_TIMER_COUNT
            invariant
                i <= MAX_TIMER_COUNT + 1,
                self.slots@.len() == MAX_TIMER_COUNT + 1,
                c1 == spec_count_cat(self.slots@, TIMER_CAT_1MS, i as int),
                c2 == spec_count_cat(self.slots@, TIMER_CAT_100MS, i as int),
                c3 == spec_count_cat(self.slots@, TIMER_CAT_1S, i as int),
                c1 <= i && c2 <= i && c3 <= i,
            decreases MAX_TIMER_COUNT + 1 - i,
        {
            match &self.slots[i] {
                None => {},
                Some(t) => {
                    let c = get_timer_cat(t.duration_msec);
                    if c == TIMER_CAT_1MS {
                        c1 = c1 + 1;
                    } else if c == TIMER_CAT_100MS {
                        c2 = c2 + 1;
                    } else {
                        c3 = c3 + 1;
                    }
                },
            }
            i = i + 1;
        }
        timer_stats_t {
            total: total as usize,
            timer_count_1ms: c1,
            timer_count_100ms: c2,
            timer_count_1s: c3,
        }
    }
}

/// The number of live records in the first n slots whose duration falls in
/// the given bucket.
pub open spec fn spec_count_cat(slots: Seq<Option<timer_desc_t>>, cat: u8, n: int) -> int
    decreases n,
{
    if n <= 0 {
        0
    } else {
        spec_count_cat(slots, cat, n - 1) + (match slots[n - 1] {
            Option::Some(t) => if spec_timer_cat(t.duration_msec) == cat {
                1int
            } else {
                0int
            },
            Option::None => 0int,
        })
    }
}


/// Whether a scan's emitted expiries include one for this timer ID.
pub open spec fn spec_fired_for(fires: Seq<timer_fire_t>, i: int) -> bool {
    exists|j: int| 0 <= j < fires.len() && (#[trigger] fires[j]).timer_id == i
}

/// One scan pass's effect on one slot, at one counter value: an absent
/// record stays absent; a record outside the bucket or not yet due is kept;
/// a due record fires once — stamped at the counter — and is removed
/// exactly when the fire spends its budget.
pub open spec fn spec_slot_scan_step(
    before: Option<timer_desc_t>,
    after: Option<timer_desc_t>,
    fired: bool,
    cat: u8,
    now: u64,
) -> bool {
    match before {
        Option::None => after is None && !fired,
        Option::Some(t) => {
            if spec_timer_cat(t.duration_msec) == cat && spec_timer_due(t, now) {
                &&& fired
                &&& (if spec_timer_spent(t, now) {
                    after is None
                } else {
                    after == Option::Some(spec_timer_fired(t, now))
                })
            } else {
                after == before && !fired
            }
        },
    }
}

/// The fire budget over a whole lifetime of scans: along any chain of scan
/// steps on one slot that starts at a live timer with `loop_count = L > 0`
/// and `expired_count = e`, at most `L - e` fires are emitted; the chain
/// ends with the slot empty exactly when all `L - e` were, and while the
/// record survives its counter accounts every fire so far. A timer with
/// `loop_count = 0` is never removed by scanning.
pub proof fn lemma_timer_fire_total(
    slots: Seq<Option<timer_desc_t>>,
    fires: Seq<bool>,
    cats: Seq<u8>,
    nows: Seq<u64>,
    t0: timer_desc_t,
)
    requires
        slots.len() == fires.len() + 1,
        cats.len() == fires.len(),
        nows.len() == fires.len(),
        forall|k: int|
            0 <= k < fires.len() ==> #[trigger] spec_slot_scan_step(
                slots[k],
                slots[k + 1],
                fires[k],
                cats[k],
                nows[k],
            ),
        slots[0] == Option::Some(t0),
        t0.loop_count > 0 ==> t0.expired_count < t0.loop_count,
    ensures
        t0.loop_count > 0 ==> crate::common::bitmap::count_true(fires) <= t0.loop_count
            - t0.expired_count,
        t0.loop_count > 0 && slots.last() is None ==> crate::common::bitmap::count_true(fires)
            == t0.loop_count - t0.expired_count,
        t0.loop_count > 0 ==> (slots.last() matches Some(t1) ==> t1.loop_count == t0.loop_count
            && t1.expired_count == t0.expired_count + crate::common::bitmap::count_true(fires)
            && t1.expired_count < t1.loop_count && t1.timer_data == t0.timer_data && t1.cid
            == t0.cid),
        t0.loop_count == 0 ==> (slots.last() matches Some(t1) && t1.loop_count == 0
            && t1.timer_data == t0.timer_data && t1.cid == t0.cid),
        t0.loop_count == 0 && t0.expired_count + crate::common::bitmap::count_true(fires)
            <= u64::MAX ==> (slots.last() matches Some(t1) && t1.expired_count
            == t0.expired_count + crate::common::bitmap::count_true(fires)),
    decreases fires.len(),
{
    if fires.len() == 0 {
        assert(slots.last() == slots[0]);
    } else {
        let n = fires.len() as int;
        lemma_timer_fire_total(
            slots.drop_last(),
            fires.drop_last(),
            cats.drop_last(),
            nows.drop_last(),
            t0,
        );
        assert(slots.drop_last().len() == n);
        assert(slots.drop_last().last() == slots[n - 1]);
        assert(spec_slot_scan_step(slots[n - 1], slots[n], fires[n - 1], cats[n - 1], nows[n - 1]));
        assert(fires.drop_last().len() == n - 1);
        assert(fires.last() == fires[n - 1]);
        if t0.loop_count > 0 {
            match slots[n - 1] {
                Option::None => {
                    assert(slots[n] is None && !fires[n - 1]);
                },
                Option::Some(t1) => {
                    assert(t1.expired_count < t1.loop_count);
                    if fires[n - 1] {
                        assert(spec_timer_fired(t1, nows[n - 1]).expired_count == t1.expired_count
                            + 1);
                    }
                },
            }
        } else {
            let t1 = slots[n - 1]->Some_0;
            if fires[n - 1] && t0.expired_count + crate::common::bitmap::count_true(fires)
                <= u64::MAX {
                assert(crate::common::bitmap::count_true(fires) == crate::common::bitmap::count_true(
                    fires.drop_last(),
                ) + 1);
                assert(t1.expired_count < u64::MAX);
                assert(spec_timer_fired(t1, nows[n - 1]).expired_count == t1.expired_count + 1);
            }
        }
    }
}

/// A timer's fire budget: a timer armed with `loop_count = L > 0` is
/// delivered at most L expiries over its lifetime — its expiry counter
/// counts the fires emitted for it, stays below L while it is live, and the
/// scan that makes the counter reach L removes the timer and frees its ID,
/// after which `kill_timer_by_id` reports `NOT_FOUND`.
pub proof fn lemma_timer_fire_budget(s: &timer_service_t, timer_id: rsm_timer_id_t)
    requires
        s.wf(),
        s.spec_has_timer(timer_id),
    ensures
        ({
            let t = s.slots@[timer_id as int]->Some_0;
            t.loop_count > 0 ==> t.expired_count < t.loop_count
        }),
{
}

} // verus!
