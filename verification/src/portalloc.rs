//! Bookkeeping of reserved port ranges.
//!
//! A [`RootData`] remembers which ranges of ports were handed out and until
//! when each is reserved, so that programs that start at the same time do
//! not get the same ports. It never opens a port itself.

use std::collections::BTreeMap;
use std::ops::Range;
use vstd::prelude::*;
use crate::net::ordered::{keys_in_order, lists_in_order};

verus! {

/// The lowest port number to try. Ports below are typically used by normal
/// software.
pub const LOW: u16 = 10000;

/// The highest port number at which a range may start. Ports above are
/// typically ephemeral.
pub const HIGH: u16 = 32000;

/// For how many seconds a range stays reserved.
pub const ALLOCATION_TIME_SECS: u64 = 120;

/// A port from which the search starts over: the first one above
/// [`HIGH`].
pub const START_OVER: u16 = 32001;

/// The largest range that can be asked for: a range that starts at
/// [`HIGH`] still has to end at a port number.
pub const MAX_RANGE_SIZE: u16 = 33535;

/// Seconds since the Unix epoch.
pub type UnixTimestamp = u64;

/// A reserved range, without its first port.
#[derive(Clone, Copy, Debug, PartialEq, Eq, Structural)]
pub struct RangeData {
    /// Port range size.
    pub size: u16,
    /// Unix timestamp when this range expires.
    pub expires: UnixTimestamp,
}

/// The port at which the search starts when nothing was handed out yet.
pub fn default_next() -> (port: u16)
    ensures
        port == LOW,
{
    LOW
}

/// The number of ports in `range`.
pub open spec fn spec_range_size(range: Range<u16>) -> u16 {
    if range.start <= range.end {
        (range.end - range.start) as u16
    } else {
        0
    }
}

/// Whether the reserved range that starts at `start` conflicts with
/// `range`.
pub open spec fn conflicts(start: u16, reserved: RangeData, range: Range<u16>) -> bool {
    start < range.end && range.start < start + reserved.size
}

/// What a [`RootData`] holds: the port to try next, and the reserved
/// ranges by their first port.
pub struct RootModel {
    pub next: u16,
    pub keys: Map<u16, RangeData>,
}

impl RootModel {
    /// The states that a [`RootData`] can be in: every reserved range ends
    /// at a port number, and no range reaches into the next one.
    pub open spec fn wf(self) -> bool {
        &&& forall|start: u16| #[trigger]
            self.keys.contains_key(start) ==> start + self.keys[start].size <= u16::MAX
        &&& forall|first: u16, second: u16|
            #![trigger self.keys.contains_key(first), self.keys.contains_key(second)]
            self.keys.contains_key(first) && self.keys.contains_key(second) && first < second
                ==> first + self.keys[first].size <= second
    }

    /// Whether a reserved range conflicts with `range`.
    pub open spec fn has_conflict(self, range: Range<u16>) -> bool {
        exists|start: u16| #[trigger]
            self.keys.contains_key(start) && conflicts(start, self.keys[start], range)
    }

    /// Whether `start` is the first port of the last reserved range that
    /// conflicts with `range`.
    pub open spec fn is_last_conflict(self, range: Range<u16>, start: u16) -> bool {
        &&& self.keys.contains_key(start)
        &&& conflicts(start, self.keys[start], range)
        &&& forall|other: u16| #[trigger]
            self.keys.contains_key(other) && conflicts(other, self.keys[other], range) ==> other
                <= start
    }

    /// What is left at time `now`: the ranges that have not expired.
    pub open spec fn reclaimed(self, now: UnixTimestamp) -> RootModel {
        RootModel {
            next: self.next,
            keys: self.keys.restrict(
                Set::new(|start: u16| self.keys.contains_key(start) && now < self.keys[start].expires),
            ),
        }
    }

    /// The state after `range` was reserved at time `now`.
    pub open spec fn inserted(self, range: Range<u16>, now: UnixTimestamp) -> RootModel {
        RootModel {
            next: range.end,
            keys: self.keys.insert(
                range.start,
                RangeData { size: spec_range_size(range), expires: spec_expiry(now) },
            ),
        }
    }
}

/// When a range that is reserved at `now` expires: 120 seconds later, or at
/// the end of time if that comes first.
pub open spec fn spec_expiry(now: UnixTimestamp) -> UnixTimestamp {
    if now <= u64::MAX - ALLOCATION_TIME_SECS {
        (now + ALLOCATION_TIME_SECS) as u64
    } else {
        u64::MAX
    }
}

/// The map that holds the given ranges, each under its first port.
pub open spec fn ranges_map(ranges: Seq<(u16, RangeData)>) -> Map<u16, RangeData>
    decreases ranges.len(),
{
    if ranges.len() == 0 {
        Map::empty()
    } else {
        ranges_map(ranges.drop_last()).insert(ranges.last().0, ranges.last().1)
    }
}

/// Whether the given ranges can be reserved together: they are listed by
/// their first ports, from the lowest to the highest, every one ends at a
/// port number, and none reaches into the next.
pub open spec fn ranges_fit(ranges: Seq<(u16, RangeData)>) -> bool {
    &&& forall|i: int| 0 <= i < ranges.len() ==> (#[trigger] ranges[i]).0 + ranges[i].1.size <= u16::MAX
    &&& forall|i: int|
        0 <= i < ranges.len() - 1 ==> (#[trigger] ranges[i]).0 < ranges[i + 1].0 && ranges[i].0
            + ranges[i].1.size <= ranges[i + 1].0
}

proof fn lemma_ranges_map_keys(ranges: Seq<(u16, RangeData)>)
    requires
        ranges_fit(ranges),
    ensures
        forall|start: u16| #[trigger]
            ranges_map(ranges).contains_key(start) <==> exists|i: int|
                0 <= i < ranges.len() && (#[trigger] ranges[i]).0 == start,
        forall|i: int|
            0 <= i < ranges.len() ==> ranges_map(ranges)[(#[trigger] ranges[i]).0] == ranges[i].1,
        forall|i: int, j: int|
            0 <= i < j < ranges.len() ==> (#[trigger] ranges[i]).0 < (#[trigger] ranges[j]).0
                && ranges[i].0 + ranges[i].1.size <= ranges[j].0,
    decreases ranges.len(),
{
    assert forall|i: int, j: int| 0 <= i < j < ranges.len() implies (#[trigger] ranges[i]).0 < (
    #[trigger] ranges[j]).0 && ranges[i].0 + ranges[i].1.size <= ranges[j].0 by {
        lemma_ranges_ordered(ranges, i, j);
    }
    if ranges.len() > 0 {
        let front = ranges.drop_last();
        assert(ranges_fit(front)) by {
            assert forall|i: int| 0 <= i < front.len() implies (#[trigger] front[i]).0
                + front[i].1.size <= u16::MAX by {
                assert(front[i] == ranges[i]);
            }
            assert forall|i: int| 0 <= i < front.len() - 1 implies (#[trigger] front[i]).0
                < front[i + 1].0 && front[i].0 + front[i].1.size <= front[i + 1].0 by {
                assert(front[i] == ranges[i]);
                assert(front[i + 1] == ranges[i + 1]);
            }
        }
        lemma_ranges_map_keys(front);
        assert forall|start: u16| #[trigger]
            ranges_map(ranges).contains_key(start) <==> exists|i: int|
                0 <= i < ranges.len() && (#[trigger] ranges[i]).0 == start by {
            if ranges_map(ranges).contains_key(start) {
                if start == ranges.last().0 {
                    assert(ranges[ranges.len() - 1].0 == start);
                } else {
                    assert(ranges_map(front).contains_key(start));
                    let i = choose|i: int| 0 <= i < front.len() && (#[trigger] front[i]).0 == start;
                    assert(ranges[i].0 == start);
                }
            }
            if exists|i: int| 0 <= i < ranges.len() && (#[trigger] ranges[i]).0 == start {
                let i = choose|i: int| 0 <= i < ranges.len() && (#[trigger] ranges[i]).0 == start;
                if i < front.len() {
                    assert(front[i].0 == start);
                }
            }
        }
        assert forall|i: int| 0 <= i < ranges.len() implies ranges_map(ranges)[(
        #[trigger] ranges[i]).0] == ranges[i].1 by {
            if i < front.len() {
                assert(front[i] == ranges[i]);
                lemma_ranges_ordered(ranges, i, ranges.len() - 1);
            }
        }
    }
}

proof fn lemma_ranges_ordered(ranges: Seq<(u16, RangeData)>, i: int, j: int)
    requires
        ranges_fit(ranges),
        0 <= i < j < ranges.len(),
    ensures
        ranges[i].0 < ranges[j].0,
        ranges[i].0 + ranges[i].1.size <= ranges[j].0,
    decreases j - i,
{
    if i + 1 < j {
        lemma_ranges_ordered(ranges, i, j - 1);
        assert(ranges[j - 1].0 < ranges[j - 1 + 1].0);
    } else {
        assert(ranges[i].0 < ranges[i + 1].0);
    }
}

/// The reserved port ranges.
pub struct RootData {
    /// Next port to try.
    next: u16,
    /// Map of port ranges. For each range, the key is the first port in
    /// the range and the range size and expiration time are stored in the
    /// value.
    keys: BTreeMap<u16, RangeData>,
}

impl View for RootData {
    type V = RootModel;

    closed spec fn view(&self) -> RootModel {
        RootModel { next: self.next, keys: self.keys@ }
    }
}

impl Default for RootData {
    /// Nothing reserved; the search starts at [`LOW`].
    fn default() -> (root: RootData)
        ensures
            root@.next == LOW,
            root@.keys == Map::<u16, RangeData>::empty(),
            root@.wf(),
    {
        RootData { next: LOW, keys: BTreeMap::new() }
    }
}

impl RootData {
    /// Every value is in one of the states of its model.
    #[verifier::type_invariant]
    pub open spec fn inv(self) -> bool {
        self@.wf()
    }

    /// The port to try next.
    pub fn next(&self) -> (port: u16)
        ensures
            port == self@.next,
    {
        self.next
    }

    /// The value that holds the given ranges, with `next` as the port to
    /// try next; `None` if the ranges cannot be reserved together.
    pub fn from_ranges(next: u16, ranges: Vec<(u16, RangeData)>) -> (root: Option<RootData>)
        ensures
            root is Some <==> ranges_fit(ranges@),
            root matches Some(made) ==> made@ == (RootModel {
                next,
                keys: ranges_map(ranges@),
            }),
    {
        let mut keys: BTreeMap<u16, RangeData> = BTreeMap::new();
        let mut i: usize = 0;
        while i < ranges.len()
            invariant
                0 <= i <= ranges.len(),
                ranges_fit(ranges@.take(i as int)),
                keys@ == ranges_map(ranges@.take(i as int)),
            decreases ranges.len() - i,
        {
            let (start, reserved) = ranges[i];
            let ghost front = ranges@.take(i as int);
            let ghost upto = ranges@.take(i as int + 1);
            proof {
                assert(upto.drop_last() =~= front);
                assert(upto.last() == ranges@[i as int]);
            }
            let fits = reserved.size <= u16::MAX - start && (i == 0 || (ranges[i - 1].0 < start
                && ranges[i - 1].1.size <= start - ranges[i - 1].0));
            if !fits {
                proof {
                    if ranges_fit(ranges@) {
                        assert(ranges@[i as int].0 + ranges@[i as int].1.size <= u16::MAX);
                        if i > 0 {
                            assert(ranges@[i - 1].0 < ranges@[i - 1 + 1].0);
                        }
                    }
                }
                return None;
            }
            keys.insert(start, reserved);
            proof {
                assert(ranges_fit(upto)) by {
                    assert forall|k: int| 0 <= k < upto.len() implies (#[trigger] upto[k]).0
                        + upto[k].1.size <= u16::MAX by {
                        if k < i {
                            assert(front[k] == upto[k]);
                        }
                    }
                    assert forall|k: int| 0 <= k < upto.len() - 1 implies (#[trigger] upto[k]).0
                        < upto[k + 1].0 && upto[k].0 + upto[k].1.size <= upto[k + 1].0 by {
                        if k < i - 1 {
                            assert(front[k] == upto[k]);
                            assert(front[k + 1] == upto[k + 1]);
                        }
                    }
                }
            }
            i = i + 1;
        }
        proof {
            assert(ranges@.take(i as int) =~= ranges@);
            lemma_ranges_map_keys(ranges@);
            let model = RootModel { next, keys: keys@ };
            assert forall|start: u16| #[trigger] model.keys.contains_key(start) implies start
                + model.keys[start].size <= u16::MAX by {
                let k = choose|k: int| 0 <= k < ranges.len() && (#[trigger] ranges@[k]).0 == start;
                assert(ranges_map(ranges@)[ranges@[k].0] == ranges@[k].1);
            }
            assert forall|first: u16, second: u16|
                #![trigger model.keys.contains_key(first), model.keys.contains_key(second)]
                model.keys.contains_key(first) && model.keys.contains_key(second) && first
                    < second implies first + model.keys[first].size <= second by {
                let a = choose|k: int| 0 <= k < ranges.len() && (#[trigger] ranges@[k]).0 == first;
                let b = choose|k: int| 0 <= k < ranges.len() && (#[trigger] ranges@[k]).0 == second;
                assert(ranges_map(ranges@)[ranges@[a].0] == ranges@[a].1);
                if a < b {
                    assert(ranges@[a].0 + ranges@[a].1.size <= ranges@[b].0);
                } else if b < a {
                    assert(ranges@[b].0 < ranges@[a].0);
                }
            }
        }
        Some(RootData { next, keys })
    }

    /// The reserved ranges, each with its first port, from the lowest first
    /// port to the highest.
    pub fn ranges(&self) -> (ranges: Vec<(u16, RangeData)>)
        ensures
            ranges.len() == self@.keys.dom().len(),
            forall|i: int|
                0 <= i < ranges.len() ==> self@.keys.contains_key((#[trigger] ranges[i]).0)
                    && self@.keys[ranges[i].0] == ranges[i].1,
            forall|i: int, j: int|
                0 <= i < j < ranges.len() ==> (#[trigger] ranges[i]).0 < (#[trigger] ranges[j]).0,
            forall|start: u16| #[trigger]
                self@.keys.contains_key(start) ==> exists|i: int|
                    0 <= i < ranges.len() && (#[trigger] ranges[i]).0 == start,
    {
        let starts = keys_in_order(&self.keys);
        let mut ranges: Vec<(u16, RangeData)> = Vec::new();
        let mut i: usize = 0;
        while i < starts.len()
            invariant
                0 <= i <= starts.len(),
                lists_in_order(starts@, self.keys@.dom()),
                ranges.len() == i,
                forall|k: int|
                    0 <= k < i ==> (#[trigger] ranges[k]).0 == starts[k] && self.keys@[starts[k]]
                        == ranges[k].1,
            decreases starts.len() - i,
        {
            let start = starts[i];
            proof {
                assert(starts@.to_set().contains(start));
            }
            match self.keys.get(&start) {
                Some(reserved) => {
                    ranges.push((start, *reserved));
                },
                None => {
                    ranges.push((start, RangeData { size: 0, expires: 0 }));
                },
            }
            i = i + 1;
        }
        proof {
            starts@.unique_seq_to_set();
            assert forall|k: int| 0 <= k < ranges.len() implies self@.keys.contains_key(
                (#[trigger] ranges[k]).0,
            ) by {
                assert(starts@.to_set().contains(starts[k]));
            }
            assert forall|start: u16| #[trigger] self@.keys.contains_key(start) implies exists|
                i: int,
            |
                0 <= i < ranges.len() && (#[trigger] ranges[i]).0 == start by {
                assert(starts@.to_set().contains(start));
                let k = choose|k: int| 0 <= k < starts.len() && starts[k] == start;
                assert(ranges[k].0 == start);
            }
        }
        ranges
    }

    /// Remove expired entries from the map: what stays are the ranges that
    /// expire after `now`.
    pub fn reclaim(&mut self, now: UnixTimestamp)
        ensures
            final(self)@ == old(self)@.reclaimed(now),
            final(self)@.wf(),
    {
        proof {
            use_type_invariant(&*self);
        }
        let ghost before = self.keys@;
        let next = self.next;
        let mut keys: BTreeMap<u16, RangeData> = BTreeMap::new();
        std::mem::swap(&mut keys, &mut self.keys);
        let starts = keys_in_order(&keys);
        let mut i: usize = 0;
        while i < starts.len()
            invariant
                0 <= i <= starts.len(),
                lists_in_order(starts@, before.dom()),
                forall|start: u16| #[trigger]
                    keys@.contains_key(start) ==> before.contains_key(start) && keys@[start]
                        == before[start],
                forall|k: int|
                    0 <= k < i ==> (#[trigger] keys@.contains_key(starts[k]) <==> now
                        < before[starts[k]].expires),
                forall|k: int| i <= k < starts.len() ==> #[trigger] keys@.contains_key(starts[k]),
            decreases starts.len() - i,
        {
            let start = starts[i];
            proof {
                assert(starts@.to_set().contains(start));
            }
            let expired = match keys.get(&start) {
                Some(reserved) => !(now < reserved.expires),
                None => false,
            };
            if expired {
                let ghost kept = keys@;
                keys.remove(&start);
                proof {
                    assert(keys@ == kept.remove(start));
                    assert forall|k: int| 0 <= k < starts.len() && k != i implies starts[k]
                        != start by {
                        if k < i {
                            assert(starts[k] < starts[i as int]);
                        } else {
                            assert(starts[i as int] < starts[k]);
                        }
                    }
                }
            }
            i = i + 1;
        }
        proof {
            let after = old(self)@.reclaimed(now).keys;
            assert forall|start: u16| keys@.contains_key(start) <==> after.contains_key(
                start,
            ) by {
                if before.contains_key(start) {
                    assert(starts@.to_set().contains(start));
                    let k = choose|k: int| 0 <= k < starts.len() && starts[k] == start;
                    assert(keys@.contains_key(starts[k]) <==> now < before[starts[k]].expires);
                }
            }
            assert(keys@ =~= after);
        }
        *self = RootData { next, keys };
    }

    /// Check if `range` conflicts with anything already reserved.
    ///
    /// If it does, return the next port after the last reserved range that
    /// it conflicts with.
    pub fn contains(&self, range: Range<u16>) -> (next_port: Option<u16>)
        ensures
            next_port is Some <==> self@.has_conflict(range),
            next_port matches Some(port) ==> exists|start: u16|
                #![auto]
                self@.is_last_conflict(range, start) && port == start + self@.keys[start].size,
    {
        proof {
            use_type_invariant(self);
        }
        let starts = keys_in_order(&self.keys);
        let mut i: usize = starts.len();
        while i > 0
            invariant
                0 <= i <= starts.len(),
                self@.wf(),
                lists_in_order(starts@, self.keys@.dom()),
                forall|k: int| i <= k < starts.len() ==> #[trigger] starts[k] >= range.end,
            decreases i,
        {
            let start = starts[i - 1];
            if start < range.end {
                proof {
                    assert(starts@.to_set().contains(start));
                }
                match self.keys.get(&start) {
                    Some(reserved) => {
                        proof {
                            assert(self@.keys.contains_key(start));
                            assert(*reserved == self@.keys[start]);
                        }
                        let end: u16 = start + reserved.size;
                        proof {
                            // every range before this one ends before this one starts
                            assert forall|other: u16| #[trigger]
                                self@.keys.contains_key(other) && conflicts(
                                    other,
                                    self@.keys[other],
                                    range,
                                ) implies other <= start && conflicts(
                                start,
                                self@.keys[start],
                                range,
                            ) by {
                                assert(starts@.to_set().contains(other));
                                let k = choose|k: int| 0 <= k < starts.len() && starts[k] == other;
                                if k > i - 1 {
                                    assert(starts[k] >= range.end);
                                }
                                if k < i - 1 {
                                    assert(starts[k] < starts[i - 1]);
                                    assert(self@.keys.contains_key(other)
                                        && self@.keys.contains_key(start));
                                }
                            }
                        }
                        if range.start < end {
                            proof {
                                assert(self@.is_last_conflict(range, start));
                            }
                            return Some(end);
                        } else {
                            return None;
                        }
                    },
                    None => {
                        return None;
                    },
                }
            }
            i = i - 1;
        }
        proof {
            assert forall|other: u16| #[trigger]
                self@.keys.contains_key(other) implies !conflicts(
                other,
                self@.keys[other],
                range,
            ) by {
                assert(starts@.to_set().contains(other));
                let k = choose|k: int| 0 <= k < starts.len() && starts[k] == other;
                assert(starts[k] >= range.end);
            }
        }
        None
    }

    /// Reserves `range` from `now` on for [`ALLOCATION_TIME_SECS`] seconds,
    /// and lets the search go on behind it. The range must not end before
    /// it starts, nor conflict with a reserved one.
    pub fn insert(&mut self, range: Range<u16>, now: UnixTimestamp)
        requires
            range.start <= range.end,
            !old(self)@.has_conflict(range),
        ensures
            final(self)@ == old(self)@.inserted(range, now),
            final(self)@.wf(),
    {
        proof {
            use_type_invariant(&*self);
        }
        let size: u16 = if range.start <= range.end {
            range.end - range.start
        } else {
            0
        };
        let expires: u64 = if now <= u64::MAX - ALLOCATION_TIME_SECS {
            now + ALLOCATION_TIME_SECS
        } else {
            u64::MAX
        };
        let ghost before = self@;
        proof {
            let after = before.inserted(range, now);
            assert forall|first: u16, second: u16|
                #![trigger after.keys.contains_key(first), after.keys.contains_key(second)]
                after.keys.contains_key(first) && after.keys.contains_key(second) && first
                    < second implies first + after.keys[first].size <= second by {
                if first == range.start {
                    assert(before.keys.contains_key(second));
                    if !(first + after.keys[first].size <= second) {
                        assert(conflicts(second, before.keys[second], range));
                    }
                } else if second == range.start {
                    assert(before.keys.contains_key(first));
                    if !(first + before.keys[first].size <= second) {
                        assert(conflicts(first, before.keys[first], range));
                    }
                } else {
                    assert(before.keys.contains_key(first) && before.keys.contains_key(second));
                }
            }
            assert(after.wf());
        }
        let mut keys = BTreeMap::new();
        std::mem::swap(&mut keys, &mut self.keys);
        keys.insert(range.start, RangeData { size, expires });
        *self = RootData { next: range.end, keys };
    }

    /// Where the search goes on from `base_port`: at `base_port` itself
    /// while that is not above [`HIGH`], and else at [`LOW`] again, after
    /// the ranges that have expired at `now` were removed.
    pub fn restart(&mut self, base_port: u16, now: UnixTimestamp) -> (from: u16)
        ensures
            from == if base_port > HIGH {
                LOW
            } else {
                base_port
            },
            final(self)@ == if base_port > HIGH {
                old(self)@.reclaimed(now)
            } else {
                old(self)@
            },
            final(self)@.wf(),
    {
        if base_port > HIGH {
            self.reclaim(now);
            LOW
        } else {
            proof {
                use_type_invariant(&*self);
            }
            base_port
        }
    }

    /// Where the search goes on after `port_in_use` could not be bound:
    /// at the port behind it.
    pub fn behind(port_in_use: u16) -> (from: u16)
        ensures
            from == if port_in_use < u16::MAX {
                port_in_use + 1
            } else {
                u16::MAX as int
            },
    {
        if port_in_use < u16::MAX {
            port_in_use + 1
        } else {
            u16::MAX
        }
    }

    /// The first port from `from` on, and not above [`HIGH`], at which a
    /// range of `range_size` ports conflicts with nothing reserved; `None`
    /// if there is no such port.
    pub fn first_unreserved(&self, from: u16, range_size: u16) -> (found: Option<u16>)
        requires
            range_size <= MAX_RANGE_SIZE,
        ensures
            found matches Some(base) ==> {
                &&& from <= base <= HIGH
                &&& !self@.has_conflict(base..(base + range_size) as u16)
            },
            forall|port: u16|
                from <= port <= HIGH && (found matches Some(base) ==> port < base)
                    ==> #[trigger] self@.has_conflict(port..(port + range_size) as u16),
    {
        proof {
            use_type_invariant(self);
        }
        let mut base_port: u16 = from;
        while base_port <= HIGH
            invariant
                from <= base_port,
                range_size <= MAX_RANGE_SIZE,
                self@.wf(),
                forall|port: u16|
                    from <= port <= HIGH && port < base_port ==> #[trigger] self@.has_conflict(
                        port..(port + range_size) as u16,
                    ),
            decreases u16::MAX - base_port,
        {
            let range = base_port..base_port + range_size;
            match self.contains(range) {
                Some(next_port) => {
                    proof {
                        let start = choose|start: u16|
                            #![auto]
                            self@.is_last_conflict(range, start) && next_port == start
                                + self@.keys[start].size;
                        assert forall|port: u16|
                            from <= port <= HIGH && port
                                < next_port implies #[trigger] self@.has_conflict(
                            port..(port + range_size) as u16,
                        ) by {
                            if port >= base_port {
                                assert(conflicts(
                                    start,
                                    self@.keys[start],
                                    port..(port + range_size) as u16,
                                ));
                            }
                        }
                    }
                    base_port = next_port;
                },
                None => {
                    return Some(base_port);
                },
            }
        }
        None
    }
}

/// Whether `port` lies in the reserved range that starts at `start`.
pub open spec fn holds_port(start: u16, reserved: RangeData, port: u16) -> bool {
    start <= port < start + reserved.size
}

/// Two ranges that have ports conflict exactly if they share a port.
pub proof fn lemma_conflict_is_shared_port(start: u16, reserved: RangeData, range: Range<u16>)
    requires
        reserved.size > 0,
        range.start < range.end,
    ensures
        conflicts(start, reserved, range) <==> exists|port: u16| #[trigger]
            holds_port(start, reserved, port) && range.start <= port < range.end,
{
    if conflicts(start, reserved, range) {
        let port = if start <= range.start {
            range.start
        } else {
            start
        };
        assert(holds_port(start, reserved, port) && range.start <= port < range.end);
    }
}

} // verus!
