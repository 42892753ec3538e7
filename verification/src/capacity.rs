//! Overflow-safe projected-cache capacity accounting.

use std::collections::HashMap;
use vstd::prelude::*;
use vstd::string::StringExecFns;

use crate::cache_ops;
use crate::cache_ops::format_bytes;
use crate::config::{PathPair, WalkOptions};
use crate::report;
use crate::report::{alert, glue, glue3, no_lines, Line, Shown};
use crate::text;
use crate::text::u64_text;
use crate::worker;
use crate::worker::should_read_file_contents;

verus! {

broadcast use vstd::std_specs::hash::group_hash_axioms;

/// The space of a file system before a warm, and the bytes that the warm would add.
#[derive(Debug, Clone, Copy, PartialEq, Eq, Structural)]
pub struct Projection {
    pub total: u64,
    pub used: u64,
    pub available: u64,
    pub eligible: u64,
}

impl Default for Projection {
    fn default() -> (r: Self)
        ensures
            r == (Projection { total: 0, used: 0, available: 0, eligible: 0 }),
    {
        Projection { total: 0, used: 0, available: 0, eligible: 0 }
    }
}

/// The sum, held at the largest 64-bit count.
pub open spec fn saturated(n: nat) -> nat {
    if n > u64::MAX {
        u64::MAX as nat
    } else {
        n
    }
}

impl Projection {
    /// The bytes in use after the warm, held at the largest 64-bit count.
    pub open spec fn used_after(self) -> nat {
        saturated(self.used as nat + self.eligible as nat)
    }

    /// The bytes in use after the warm.
    pub fn projected_used(self) -> (r: u64)
        ensures
            r == self.used_after(),
    {
        self.used.saturating_add(self.eligible)
    }

    /// The bytes free after the warm; negative if they would not fit.
    pub fn projected_free(self) -> (r: i128)
        ensures
            r == self.total - self.used_after(),
    {
        self.total as i128 - self.projected_used() as i128
    }

    /// The use after the warm is above 90% of a file system of known size.
    pub open spec fn is_tight(self) -> bool {
        self.total > 0 && 10 * self.used_after() > 9 * self.total
    }

    /// Whether the use after the warm is above 90% of a file system of known size.
    pub fn warns(self) -> (r: bool)
        ensures
            r == self.is_tight(),
    {
        self.total > 0 && 10 * (self.projected_used() as u128) > 9 * (self.total as u128)
    }
}

/// The sum of the sizes of the files that would be read.
pub open spec fn eligible_sum(sizes: Seq<u64>, min: u64, max: i64) -> nat
    decreases sizes.len(),
{
    if sizes.len() == 0 {
        0
    } else {
        eligible_sum(sizes.drop_last(), min, max) + if worker::reads_contents(
            sizes.last() as nat,
            min as nat,
            max as int,
        ) {
            sizes.last() as nat
        } else {
            0
        }
    }
}

/// The bytes of the files that would be read, held at the largest 64-bit count. Files
/// whose metadata alone is fetched contribute nothing.
pub fn eligible_bytes(sizes: &Vec<u64>, min: u64, max: i64) -> (r: u64)
    ensures
        r == saturated(eligible_sum(sizes@, min, max)),
{
    let mut total: u64 = 0;
    let mut i: usize = 0;
    while i < sizes.len()
        invariant
            i <= sizes.len(),
            total == saturated(eligible_sum(sizes@.take(i as int), min, max)),
        decreases sizes.len() - i,
    {
        assert(sizes@.take(i as int + 1).drop_last() == sizes@.take(i as int));
        if should_read_file_contents(sizes[i], min, max) {
            total = total.saturating_add(sizes[i]);
        }
        i = i + 1;
    }
    assert(sizes@.take(sizes@.len() as int) == sizes@);
    total
}

/// The bytes on each file system; an item whose file system is not known is left out.
pub open spec fn totals(items: Seq<(Option<u64>, u64)>) -> Map<u64, u64>
    decreases items.len(),
{
    if items.len() == 0 {
        Map::empty()
    } else {
        let before = totals(items.drop_last());
        match items.last().0 {
            None => before,
            Some(device) => {
                let sum = if before.contains_key(device) {
                    before[device]
                } else {
                    0
                };
                before.insert(device, saturated(sum as nat + items.last().1 as nat) as u64)
            },
        }
    }
}

/// Sums the bytes of paths on the same file system, given for each path the number of
/// its file system, if it could be found.
pub fn aggregate_by_filesystem(items: &Vec<(Option<u64>, u64)>) -> (r: HashMap<u64, u64>)
    ensures
        r@ == totals(items@),
{
    let mut r: HashMap<u64, u64> = HashMap::new();
    let mut i: usize = 0;
    while i < items.len()
        invariant
            i <= items.len(),
            r@ == totals(items@.take(i as int)),
        decreases items.len() - i,
    {
        assert(items@.take(i as int + 1).drop_last() == items@.take(i as int));
        if let Some(device) = items[i].0 {
            let sum: u64 = match r.get(&device) {
                Some(n) => *n,
                None => 0,
            };
            r.insert(device, sum.saturating_add(items[i].1));
        }
        i = i + 1;
    }
    assert(items@.take(items@.len() as int) == items@);
    r
}

/// The sum of all sizes.
pub open spec fn size_sum(sizes: Seq<u64>) -> nat
    decreases sizes.len(),
{
    if sizes.len() == 0 {
        0
    } else {
        size_sum(sizes.drop_last()) + sizes.last() as nat
    }
}

/// Where no file is read nothing counts, and where every file is read everything does;
/// in between no more than everything counts.
pub proof fn law_eligible_extremes(sizes: Seq<u64>, min: u64, max: i64)
    ensures
        max < 0 ==> eligible_sum(sizes, min, max) == 0,
        max == 0 ==> eligible_sum(sizes, min, max) == size_sum(sizes),
        eligible_sum(sizes, min, max) <= size_sum(sizes),
    decreases sizes.len(),
{
    if sizes.len() > 0 {
        law_eligible_extremes(sizes.drop_last(), min, max);
    }
}

/// More bytes to warm never withdraw a warning.
pub proof fn law_warning_grows(a: Projection, b: Projection)
    requires
        a.total == b.total,
        a.used == b.used,
        a.eligible <= b.eligible,
        a.is_tight(),
    ensures
        b.is_tight(),
{
}

/// The bytes of the items on one file system.
pub open spec fn device_sum(items: Seq<(Option<u64>, u64)>, device: u64) -> nat
    decreases items.len(),
{
    if items.len() == 0 {
        0
    } else {
        device_sum(items.drop_last(), device) + if items.last().0 == Some(device) {
            items.last().1 as nat
        } else {
            0
        }
    }
}

/// The total of a file system is the sum of the bytes of exactly its own items, held at
/// the largest 64-bit count; a file system without items has no total.
pub proof fn law_totals_by_device(items: Seq<(Option<u64>, u64)>, device: u64)
    ensures
        totals(items).contains_key(device) <==> exists|i: int|
            0 <= i < items.len() && (#[trigger] items[i]).0 == Some(device),
        totals(items).contains_key(device) ==> totals(items)[device] == saturated(
            device_sum(items, device),
        ),
        !totals(items).contains_key(device) ==> device_sum(items, device) == 0,
    decreases items.len(),
{
    if items.len() > 0 {
        let rest = items.drop_last();
        law_totals_by_device(rest, device);
        assert(forall|i: int| 0 <= i < rest.len() ==> rest[i] == items[i]);
        if totals(rest).contains_key(device) {
            let i = choose|i: int| 0 <= i < rest.len() && (#[trigger] rest[i]).0 == Some(device);
            assert(items[i].0 == Some(device));
        }
        if items.last().0 == Some(device) {
            assert(items[items.len() - 1].0 == Some(device));
        } else if exists|i: int|
            0 <= i < items.len() && (#[trigger] items[i]).0 == Some(device) {
            let i = choose|i: int| 0 <= i < items.len() && (#[trigger] items[i]).0 == Some(device);
            assert(rest[i] == items[i]);
        }
    }
}

/// The space of a file system.
#[derive(Debug, Clone, Copy, PartialEq, Eq, Structural)]
pub struct Space {
    /// The number of the file system.
    pub device: u64,
    pub total: u64,
    pub used: u64,
    pub available: u64,
}

/// What was found for a pair before its files are warmed.
#[derive(Debug)]
pub struct PairSurvey {
    /// The space of the file system of the cache, if it could be found.
    pub space: Option<Space>,
    /// The sizes of the files below the sync directory.
    pub sizes: Vec<u64>,
    /// How many entries below the sync directory could not be measured.
    pub unreadable: u64,
}

/// The number of the file system of the cache.
pub open spec fn device_of(s: PairSurvey) -> Option<u64> {
    match s.space {
        Some(space) => Some(space.device),
        None => None,
    }
}

/// For each pair the number of its file system, and the bytes that would be read.
pub open spec fn eligible_items(list: Seq<PairSurvey>, walk: WalkOptions) -> Seq<
    (Option<u64>, u64),
> {
    list.map_values(
        |s: PairSurvey|
            (
                device_of(s),
                saturated(
                    eligible_sum(s.sizes@, walk.min_file_size_bytes, walk.max_file_size_bytes),
                ) as u64,
            ),
    )
}

/// The projection for the file system of pair `k`: what it has in use, and the bytes of
/// all pairs whose cache lies on it.
pub open spec fn projection_for(list: Seq<PairSurvey>, walk: WalkOptions, k: int) -> Projection {
    let space = list[k].space->0;
    Projection {
        total: space.total,
        used: space.used,
        available: space.available,
        eligible: totals(eligible_items(list, walk))[space.device],
    }
}

/// No earlier pair has its cache on the file system of pair `k`.
pub open spec fn first_on_device(list: Seq<PairSurvey>, k: int) -> bool {
    forall|j: int| 0 <= j < k ==> device_of(#[trigger] list[j]) != device_of(list[k])
}

/// The warning about a file system that would be more than 90% full.
pub open spec fn tight_text(cache: Seq<char>, p: Projection) -> Seq<char> {
    "   ⚠️  Projected use of the file system of "@ + cache + ": "@ + cache_ops::bytes_text(
        p.used_after(),
    ) + " of "@ + cache_ops::bytes_text(p.total as nat) + " (above 90%)"@
}

/// The warning about a cache whose file system could not be measured.
pub open spec fn unmeasured_text(cache: Seq<char>) -> Seq<char> {
    "   ⚠️  Projected use is not known: cannot measure the file system of "@ + cache
}

/// The warning about entries that could not be measured.
pub open spec fn unreadable_text(sync: Seq<char>, n: nat) -> Seq<char> {
    "   ⚠️  Projected use may be higher: entries that could not be measured below "@ + sync
        + ": "@ + text::decimal(n)
}

/// The warnings about pair `k` of a survey. A file system is spoken of once, at the
/// first pair whose cache lies on it.
pub open spec fn pair_warnings(
    pair: PathPair,
    list: Seq<PairSurvey>,
    walk: WalkOptions,
    k: int,
) -> Seq<Shown> {
    let none = Seq::<Shown>::empty();
    let lines = match list[k].space {
        None => none.push(Shown::Alert(unmeasured_text(pair.cache@))),
        Some(_) => if first_on_device(list, k) && projection_for(list, walk, k).is_tight() {
            none.push(Shown::Alert(tight_text(pair.cache@, projection_for(list, walk, k))))
        } else {
            none
        },
    };
    if list[k].unreadable > 0 {
        lines.push(Shown::Alert(unreadable_text(pair.sync@, list[k].unreadable as nat)))
    } else {
        lines
    }
}

/// The warnings about the first `n` pairs of a survey that begins with pair `from`.
pub open spec fn survey_warnings(
    paths: Seq<PathPair>,
    from: int,
    list: Seq<PairSurvey>,
    walk: WalkOptions,
    n: nat,
) -> Seq<Shown>
    decreases n,
{
    if n == 0 {
        Seq::empty()
    } else {
        survey_warnings(paths, from, list, walk, (n - 1) as nat) + pair_warnings(
            paths[from + n - 1],
            list,
            walk,
            n - 1,
        )
    }
}

/// How many pairs a survey that begins with pair `from` covers.
pub open spec fn surveyed_pairs(paths: Seq<PathPair>, from: int, list: Seq<PairSurvey>) -> nat {
    if list.len() < paths.len() - from {
        list.len()
    } else {
        (paths.len() - from) as nat
    }
}

fn list_items(list: &Vec<PairSurvey>, walk: &WalkOptions) -> (r: Vec<(Option<u64>, u64)>)
    ensures
        r@ == eligible_items(list@, *walk),
{
    let mut r: Vec<(Option<u64>, u64)> = Vec::new();
    let ghost all = eligible_items(list@, *walk);
    let mut i: usize = 0;
    while i < list.len()
        invariant
            i <= list.len(),
            all == eligible_items(list@, *walk),
            r@ == all.take(i as int),
        decreases list.len() - i,
    {
        let device: Option<u64> = match list[i].space {
            Some(space) => Some(space.device),
            None => None,
        };
        let bytes: u64 = eligible_bytes(
            &list[i].sizes,
            walk.min_file_size_bytes,
            walk.max_file_size_bytes,
        );
        r.push((device, bytes));
        assert(r@ == all.take(i as int).push(all[i as int]));
        assert(all.take(i as int + 1) == all.take(i as int).push(all[i as int]));
        i = i + 1;
    }
    assert(all.take(all.len() as int) == all);
    r
}

fn is_first_on_device(list: &Vec<PairSurvey>, k: usize, device: u64) -> (r: bool)
    requires
        k < list.len(),
        device_of(list@[k as int]) == Some(device),
    ensures
        r == first_on_device(list@, k as int),
{
    let mut i: usize = 0;
    while i < k
        invariant
            i <= k < list.len(),
            device_of(list@[k as int]) == Some(device),
            forall|j: int| 0 <= j < i ==> device_of(#[trigger] list@[j]) != Some(device),
        decreases k - i,
    {
        if let Some(space) = list[i].space {
            if space.device == device {
                assert(device_of(list@[i as int]) == device_of(list@[k as int]));
                return false;
            }
        }
        i = i + 1;
    }
    true
}

/// The warnings before a warm, given what was found for the pairs from `from` on: file
/// systems that the bytes to be read would fill above 90%, and what could not be
/// measured.
pub fn capacity_warnings(
    paths: &Vec<PathPair>,
    from: usize,
    walk: &WalkOptions,
    list: &Vec<PairSurvey>,
) -> (r: Vec<Line>)
    requires
        from <= paths.len(),
    ensures
        report::shown(r@) == survey_warnings(
            paths@,
            from as int,
            list@,
            *walk,
            surveyed_pairs(paths@, from as int, list@),
        ),
{
    let items = list_items(list, walk);
    let sums = aggregate_by_filesystem(&items);
    let mut r = no_lines();
    let mut k: usize = 0;
    while k < list.len() && k < paths.len() - from
        invariant
            from <= paths.len(),
            k <= surveyed_pairs(paths@, from as int, list@),
            items@ == eligible_items(list@, *walk),
            sums@ == totals(items@),
            report::shown(r@) == survey_warnings(paths@, from as int, list@, *walk, k as nat),
        decreases list.len() - k,
    {
        let pair = &paths[from + k];
        let ghost before = report::shown(r@);
        match list[k].space {
            None => {
                alert(
                    &mut r,
                    glue(
                        "   ⚠️  Projected use is not known: cannot measure the file system of ",
                        pair.cache.as_str(),
                    ).as_str(),
                );
            },
            Some(space) => {
                let eligible: u64 = match sums.get(&space.device) {
                    Some(n) => *n,
                    None => 0,
                };
                proof {
                    law_totals_by_device(items@, space.device);
                    assert(items@[k as int].0 == Some(space.device));
                }
                let p = Projection {
                    total: space.total,
                    used: space.used,
                    available: space.available,
                    eligible,
                };
                assert(p == projection_for(list@, *walk, k as int));
                if is_first_on_device(list, k, space.device) && p.warns() {
                    let mut line = glue3(
                        "   ⚠️  Projected use of the file system of ",
                        pair.cache.as_str(),
                        ": ",
                    );
                    line.append(format_bytes(p.projected_used()).as_str());
                    line.append(" of ");
                    line.append(format_bytes(p.total).as_str());
                    line.append(" (above 90%)");
                    alert(&mut r, line.as_str());
                }
            },
        }
        if list[k].unreadable > 0 {
            let mut line = glue3(
                "   ⚠️  Projected use may be higher: entries that could not be measured below ",
                pair.sync.as_str(),
                ": ",
            );
            line.append(u64_text(list[k].unreadable).as_str());
            alert(&mut r, line.as_str());
        }
        assert(report::shown(r@) == before + pair_warnings(
            paths@[from + k],
            list@,
            *walk,
            k as int,
        ));
        k = k + 1;
    }
    r
}

/// The bytes of pairs whose caches share a file system are projected together: no pair
/// on it adds less than its own bytes, and they are held at the largest 64-bit count.
pub proof fn law_shared_file_system(list: Seq<PairSurvey>, walk: WalkOptions, k: int)
    requires
        0 <= k < list.len(),
        list[k].space is Some,
    ensures
        projection_for(list, walk, k).eligible == saturated(
            device_sum(eligible_items(list, walk), list[k].space->0.device),
        ),
        projection_for(list, walk, k).eligible >= eligible_items(list, walk)[k].1,
{
    let items = eligible_items(list, walk);
    let device = list[k].space->0.device;
    law_totals_by_device(items, device);
    assert(items[k].0 == Some(device));
    lemma_device_sum_covers(items, device, k);
}

proof fn lemma_device_sum_covers(items: Seq<(Option<u64>, u64)>, device: u64, k: int)
    requires
        0 <= k < items.len(),
        items[k].0 == Some(device),
    ensures
        device_sum(items, device) >= items[k].1,
    decreases items.len(),
{
    if k < items.len() - 1 {
        lemma_device_sum_covers(items.drop_last(), device, k);
    }
}

/// A file system of known size is spoken of as tight exactly when what is in use and what
/// is to be read come to more than nine tenths of it.
pub proof fn law_tight_means_above_nine_tenths(p: Projection)
    ensures
        p.is_tight() <==> p.total > 0 && 10 * (p.used + p.eligible) > 9 * p.total,
        p.used + p.eligible <= u64::MAX ==> p.used_after() == p.used + p.eligible,
        p.used + p.eligible > u64::MAX ==> p.used_after() == u64::MAX,
{
}

/// The bytes of two lists of files add up, a file within the size window counts in full, and
/// one outside it not at all.
pub proof fn law_eligible_bytes_add_up(a: Seq<u64>, b: Seq<u64>, size: u64, min: u64, max: i64)
    ensures
        eligible_sum(a + b, min, max) == eligible_sum(a, min, max) + eligible_sum(b, min, max),
        max == 0 || (max > 0 && min <= size <= max) ==> eligible_sum(seq![size], min, max) == size,
        max < 0 || (max > 0 && !(min <= size <= max)) ==> eligible_sum(seq![size], min, max) == 0,
        eligible_sum(Seq::empty(), min, max) == 0,
    decreases b.len(),
{
    assert(seq![size].drop_last() == Seq::<u64>::empty());
    assert(eligible_sum(Seq::<u64>::empty(), min, max) == 0);
    assert(seq![size].last() == size);
    if b.len() == 0 {
        assert(a + b == a);
    } else {
        assert((a + b).drop_last() == a + b.drop_last());
        assert((a + b).last() == b.last());
        law_eligible_bytes_add_up(a, b.drop_last(), size, min, max);
    }
}

/// The bytes on a file system are those of the items on it: two lists add up, and one item
/// counts in full on its own file system and not at all on another.
pub proof fn law_device_bytes_add_up(
    a: Seq<(Option<u64>, u64)>,
    b: Seq<(Option<u64>, u64)>,
    item: (Option<u64>, u64),
    device: u64,
)
    ensures
        device_sum(a + b, device) == device_sum(a, device) + device_sum(b, device),
        item.0 == Some(device) ==> device_sum(seq![item], device) == item.1,
        item.0 != Some(device) ==> device_sum(seq![item], device) == 0,
        device_sum(Seq::empty(), device) == 0,
    decreases b.len(),
{
    let none = Seq::<(Option<u64>, u64)>::empty();
    assert(seq![item].drop_last() == none);
    assert(device_sum(none, device) == 0);
    assert(seq![item].last() == item);
    if b.len() == 0 {
        assert(a + b == a);
    } else {
        assert((a + b).drop_last() == a + b.drop_last());
        assert((a + b).last() == b.last());
        law_device_bytes_add_up(a, b.drop_last(), item, device);
    }
}

/// The first pair on a file system gets a warning exactly when the bytes of all pairs on it
/// would fill it above nine tenths; later pairs on it get none. A file system that could not
/// be measured is always spoken of, and so are entries that could not be.
pub proof fn law_warnings_of_a_pair(
    pair: PathPair,
    list: Seq<PairSurvey>,
    walk: WalkOptions,
    k: int,
)
    requires
        0 <= k < list.len(),
    ensures
        ({
            let lines = pair_warnings(pair, list, walk, k);
            let unreadable: int = if list[k].unreadable > 0 { 1 } else { 0 };
            let space = list[k].space->0;
            let bytes = device_sum(eligible_items(list, walk), space.device);
            &&& list[k].space is None ==> lines.len() == 1 + unreadable && lines[0]
                == Shown::Alert(unmeasured_text(pair.cache@))
            &&& list[k].space is Some && (exists|j: int|
                0 <= j < k && (#[trigger] list[j]).space is Some && list[j].space->0.device
                    == space.device) ==> lines.len() == unreadable
            &&& list[k].space is Some && !(exists|j: int|
                0 <= j < k && (#[trigger] list[j]).space is Some && list[j].space->0.device
                    == space.device) ==> lines.len() == unreadable + (if space.total > 0 && 10 * (
            space.used + bytes) > 9 * space.total {
                1int
            } else {
                0
            })
            &&& list[k].unreadable > 0 ==> lines.last() == Shown::Alert(
                unreadable_text(pair.sync@, list[k].unreadable as nat),
            )
        }),
{
    let space = list[k].space->0;
    if list[k].space is Some {
        law_shared_file_system(list, walk, k);
        if exists|j: int|
            0 <= j < k && (#[trigger] list[j]).space is Some && list[j].space->0.device
                == space.device {
            let j = choose|j: int|
                0 <= j < k && (#[trigger] list[j]).space is Some && list[j].space->0.device
                    == space.device;
            assert(device_of(list[j]) == device_of(list[k]));
        } else {
            assert forall|j: int| 0 <= j < k implies device_of(#[trigger] list[j]) != device_of(
                list[k],
            ) by {
                assert(list[j].space is Some ==> list[j].space->0.device != space.device);
            }
        }
        law_tight_means_above_nine_tenths(projection_for(list, walk, k));
    }
}

/// Every surveyed pair has its warnings printed, in the order of the pairs, and nothing else
/// is.
pub proof fn law_every_pair_is_warned_about(
    paths: Seq<PathPair>,
    from: int,
    list: Seq<PairSurvey>,
    walk: WalkOptions,
    n: nat,
    k: int,
)
    requires
        0 <= k < n,
    ensures
        survey_warnings(paths, from, list, walk, 0) == Seq::<Shown>::empty(),
        exists|before: Seq<Shown>, after: Seq<Shown>|
            survey_warnings(paths, from, list, walk, n) == #[trigger] (before + pair_warnings(
                paths[from + k],
                list,
                walk,
                k,
            ) + after) && before == survey_warnings(paths, from, list, walk, k as nat),
    decreases n,
{
    let last = pair_warnings(paths[from + n - 1], list, walk, n - 1);
    let earlier = survey_warnings(paths, from, list, walk, (n - 1) as nat);
    if k == n - 1 {
        assert(survey_warnings(paths, from, list, walk, n) == earlier + last + Seq::<Shown>::empty());
    } else {
        law_every_pair_is_warned_about(paths, from, list, walk, (n - 1) as nat, k);
        let own = pair_warnings(paths[from + k], list, walk, k);
        let (before, after) = choose|before: Seq<Shown>, after: Seq<Shown>|
            earlier == #[trigger] (before + own + after) && before == survey_warnings(
                paths,
                from,
                list,
                walk,
                k as nat,
            );
        assert(survey_warnings(paths, from, list, walk, n) == before + own + (after + last));
    }
}

/// As many pairs are spoken of as were surveyed and are configured from the first one on.
pub proof fn law_surveyed_pairs(paths: Seq<PathPair>, from: int, list: Seq<PairSurvey>, k: int)
    requires
        0 <= from <= paths.len(),
    ensures
        0 <= k < surveyed_pairs(paths, from, list) <==> 0 <= k < list.len() && from + k
            < paths.len(),
{
}

/// Each pair counts on the file system of its own cache, with the bytes of its own files
/// that are within the size window.
pub proof fn law_items_of_pairs(list: Seq<PairSurvey>, walk: WalkOptions, i: int)
    requires
        0 <= i < list.len(),
    ensures
        eligible_items(list, walk).len() == list.len(),
        list[i].space is Some ==> eligible_items(list, walk)[i].0 == Some(list[i].space->0.device),
        list[i].space is None ==> eligible_items(list, walk)[i].0 is None,
        eligible_sum(list[i].sizes@, walk.min_file_size_bytes, walk.max_file_size_bytes)
            <= u64::MAX ==> eligible_items(list, walk)[i].1 == eligible_sum(
            list[i].sizes@,
            walk.min_file_size_bytes,
            walk.max_file_size_bytes,
        ),
{
}

} // verus!
