//! The region registry and the click dispatcher.
//!
//! The registry maps a name to a screen rectangle. Dispatching a command looks
//! its token up and, where a rectangle is found, plans a cursor move to the
//! rectangle's centre, a settle delay and one left click. Carrying the plan
//! out is left to the caller.

use vstd::prelude::*;
use crate::command::Command;
use crate::error::PipelineError;

verus! {

/// How long the cursor rests on the target before the click, in milliseconds.
pub const SETTLE_DELAY_MS: u64 = 100;

/// A named rectangle on the screen.
#[derive(Debug, PartialEq, Eq)]
pub struct Region {
    pub name: String,
    pub x: i32,
    pub y: i32,
    pub width: i32,
    pub height: i32,
}

/// The mathematical content of a [`Region`].
pub struct RegionSpec {
    pub name: Seq<char>,
    pub x: int,
    pub y: int,
    pub width: int,
    pub height: int,
}

impl RegionSpec {
    /// A rectangle is usable when its width and its height are positive.
    pub open spec fn valid(self) -> bool {
        &&& self.width > 0
        &&& self.height > 0
    }

    /// Every field is a 32-bit integer, as in every rectangle that was ever
    /// a [`Region`].
    pub open spec fn representable(self) -> bool {
        &&& i32::MIN <= self.x <= i32::MAX
        &&& i32::MIN <= self.y <= i32::MAX
        &&& i32::MIN <= self.width <= i32::MAX
        &&& i32::MIN <= self.height <= i32::MAX
    }

    /// The centre of the rectangle: its corner moved by half the width and
    /// half the height, where half of an odd positive number leaves the
    /// fraction out.
    pub open spec fn center(self) -> (int, int)
        recommends
            self.valid(),
    {
        (self.x + self.width / 2, self.y + self.height / 2)
    }

    /// Both coordinates of the centre are 32-bit integers, so that a cursor
    /// move can name the centre.
    pub open spec fn center_in_range(self) -> bool {
        &&& i32::MIN <= self.center().0 <= i32::MAX
        &&& i32::MIN <= self.center().1 <= i32::MAX
    }
}

/// The coordinate that a cursor move names for `v`: `v` itself where it is a
/// 32-bit integer, and else the nearest one.
pub open spec fn nearest_coordinate(v: int) -> i32 {
    if v > i32::MAX {
        i32::MAX
    } else if v < i32::MIN {
        i32::MIN
    } else {
        v as i32
    }
}

impl View for Region {
    type V = RegionSpec;

    open spec fn view(&self) -> RegionSpec {
        RegionSpec {
            name: self.name@,
            x: self.x as int,
            y: self.y as int,
            width: self.width as int,
            height: self.height as int,
        }
    }
}

impl Clone for Region {
    fn clone(&self) -> (r: Self)
        ensures
            r@ == self@,
    {
        Region {
            name: self.name.clone(),
            x: self.x,
            y: self.y,
            width: self.width,
            height: self.height,
        }
    }
}

impl Region {
    /// Whether the rectangle is usable, see [`RegionSpec::valid`].
    pub fn is_valid(&self) -> (r: bool)
        ensures
            r == self@.valid(),
    {
        self.width > 0 && self.height > 0
    }

    /// Whether the rectangle is usable and a cursor move can name its
    /// centre.
    pub fn has_center_in_range(&self) -> (r: bool)
        ensures
            r == (self@.valid() && self@.center_in_range()),
    {
        self.width > 0 && self.height > 0 && self.x <= i32::MAX - self.width / 2 && self.y
            <= i32::MAX - self.height / 2
    }

    /// The centre of a usable rectangle whose centre a cursor move can name.
    pub fn center(&self) -> (r: (i32, i32))
        requires
            self@.valid(),
            self@.center_in_range(),
        ensures
            (r.0 as int, r.1 as int) == self@.center(),
    {
        (self.x + self.width / 2, self.y + self.height / 2)
    }

    /// The point that a click on a usable rectangle aims at: the centre, or,
    /// where a coordinate of the centre lies beyond the 32-bit range, the
    /// nearest point that a cursor move can name.
    pub fn click_target(&self) -> (r: (i32, i32))
        requires
            self@.valid(),
        ensures
            r.0 == nearest_coordinate(self@.center().0),
            r.1 == nearest_coordinate(self@.center().1),
            self@.center_in_range() ==> (r.0 as int, r.1 as int) == self@.center(),
    {
        let half_width: i32 = self.width / 2;
        let half_height: i32 = self.height / 2;
        let x: i32 = if self.x <= i32::MAX - half_width {
            self.x + half_width
        } else {
            i32::MAX
        };
        let y: i32 = if self.y <= i32::MAX - half_height {
            self.y + half_height
        } else {
            i32::MAX
        };
        (x, y)
    }
}

/// A planned automation sequence: move the cursor to `(x, y)`, wait
/// `settle_ms` milliseconds, then click the left button once.
#[derive(Clone, Copy, Debug, PartialEq, Eq, Structural)]
pub struct ClickPlan {
    pub x: i32,
    pub y: i32,
    pub settle_ms: u64,
}

/// The plan that clicks the centre of `region`. Where a coordinate of the
/// centre lies beyond the 32-bit range, the plan aims at the nearest
/// coordinate within it.
pub open spec fn plan_for(region: RegionSpec) -> ClickPlan {
    ClickPlan {
        x: nearest_coordinate(region.center().0),
        y: nearest_coordinate(region.center().1),
        settle_ms: SETTLE_DELAY_MS,
    }
}

/// A plan for a rectangle whose centre a cursor move can name aims exactly
/// at the centre.
pub proof fn law_plan_aims_at_center(region: RegionSpec)
    requires
        region.center_in_range(),
    ensures
        plan_for(region).x as int == region.center().0,
        plan_for(region).y as int == region.center().1,
        plan_for(region).settle_ms == SETTLE_DELAY_MS,
{
}

/// What became of a click plan, from what the system said to the move and
/// to the click: a refusal of either is an `InjectionFailure`, to be logged
/// and not tried again.
pub fn injection_outcome(moved: bool, clicked: bool) -> (r: Result<(), PipelineError>)
    ensures
        r == if moved && clicked {
            Ok::<(), PipelineError>(())
        } else {
            Err::<(), PipelineError>(PipelineError::InjectionFailure)
        },
{
    if moved && clicked {
        Ok(())
    } else {
        Err(PipelineError::InjectionFailure)
    }
}

/// What dispatching `command` against the registry content `regions` gives.
pub open spec fn dispatch_spec(regions: Map<Seq<char>, RegionSpec>, command: Command) -> Result<
    ClickPlan,
    PipelineError,
> {
    if regions.contains_key(command.token_spec()) {
        Ok(plan_for(regions[command.token_spec()]))
    } else {
        Err(PipelineError::RegionNotFound)
    }
}

/// The content of a list of `(name, rectangle)` pairs.
pub open spec fn pairs_view(entries: Seq<(String, Region)>) -> Seq<(Seq<char>, RegionSpec)> {
    Seq::new(entries.len(), |i: int| (entries[i].0@, entries[i].1@))
}

/// The mapping that a list of pairs describes; where a name repeats, the
/// later pair stands.
pub open spec fn loaded(pairs: Seq<(Seq<char>, RegionSpec)>) -> Map<Seq<char>, RegionSpec>
    decreases pairs.len(),
{
    if pairs.len() == 0 {
        Map::empty()
    } else {
        loaded(pairs.drop_last()).insert(pairs.last().0, pairs.last().1)
    }
}

/// Every rectangle of the list has a positive width and height.
pub open spec fn all_valid(pairs: Seq<(Seq<char>, RegionSpec)>) -> bool {
    forall|i: int| 0 <= i < pairs.len() ==> (#[trigger] pairs[i]).1.valid()
}

/// No name stands twice in the list.
pub open spec fn distinct_names(pairs: Seq<(Seq<char>, RegionSpec)>) -> bool {
    forall|i: int, j: int|
        0 <= i < j < pairs.len() ==> (#[trigger] pairs[i]).0 != (#[trigger] pairs[j]).0
}

/// `name` is the name of one of the pairs.
pub open spec fn names(pairs: Seq<(Seq<char>, RegionSpec)>, name: Seq<char>) -> bool {
    exists|i: int| 0 <= i < pairs.len() && (#[trigger] pairs[i]).0 == name
}

/// A list of uniquely named rectangles loads into a mapping that holds, under
/// each of the names, exactly the rectangle listed with it, and holds nothing
/// under any other name.
pub proof fn law_loaded_lookup(pairs: Seq<(Seq<char>, RegionSpec)>)
    requires
        distinct_names(pairs),
    ensures
        forall|i: int|
            0 <= i < pairs.len() ==> loaded(pairs).contains_key((#[trigger] pairs[i]).0) && loaded(
                pairs,
            )[pairs[i].0] == pairs[i].1,
        forall|name: Seq<char>| #[trigger] loaded(pairs).contains_key(name) <==> names(pairs, name),
    decreases pairs.len(),
{
    if pairs.len() > 0 {
        let init = pairs.drop_last();
        let last = pairs.last();
        assert forall|i: int| 0 <= i < init.len() implies #[trigger] init[i] == pairs[i] by {}
        assert(distinct_names(init)) by {
            assert forall|i: int, j: int| 0 <= i < j < init.len() implies (#[trigger] init[i]).0
                != (#[trigger] init[j]).0 by {
                assert(pairs[i].0 != pairs[j].0);
            }
        }
        law_loaded_lookup(init);
        assert forall|i: int| 0 <= i < pairs.len() implies loaded(pairs).contains_key(
            (#[trigger] pairs[i]).0,
        ) && loaded(pairs)[pairs[i].0] == pairs[i].1 by {
            if i < init.len() {
                assert(init[i] == pairs[i]);
                assert(pairs[i].0 != pairs[pairs.len() - 1].0);
            }
        }
        assert forall|name: Seq<char>| #[trigger]
            loaded(pairs).contains_key(name) <==> names(pairs, name) by {
            if names(pairs, name) {
                let i = choose|i: int| 0 <= i < pairs.len() && (#[trigger] pairs[i]).0 == name;
                assert(loaded(pairs).contains_key(pairs[i].0));
            }
            if loaded(pairs).contains_key(name) {
                if name == last.0 {
                    assert(pairs[pairs.len() - 1].0 == name);
                } else {
                    assert(loaded(init).contains_key(name));
                    assert(names(init, name));
                    let i = choose|i: int| 0 <= i < init.len() && (#[trigger] init[i]).0 == name;
                    assert(pairs[i].0 == name);
                }
            }
        }
    } else {
        assert forall|name: Seq<char>| #[trigger]
            loaded(pairs).contains_key(name) <==> names(pairs, name) by {}
    }
}

struct Entry {
    key: String,
    region: Region,
}

spec fn key_at(es: Seq<Entry>, i: int) -> Seq<char> {
    es[i].key@
}

spec fn has_key(es: Seq<Entry>, name: Seq<char>) -> bool {
    exists|i: int| 0 <= i < es.len() && #[trigger] key_at(es, i) == name
}

spec fn index_of(es: Seq<Entry>, name: Seq<char>) -> int {
    choose|i: int| 0 <= i < es.len() && #[trigger] key_at(es, i) == name
}

spec fn content(es: Seq<Entry>) -> Map<Seq<char>, RegionSpec> {
    Map::new(|k: Seq<char>| has_key(es, k), |k: Seq<char>| es[index_of(es, k)].region@)
}

spec fn distinct_keys(es: Seq<Entry>) -> bool {
    forall|i: int, j: int|
        0 <= i < j < es.len() ==> #[trigger] key_at(es, i) != #[trigger] key_at(es, j)
}

/// With distinct keys, the entry at `i` is the one its key finds.
proof fn lemma_entry_found(es: Seq<Entry>, i: int)
    requires
        distinct_keys(es),
        0 <= i < es.len(),
    ensures
        has_key(es, key_at(es, i)),
        index_of(es, key_at(es, i)) == i,
        content(es).contains_key(key_at(es, i)),
        content(es)[key_at(es, i)] == es[i].region@,
{
    let k = key_at(es, i);
    assert(has_key(es, k));
    let j = index_of(es, k);
    assert(0 <= j < es.len() && key_at(es, j) == k);
    if j < i {
        assert(key_at(es, j) != key_at(es, i));
    } else if i < j {
        assert(key_at(es, i) != key_at(es, j));
    }
}

/// The registry of named rectangles, and the dispatcher that plans clicks on
/// them.
pub struct ROIController {
    entries: Vec<Entry>,
}

impl View for ROIController {
    type V = Map<Seq<char>, RegionSpec>;

    closed spec fn view(&self) -> Map<Seq<char>, RegionSpec> {
        content(self.entries@)
    }
}

impl ROIController {
    /// No name is held twice, and every rectangle held has a positive width
    /// and height.
    pub closed spec fn wf(&self) -> bool {
        &&& distinct_keys(self.entries@)
        &&& forall|i: int| 0 <= i < self.entries@.len() ==> (#[trigger] self.entries@[i]).region@.valid()
    }

    /// An empty registry.
    pub fn new() -> (r: Self)
        ensures
            r.wf(),
            r@ == Map::<Seq<char>, RegionSpec>::empty(),
    {
        let r = ROIController { entries: Vec::new() };
        assert(r@ =~= Map::<Seq<char>, RegionSpec>::empty());
        r
    }

    fn find_index(&self, name: &str) -> (r: Option<usize>)
        ensures
            match r {
                Some(i) => i < self.entries@.len() && key_at(self.entries@, i as int) == name@,
                None => !has_key(self.entries@, name@),
            },
    {
        let wanted = name.to_owned();
        let mut i: usize = 0;
        while i < self.entries.len()
            invariant
                i <= self.entries@.len(),
                wanted@ == name@,
                forall|j: int| 0 <= j < i ==> key_at(self.entries@, j) != name@,
            decreases self.entries.len() - i,
        {
            if self.entries[i].key == wanted {
                return Some(i);
            }
            i += 1;
        }
        None
    }

    /// Every rectangle that a registry holds is usable, and its fields are
    /// 32-bit integers.
    pub proof fn lemma_held_regions_are_valid(&self, name: Seq<char>)
        requires
            self.wf(),
            self@.contains_key(name),
        ensures
            self@[name].valid(),
            self@[name].representable(),
    {
        let i = index_of(self.entries@, name);
        assert(has_key(self.entries@, name));
        assert(self.entries@[i].region@.valid());
    }

    /// The rectangle stored under `name`. It is usable, as every rectangle
    /// in a registry is.
    pub fn get_region(&self, name: &str) -> (r: Option<&Region>)
        requires
            self.wf(),
        ensures
            match r {
                Some(region) => self@.contains_key(name@) && region@ == self@[name@]
                    && region@.valid(),
                None => !self@.contains_key(name@),
            },
    {
        match self.find_index(name) {
            Some(i) => {
                proof {
                    lemma_entry_found(self.entries@, i as int);
                    assert(self.entries@[i as int].region@.valid());
                }
                Some(&self.entries[i].region)
            },
            None => None,
        }
    }

    /// Stores `region` under `name`, in place of what was there. A rectangle
    /// whose width or height is not positive is refused and the registry
    /// stays as it was.
    pub fn add_region(&mut self, name: &str, region: Region) -> (r: Result<(), PipelineError>)
        requires
            old(self).wf(),
        ensures
            final(self).wf(),
            region@.valid() ==> r == Ok::<(), PipelineError>(()) && final(self)@ == old(self)@.insert(
                name@,
                region@,
            ),
            !region@.valid() ==> r == Err::<(), PipelineError>(PipelineError::ConfigLoadWarning)
                && final(self)@ == old(self)@,
    {
        if !region.is_valid() {
            return Err(PipelineError::ConfigLoadWarning);
        }
        let ghost before = self.entries@;
        let ghost added = region@;
        let entry = Entry { key: name.to_owned(), region };
        match self.find_index(name) {
            Some(i) => {
                self.entries.set(i, entry);
                proof {
                    let after = self.entries@;
                    assert forall|a: int| 0 <= a < after.len() implies key_at(after, a) == key_at(
                        before,
                        a,
                    ) by {}
                    assert(distinct_keys(after)) by {
                        assert forall|a: int, b: int| 0 <= a < b < after.len() implies key_at(
                            after,
                            a,
                        ) != key_at(after, b) by {
                            assert(key_at(before, a) != key_at(before, b));
                        }
                    }
                    assert forall|k: Seq<char>| has_key(after, k) == has_key(before, k) by {
                        if has_key(before, k) {
                            let a = index_of(before, k);
                            assert(key_at(after, a) == k);
                        }
                        if has_key(after, k) {
                            let a = index_of(after, k);
                            assert(key_at(before, a) == k);
                        }
                    }
                    assert(has_key(before, name@)) by {
                        assert(key_at(before, i as int) == name@);
                    }
                    assert forall|k: Seq<char>| has_key(after, k) implies content(after)[k]
                        == content(before).insert(name@, added)[k] by {
                        let a = index_of(after, k);
                        lemma_entry_found(after, a);
                        lemma_entry_found(before, a);
                        if a == i {
                        } else {
                            assert(key_at(before, a) != key_at(before, i as int));
                        }
                    }
                    assert(content(after) =~= content(before).insert(name@, added));
                }
            },
            None => {
                self.entries.push(entry);
                proof {
                    let after = self.entries@;
                    let n = before.len() as int;
                    assert forall|a: int| 0 <= a < n implies key_at(after, a) == key_at(
                        before,
                        a,
                    ) by {}
                    assert(key_at(after, n) == name@);
                    assert(distinct_keys(after)) by {
                        assert forall|a: int, b: int| 0 <= a < b < after.len() implies key_at(
                            after,
                            a,
                        ) != key_at(after, b) by {
                            if b < n {
                                assert(key_at(before, a) != key_at(before, b));
                            } else {
                                assert(key_at(before, a) != name@);
                            }
                        }
                    }
                    assert forall|k: Seq<char>| has_key(after, k) == (has_key(before, k) || k
                        == name@) by {
                        if has_key(before, k) {
                            let a = index_of(before, k);
                            assert(key_at(after, a) == k);
                        }
                        if has_key(after, k) {
                            let a = index_of(after, k);
                            if a < n {
                                assert(key_at(before, a) == k);
                            }
                        }
                    }
                    assert forall|k: Seq<char>| has_key(after, k) implies content(after)[k]
                        == content(before).insert(name@, added)[k] by {
                        let a = index_of(after, k);
                        lemma_entry_found(after, a);
                        if a < n {
                            lemma_entry_found(before, a);
                        }
                    }
                    assert(content(after) =~= content(before).insert(name@, added));
                }
            },
        }
        Ok(())
    }

    /// Replaces the whole registry by the given pairs, the later of two pairs
    /// with one name standing. If the width or the height of any rectangle is
    /// not positive, nothing is loaded and the registry stays as it was.
    pub fn load_regions(&mut self, entries: Vec<(String, Region)>) -> (r: Result<
        (),
        PipelineError,
    >)
        requires
            old(self).wf(),
        ensures
            final(self).wf(),
            all_valid(pairs_view(entries@)) ==> r == Ok::<(), PipelineError>(()) && final(self)@
                == loaded(pairs_view(entries@)),
            !all_valid(pairs_view(entries@)) ==> r == Err::<(), PipelineError>(
                PipelineError::ConfigLoadWarning,
            ) && final(self)@ == old(self)@,
    {
        let ghost pairs = pairs_view(entries@);
        let mut fresh = ROIController::new();
        let mut i: usize = 0;
        while i < entries.len()
            invariant
                i <= entries.len(),
                pairs == pairs_view(entries@),
                *self == *old(self),
                self.wf(),
                fresh.wf(),
                fresh@ == loaded(pairs.take(i as int)),
                forall|j: int| 0 <= j < i ==> (#[trigger] pairs[j]).1.valid(),
            decreases entries.len() - i,
        {
            let region = entries[i].1.clone();
            let res = fresh.add_region(entries[i].0.as_str(), region);
            if res.is_err() {
                assert(!pairs[i as int].1.valid());
                return Err(PipelineError::ConfigLoadWarning);
            }
            proof {
                let upto = pairs.take(i + 1);
                assert(upto.drop_last() =~= pairs.take(i as int));
                assert(upto.last() == pairs[i as int]);
            }
            i += 1;
        }
        assert(pairs.take(i as int) =~= pairs);
        *self = fresh;
        Ok(())
    }

    /// The plan that clicks the centre of the rectangle stored under `name`,
    /// if there is one. Where a coordinate of the centre is too large for a
    /// cursor move, the plan aims at the largest coordinate instead.
    pub fn click_region(&self, name: &str) -> (r: Option<ClickPlan>)
        requires
            self.wf(),
        ensures
            r == if self@.contains_key(name@) {
                Some(plan_for(self@[name@]))
            } else {
                None
            },
            self@.contains_key(name@) && self@[name@].center_in_range() ==> r is Some
                && r.unwrap().x as int == self@[name@].center().0 && r.unwrap().y as int
                == self@[name@].center().1 && r.unwrap().settle_ms == SETTLE_DELAY_MS,
            self@.contains_key(name@) && self@[name@].center().0 > i32::MAX ==> r is Some
                && r.unwrap().x == i32::MAX,
            self@.contains_key(name@) && self@[name@].center().1 > i32::MAX ==> r is Some
                && r.unwrap().y == i32::MAX,
    {
        match self.find_index(name) {
            Some(i) => {
                proof {
                    lemma_entry_found(self.entries@, i as int);
                    assert(self.entries@[i as int].region@.valid());
                }
                let target = self.entries[i].region.click_target();
                Some(ClickPlan { x: target.0, y: target.1, settle_ms: SETTLE_DELAY_MS })
            },
            None => None,
        }
    }

    /// Plans the click for `command`: the region named by the command's token
    /// is clicked at its centre. A command without a region is reported as
    /// `RegionNotFound` and plans nothing.
    pub fn dispatch(&self, command: Command) -> (r: Result<ClickPlan, PipelineError>)
        requires
            self.wf(),
        ensures
            r == dispatch_spec(self@, command),
    {
        match self.click_region(command.token()) {
            Some(plan) => Ok(plan),
            None => Err(PipelineError::RegionNotFound),
        }
    }
}

} // verus!
