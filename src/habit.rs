//! The goal variants: binary, counted and fractional. Each keeps its name,
//! target, sparse history by day number, provenance and view state.
use std::collections::HashMap;
use vstd::prelude::*;
use crate::calendar::{Cursor, CursorMove, moved_day, today};
use crate::history::{fill_gaps, filled};

verus! {

broadcast use vstd::std_specs::hash::group_hash_axioms;

/// One step of tracking on a day.
#[derive(Clone, Copy, Debug, PartialEq, Eq, Structural)]
pub enum TrackEvent {
    Increment,
    Decrement,
}

/// How a goal's own cells are shown.
#[derive(Clone, Copy, Debug, PartialEq, Eq, Structural)]
pub enum ViewMode {
    Day,
    Week,
    Month,
    Year,
}

impl ViewMode {
    pub open spec fn label(self) -> Seq<char> {
        match self {
            ViewMode::Day => "Day"@,
            ViewMode::Week => "Week"@,
            ViewMode::Month => "Month"@,
            ViewMode::Year => "Year"@,
        }
    }

    /// The mode's name as the status line shows it.
    pub fn name(&self) -> (r: &'static str)
        ensures
            r@ == self.label(),
    {
        match self {
            ViewMode::Day => "Day",
            ViewMode::Week => "Week",
            ViewMode::Month => "Month",
            ViewMode::Year => "Year",
        }
    }
}

/// The variant of a goal, with its target: a count, or a fractional target
/// in units of ten to the minus `precision` together with that precision.
#[derive(Clone, Copy, Debug, PartialEq, Eq, Structural)]
pub enum GoalKind {
    Bit,
    Count(u32),
    Float(u32, u8),
}

/// The value of a binary goal on a day.
#[derive(Clone, Copy, Debug, PartialEq, Eq, Structural)]
pub struct CustomBool(pub bool);

impl From<bool> for CustomBool {
    fn from(b: bool) -> (r: CustomBool) {
        CustomBool(b)
    }
}

impl vstd::std_specs::convert::FromSpecImpl<bool> for CustomBool {
    open spec fn obeys_from_spec() -> bool {
        true
    }

    open spec fn from_spec(v: bool) -> CustomBool {
        CustomBool(v)
    }
}

/// What every goal keeps beside its records: its own cursor, how it is shown,
/// and whether it is shown at all.
#[derive(Clone, Copy, Debug, PartialEq, Eq, Structural)]
pub struct InnerData {
    pub cursor: Cursor,
    pub view_mode: ViewMode,
    pub visible: bool,
}

impl InnerData {
    /// Visible, by day, with the cursor on `day`.
    pub fn at(day: i32) -> (r: InnerData)
        ensures
            r.cursor.day == day,
            r.view_mode == ViewMode::Day,
            r.visible,
    {
        InnerData { cursor: Cursor::at(day), view_mode: ViewMode::Day, visible: true }
    }
}

/// The value that Increment and Decrement leave on a day of a binary goal,
/// given the value before (`None`: nothing recorded).
pub open spec fn bit_step(v: Option<CustomBool>, e: TrackEvent) -> Option<CustomBool> {
    match (v, e) {
        (None, TrackEvent::Increment) => Some(CustomBool(true)),
        (None, TrackEvent::Decrement) => None,
        (Some(b), TrackEvent::Increment) => Some(CustomBool(!b.0)),
        (Some(b), TrackEvent::Decrement) => if b.0 { Some(CustomBool(false)) } else { None },
    }
}

/// The value that Increment and Decrement leave on a day of a counted or
/// fractional goal: one unit more (held at the largest `u32`), or one unit
/// less down to zero, which stays recorded.
pub open spec fn count_step(v: Option<u32>, e: TrackEvent) -> Option<u32> {
    match (v, e) {
        (None, TrackEvent::Increment) => Some(1),
        (None, TrackEvent::Decrement) => None,
        (Some(n), TrackEvent::Increment) => Some(if n < u32::MAX { (n + 1) as u32 } else { n }),
        (Some(n), TrackEvent::Decrement) => Some(if n > 0 { (n - 1) as u32 } else { 0 }),
    }
}

/// A history map after one step on `d`.
pub open spec fn stepped<V>(h: Map<i32, V>, d: i32, v: Option<V>) -> Map<i32, V> {
    match v {
        Some(x) => h.insert(d, x),
        None => h.remove(d),
    }
}

/// Applies one step of a counted or fractional goal on day `d`.
fn step_count(h: &mut HashMap<i32, u32>, d: i32, e: TrackEvent)
    ensures
        final(h)@ == stepped(old(h)@, d, count_step(old(h)@.get(d), e)),
{
    match h.get(&d) {
        Some(v) => {
            let v = *v;
            let n: u32 = match e {
                TrackEvent::Increment => if v < u32::MAX { v + 1 } else { v },
                TrackEvent::Decrement => if v > 0 { v - 1 } else { 0 },
            };
            h.insert(d, n);
        },
        None => {
            if e == TrackEvent::Increment {
                h.insert(d, 1);
            }
        },
    }
}

/// The life of a binary goal's day under the tracking steps: Decrement
/// leaves an empty day empty, turns `true` into `false` and removes a
/// recorded `false`; Increment on an empty day records `true`.
pub proof fn lemma_bit_steps(h: Map<i32, CustomBool>, d: i32)
    ensures
        !h.contains_key(d) ==> stepped(h, d, bit_step(h.get(d), TrackEvent::Decrement)) == h,
        h.get(d) == Some(CustomBool(true)) ==> stepped(h, d, bit_step(h.get(d), TrackEvent::Decrement)).get(d)
            == Some(CustomBool(false)),
        h.get(d) == Some(CustomBool(false)) ==> !stepped(h, d, bit_step(h.get(d), TrackEvent::Decrement)).contains_key(d),
        !h.contains_key(d) ==> stepped(h, d, bit_step(h.get(d), TrackEvent::Increment)).get(d) == Some(CustomBool(true)),
{
    if !h.contains_key(d) {
        assert(h.remove(d) =~= h);
    }
}

/// A counted day never drops below zero: Decrement takes one unit off a
/// positive count and leaves a recorded 0 recorded as 0.
pub proof fn lemma_count_floor(h: Map<i32, u32>, d: i32)
    ensures
        h.get(d) == Some(0u32) ==> stepped(h, d, count_step(h.get(d), TrackEvent::Decrement)).get(d) == Some(0u32),
        h.contains_key(d) && h[d] > 0 ==> stepped(h, d, count_step(h.get(d), TrackEvent::Decrement)).get(d)
            == Some((h[d] - 1) as u32),
        h.contains_key(d) ==> stepped(h, d, count_step(h.get(d), TrackEvent::Decrement)).contains_key(d),
{
}

/// How far a counted value `v` (if any) is from `goal`.
pub open spec fn shortfall(goal: u32, v: Option<u32>) -> u32 {
    match v {
        Some(n) => if n < goal { (goal - n) as u32 } else { 0 },
        None => goal,
    }
}

fn shortfall_of(goal: u32, v: Option<&u32>) -> (r: u32)
    ensures
        r == shortfall(goal, match v { Some(n) => Some(*n), None => None }),
{
    match v {
        Some(n) => if *n < goal { goal - *n } else { 0 },
        None => goal,
    }
}

/// A goal that is met or not on each day.
#[derive(Debug)]
pub struct Bit {
    pub name: String,
    pub stats: HashMap<i32, CustomBool>,
    pub goal: CustomBool,
    pub auto: bool,
    pub inner_data: InnerData,
}

impl Bit {
    /// An empty binary goal whose target is `true`, visible, by day, with
    /// its cursor on today.
    pub fn new(name: &str, auto: bool) -> (r: Bit)
        ensures
            r.name@ == name@,
            r.stats@ == Map::<i32, CustomBool>::empty(),
            r.goal == CustomBool(true),
            r.auto == auto,
            r.inner_data.visible,
            r.inner_data.view_mode == ViewMode::Day,
    {
        Bit {
            name: name.to_owned(),
            stats: HashMap::new(),
            goal: CustomBool(true),
            auto,
            inner_data: InnerData::at(today()),
        }
    }

    pub fn get_by_date(&self, date: i32) -> (r: Option<CustomBool>)
        ensures
            r == self.stats@.get(date),
    {
        match self.stats.get(&date) {
            Some(v) => Some(*v),
            None => None,
        }
    }

    /// Records `val` on `date`, over what was there.
    pub fn insert_entry(&mut self, date: i32, val: CustomBool)
        ensures
            final(self).stats@ == old(self).stats@.insert(date, val),
            final(self).name == old(self).name,
            final(self).goal == old(self).goal,
            final(self).auto == old(self).auto,
            final(self).inner_data == old(self).inner_data,
    {
        self.stats.insert(date, val);
    }

    /// Whether `true` is recorded on `date`: the target of a binary goal is
    /// always `true`.
    pub fn reached_goal(&self, date: i32) -> (r: bool)
        ensures
            r == (self.stats@.get(date) == Some(CustomBool(true))),
    {
        match self.stats.get(&date) {
            Some(v) => v.0,
            None => false,
        }
    }

    /// Whether anything is recorded on `date`.
    pub fn goal_not_reached(&self, date: i32) -> (r: bool)
        ensures
            r == self.stats@.contains_key(date),
    {
        self.stats.contains_key(&date)
    }

    /// 0 when `true` is recorded on `date`, else 1.
    pub fn remaining(&self, date: i32) -> (r: u32)
        ensures
            r == if self.stats@.contains_key(date) && self.stats@[date].0 { 0u32 } else { 1u32 },
    {
        match self.stats.get(&date) {
            Some(v) => if v.0 { 0 } else { 1 },
            None => 1,
        }
    }

    /// Applies one tracking step on `date`: Increment toggles (nothing
    /// becomes `true`); Decrement turns `true` into `false` and removes a
    /// recorded `false`.
    pub fn modify(&mut self, date: i32, event: TrackEvent)
        ensures
            final(self).stats@ == stepped(old(self).stats@, date, bit_step(old(self).stats@.get(date), event)),
            final(self).name == old(self).name,
            final(self).goal == old(self).goal,
            final(self).auto == old(self).auto,
            final(self).inner_data == old(self).inner_data,
    {
        match self.stats.get(&date) {
            Some(v) => {
                let b = v.0;
                match event {
                    TrackEvent::Increment => {
                        self.stats.insert(date, CustomBool::from(!b));
                    },
                    TrackEvent::Decrement => {
                        if b {
                            self.stats.insert(date, CustomBool::from(false));
                        } else {
                            self.stats.remove(&date);
                        }
                    },
                }
            },
            None => {
                if event == TrackEvent::Increment {
                    self.insert_entry(date, CustomBool(true));
                }
            },
        }
    }
}

/// A goal counted in whole units per day.
#[derive(Debug)]
pub struct Count {
    pub name: String,
    pub stats: HashMap<i32, u32>,
    pub goal: u32,
    pub auto: bool,
    pub inner_data: InnerData,
}

impl Count {
    /// An empty counted goal with target `goal`, visible, by day, with its
    /// cursor on today.
    pub fn new(name: &str, goal: u32, auto: bool) -> (r: Count)
        ensures
            r.name@ == name@,
            r.stats@ == Map::<i32, u32>::empty(),
            r.goal == goal,
            r.auto == auto,
            r.inner_data.visible,
            r.inner_data.view_mode == ViewMode::Day,
    {
        Count { name: name.to_owned(), stats: HashMap::new(), goal, auto, inner_data: InnerData::at(today()) }
    }

    pub fn get_by_date(&self, date: i32) -> (r: Option<u32>)
        ensures
            r == self.stats@.get(date),
    {
        match self.stats.get(&date) {
            Some(v) => Some(*v),
            None => None,
        }
    }

    /// Records `val` on `date`, over what was there.
    pub fn insert_entry(&mut self, date: i32, val: u32)
        ensures
            final(self).stats@ == old(self).stats@.insert(date, val),
            final(self).name == old(self).name,
            final(self).goal == old(self).goal,
            final(self).auto == old(self).auto,
            final(self).inner_data == old(self).inner_data,
    {
        self.stats.insert(date, val);
    }

    /// Whether the count on `date` is present and at least the target.
    pub fn reached_goal(&self, date: i32) -> (r: bool)
        ensures
            r == (self.stats@.contains_key(date) && self.stats@[date] >= self.goal),
    {
        match self.stats.get(&date) {
            Some(v) => *v >= self.goal,
            None => false,
        }
    }

    /// How many units are missing on `date`; nothing recorded counts as 0.
    pub fn remaining(&self, date: i32) -> (r: u32)
        ensures
            r == shortfall(self.goal, self.stats@.get(date)),
    {
        shortfall_of(self.goal, self.stats.get(&date))
    }

    /// Applies one tracking step on `date` (see `count_step`).
    pub fn modify(&mut self, date: i32, event: TrackEvent)
        ensures
            final(self).stats@ == stepped(old(self).stats@, date, count_step(old(self).stats@.get(date), event)),
            final(self).name == old(self).name,
            final(self).goal == old(self).goal,
            final(self).auto == old(self).auto,
            final(self).inner_data == old(self).inner_data,
    {
        step_count(&mut self.stats, date, event);
    }
}

/// A goal measured in fractional units: values and target are whole numbers
/// of units of ten to the minus `precision`, and a step is one such unit.
#[derive(Debug)]
pub struct Float {
    pub name: String,
    pub stats: HashMap<i32, u32>,
    pub goal: u32,
    pub precision: u8,
    pub auto: bool,
    pub inner_data: InnerData,
}

impl Float {
    /// An empty fractional goal, visible, by day, with its cursor on today.
    pub fn new(name: &str, goal: u32, precision: u8, auto: bool) -> (r: Float)
        ensures
            r.name@ == name@,
            r.stats@ == Map::<i32, u32>::empty(),
            r.goal == goal,
            r.precision == precision,
            r.auto == auto,
            r.inner_data.visible,
            r.inner_data.view_mode == ViewMode::Day,
    {
        Float {
            name: name.to_owned(),
            stats: HashMap::new(),
            goal,
            precision,
            auto,
            inner_data: InnerData::at(today()),
        }
    }

    pub fn get_by_date(&self, date: i32) -> (r: Option<u32>)
        ensures
            r == self.stats@.get(date),
    {
        match self.stats.get(&date) {
            Some(v) => Some(*v),
            None => None,
        }
    }

    /// Records `val` on `date`, over what was there.
    pub fn insert_entry(&mut self, date: i32, val: u32)
        ensures
            final(self).stats@ == old(self).stats@.insert(date, val),
            final(self).name == old(self).name,
            final(self).goal == old(self).goal,
            final(self).precision == old(self).precision,
            final(self).auto == old(self).auto,
            final(self).inner_data == old(self).inner_data,
    {
        self.stats.insert(date, val);
    }

    /// Whether the value on `date` is present and at least the target; both
    /// are whole numbers of units, so the comparison is exact.
    pub fn reached_goal(&self, date: i32) -> (r: bool)
        ensures
            r == (self.stats@.contains_key(date) && self.stats@[date] >= self.goal),
    {
        match self.stats.get(&date) {
            Some(v) => *v >= self.goal,
            None => false,
        }
    }

    /// How many units are missing on `date`; nothing recorded counts as 0.
    pub fn remaining(&self, date: i32) -> (r: u32)
        ensures
            r == shortfall(self.goal, self.stats@.get(date)),
    {
        shortfall_of(self.goal, self.stats.get(&date))
    }

    /// Applies one tracking step of one unit on `date` (see `count_step`).
    pub fn modify(&mut self, date: i32, event: TrackEvent)
        ensures
            final(self).stats@ == stepped(old(self).stats@, date, count_step(old(self).stats@.get(date), event)),
            final(self).name == old(self).name,
            final(self).goal == old(self).goal,
            final(self).precision == old(self).precision,
            final(self).auto == old(self).auto,
            final(self).inner_data == old(self).inner_data,
    {
        step_count(&mut self.stats, date, event);
    }
}

/// A tracked goal of any variant.
#[derive(Debug)]
pub enum Habit {
    Bit(Bit),
    Count(Count),
    Float(Float),
}

impl Habit {
    pub open spec fn name_of(self) -> Seq<char> {
        match self {
            Habit::Bit(h) => h.name@,
            Habit::Count(h) => h.name@,
            Habit::Float(h) => h.name@,
        }
    }

    pub open spec fn inner_of(self) -> InnerData {
        match self {
            Habit::Bit(h) => h.inner_data,
            Habit::Count(h) => h.inner_data,
            Habit::Float(h) => h.inner_data,
        }
    }

    pub open spec fn auto_of(self) -> bool {
        match self {
            Habit::Bit(h) => h.auto,
            Habit::Count(h) => h.auto,
            Habit::Float(h) => h.auto,
        }
    }

    pub open spec fn visible_of(self) -> bool {
        self.inner_of().visible
    }

    /// The numeric target that the status line adds up.
    pub open spec fn goal_of(self) -> u32 {
        match self {
            Habit::Bit(h) => 1,
            Habit::Count(h) => h.goal,
            Habit::Float(h) => h.goal,
        }
    }

    /// What is missing on day `d` to meet the target.
    pub open spec fn remaining_of(self, d: i32) -> u32 {
        match self {
            Habit::Bit(h) => if h.stats@.contains_key(d) && h.stats@[d].0 { 0 } else { 1 },
            Habit::Count(h) => shortfall(h.goal, h.stats@.get(d)),
            Habit::Float(h) => shortfall(h.goal, h.stats@.get(d)),
        }
    }

    /// Whether anything is recorded on day `d`.
    pub open spec fn has_record(self, d: i32) -> bool {
        match self {
            Habit::Bit(h) => h.stats@.contains_key(d),
            Habit::Count(h) => h.stats@.contains_key(d),
            Habit::Float(h) => h.stats@.contains_key(d),
        }
    }

    /// `self` and `o` are the same variant with the same target, provenance
    /// and history.
    pub open spec fn same_records(self, o: Habit) -> bool {
        match (self, o) {
            (Habit::Bit(a), Habit::Bit(b)) => a.stats@ == b.stats@ && a.goal == b.goal && a.auto == b.auto,
            (Habit::Count(a), Habit::Count(b)) => a.stats@ == b.stats@ && a.goal == b.goal && a.auto == b.auto,
            (Habit::Float(a), Habit::Float(b)) => a.stats@ == b.stats@ && a.goal == b.goal && a.precision
                == b.precision && a.auto == b.auto,
            _ => false,
        }
    }

    /// `self` equals `o` in all but its view state.
    pub open spec fn same_but_inner(self, o: Habit) -> bool {
        self.same_records(o) && self.name_of() == o.name_of()
    }

    /// `self` is `o` after one tracking step `e` on day `d`.
    pub open spec fn is_step_of(self, o: Habit, d: i32, e: TrackEvent) -> bool {
        &&& self.name_of() == o.name_of()
        &&& self.inner_of() == o.inner_of()
        &&& self.auto_of() == o.auto_of()
        &&& match (o, self) {
            (Habit::Bit(a), Habit::Bit(b)) => b.stats@ == stepped(a.stats@, d, bit_step(a.stats@.get(d), e))
                && b.goal == a.goal,
            (Habit::Count(a), Habit::Count(b)) => b.stats@ == stepped(a.stats@, d, count_step(a.stats@.get(d), e))
                && b.goal == a.goal,
            (Habit::Float(a), Habit::Float(b)) => b.stats@ == stepped(a.stats@, d, count_step(a.stats@.get(d), e))
                && b.goal == a.goal && b.precision == a.precision,
            _ => false,
        }
    }

    /// `self` is a new goal of kind `k` called `n`: nothing recorded,
    /// visible, by day.
    pub open spec fn is_fresh(self, n: Seq<char>, k: GoalKind, auto: bool) -> bool {
        &&& self.name_of() == n
        &&& self.auto_of() == auto
        &&& self.inner_of().visible
        &&& self.inner_of().view_mode == ViewMode::Day
        &&& match (self, k) {
            (Habit::Bit(h), GoalKind::Bit) => h.stats@.dom().is_empty() && h.goal == CustomBool(true),
            (Habit::Count(h), GoalKind::Count(g)) => h.stats@.dom().is_empty() && h.goal == g,
            (Habit::Float(h), GoalKind::Float(g, p)) => h.stats@.dom().is_empty() && h.goal == g && h.precision == p,
            _ => false,
        }
    }

    /// A new goal of kind `k` called `name`.
    pub fn create(name: &str, k: GoalKind, auto: bool) -> (r: Habit)
        ensures
            r.is_fresh(name@, k, auto),
    {
        match k {
            GoalKind::Bit => Habit::Bit(Bit::new(name, auto)),
            GoalKind::Count(g) => Habit::Count(Count::new(name, g, auto)),
            GoalKind::Float(g, p) => Habit::Float(Float::new(name, g, p, auto)),
        }
    }

    /// `self` is `o` with its own cursor moved by `m`.
    pub open spec fn is_moved(self, o: Habit, m: CursorMove) -> bool {
        &&& self.same_but_inner(o)
        &&& self.inner_of().cursor.day == moved_day(m, o.inner_of().cursor.day)
        &&& self.inner_of().view_mode == o.inner_of().view_mode
        &&& self.inner_of().visible == o.inner_of().visible
    }

    /// `self` is `o` with its history's gaps up to `today` filled with the
    /// variant's failure value (`false`, or 0).
    pub open spec fn is_backfill_of(self, o: Habit, today: i32) -> bool {
        &&& self.name_of() == o.name_of()
        &&& self.inner_of() == o.inner_of()
        &&& match (self, o) {
            (Habit::Bit(a), Habit::Bit(b)) => a.stats@ == filled(b.stats@, CustomBool(false), today)
                && a.goal == b.goal && a.auto == b.auto,
            (Habit::Count(a), Habit::Count(b)) => a.stats@ == filled(b.stats@, 0u32, today) && a.goal
                == b.goal && a.auto == b.auto,
            (Habit::Float(a), Habit::Float(b)) => a.stats@ == filled(b.stats@, 0u32, today) && a.goal
                == b.goal && a.precision == b.precision && a.auto == b.auto,
            _ => false,
        }
    }

    pub fn name(&self) -> (r: String)
        ensures
            r@ == self.name_of(),
    {
        match self {
            Habit::Bit(h) => h.name.clone(),
            Habit::Count(h) => h.name.clone(),
            Habit::Float(h) => h.name.clone(),
        }
    }

    /// Whether the goal is called `n`.
    pub fn has_name(&self, n: &String) -> (r: bool)
        ensures
            r == (self.name_of() == n@),
    {
        match self {
            Habit::Bit(h) => h.name == *n,
            Habit::Count(h) => h.name == *n,
            Habit::Float(h) => h.name == *n,
        }
    }

    /// Gives the goal a new name; nothing else changes.
    pub fn rename(&mut self, new_name: &str)
        ensures
            final(self).name_of() == new_name@,
            final(self).same_records(*old(self)),
            final(self).inner_of() == old(self).inner_of(),
    {
        match self {
            Habit::Bit(h) => h.name = new_name.to_owned(),
            Habit::Count(h) => h.name = new_name.to_owned(),
            Habit::Float(h) => h.name = new_name.to_owned(),
        }
    }

    pub fn kind(&self) -> (r: GoalKind)
        ensures
            r == match *self {
                Habit::Bit(_) => GoalKind::Bit,
                Habit::Count(h) => GoalKind::Count(h.goal),
                Habit::Float(h) => GoalKind::Float(h.goal, h.precision),
            },
    {
        match self {
            Habit::Bit(_) => GoalKind::Bit,
            Habit::Count(h) => GoalKind::Count(h.goal),
            Habit::Float(h) => GoalKind::Float(h.goal, h.precision),
        }
    }

    pub fn goal(&self) -> (r: u32)
        ensures
            r == self.goal_of(),
    {
        match self {
            Habit::Bit(_) => 1,
            Habit::Count(h) => h.goal,
            Habit::Float(h) => h.goal,
        }
    }

    pub fn remaining(&self, date: i32) -> (r: u32)
        ensures
            r == self.remaining_of(date),
            r <= self.goal_of(),
    {
        match self {
            Habit::Bit(h) => h.remaining(date),
            Habit::Count(h) => h.remaining(date),
            Habit::Float(h) => h.remaining(date),
        }
    }

    pub fn reached_goal(&self, date: i32) -> (r: bool)
        ensures
            r == match *self {
                Habit::Bit(h) => h.stats@.get(date) == Some(CustomBool(true)),
                Habit::Count(h) => h.stats@.contains_key(date) && h.stats@[date] >= h.goal,
                Habit::Float(h) => h.stats@.contains_key(date) && h.stats@[date] >= h.goal,
            },
    {
        match self {
            Habit::Bit(h) => h.reached_goal(date),
            Habit::Count(h) => h.reached_goal(date),
            Habit::Float(h) => h.reached_goal(date),
        }
    }

    /// Applies one tracking step on `date` as the variant defines it.
    pub fn modify(&mut self, date: i32, event: TrackEvent)
        ensures
            final(self).is_step_of(*old(self), date, event),
    {
        match self {
            Habit::Bit(h) => h.modify(date, event),
            Habit::Count(h) => h.modify(date, event),
            Habit::Float(h) => h.modify(date, event),
        }
    }

    /// Fills every day without a record from the earliest recorded day up to
    /// `today` with the variant's failure value.
    pub fn backfill_until(&mut self, today: i32)
        ensures
            final(self).is_backfill_of(*old(self), today),
    {
        match self {
            Habit::Bit(h) => fill_gaps(&mut h.stats, CustomBool(false), today),
            Habit::Count(h) => fill_gaps(&mut h.stats, 0, today),
            Habit::Float(h) => fill_gaps(&mut h.stats, 0, today),
        }
    }

    /// `backfill_until` today.
    pub fn backfill(&mut self)
        ensures
            exists|t: i32| final(self).is_backfill_of(*old(self), t),
    {
        self.backfill_until(today());
    }

    pub fn is_auto(&self) -> (r: bool)
        ensures
            r == self.auto_of(),
    {
        match self {
            Habit::Bit(h) => h.auto,
            Habit::Count(h) => h.auto,
            Habit::Float(h) => h.auto,
        }
    }

    pub fn inner_data(&self) -> (r: InnerData)
        ensures
            r == self.inner_of(),
    {
        match self {
            Habit::Bit(h) => h.inner_data,
            Habit::Count(h) => h.inner_data,
            Habit::Float(h) => h.inner_data,
        }
    }

    /// Replaces the view state; the records and the name stay.
    pub fn set_inner_data(&mut self, inner: InnerData)
        ensures
            final(self).inner_of() == inner,
            final(self).same_but_inner(*old(self)),
    {
        match self {
            Habit::Bit(h) => h.inner_data = inner,
            Habit::Count(h) => h.inner_data = inner,
            Habit::Float(h) => h.inner_data = inner,
        }
    }

    pub fn is_visible(&self) -> (r: bool)
        ensures
            r == self.visible_of(),
    {
        self.inner_data().visible
    }

    pub fn make_hidden(&mut self)
        ensures
            final(self).inner_of() == (InnerData { visible: false, ..old(self).inner_of() }),
            final(self).same_but_inner(*old(self)),
    {
        let mut i = self.inner_data();
        i.visible = false;
        self.set_inner_data(i);
    }

    pub fn make_visible(&mut self)
        ensures
            final(self).inner_of() == (InnerData { visible: true, ..old(self).inner_of() }),
            final(self).same_but_inner(*old(self)),
    {
        let mut i = self.inner_data();
        i.visible = true;
        self.set_inner_data(i);
    }

    pub fn view_mode(&self) -> (r: ViewMode)
        ensures
            r == self.inner_of().view_mode,
    {
        self.inner_data().view_mode
    }

    pub fn set_view_mode(&mut self, mode: ViewMode)
        ensures
            final(self).inner_of() == (InnerData { view_mode: mode, ..old(self).inner_of() }),
            final(self).same_but_inner(*old(self)),
    {
        let mut i = self.inner_data();
        i.view_mode = mode;
        self.set_inner_data(i);
    }

    /// Replaces the goal's own cursor.
    pub fn set_cursor(&mut self, c: Cursor)
        ensures
            final(self).inner_of() == (InnerData { cursor: c, ..old(self).inner_of() }),
            final(self).same_but_inner(*old(self)),
    {
        let mut i = self.inner_data();
        i.cursor = c;
        self.set_inner_data(i);
    }
}

/// Backfilling is idempotent: filling the gaps of a backfilled goal up to the
/// same day gives the same goal again.
pub proof fn lemma_backfill_idempotent(h0: Habit, h1: Habit, h2: Habit, today: i32)
    requires
        h1.is_backfill_of(h0, today),
        h2.is_backfill_of(h1, today),
    ensures
        h2.same_but_inner(h1),
        h2.inner_of() == h1.inner_of(),
{
    match (h0, h1, h2) {
        (Habit::Bit(a), Habit::Bit(b), Habit::Bit(c)) => {
            crate::history::lemma_filled_idempotent(a.stats@, CustomBool(false), today);
        },
        (Habit::Count(a), Habit::Count(b), Habit::Count(c)) => {
            crate::history::lemma_filled_idempotent(a.stats@, 0u32, today);
        },
        (Habit::Float(a), Habit::Float(b), Habit::Float(c)) => {
            crate::history::lemma_filled_idempotent(a.stats@, 0u32, today);
        },
        _ => {},
    }
}

/// After a backfill up to `today`, every day from the earliest recorded day
/// to `today` holds a record.
pub proof fn lemma_backfill_leaves_no_gap(h0: Habit, h1: Habit, today: i32, first: i32, d: i32)
    requires
        h1.is_backfill_of(h0, today),
        h0.has_record(first),
        first <= d <= today,
    ensures
        h1.has_record(d),
{
    match (h0, h1) {
        (Habit::Bit(a), Habit::Bit(b)) => {
            assert(a.stats@.contains_key(first) && first <= d);
        },
        (Habit::Count(a), Habit::Count(b)) => {
            assert(a.stats@.contains_key(first) && first <= d);
        },
        (Habit::Float(a), Habit::Float(b)) => {
            assert(a.stats@.contains_key(first) && first <= d);
        },
        _ => {},
    }
}

} // verus!
