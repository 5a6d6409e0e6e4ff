//! The application state: an ordered collection of goals, the shared cursor,
//! the focus, and the message line; commands become changes of that state.
use vstd::prelude::*;
use vstd::string::StringExecFns;
use crate::calendar::{Absolute, Cursor, CursorMove, moved_day, today};
use crate::calendar::{iso_text, iso_text_of, short_text, short_text_of};
use crate::command::{Command, CommandLineError, help_for, help_text};
use crate::habit::{GoalKind, Habit, TrackEvent, ViewMode};
use crate::seqs::{lemma_filter_drops_all, lemma_filter_keeps_all, lemma_split_at_cut};
use crate::text::{decimal, signed_decimal, signed_text, unsigned_text};

verus! {

/// Severity of the message line.
#[derive(Clone, Copy, Debug, PartialEq, Eq, Structural)]
pub enum MessageKind {
    Error,
    Info,
    Hint,
}

/// The transient message shown under the grid.
#[derive(Debug)]
pub struct Message {
    pub msg: String,
    pub kind: MessageKind,
}

impl Message {
    /// The hint shown at start.
    pub fn startup() -> (r: Message)
        ensures
            r.kind == MessageKind::Hint,
            r.msg@ == "Type :add <habit-name> <goal> to get started, Ctrl-L to dismiss"@,
    {
        Message {
            msg: String::from_str("Type :add <habit-name> <goal> to get started, Ctrl-L to dismiss"),
            kind: MessageKind::Hint,
        }
    }

    pub fn set_kind(&mut self, kind: MessageKind)
        ensures
            final(self).kind == kind,
            final(self).msg == old(self).msg,
    {
        self.kind = kind;
    }

    pub fn set_message(&mut self, msg: String)
        ensures
            final(self).msg == msg,
            final(self).kind == old(self).kind,
    {
        self.msg = msg;
    }

    /// Empties the line.
    pub fn clear(&mut self)
        ensures
            final(self).msg@ == Seq::<char>::empty(),
            final(self).kind == MessageKind::Info,
    {
        self.msg = String::new();
        self.kind = MessageKind::Info;
    }
}

/// `prefix`, then `name` in backquotes, then `suffix`.
pub open spec fn quoted(prefix: Seq<char>, name: Seq<char>, suffix: Seq<char>) -> Seq<char> {
    prefix + "`"@ + name + "`"@ + suffix
}

fn quote(prefix: &str, name: &str, suffix: &str) -> (r: String)
    ensures
        r@ == quoted(prefix@, name@, suffix@),
{
    let mut s = String::from_str(prefix);
    s.append("`");
    s.append(name);
    s.append("`");
    s.append(suffix);
    s
}

/// `i` is the first position in `s` of a goal called `n`.
pub open spec fn is_first(s: Seq<Habit>, n: Seq<char>, i: int) -> bool {
    &&& 0 <= i < s.len()
    &&& s[i].name_of() == n
    &&& forall|j: int| 0 <= j < i ==> s[j].name_of() != n
}

/// The first position in `s` of a goal called `n`, if any.
pub open spec fn first_with(s: Seq<Habit>, n: Seq<char>) -> Option<int> {
    if exists|i: int| is_first(s, n, i) {
        Some(choose|i: int| is_first(s, n, i))
    } else {
        None
    }
}

/// The first position of a name is the one that `first_with` gives.
pub proof fn lemma_first_with(s: Seq<Habit>, n: Seq<char>, i: int)
    requires
        is_first(s, n, i),
    ensures
        first_with(s, n) == Some(i),
{
    let c = choose|c: int| is_first(s, n, c);
    assert(c == i) by {
        if c < i {
        } else if c > i {
            assert(s[i].name_of() == n);
        }
    }
}

/// `b` is `a` except perhaps at position `i`.
pub open spec fn only_at(a: Seq<Habit>, b: Seq<Habit>, i: int) -> bool {
    &&& b.len() == a.len()
    &&& forall|j: int| 0 <= j < a.len() && j != i ==> b[j] == a[j]
}

/// How many goals the grid shows in a row.
pub const GRID_WIDTH: usize = 3;

/// The width of one goal's view, in columns.
pub const VIEW_WIDTH: usize = 25;

/// The height of one goal's view, in rows.
pub const VIEW_HEIGHT: usize = 8;

/// How many goals of `s` are visible.
pub open spec fn visible_count(s: Seq<Habit>) -> nat
    decreases s.len(),
{
    if s.len() == 0 {
        0
    } else {
        visible_count(s.drop_last()) + if s.last().visible_of() { 1nat } else { 0nat }
    }
}

/// The sum of the goals' numeric targets.
pub open spec fn total_goal(s: Seq<Habit>) -> nat
    decreases s.len(),
{
    if s.len() == 0 {
        0
    } else {
        total_goal(s.drop_last()) + s.last().goal_of() as nat
    }
}

/// The sum of what the goals miss on day `d`.
pub open spec fn total_remaining(s: Seq<Habit>, d: i32) -> nat
    decreases s.len(),
{
    if s.len() == 0 {
        0
    } else {
        total_remaining(s.drop_last(), d) + s.last().remaining_of(d) as nat
    }
}

/// Where the focus goes from `f` on a step in direction `d`, among `v`
/// visible goals: by one to the side or by a row up or down, held within the
/// visible goals rather than wrapping.
pub open spec fn focus_after(f: int, v: int, d: Absolute) -> int {
    if d == Absolute::Stay {
        f
    } else if v <= 0 {
        0
    } else {
        match d {
            Absolute::Right => if f + 1 < v { f + 1 } else { v - 1 },
            Absolute::Left => if f == 0 { 0 } else if f - 1 < v { f - 1 } else { v - 1 },
            Absolute::Down => if f + GRID_WIDTH < v - 1 { f + GRID_WIDTH } else { v - 1 },
            Absolute::Up => if f >= GRID_WIDTH { if f - GRID_WIDTH < v { f - GRID_WIDTH } else { v - 1 } } else { 0 },
            Absolute::Stay => f,
        }
    }
}

/// A step of the focus from a goal among the visible ones stays among them.
pub proof fn lemma_focus_in_range(f: int, v: int, d: Absolute)
    requires
        0 <= f < v,
    ensures
        0 <= focus_after(f, v, d) < v,
        d == Absolute::Right && f == v - 1 ==> focus_after(f, v, d) == f,
{
}

/// The text of a date, or nothing where there is none.
pub open spec fn text_or_empty(t: Option<Seq<char>>) -> Seq<char> {
    match t {
        Some(x) => x,
        None => Seq::empty(),
    }
}

/// Position `i` of `s` holds the visible goal with index `f` among the
/// visible goals.
pub open spec fn is_focused(s: Seq<Habit>, f: int, i: int) -> bool {
    &&& 0 <= i < s.len()
    &&& s[i].visible_of()
    &&& visible_count(s.take(i)) == f
}

/// The position of the goal under focus `f`, if any.
pub open spec fn focused_at(s: Seq<Habit>, f: int) -> Option<int> {
    if exists|i: int| is_focused(s, f, i) {
        Some(choose|i: int| is_focused(s, f, i))
    } else {
        None
    }
}

proof fn lemma_visible_count_grows(s: Seq<Habit>, i: int, j: int)
    requires
        0 <= i < j <= s.len(),
        s[i].visible_of(),
    ensures
        visible_count(s.take(j)) >= visible_count(s.take(i)) + 1,
    decreases j - i,
{
    assert(s.take(j).drop_last() =~= s.take(j - 1));
    if j > i + 1 {
        lemma_visible_count_grows(s, i, j - 1);
    }
}

/// At most one position holds the goal under a focus.
pub proof fn lemma_focused_at(s: Seq<Habit>, f: int, i: int)
    requires
        is_focused(s, f, i),
    ensures
        focused_at(s, f) == Some(i),
{
    let c = choose|c: int| is_focused(s, f, c);
    if c < i {
        lemma_visible_count_grows(s, c, i);
    } else if c > i {
        lemma_visible_count_grows(s, i, c);
    }
}

/// The mode shown in the status line: that of the goal under the focus, or
/// `Day` when there is none.
pub open spec fn focused_mode(s: Seq<Habit>, focus: int) -> ViewMode {
    match focused_at(s, focus) {
        Some(i) => s[i].inner_of().view_mode,
        None => ViewMode::Day,
    }
}

/// The summary half of the status line on day `d`.
pub open spec fn summary_text(s: Seq<Habit>, focus: int, d: i32) -> Seq<char> {
    decimal((total_goal(s) - total_remaining(s, d)) as nat) + " completed, "@ + decimal(total_remaining(s, d))
        + " remaining, "@ + decimal((s.len() - visible_count(s)) as nat) + " hidden --"@ + focused_mode(
        s,
        focus,
    ).label() + "--"@
}

/// The date half of the status line: today's date when the cursor is on
/// today, else the cursor's date and how many days ago it is.
pub open spec fn timestamp_text(cursor: i32, today: i32) -> Seq<char> {
    if cursor == today {
        text_or_empty(short_text_of(today as int))
    } else {
        text_or_empty(iso_text_of(cursor as int)) + " ("@ + signed_decimal(today - cursor) + " day"@ + (if today
            - cursor == 1 {
            ""@
        } else {
            "s"@
        }) + " ago)"@
    }
}

/// The two halves of the status line.
#[derive(Debug)]
pub struct StatusLine(pub String, pub String);

/// `i` is the first position in `s` of an auto goal called `n`.
pub open spec fn is_first_auto(s: Seq<Habit>, n: Seq<char>, i: int) -> bool {
    &&& 0 <= i < s.len()
    &&& s[i].name_of() == n
    &&& s[i].auto_of()
    &&& forall|j: int| 0 <= j < i ==> !(s[j].name_of() == n && s[j].auto_of())
}

/// The first position in `s` of an auto goal called `n`, if any.
pub open spec fn first_auto_with(s: Seq<Habit>, n: Seq<char>) -> Option<int> {
    if exists|i: int| is_first_auto(s, n, i) {
        Some(choose|i: int| is_first_auto(s, n, i))
    } else {
        None
    }
}

/// The first position of an auto goal with a name is the one that
/// `first_auto_with` gives.
pub proof fn lemma_first_auto_with(s: Seq<Habit>, n: Seq<char>, i: int)
    requires
        is_first_auto(s, n, i),
    ensures
        first_auto_with(s, n) == Some(i),
{
    let c = choose|c: int| is_first_auto(s, n, c);
    assert(c == i) by {
        if c < i {
        } else if c > i {
            assert(s[i].name_of() == n && s[i].auto_of());
        }
    }
}

/// The goals of `s` whose provenance is `auto`, in order.
pub open spec fn with_provenance(s: Seq<Habit>, auto: bool) -> Seq<Habit> {
    s.filter(provenance_is(auto))
}

pub open spec fn provenance_is(auto: bool) -> spec_fn(Habit) -> bool {
    |h: Habit| h.auto_of() == auto
}

/// No two goals of `s` share a name.
pub open spec fn unique_names(s: Seq<Habit>) -> bool {
    forall|i: int, j: int| 0 <= i < s.len() && 0 <= j < s.len() && i != j ==> s[i].name_of() != s[j].name_of()
}

/// The goals `s1` after renaming `og` to `nw` in `s0`: the first goal called
/// `og` takes the new name when no goal is called `nw`; otherwise nothing
/// changes.
pub open spec fn renamed(s0: Seq<Habit>, s1: Seq<Habit>, og: Seq<char>, nw: Seq<char>) -> bool {
    if has_goal(s0, og) && !has_goal(s0, nw) {
        let i = first_with(s0, og)->Some_0;
        &&& only_at(s0, s1, i)
        &&& s1[i].name_of() == nw
        &&& s1[i].same_records(s0[i])
        &&& s1[i].inner_of() == s0[i].inner_of()
    } else {
        s1 == s0
    }
}

/// A rename of `a` to `b` that succeeds, followed by a rename of `b` back to
/// `a`, gives back every goal with its name, records and view state.
pub proof fn lemma_rename_round_trip(s0: Seq<Habit>, s1: Seq<Habit>, s2: Seq<Habit>, a: Seq<char>, b: Seq<char>)
    requires
        unique_names(s0),
        has_goal(s0, a),
        !has_goal(s0, b),
        renamed(s0, s1, a, b),
        renamed(s1, s2, b, a),
    ensures
        s2.len() == s0.len(),
        forall|j: int| 0 <= j < s0.len() ==> #[trigger] s2[j].same_but_inner(s0[j]) && s2[j].inner_of() == s0[j].inner_of(),
{
    let i = first_with(s0, a)->Some_0;
    let w = choose|w: int| 0 <= w < s0.len() && #[trigger] s0[w].name_of() == a;
    assert(is_first(s0, a, i)) by {
        assert(exists|x: int| is_first(s0, a, x)) by {
            assert(is_first(s0, a, w)) by {
                assert forall|j: int| 0 <= j < w implies s0[j].name_of() != a by {
                    assert(s0[j].name_of() != s0[w].name_of());
                }
            }
        }
    }
    assert(is_first(s1, b, i));
    lemma_first_with(s1, b, i);
    assert(!has_goal(s1, a)) by {
        if has_goal(s1, a) {
            let k = choose|k: int| 0 <= k < s1.len() && #[trigger] s1[k].name_of() == a;
            assert(k != i);
            assert(s0[k].name_of() != s0[i].name_of());
        }
    }
    assert(has_goal(s1, b));
    assert forall|j: int| 0 <= j < s0.len() implies #[trigger] s2[j].same_but_inner(s0[j]) && s2[j].inner_of()
        == s0[j].inner_of() by {
        if j != i {
            assert(s2[j] == s0[j]);
        }
    }
}

/// The goals `s1` after adding a goal of kind `k` called `n` to `s0`: a new
/// goal at the end, unless one is already called `n`.
pub open spec fn added(s0: Seq<Habit>, s1: Seq<Habit>, n: Seq<char>, k: GoalKind, auto: bool) -> bool {
    if has_goal(s0, n) {
        s1 == s0
    } else {
        &&& s1.len() == s0.len() + 1
        &&& s1.drop_last() == s0
        &&& s1.last().is_fresh(n, k, auto)
    }
}

/// Adding a name twice adds it once: after the first add a goal has that
/// name, so the second leaves the goals as they are.
pub proof fn lemma_add_twice(
    s0: Seq<Habit>,
    s1: Seq<Habit>,
    s2: Seq<Habit>,
    n: Seq<char>,
    k1: GoalKind,
    k2: GoalKind,
    auto1: bool,
    auto2: bool,
)
    requires
        added(s0, s1, n, k1, auto1),
        added(s1, s2, n, k2, auto2),
    ensures
        has_goal(s1, n),
        s2 == s1,
{
    if !has_goal(s0, n) {
        assert(s1[s1.len() - 1].name_of() == n);
    }
}

/// Saving splits the goals by provenance and loading puts the manual store
/// before the auto store: each store gets back exactly its goals, in their
/// order.
pub proof fn lemma_store_round_trip(s: Seq<Habit>)
    ensures
        with_provenance(with_provenance(s, false) + with_provenance(s, true), false) == with_provenance(s, false),
        with_provenance(with_provenance(s, false) + with_provenance(s, true), true) == with_provenance(s, true),
{
    let m = with_provenance(s, false);
    let a = with_provenance(s, true);
    assert forall|i: int| 0 <= i < m.len() implies #[trigger] m[i].auto_of() == false by {
        s.lemma_filter_pred(provenance_is(false), i);
    }
    assert forall|i: int| 0 <= i < a.len() implies #[trigger] a[i].auto_of() == true by {
        s.lemma_filter_pred(provenance_is(true), i);
    }
    lemma_filter_keeps_all(m, provenance_is(false));
    lemma_filter_keeps_all(a, provenance_is(true));
    lemma_filter_drops_all(m, provenance_is(true));
    lemma_filter_drops_all(a, provenance_is(false));
    Seq::filter_distributes_over_add(m, a, provenance_is(false));
    Seq::filter_distributes_over_add(m, a, provenance_is(true));
    assert(m + Seq::empty() =~= m);
    assert(Seq::empty() + a =~= a);
}

/// Saving, then loading, gives back the very collection when its manual
/// goals, before position `c`, all come before its auto goals.
pub proof fn lemma_store_rebuilds_exactly(s: Seq<Habit>, c: int)
    requires
        0 <= c <= s.len(),
        forall|i: int| 0 <= i < c ==> !(#[trigger] s[i]).auto_of(),
        forall|i: int| c <= i < s.len() ==> (#[trigger] s[i]).auto_of(),
    ensures
        with_provenance(s, false) + with_provenance(s, true) == s,
{
    let p = provenance_is(true);
    let q = provenance_is(false);
    assert forall|x: Habit| #[trigger] q(x) == !p(x) by {}
    assert forall|i: int| 0 <= i < c implies !p(#[trigger] s[i]) by {}
    assert forall|i: int| c <= i < s.len() implies p(#[trigger] s[i]) by {}
    lemma_split_at_cut(s, p, q, c);
}

/// What the caller is to do after a command.
#[derive(Clone, Copy, Debug, PartialEq, Eq, Structural)]
pub enum Effect {
    Nothing,
    Save,
    SaveAndQuit,
}

/// Some goal in `s` is called `n`.
pub open spec fn has_goal(s: Seq<Habit>, n: Seq<char>) -> bool {
    exists|i: int| 0 <= i < s.len() && #[trigger] s[i].name_of() == n
}

/// The collection and everything shown with it.
#[derive(Debug)]
pub struct App {
    pub habits: Vec<Habit>,
    pub focus: usize,
    pub cursor: Cursor,
    pub message: Message,
}

impl App {
    /// No goals, focus on the first, the cursor on today, the start hint.
    pub fn new() -> (r: App)
        ensures
            r.habits@.len() == 0,
            r.focus == 0,
            r.message.kind == MessageKind::Hint,
    {
        App { habits: Vec::new(), focus: 0, cursor: Cursor::new(), message: Message::startup() }
    }

    /// Appends `h` as it is, with no check of its name.
    pub fn add_habit(&mut self, h: Habit)
        ensures
            final(self).habits@ == old(self).habits@.push(h),
            final(self).focus == old(self).focus,
            final(self).cursor == old(self).cursor,
            final(self).message == old(self).message,
    {
        self.habits.push(h);
    }

    /// The names of all goals, in order.
    pub fn list_habits(&self) -> (r: Vec<String>)
        ensures
            r@.len() == self.habits@.len(),
            forall|i: int| 0 <= i < r@.len() ==> #[trigger] r@[i]@ == self.habits@[i].name_of(),
    {
        let mut r: Vec<String> = Vec::new();
        let mut i: usize = 0;
        while i < self.habits.len()
            invariant
                i <= self.habits@.len(),
                r@.len() == i,
                forall|j: int| 0 <= j < i ==> #[trigger] r@[j]@ == self.habits@[j].name_of(),
            decreases self.habits@.len() - i,
        {
            r.push(self.habits[i].name());
            i = i + 1;
        }
        r
    }

    /// The first position of a goal called `name`.
    pub fn position(&self, name: &str) -> (r: Option<usize>)
        ensures
            r == match first_with(self.habits@, name@) {
                Some(i) => Some(i as usize),
                None => None::<usize>,
            },
            r is None <==> !has_goal(self.habits@, name@),
            r matches Some(i) ==> is_first(self.habits@, name@, i as int),
    {
        let key = name.to_owned();
        let mut i: usize = 0;
        while i < self.habits.len()
            invariant
                i <= self.habits@.len(),
                key@ == name@,
                forall|j: int| 0 <= j < i ==> self.habits@[j].name_of() != name@,
            decreases self.habits@.len() - i,
        {
            if self.habits[i].has_name(&key) {
                proof {
                    lemma_first_with(self.habits@, name@, i as int);
                }
                return Some(i);
            }
            i = i + 1;
        }
        None
    }

    /// Removes the first goal called `name` and puts the focus on the first
    /// goal; without such a goal, changes nothing but the message line.
    pub fn delete_by_name(&mut self, name: &str)
        ensures
            match first_with(old(self).habits@, name@) {
                Some(i) => {
                    &&& final(self).habits@ == old(self).habits@.remove(i)
                    &&& final(self).focus == 0
                    &&& final(self).message == old(self).message
                },
                None => {
                    &&& final(self).habits@ == old(self).habits@
                    &&& final(self).focus == old(self).focus
                    &&& final(self).message.kind == MessageKind::Error
                    &&& final(self).message.msg@ == quoted("Could not delete habit "@, name@, ""@)
                },
            },
            final(self).cursor == old(self).cursor,
    {
        match self.position(name) {
            Some(i) => {
                self.habits.remove(i);
                self.focus = 0;
            },
            None => {
                self.message.set_kind(MessageKind::Error);
                self.message.set_message(quote("Could not delete habit ", name, ""));
            },
        }
    }

    /// Renames the goal called `og_name` to `new_name`; fails, changing only
    /// the message line, when no goal is called `og_name` or one is already
    /// called `new_name`.
    pub fn rename_by_name(&mut self, og_name: &str, new_name: &str)
        ensures
            final(self).focus == old(self).focus,
            final(self).cursor == old(self).cursor,
            !has_goal(old(self).habits@, og_name@) ==> {
                &&& final(self).habits@ == old(self).habits@
                &&& final(self).message.kind == MessageKind::Error
                &&& final(self).message.msg@ == quoted("Could not rename habit "@, og_name@, ": not found"@)
            },
            has_goal(old(self).habits@, og_name@) && has_goal(old(self).habits@, new_name@) ==> {
                &&& final(self).habits@ == old(self).habits@
                &&& final(self).message.kind == MessageKind::Error
                &&& final(self).message.msg@ == quoted("Could not rename habit "@, og_name@, ": "@)
                    + quoted(""@, new_name@, " already exists"@)
            },
            renamed(old(self).habits@, final(self).habits@, og_name@, new_name@),
            has_goal(old(self).habits@, og_name@) && !has_goal(old(self).habits@, new_name@) ==> {
                let i = first_with(old(self).habits@, og_name@)->Some_0;
                &&& final(self).habits@.len() == old(self).habits@.len()
                &&& final(self).habits@[i].name_of() == new_name@
                &&& final(self).habits@[i].same_records(old(self).habits@[i])
                &&& final(self).habits@[i].inner_of() == old(self).habits@[i].inner_of()
                &&& forall|j: int| 0 <= j < old(self).habits@.len() && j != i
                    ==> final(self).habits@[j] == old(self).habits@[j]
                &&& final(self).message.kind == MessageKind::Info
                &&& final(self).message.msg@ == quoted(""@, og_name@, " renamed to "@) + quoted(""@, new_name@, ""@)
            },
    {
        let og = match self.position(og_name) {
            Some(i) => i,
            None => {
                self.message.set_kind(MessageKind::Error);
                self.message.set_message(quote("Could not rename habit ", og_name, ": not found"));
                return;
            },
        };
        if self.position(new_name).is_some() {
            let mut m = quote("Could not rename habit ", og_name, ": ");
            m.append(&quote("", new_name, " already exists"));
            self.message.set_kind(MessageKind::Error);
            self.message.set_message(m);
            return;
        }
        proof {
            lemma_first_with(self.habits@, og_name@, og as int);
        }
        self.habits[og].rename(new_name);
        let mut m = quote("", og_name, " renamed to ");
        m.append(&quote("", new_name, ""));
        self.message.set_kind(MessageKind::Info);
        self.message.set_message(m);
    }

    /// `self` is `o` after backfilling up to day `t` the goal called
    /// `name`, or every goal when `name` is `all`.
    pub open spec fn backfill_outcome(self, o: App, name: Seq<char>, t: i32) -> bool {
        &&& self.focus == o.focus
        &&& self.cursor == o.cursor
        &&& name == "all"@ ==> {
            &&& self.habits@.len() == o.habits@.len()
            &&& forall|j: int| 0 <= j < o.habits@.len()
                ==> #[trigger] self.habits@[j].is_backfill_of(o.habits@[j], t)
            &&& self.message.kind == MessageKind::Info
            &&& self.message.msg@ == "All habits were backfilled"@
        }
        &&& name != "all"@ ==> match first_with(o.habits@, name) {
            Some(i) => {
                &&& only_at(o.habits@, self.habits@, i)
                &&& self.habits@[i].is_backfill_of(o.habits@[i], t)
                &&& self.message.kind == MessageKind::Info
                &&& self.message.msg@ == quoted("Habit was backfilled: "@, name, ""@)
            },
            None => {
                &&& self.habits@ == o.habits@
                &&& self.message.kind == MessageKind::Error
                &&& self.message.msg@ == quoted("Could not backfill habit "@, name, ""@)
            },
        }
    }

    /// Backfills up to `today` the goal called `name`, or every goal when
    /// `name` is `all`.
    pub fn backfill_by_name_until(&mut self, name: &str, today: i32)
        ensures
            final(self).backfill_outcome(*old(self), name@, today),
    {
        let key = name.to_owned();
        if key == String::from_str("all") {
            let mut i: usize = 0;
            while i < self.habits.len()
                invariant
                    i <= self.habits@.len(),
                    self.habits@.len() == old(self).habits@.len(),
                    self.focus == old(self).focus,
                    self.cursor == old(self).cursor,
                    self.message == old(self).message,
                    forall|j: int| 0 <= j < i ==> #[trigger] self.habits@[j].is_backfill_of(old(self).habits@[j], today),
                    forall|j: int| i <= j < self.habits@.len() ==> #[trigger] self.habits@[j] == old(self).habits@[j],
                decreases self.habits@.len() - i,
            {
                self.habits[i].backfill_until(today);
                i = i + 1;
            }
            self.message.set_kind(MessageKind::Info);
            self.message.set_message(String::from_str("All habits were backfilled"));
            return;
        }
        match self.position(name) {
            Some(i) => {
                proof {
                    lemma_first_with(self.habits@, name@, i as int);
                }
                self.habits[i].backfill_until(today);
                self.message.set_kind(MessageKind::Info);
                self.message.set_message(quote("Habit was backfilled: ", name, ""));
            },
            None => {
                self.message.set_kind(MessageKind::Error);
                self.message.set_message(quote("Could not backfill habit ", name, ""));
            },
        }
    }

    /// `backfill_by_name_until` today.
    pub fn backfill_by_name(&mut self, name: &str)
        ensures
            exists|t: i32| final(self).backfill_outcome(*old(self), name@, t),
    {
        let t = today();
        self.backfill_by_name_until(name, t);
    }

    /// Hides the goal called `name`; without one, only reports it.
    pub fn hide_by_name(&mut self, name: &str)
        ensures
            final(self).focus == old(self).focus,
            final(self).cursor == old(self).cursor,
            match first_with(old(self).habits@, name@) {
                Some(i) => {
                    &&& only_at(old(self).habits@, final(self).habits@, i)
                    &&& final(self).habits@[i].same_but_inner(old(self).habits@[i])
                    &&& final(self).habits@[i].inner_of() == (crate::habit::InnerData {
                        visible: false,
                        ..old(self).habits@[i].inner_of()
                    })
                    &&& final(self).message.kind == MessageKind::Info
                    &&& final(self).message.msg@ == quoted("Habit was hidden: "@, name@, ""@)
                },
                None => {
                    &&& final(self).habits@ == old(self).habits@
                    &&& final(self).message.kind == MessageKind::Error
                    &&& final(self).message.msg@ == quoted("Habit not found: "@, name@, ""@)
                },
            },
    {
        match self.position(name) {
            Some(i) => {
                proof {
                    lemma_first_with(self.habits@, name@, i as int);
                }
                self.habits[i].make_hidden();
                self.message.set_kind(MessageKind::Info);
                self.message.set_message(quote("Habit was hidden: ", name, ""));
            },
            None => {
                self.message.set_kind(MessageKind::Error);
                self.message.set_message(quote("Habit not found: ", name, ""));
            },
        }
    }

    /// Shows again the goal called `name`; without one, only reports it.
    pub fn unhide_by_name(&mut self, name: &str)
        ensures
            final(self).focus == old(self).focus,
            final(self).cursor == old(self).cursor,
            match first_with(old(self).habits@, name@) {
                Some(i) => {
                    &&& only_at(old(self).habits@, final(self).habits@, i)
                    &&& final(self).habits@[i].same_but_inner(old(self).habits@[i])
                    &&& final(self).habits@[i].inner_of() == (crate::habit::InnerData {
                        visible: true,
                        ..old(self).habits@[i].inner_of()
                    })
                    &&& final(self).message.kind == MessageKind::Info
                    &&& final(self).message.msg@ == quoted("Habit was unhidden: "@, name@, ""@)
                },
                None => {
                    &&& final(self).habits@ == old(self).habits@
                    &&& final(self).message.kind == MessageKind::Error
                    &&& final(self).message.msg@ == quoted("Habit not found: "@, name@, ""@)
                },
            },
    {
        match self.position(name) {
            Some(i) => {
                proof {
                    lemma_first_with(self.habits@, name@, i as int);
                }
                self.habits[i].make_visible();
                self.message.set_kind(MessageKind::Info);
                self.message.set_message(quote("Habit was unhidden: ", name, ""));
            },
            None => {
                self.message.set_kind(MessageKind::Error);
                self.message.set_message(quote("Habit not found: ", name, ""));
            },
        }
    }

    /// The position of the goal under the focus: the visible goal whose
    /// index among the visible goals is `focus`.
    pub fn focused_index(&self) -> (r: Option<usize>)
        ensures
            r == match focused_at(self.habits@, self.focus as int) {
                Some(i) => Some(i as usize),
                None => None::<usize>,
            },
            r matches Some(i) ==> focused_at(self.habits@, self.focus as int) == Some(i as int) && i
                < self.habits@.len(),
            r is None ==> focused_at(self.habits@, self.focus as int) is None,
    {
        let ghost s = self.habits@;
        let mut seen: usize = 0;
        let mut i: usize = 0;
        while i < self.habits.len()
            invariant
                s == self.habits@,
                i <= s.len(),
                seen == visible_count(s.take(i as int)),
                seen <= i,
                seen <= self.focus,
                forall|j: int| 0 <= j < i ==> !is_focused(s, self.focus as int, j),
            decreases s.len() - i,
        {
            proof {
                assert(s.take(i + 1).drop_last() =~= s.take(i as int));
            }
            if self.habits[i].is_visible() {
                if seen == self.focus {
                    proof {
                        lemma_focused_at(s, self.focus as int, i as int);
                    }
                    return Some(i);
                }
                seen = seen + 1;
            }
            i = i + 1;
        }
        proof {
            assert forall|j: int| !is_focused(s, self.focus as int, j) by {
                if 0 <= j < s.len() {
                    assert(j < i);
                }
            }
        }
        None
    }

    /// The view mode of the goal under the focus; `Day` when the focus is on
    /// no goal.
    pub fn get_mode(&self) -> (r: ViewMode)
        ensures
            r == focused_mode(self.habits@, self.focus as int),
    {
        match self.focused_index() {
            Some(i) => self.habits[i].view_mode(),
            None => ViewMode::Day,
        }
    }

    /// Sets the view mode of the goal under the focus, if any.
    pub fn set_mode(&mut self, mode: ViewMode)
        ensures
            final(self).focus == old(self).focus,
            final(self).cursor == old(self).cursor,
            final(self).message == old(self).message,
            match focused_at(old(self).habits@, old(self).focus as int) {
                Some(i) => {
                    &&& only_at(old(self).habits@, final(self).habits@, i)
                    &&& final(self).habits@[i].same_but_inner(old(self).habits@[i])
                    &&& final(self).habits@[i].inner_of() == (crate::habit::InnerData {
                        view_mode: mode,
                        ..old(self).habits@[i].inner_of()
                    })
                },
                None => final(self).habits@ == old(self).habits@,
            },
    {
        if let Some(i) = self.focused_index() {
            self.habits[i].set_view_mode(mode);
        }
    }

    pub fn clear_message(&mut self)
        ensures
            final(self).message.msg@ == Seq::<char>::empty(),
            final(self).message.kind == MessageKind::Info,
            final(self).habits@ == old(self).habits@,
            final(self).focus == old(self).focus,
            final(self).cursor == old(self).cursor,
    {
        self.message.clear();
    }

    /// Applies move `m` to the shared cursor and to the cursor of every goal.
    pub fn move_all_cursors(&mut self, m: CursorMove)
        ensures
            final(self).cursor.day == moved_day(m, old(self).cursor.day),
            final(self).habits@.len() == old(self).habits@.len(),
            forall|j: int| 0 <= j < old(self).habits@.len() ==> #[trigger] final(self).habits@[j].is_moved(
                old(self).habits@[j],
                m,
            ),
            final(self).focus == old(self).focus,
            final(self).message == old(self).message,
    {
        self.cursor.apply(m);
        let mut i: usize = 0;
        while i < self.habits.len()
            invariant
                i <= self.habits@.len(),
                self.habits@.len() == old(self).habits@.len(),
                self.focus == old(self).focus,
                self.message == old(self).message,
                self.cursor.day == moved_day(m, old(self).cursor.day),
                forall|j: int| 0 <= j < i ==> #[trigger] self.habits@[j].is_moved(old(self).habits@[j], m),
                forall|j: int| i <= j < self.habits@.len() ==> #[trigger] self.habits@[j] == old(self).habits@[j],
            decreases self.habits@.len() - i,
        {
            let mut c = self.habits[i].inner_data().cursor;
            c.apply(m);
            self.habits[i].set_cursor(c);
            i = i + 1;
        }
    }

    /// One month back, for the shared cursor and every goal's cursor.
    pub fn sift_backward(&mut self)
        ensures
            final(self).cursor.day == moved_day(CursorMove::MonthBackward, old(self).cursor.day),
            final(self).habits@.len() == old(self).habits@.len(),
            forall|j: int| 0 <= j < old(self).habits@.len() ==> #[trigger] final(self).habits@[j].is_moved(old(self).habits@[j], CursorMove::MonthBackward),
            final(self).focus == old(self).focus,
            final(self).message == old(self).message,
    {
        self.move_all_cursors(CursorMove::MonthBackward);
    }

    /// One month forward, for the shared cursor and every goal's cursor.
    pub fn sift_forward(&mut self)
        ensures
            final(self).cursor.day == moved_day(CursorMove::MonthForward, old(self).cursor.day),
            final(self).habits@.len() == old(self).habits@.len(),
            forall|j: int| 0 <= j < old(self).habits@.len() ==> #[trigger] final(self).habits@[j].is_moved(old(self).habits@[j], CursorMove::MonthForward),
            final(self).focus == old(self).focus,
            final(self).message == old(self).message,
    {
        self.move_all_cursors(CursorMove::MonthForward);
    }

    /// Puts the shared cursor and every goal's cursor on today.
    pub fn reset_cursor(&mut self)
        ensures
            final(self).habits@.len() == old(self).habits@.len(),
            forall|j: int| 0 <= j < old(self).habits@.len() ==> #[trigger] final(self).habits@[j].is_moved(
                old(self).habits@[j],
                CursorMove::Reset(final(self).cursor.day),
            ),
            final(self).focus == old(self).focus,
            final(self).message == old(self).message,
    {
        let t = today();
        self.move_all_cursors(CursorMove::Reset(t));
    }

    /// One grid step in direction `d`, for the shared cursor and every
    /// goal's cursor.
    pub fn move_cursor(&mut self, d: Absolute)
        ensures
            final(self).cursor.day == moved_day(CursorMove::Seek(d), old(self).cursor.day),
            final(self).habits@.len() == old(self).habits@.len(),
            forall|j: int| 0 <= j < old(self).habits@.len() ==> #[trigger] final(self).habits@[j].is_moved(old(self).habits@[j], CursorMove::Seek(d)),
            final(self).focus == old(self).focus,
            final(self).message == old(self).message,
    {
        self.move_all_cursors(CursorMove::Seek(d));
    }

    /// How many goals are visible.
    pub fn visible_habits(&self) -> (r: usize)
        ensures
            r == visible_count(self.habits@),
            r <= self.habits@.len(),
    {
        let mut n: usize = 0;
        let mut i: usize = 0;
        while i < self.habits.len()
            invariant
                i <= self.habits@.len(),
                n == visible_count(self.habits@.take(i as int)),
                n <= i,
            decreases self.habits@.len() - i,
        {
            proof {
                assert(self.habits@.take(i + 1).drop_last() =~= self.habits@.take(i as int));
            }
            if self.habits[i].is_visible() {
                n = n + 1;
            }
            i = i + 1;
        }
        proof {
            assert(self.habits@.take(i as int) =~= self.habits@);
        }
        n
    }

    /// Moves the focus one step in direction `d` among the visible goals.
    pub fn set_focus(&mut self, d: Absolute)
        ensures
            final(self).focus == focus_after(old(self).focus as int, visible_count(old(self).habits@) as int, d),
            final(self).habits@ == old(self).habits@,
            final(self).cursor == old(self).cursor,
            final(self).message == old(self).message,
    {
        let v = self.visible_habits();
        if d == Absolute::Stay {
            return;
        }
        if v == 0 {
            self.focus = 0;
            return;
        }
        let f = self.focus;
        self.focus = match d {
            Absolute::Right => if f < v - 1 { f + 1 } else { v - 1 },
            Absolute::Left => if f == 0 { 0 } else if f - 1 < v { f - 1 } else { v - 1 },
            Absolute::Down => if f < v - 1 && v - 1 - f > GRID_WIDTH { f + GRID_WIDTH } else { v - 1 },
            Absolute::Up => if f >= GRID_WIDTH { if f - GRID_WIDTH < v { f - GRID_WIDTH } else { v - 1 } } else { 0 },
            Absolute::Stay => f,
        };
    }

    /// The sums of the goals' targets and of what they miss on day `d`.
    fn totals(&self, d: i32) -> (r: (u128, u128))
        ensures
            r.0 == total_goal(self.habits@),
            r.1 == total_remaining(self.habits@, d),
            r.1 <= r.0,
    {
        let mut goal: u128 = 0;
        let mut rem: u128 = 0;
        let mut i: usize = 0;
        while i < self.habits.len()
            invariant
                i <= self.habits@.len(),
                goal == total_goal(self.habits@.take(i as int)),
                rem == total_remaining(self.habits@.take(i as int), d),
                rem <= goal,
                goal <= i * 0xFFFF_FFFFu128,
            decreases self.habits@.len() - i,
        {
            proof {
                assert(self.habits@.take(i + 1).drop_last() =~= self.habits@.take(i as int));
            }
            let g = self.habits[i].goal();
            let r = self.habits[i].remaining(d);
            goal = goal + g as u128;
            rem = rem + r as u128;
            i = i + 1;
        }
        proof {
            assert(self.habits@.take(i as int) =~= self.habits@);
        }
        (goal, rem)
    }

    /// The status line on day `today`: how much of the targets is completed
    /// and remaining over all goals, how many goals are hidden, the focused
    /// goal's mode; and where the cursor stands.
    pub fn status_at(&self, today: i32) -> (r: StatusLine)
        ensures
            r.0@ == summary_text(self.habits@, self.focus as int, today),
            r.1@ == timestamp_text(self.cursor.day, today),
    {
        let (goal, rem) = self.totals(today);
        let hidden = self.habits.len() - self.visible_habits();
        let mut summary = unsigned_text(goal - rem);
        summary.append(" completed, ");
        summary.append(&unsigned_text(rem));
        summary.append(" remaining, ");
        summary.append(&unsigned_text(hidden as u128));
        summary.append(" hidden --");
        summary.append(self.get_mode().name());
        summary.append("--");
        let stamp = if self.cursor.day == today {
            match short_text(today) {
                Some(t) => t,
                None => String::new(),
            }
        } else {
            let since: i64 = today as i64 - self.cursor.day as i64;
            let mut t = match iso_text(self.cursor.day) {
                Some(t) => t,
                None => String::new(),
            };
            t.append(" (");
            t.append(&signed_text(since));
            t.append(" day");
            if since == 1 {
                t.append("");
            } else {
                t.append("s");
            }
            t.append(" ago)");
            t
        };
        StatusLine(summary, stamp)
    }

    /// The status line today.
    pub fn status(&self) -> (r: StatusLine)
        ensures
            exists|t: i32|
                r.0@ == summary_text(self.habits@, self.focus as int, t) && r.1@ == timestamp_text(
                    self.cursor.day,
                    t,
                ),
    {
        self.status_at(today())
    }

    /// Adds a new goal of kind `goal` (a count with target 0 when none is
    /// given) unless one called `name` exists, which is reported instead.
    pub fn add_goal(&mut self, name: &String, goal: Option<GoalKind>, auto: bool)
        ensures
            final(self).focus == old(self).focus,
            final(self).cursor == old(self).cursor,
            added(old(self).habits@, final(self).habits@, name@, match goal {
                Some(k) => k,
                None => GoalKind::Count(0),
            }, auto),
            has_goal(old(self).habits@, name@) ==> {
                &&& final(self).message.kind == MessageKind::Error
                &&& final(self).message.msg@ == quoted("Habit "@, name@, " already exist"@)
            },
            !has_goal(old(self).habits@, name@) ==> {
                &&& goal matches Some(GoalKind::Float(_, _)) ==> {
                    &&& final(self).message.kind == MessageKind::Info
                    &&& final(self).message.msg@ == "Added floating habit"@
                }
                &&& !(goal matches Some(GoalKind::Float(_, _))) ==> final(self).message == old(self).message
            },
    {
        if self.position(name).is_some() {
            self.message.set_kind(MessageKind::Error);
            self.message.set_message(quote("Habit ", name, " already exist"));
            return;
        }
        let k = match goal {
            Some(k) => k,
            None => GoalKind::Count(0),
        };
        if let GoalKind::Float(_, _) = k {
            self.message.set_kind(MessageKind::Info);
            self.message.set_message(String::from_str("Added floating habit"));
        }
        let ghost before = self.habits@;
        self.add_habit(Habit::create(name, k, auto));
        assert(self.habits@.drop_last() =~= before);
    }

    /// Applies tracking step `event` on day `today` to the first auto goal
    /// called `name`; goals that are not auto are never touched.
    pub fn track_on(&mut self, name: &String, event: TrackEvent, today: i32)
        ensures
            final(self).focus == old(self).focus,
            final(self).cursor == old(self).cursor,
            final(self).message == old(self).message,
            match first_auto_with(old(self).habits@, name@) {
                Some(i) => {
                    &&& only_at(old(self).habits@, final(self).habits@, i)
                    &&& final(self).habits@[i].is_step_of(old(self).habits@[i], today, event)
                },
                None => final(self).habits@ == old(self).habits@,
            },
    {
        let mut i: usize = 0;
        while i < self.habits.len()
            invariant
                i <= self.habits@.len(),
                self.habits@ == old(self).habits@,
                self.focus == old(self).focus,
                self.cursor == old(self).cursor,
                self.message == old(self).message,
                forall|j: int| 0 <= j < i ==> !(self.habits@[j].name_of() == name@ && self.habits@[j].auto_of()),
            decreases self.habits@.len() - i,
        {
            if self.habits[i].has_name(name) && self.habits[i].is_auto() {
                proof {
                    lemma_first_auto_with(self.habits@, name@, i as int);
                }
                self.habits[i].modify(today, event);
                return;
            }
            i = i + 1;
        }
    }

    /// `self` is `o` after command line `result` on day `t`, and `r` is what
    /// the caller is to do next.
    pub open spec fn command_outcome(self, o: App, result: Result<Command, CommandLineError>, t: i32, r: Effect) -> bool {
        &&& r == match result {
            Ok(Command::Write) => Effect::Save,
            Ok(Command::Quit) | Ok(Command::WriteAndQuit) => Effect::SaveAndQuit,
            _ => Effect::Nothing,
        }
        &&& match result {
            Ok(Command::Add(name, goal, auto)) => {
                &&& self.focus == o.focus
                &&& has_goal(o.habits@, name@) ==> {
                    &&& self.habits@ == o.habits@
                    &&& self.message.kind == MessageKind::Error
                    &&& self.message.msg@ == quoted("Habit "@, name@, " already exist"@)
                }
                &&& !has_goal(o.habits@, name@) ==> {
                    &&& self.habits@.drop_last() == o.habits@
                    &&& self.habits@.len() == o.habits@.len() + 1
                    &&& self.habits@.last().is_fresh(name@, match goal {
                        Some(k) => k,
                        None => GoalKind::Count(0),
                    }, auto)
                }
            },
            Ok(Command::Delete(name)) => {
                match first_with(o.habits@, name@) {
                    Some(i) => {
                        &&& self.habits@ == o.habits@.remove(i)
                        &&& self.focus == 0
                        &&& self.message == o.message
                    },
                    None => {
                        &&& self.habits@ == o.habits@
                        &&& self.focus == o.focus
                        &&& self.message.kind == MessageKind::Error
                    },
                }
            },
            Ok(Command::TrackUp(name)) => match first_auto_with(o.habits@, name@) {
                Some(i) => {
                    &&& only_at(o.habits@, self.habits@, i)
                    &&& self.habits@[i].is_step_of(o.habits@[i], t, TrackEvent::Increment)
                },
                None => self.habits@ == o.habits@,
            },
            Ok(Command::TrackDown(name)) => match first_auto_with(o.habits@, name@) {
                Some(i) => {
                    &&& only_at(o.habits@, self.habits@, i)
                    &&& self.habits@[i].is_step_of(o.habits@[i], t, TrackEvent::Decrement)
                },
                None => self.habits@ == o.habits@,
            },
            Ok(Command::Help(topic)) => {
                &&& self.habits@ == o.habits@
                &&& self.message.msg@ == match topic {
                    Some(t) => help_for(t@),
                    None => "help <command>|commands|keys"@,
                }
            },
            Ok(Command::MonthNext) => {
                &&& self.cursor.day == moved_day(CursorMove::MonthForward, o.cursor.day)
                &&& self.habits@.len() == o.habits@.len()
                &&& forall|j: int| 0 <= j < o.habits@.len() ==> #[trigger] self.habits@[j].is_moved(o.habits@[j], CursorMove::MonthForward)
            },
            Ok(Command::MonthPrev) => {
                &&& self.cursor.day == moved_day(CursorMove::MonthBackward, o.cursor.day)
                &&& self.habits@.len() == o.habits@.len()
                &&& forall|j: int| 0 <= j < o.habits@.len() ==> #[trigger] self.habits@[j].is_moved(o.habits@[j], CursorMove::MonthBackward)
            },
            Ok(Command::BackFill(name)) => {
                &&& name@ == "all"@ ==> {
                    &&& self.habits@.len() == o.habits@.len()
                    &&& forall|j: int| 0 <= j < o.habits@.len()
                        ==> #[trigger] self.habits@[j].is_backfill_of(o.habits@[j], t)
                }
                &&& name@ != "all"@ ==> match first_with(o.habits@, name@) {
                    Some(i) => {
                        &&& only_at(o.habits@, self.habits@, i)
                        &&& self.habits@[i].is_backfill_of(o.habits@[i], t)
                    },
                    None => self.habits@ == o.habits@ && self.message.kind == MessageKind::Error,
                }
            },
            Ok(Command::Rename(og, new)) => {
                &&& self.focus == o.focus
                &&& !has_goal(o.habits@, og@) || has_goal(o.habits@, new@) ==> {
                    &&& self.habits@ == o.habits@
                    &&& self.message.kind == MessageKind::Error
                }
                &&& has_goal(o.habits@, og@) && !has_goal(o.habits@, new@) ==> {
                    let i = first_with(o.habits@, og@)->Some_0;
                    &&& only_at(o.habits@, self.habits@, i)
                    &&& self.habits@[i].name_of() == new@
                    &&& self.habits@[i].same_records(o.habits@[i])
                    &&& self.message.kind == MessageKind::Info
                }
            },
            Ok(Command::Hide(name)) => match first_with(o.habits@, name@) {
                Some(i) => {
                    &&& only_at(o.habits@, self.habits@, i)
                    &&& self.habits@[i].same_but_inner(o.habits@[i])
                    &&& !self.habits@[i].visible_of()
                },
                None => self.habits@ == o.habits@ && self.message.kind == MessageKind::Error,
            },
            Ok(Command::Unhide(name)) => match first_with(o.habits@, name@) {
                Some(i) => {
                    &&& only_at(o.habits@, self.habits@, i)
                    &&& self.habits@[i].same_but_inner(o.habits@[i])
                    &&& self.habits@[i].visible_of()
                },
                None => self.habits@ == o.habits@ && self.message.kind == MessageKind::Error,
            },
            Ok(_) => {
                &&& self.habits@ == o.habits@
                &&& self.focus == o.focus
                &&& self.cursor == o.cursor
                &&& self.message == o.message
            },
            Err(e) => {
                &&& self.habits@ == o.habits@
                &&& self.focus == o.focus
                &&& self.cursor == o.cursor
                &&& self.message.kind == MessageKind::Error
                &&& self.message.msg@ == e.text()
            },
        }
    }

    /// Applies a parsed command, or reports the parser's error, on day
    /// `today`; says whether the caller is to save (and quit).
    pub fn parse_command_on(&mut self, result: Result<Command, CommandLineError>, today: i32) -> (r: Effect)
        ensures
            final(self).command_outcome(*old(self), result, today, r),
    {
        match result {
            Ok(c) => match c {
                Command::Add(name, goal, auto) => {
                    self.add_goal(&name, goal, auto);
                    Effect::Nothing
                },
                Command::Delete(name) => {
                    self.delete_by_name(&name);
                    Effect::Nothing
                },
                Command::TrackUp(name) => {
                    self.track_on(&name, TrackEvent::Increment, today);
                    Effect::Nothing
                },
                Command::TrackDown(name) => {
                    self.track_on(&name, TrackEvent::Decrement, today);
                    Effect::Nothing
                },
                Command::Help(topic) => {
                    match topic {
                        Some(t) => self.message.set_message(String::from_str(help_text(&t))),
                        None => self.message.set_message(String::from_str("help <command>|commands|keys")),
                    }
                    Effect::Nothing
                },
                Command::Write => Effect::Save,
                Command::Quit | Command::WriteAndQuit => Effect::SaveAndQuit,
                Command::MonthNext => {
                    self.sift_forward();
                    Effect::Nothing
                },
                Command::MonthPrev => {
                    self.sift_backward();
                    Effect::Nothing
                },
                Command::Blank => Effect::Nothing,
                Command::BackFill(name) => {
                    self.backfill_by_name_until(&name, today);
                    Effect::Nothing
                },
                Command::Rename(og, new) => {
                    self.rename_by_name(&og, &new);
                    Effect::Nothing
                },
                Command::Hide(name) => {
                    self.hide_by_name(&name);
                    Effect::Nothing
                },
                Command::Unhide(name) => {
                    self.unhide_by_name(&name);
                    Effect::Nothing
                },
            },
            Err(e) => {
                self.message.set_message(e.message());
                self.message.set_kind(MessageKind::Error);
                Effect::Nothing
            },
        }
    }

    /// `parse_command_on` today.
    pub fn parse_command(&mut self, result: Result<Command, CommandLineError>) -> (r: Effect)
        ensures
            exists|t: i32| final(self).command_outcome(*old(self), result, t, r),
    {
        let t = today();
        self.parse_command_on(result, t)
    }

    /// The positions of the manual goals and of the auto goals, each in
    /// order: the two stores that the collection is saved to.
    pub fn provenance_split(&self) -> (r: (Vec<usize>, Vec<usize>))
        ensures
            forall|k: int| 0 <= k < r.0@.len() ==> r.0@[k] < self.habits@.len(),
            forall|k: int| 0 <= k < r.1@.len() ==> r.1@[k] < self.habits@.len(),
            r.0@.map_values(|i: usize| self.habits@[i as int]) == with_provenance(self.habits@, false),
            r.1@.map_values(|i: usize| self.habits@[i as int]) == with_provenance(self.habits@, true),
    {
        let ghost s = self.habits@;
        let mut manual: Vec<usize> = Vec::new();
        let mut auto: Vec<usize> = Vec::new();
        let mut i: usize = 0;
        while i < self.habits.len()
            invariant
                s == self.habits@,
                i <= s.len(),
                forall|k: int| 0 <= k < manual@.len() ==> manual@[k] < i,
                forall|k: int| 0 <= k < auto@.len() ==> auto@[k] < i,
                manual@.map_values(|j: usize| s[j as int]) == with_provenance(s.take(i as int), false),
                auto@.map_values(|j: usize| s[j as int]) == with_provenance(s.take(i as int), true),
            decreases s.len() - i,
        {
            proof {
                assert(s.take(i + 1).drop_last() =~= s.take(i as int));
                assert(s.take(i + 1).last() == s[i as int]);
                assert(s.take(i + 1) =~= s.take(i as int).push(s[i as int]));
                s.take(i as int).lemma_filter_push(s[i as int], provenance_is(true));
                s.take(i as int).lemma_filter_push(s[i as int], provenance_is(false));
                assert(with_provenance(s.take(i + 1), true) == if s[i as int].auto_of() {
                    with_provenance(s.take(i as int), true).push(s[i as int])
                } else {
                    with_provenance(s.take(i as int), true)
                });
                assert(with_provenance(s.take(i + 1), false) == if !s[i as int].auto_of() {
                    with_provenance(s.take(i as int), false).push(s[i as int])
                } else {
                    with_provenance(s.take(i as int), false)
                });
            }
            let ghost m0 = manual@;
            let ghost a0 = auto@;
            if self.habits[i].is_auto() {
                auto.push(i);
                proof {
                    assert(auto@.map_values(|j: usize| s[j as int]) =~= a0.map_values(|j: usize| s[j as int]).push(s[i as int]));
                }
            } else {
                manual.push(i);
                proof {
                    assert(manual@.map_values(|j: usize| s[j as int]) =~= m0.map_values(|j: usize| s[j as int]).push(s[i as int]));
                }
            }
            i = i + 1;
        }
        proof {
            assert(s.take(i as int) =~= s);
        }
        (manual, auto)
    }

    /// The state rebuilt from the two stores: the manual goals, then the
    /// auto goals.
    pub fn from_stores(manual: Vec<Habit>, auto: Vec<Habit>) -> (r: App)
        ensures
            r.habits@ == manual@ + auto@,
            r.focus == 0,
            r.message.kind == MessageKind::Hint,
    {
        let mut habits = manual;
        let mut auto = auto;
        habits.append(&mut auto);
        App { habits, focus: 0, cursor: Cursor::new(), message: Message::startup() }
    }

    /// Replaces every auto goal by the goals of a freshly read auto store:
    /// the manual goals stay, in order, and the new auto goals follow them.
    pub fn reload_auto(&mut self, auto: Vec<Habit>)
        ensures
            final(self).habits@ == with_provenance(old(self).habits@, false) + auto@,
            final(self).focus == old(self).focus,
            final(self).cursor == old(self).cursor,
            final(self).message == old(self).message,
    {
        let ghost s = self.habits@;
        let mut i: usize = 0;
        let ghost mut k: int = 0;
        while i < self.habits.len()
            invariant
                0 <= k <= s.len(),
                i as int == with_provenance(s.take(k), false).len(),
                self.habits@ == with_provenance(s.take(k), false) + s.skip(k),
                self.focus == old(self).focus,
                self.cursor == old(self).cursor,
                self.message == old(self).message,
            decreases self.habits@.len() - i,
        {
            proof {
                assert(s.take(k + 1) =~= s.take(k).push(s[k]));
                s.take(k).lemma_filter_push(s[k], provenance_is(false));
                assert(s.skip(k)[0] == s[k]);
                assert(s.skip(k).drop_first() =~= s.skip(k + 1));
                assert(self.habits@[i as int] == s[k]);
            }
            let ghost f = with_provenance(s.take(k), false);
            if self.habits[i].is_auto() {
                self.habits.remove(i);
                proof {
                    assert(with_provenance(s.take(k + 1), false) == f);
                    assert(self.habits@ =~= f + s.skip(k + 1));
                }
            } else {
                proof {
                    assert(with_provenance(s.take(k + 1), false) == f.push(s[k]));
                    assert(self.habits@ =~= f.push(s[k]) + s.skip(k + 1));
                }
                i = i + 1;
            }
            proof {
                k = k + 1;
            }
        }
        proof {
            assert(k == s.len()) by {
                if k < s.len() {
                    assert(self.habits@.len() > i);
                }
            }
            assert(s.take(k) =~= s);
            assert(self.habits@ =~= with_provenance(s, false));
        }
        let mut auto = auto;
        self.habits.append(&mut auto);
    }

    /// The size that the grid of all goals takes: a row of `GRID_WIDTH`
    /// views across, as many rows as the goals fill, and two lines below
    /// (held at the largest `usize`).
    pub fn max_size(&self) -> (r: (usize, usize))
        ensures
            r.0 == GRID_WIDTH * VIEW_WIDTH,
            ({
                let rows = (self.habits@.len() + GRID_WIDTH - 1) / (GRID_WIDTH as int);
                r.1 == if VIEW_HEIGHT * rows + 2 <= usize::MAX { VIEW_HEIGHT * rows + 2 } else { usize::MAX as int }
            }),
    {
        let n = self.habits.len();
        let rows: usize = n / GRID_WIDTH + if n % GRID_WIDTH > 0 { 1 } else { 0 };
        assert(rows == (n + GRID_WIDTH - 1) / (GRID_WIDTH as int));
        let height = if rows <= (usize::MAX - 2) / VIEW_HEIGHT {
            VIEW_HEIGHT * rows + 2
        } else {
            usize::MAX
        };
        (GRID_WIDTH * VIEW_WIDTH, height)
    }
}

} // verus!