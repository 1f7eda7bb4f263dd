//! Block lists as the shell reads them: whether a lock on some list keeps
//! the app from quitting, which list the refusal names, and which
//! application rules need an icon.

use vstd::prelude::*;
use vstd::string::StringExecFns;
use crate::remaining::{format_remaining, remaining_text};

verus! {

/// A Focus Lock on a block list. Times are Unix timestamps in seconds.
pub struct Protection {
    pub prevent_uninstall: bool,
    pub prevent_service_stop: bool,
    pub prevent_modification: bool,
    pub started_at: i64,
    pub expires_at: i64,
}

/// How an application rule recognises a program.
pub enum AppMatchType {
    ExecutableName(String),
    ExecutablePath(String),
    WindowTitle(String),
    BundleId(String),
}

/// One application rule of a block list.
pub struct AppRule {
    pub match_type: AppMatchType,
}

/// A block list, with what the shell reads of it.
pub struct BlockList {
    pub name: String,
    pub enabled: bool,
    pub applications: Vec<AppRule>,
    pub protection: Option<Protection>,
}

impl Protection {
    /// The lock is still running at `now`.
    pub open spec fn active_at(self, now: int) -> bool {
        now < self.expires_at
    }

    /// Seconds until the lock runs out, zero once it has.
    pub open spec fn remaining_at(self, now: int) -> nat {
        if now < self.expires_at {
            (self.expires_at - now) as nat
        } else {
            0
        }
    }

    /// Whether the lock is still running at `now`.
    pub fn is_active(&self, now: i64) -> (res: bool)
        ensures
            res == self.active_at(now as int),
    {
        now < self.expires_at
    }

    /// Seconds left on the lock at `now`; zero once it has run out.
    pub fn remaining_seconds(&self, now: i64) -> (res: u64)
        ensures
            res == self.remaining_at(now as int),
    {
        if now < self.expires_at {
            let diff: i128 = self.expires_at as i128 - now as i128;
            diff as u64
        } else {
            0
        }
    }
}

impl BlockList {
    /// An enabled list with the given name, no rules and no lock.
    pub fn new(name: &str) -> (res: BlockList)
        ensures
            res.name@ == name@,
            res.enabled,
            res.applications@.len() == 0,
            res.protection is None,
    {
        BlockList {
            name: String::from_str(name),
            enabled: true,
            applications: Vec::new(),
            protection: None,
        }
    }

    /// The list is enabled and carries a running lock that asked to keep
    /// Focuser from being stopped.
    pub open spec fn holds_app_at(self, now: int) -> bool {
        &&& self.enabled
        &&& self.protection is Some
        &&& self.protection->0.prevent_service_stop
        &&& self.protection->0.active_at(now)
    }

    /// Seconds left on the list's lock; zero without one.
    pub open spec fn lock_left(self, now: int) -> nat {
        match self.protection {
            Some(p) => p.remaining_at(now),
            None => 0,
        }
    }

    /// Whether, at `now`, this list keeps Focuser from being stopped.
    pub fn has_service_protection(&self, now: i64) -> (res: bool)
        ensures
            res == self.holds_app_at(now as int),
    {
        if !self.enabled {
            return false;
        }
        match &self.protection {
            Some(p) => p.prevent_service_stop && p.is_active(now),
            None => false,
        }
    }
}

/// List `i` is the one a refusal names: it holds the app, no list that holds
/// the app has more time left, and every later one has less (among equals
/// the last wins).
pub open spec fn is_longest_lock(lists: Seq<BlockList>, now: int, i: int) -> bool {
    &&& 0 <= i < lists.len()
    &&& lists[i].holds_app_at(now)
    &&& forall|j: int|
        0 <= j < lists.len() && #[trigger] lists[j].holds_app_at(now) ==> {
            &&& lists[j].lock_left(now) <= lists[i].lock_left(now)
            &&& (j > i ==> lists[j].lock_left(now) < lists[i].lock_left(now))
        }
}

/// The refusal text for a list: its name, a dash, and the time left.
pub open spec fn reason_text(list: BlockList, now: int) -> Seq<char> {
    list.name@ + " — "@ + remaining_text(list.lock_left(now)) + " left"@
}

/// Why quitting is refused at `now`, if it is.
pub open spec fn quit_reason(lists: Seq<BlockList>, now: int) -> Option<Seq<char>> {
    if exists|i: int| is_longest_lock(lists, now, i) {
        Some(reason_text(lists[choose|i: int| is_longest_lock(lists, now, i)], now))
    } else {
        None
    }
}

/// At most one list is the longest lock.
pub proof fn lemma_longest_lock_unique(lists: Seq<BlockList>, now: int, i: int, j: int)
    requires
        is_longest_lock(lists, now, i),
        is_longest_lock(lists, now, j),
    ensures
        i == j,
{
    if i < j {
        assert(lists[j].holds_app_at(now));
        assert(lists[i].holds_app_at(now));
    } else if j < i {
        assert(lists[j].holds_app_at(now));
        assert(lists[i].holds_app_at(now));
    }
}

/// A list that does not hold the app (disabled, unlocked, with an expired
/// lock, or with a lock that lets Focuser be stopped) has no bearing on
/// whether quitting is refused or on what the refusal says.
pub proof fn non_holding_list_changes_nothing(lists: Seq<BlockList>, now: int, k: int)
    requires
        0 <= k < lists.len(),
        !lists[k].holds_app_at(now),
    ensures
        quit_reason(lists.remove(k), now) == quit_reason(lists, now),
{
    let r = lists.remove(k);
    assert forall|i: int| 0 <= i < r.len() implies
        #[trigger] is_longest_lock(r, now, i) == is_longest_lock(lists, now, if i < k { i } else { i + 1 })
    by {
        let fi = if i < k { i } else { i + 1 };
        assert(r[i] == lists[fi]);
        if is_longest_lock(r, now, i) {
            assert forall|j: int| 0 <= j < lists.len() && #[trigger] lists[j].holds_app_at(now) implies {
                &&& lists[j].lock_left(now) <= lists[fi].lock_left(now)
                &&& (j > fi ==> lists[j].lock_left(now) < lists[fi].lock_left(now))
            } by {
                let gj = if j < k { j } else { j - 1 };
                assert(j != k);
                assert(r[gj] == lists[j]);
                assert(r[gj].holds_app_at(now));
            }
        }
        if is_longest_lock(lists, now, fi) {
            assert forall|j: int| 0 <= j < r.len() && #[trigger] r[j].holds_app_at(now) implies {
                &&& r[j].lock_left(now) <= r[i].lock_left(now)
                &&& (j > i ==> r[j].lock_left(now) < r[i].lock_left(now))
            } by {
                let fj = if j < k { j } else { j + 1 };
                assert(r[j] == lists[fj]);
                assert(lists[fj].holds_app_at(now));
            }
        }
    }
    if exists|i: int| is_longest_lock(lists, now, i) {
        let c = choose|i: int| is_longest_lock(lists, now, i);
        assert(c != k);
        let gc = if c < k { c } else { c - 1 };
        assert(is_longest_lock(r, now, gc));
        let d = choose|i: int| is_longest_lock(r, now, i);
        lemma_longest_lock_unique(r, now, d, gc);
        assert(r[gc] == lists[c]);
    } else if exists|i: int| is_longest_lock(r, now, i) {
        let d = choose|i: int| is_longest_lock(r, now, i);
        assert(is_longest_lock(lists, now, if d < k { d } else { d + 1 }));
    }
}

/// A list keeps Focuser from being stopped exactly when it is enabled and
/// carries a lock that asked for that and has not yet expired.
pub proof fn holding_needs_a_running_stop_lock(list: BlockList, now: int)
    ensures
        list.holds_app_at(now) <==> {
            &&& list.enabled
            &&& list.protection is Some
            &&& list.protection->0.prevent_service_stop
            &&& now < list.protection->0.expires_at
        },
{
}

/// Whether a list holds the app depends on nothing but whether it is
/// enabled, whether its lock prevents stopping, and when the lock expires:
/// not on the lock's other flags, its start, the list's name or its rules.
pub proof fn other_lock_flags_do_not_hold_the_app(a: BlockList, b: BlockList, now: int)
    requires
        a.enabled == b.enabled,
        (a.protection is Some) == (b.protection is Some),
        a.protection is Some ==> {
            &&& a.protection->0.prevent_service_stop == b.protection->0.prevent_service_stop
            &&& a.protection->0.expires_at == b.protection->0.expires_at
        },
    ensures
        a.holds_app_at(now) == b.holds_app_at(now),
{
}

/// While a list holds the app, its time left is the time to its lock's
/// expiry, and some time is left.
pub proof fn time_left_counts_to_expiry(list: BlockList, now: int)
    requires
        list.holds_app_at(now),
    ensures
        list.lock_left(now) == list.protection->0.expires_at - now,
        list.lock_left(now) > 0,
{
}

/// Some list that holds the app has the most time left, the last of them
/// among equals.
proof fn lemma_find_longest(lists: Seq<BlockList>, now: int) -> (i: int)
    requires
        exists|j: int| 0 <= j < lists.len() && #[trigger] lists[j].holds_app_at(now),
    ensures
        is_longest_lock(lists, now, i),
    decreases lists.len(),
{
    let n = lists.len() as int;
    let pre = lists.drop_last();
    let last = lists[n - 1];
    if exists|j: int| 0 <= j < pre.len() && #[trigger] pre[j].holds_app_at(now) {
        let b = lemma_find_longest(pre, now);
        assert(pre[b] == lists[b]);
        if last.holds_app_at(now) && last.lock_left(now) >= lists[b].lock_left(now) {
            assert forall|j: int| 0 <= j < n && #[trigger] lists[j].holds_app_at(now) implies {
                &&& lists[j].lock_left(now) <= lists[n - 1].lock_left(now)
                &&& (j > n - 1 ==> lists[j].lock_left(now) < lists[n - 1].lock_left(now))
            } by {
                if j < n - 1 {
                    assert(pre[j] == lists[j]);
                    assert(pre[j].holds_app_at(now));
                }
            }
            n - 1
        } else {
            assert forall|j: int| 0 <= j < n && #[trigger] lists[j].holds_app_at(now) implies {
                &&& lists[j].lock_left(now) <= lists[b].lock_left(now)
                &&& (j > b ==> lists[j].lock_left(now) < lists[b].lock_left(now))
            } by {
                if j < n - 1 {
                    assert(pre[j] == lists[j]);
                    assert(pre[j].holds_app_at(now));
                }
            }
            b
        }
    } else {
        let w = choose|j: int| 0 <= j < lists.len() && #[trigger] lists[j].holds_app_at(now);
        if w < n - 1 {
            assert(pre[w] == lists[w]);
            assert(pre[w].holds_app_at(now));
        }
        assert forall|j: int| 0 <= j < n && #[trigger] lists[j].holds_app_at(now) implies {
            &&& lists[j].lock_left(now) <= lists[n - 1].lock_left(now)
            &&& (j > n - 1 ==> lists[j].lock_left(now) < lists[n - 1].lock_left(now))
        } by {
            if j < n - 1 {
                assert(pre[j] == lists[j]);
                assert(pre[j].holds_app_at(now));
            }
        }
        n - 1
    }
}

/// Quitting is refused exactly when some list holds the app, and then the
/// refusal names such a list, says how long until its lock expires, and no
/// list that holds the app has a lock that expires later.
pub proof fn refusal_names_the_longest_running_lock(lists: Seq<BlockList>, now: int)
    ensures
        quit_reason(lists, now) is None <==> forall|j: int|
            0 <= j < lists.len() ==> !(#[trigger] lists[j]).holds_app_at(now),
        quit_reason(lists, now) matches Some(t) ==> exists|i: int|
            {
                &&& 0 <= i < lists.len()
                &&& #[trigger] lists[i].holds_app_at(now)
                &&& t == lists[i].name@ + " — "@ + remaining_text(
                    (lists[i].protection->0.expires_at - now) as nat,
                ) + " left"@
                &&& forall|j: int|
                    0 <= j < lists.len() && #[trigger] lists[j].holds_app_at(now)
                        ==> lists[j].protection->0.expires_at <= lists[i].protection->0.expires_at
            },
{
    if exists|j: int| 0 <= j < lists.len() && #[trigger] lists[j].holds_app_at(now) {
        let b = lemma_find_longest(lists, now);
        let c = choose|i: int| is_longest_lock(lists, now, i);
        lemma_longest_lock_unique(lists, now, c, b);
        assert forall|j: int| 0 <= j < lists.len() && #[trigger] lists[j].holds_app_at(now)
            implies lists[j].protection->0.expires_at <= lists[b].protection->0.expires_at by {
            assert(lists[j].lock_left(now) <= lists[b].lock_left(now));
        }
        assert(lists[b].holds_app_at(now));
    } else {
        if exists|i: int| is_longest_lock(lists, now, i) {
            let c = choose|i: int| is_longest_lock(lists, now, i);
            assert(lists[c].holds_app_at(now));
        }
    }
}

/// The characters of an optional message.
pub open spec fn text_of(msg: Option<String>) -> Option<Seq<char>> {
    match msg {
        Some(s) => Some(s@),
        None => None,
    }
}

/// std's wall-clock time type.
#[verifier::external_type_specification]
#[verifier::external_body]
pub struct ExSystemTime(std::time::SystemTime);

/// The wall clock (`SystemTime::now`). Nothing is stated of the value: it
/// is whatever the system clock reads.
#[verifier::external_body]
fn system_now() -> std::time::SystemTime {
    std::time::SystemTime::now()
}

/// Whole seconds between the Unix epoch and `t`
/// (`SystemTime::duration_since(UNIX_EPOCH)`): `Ok` with the seconds after
/// the epoch, `Err` with the seconds before it. Nothing is stated of the
/// numbers, as `t` is opaque here.
#[verifier::external_body]
fn seconds_from_epoch(t: &std::time::SystemTime) -> Result<u64, u64> {
    match t.duration_since(std::time::UNIX_EPOCH) {
        Ok(d) => Ok(d.as_secs()),
        Err(e) => Err(e.duration().as_secs()),
    }
}

/// A clock reading as a Unix timestamp: seconds after the epoch, or minus
/// the seconds before it, held within `i64`'s range.
pub open spec fn unix_seconds_of(since_epoch: Result<u64, u64>) -> int {
    match since_epoch {
        Ok(s) => if s <= i64::MAX { s as int } else { i64::MAX as int },
        Err(s) => if s <= i64::MAX { -(s as int) } else { -(i64::MAX as int) },
    }
}

/// Turns seconds from the epoch into a Unix timestamp.
pub fn unix_seconds(since_epoch: Result<u64, u64>) -> (res: i64)
    ensures
        res == unix_seconds_of(since_epoch),
{
    match since_epoch {
        Ok(s) => if s <= 9223372036854775807u64 { s as i64 } else { i64::MAX },
        Err(s) => if s <= 9223372036854775807u64 { -(s as i64) } else { -i64::MAX },
    }
}

/// The current time as a Unix timestamp, read from the system clock.
pub fn unix_now() -> i64 {
    let t = system_now();
    unix_seconds(seconds_from_epoch(&t))
}

/// Why quitting is refused right now, read against the system clock: the
/// answer of `quit_blocked_by_at` for the time the clock gave.
pub fn quit_blocked_by(lists: &Vec<BlockList>) -> (res: Option<String>)
    ensures
        exists|now: i64| {
            &&& (res is None <==> (forall|i: int| 0 <= i < lists@.len() ==> !(#[trigger] lists@[i]).holds_app_at(now as int)))
            &&& text_of(res) == #[trigger] quit_reason(lists@, now as int)
        },
{
    let now = unix_now();
    quit_blocked_by_at(lists, now)
}

/// The message that explains why quitting is refused at `now`: the name of
/// the locked list that runs longest and how long it has left, or `None`
/// when no enabled list holds a running lock that prevents stopping.
pub fn quit_blocked_by_at(lists: &Vec<BlockList>, now: i64) -> (res: Option<String>)
    ensures
        res is None <==> (forall|i: int| 0 <= i < lists@.len() ==> !(#[trigger] lists@[i]).holds_app_at(now as int)),
        text_of(res) == quit_reason(lists@, now as int),
{
    let ghost t = now as int;
    let n = lists.len();
    let mut best: Option<usize> = None;
    let mut best_key: u64 = 0;
    let mut k: usize = 0;
    while k < n
        invariant
            n == lists@.len(),
            t == now as int,
            k <= n,
            best is None <==> (forall|i: int| 0 <= i < k ==> !(#[trigger] lists@[i]).holds_app_at(t)),
            best matches Some(b) ==> {
                &&& b < k
                &&& lists@[b as int].holds_app_at(t)
                &&& best_key == lists@[b as int].lock_left(t)
                &&& forall|j: int|
                    0 <= j < k && #[trigger] lists@[j].holds_app_at(t) ==> {
                        &&& lists@[j].lock_left(t) <= lists@[b as int].lock_left(t)
                        &&& (j > b ==> lists@[j].lock_left(t) < lists@[b as int].lock_left(t))
                    }
            },
        decreases n - k,
    {
        let l = &lists[k];
        let holds = l.has_service_protection(now);
        let key: u64 = match &l.protection {
            Some(p) => p.remaining_seconds(now),
            None => 0,
        };
        if holds {
            match best {
                None => {
                    best = Some(k);
                    best_key = key;
                },
                Some(_) => {
                    if key >= best_key {
                        best = Some(k);
                        best_key = key;
                    }
                },
            }
        }
        k = k + 1;
    }
    match best {
        None => {
            proof {
                if exists|i: int| is_longest_lock(lists@, t, i) {
                    let i = choose|i: int| is_longest_lock(lists@, t, i);
                    assert(lists@[i].holds_app_at(t));
                }
            }
            None
        },
        Some(b) => {
            let l = &lists[b];
            let secs: u64 = match &l.protection {
                Some(p) => p.remaining_seconds(now),
                None => 0,
            };
            let mut s = l.name.clone();
            s.append(" — ");
            let r = format_remaining(secs);
            s.append(r.as_str());
            s.append(" left");
            proof {
                assert(is_longest_lock(lists@, t, b as int));
                let c = choose|i: int| is_longest_lock(lists@, t, i);
                lemma_longest_lock_unique(lists@, t, c, b as int);
            }
            Some(s)
        },
    }
}

/// The text an application rule matches on, whatever its kind.
pub open spec fn match_value(m: AppMatchType) -> Seq<char> {
    match m {
        AppMatchType::ExecutableName(v) => v@,
        AppMatchType::ExecutablePath(v) => v@,
        AppMatchType::WindowTitle(v) => v@,
        AppMatchType::BundleId(v) => v@,
    }
}

/// The match texts of a run of rules, in order.
pub open spec fn rule_values(rules: Seq<AppRule>) -> Seq<Seq<char>> {
    rules.map_values(|r: AppRule| match_value(r.match_type))
}

/// The match texts of every application rule of every list, list by list
/// and rule by rule.
pub open spec fn icon_targets(lists: Seq<BlockList>) -> Seq<Seq<char>>
    decreases lists.len(),
{
    if lists.len() == 0 {
        Seq::empty()
    } else {
        icon_targets(lists.drop_last()) + rule_values(lists.last().applications@)
    }
}

/// The characters of each string of a vector.
pub open spec fn texts_of(v: Seq<String>) -> Seq<Seq<char>> {
    v.map_values(|s: String| s@)
}

/// The text that identifies the program a rule blocks.
pub fn rule_target(m: &AppMatchType) -> (res: String)
    ensures
        res@ == match_value(*m),
{
    match m {
        AppMatchType::ExecutableName(v) => v.clone(),
        AppMatchType::ExecutablePath(v) => v.clone(),
        AppMatchType::WindowTitle(v) => v.clone(),
        AppMatchType::BundleId(v) => v.clone(),
    }
}

/// The programs whose icons are worth loading ahead of time: the match text
/// of every application rule of every list, in order.
pub fn app_icon_targets(lists: &Vec<BlockList>) -> (res: Vec<String>)
    ensures
        texts_of(res@) == icon_targets(lists@),
{
    let mut res: Vec<String> = Vec::new();
    let n = lists.len();
    let mut i: usize = 0;
    while i < n
        invariant
            n == lists@.len(),
            i <= n,
            texts_of(res@) == icon_targets(lists@.take(i as int)),
        decreases n - i,
    {
        let rules = &lists[i].applications;
        let m = rules.len();
        let mut j: usize = 0;
        while j < m
            invariant
                n == lists@.len(),
                i < n,
                m == rules@.len(),
                *rules == lists@[i as int].applications,
                j <= m,
                texts_of(res@) == icon_targets(lists@.take(i as int)) + rule_values(rules@.take(j as int)),
            decreases m - j,
        {
            let t = rule_target(&rules[j].match_type);
            let ghost before = res@;
            res.push(t);
            proof {
                assert(rules@.take(j + 1) =~= rules@.take(j as int).push(rules@[j as int]));
                assert(rule_values(rules@.take(j + 1)) =~= rule_values(rules@.take(j as int)).push(match_value(rules@[j as int].match_type)));
                assert(texts_of(res@) =~= texts_of(before).push(t@));
            }
            j = j + 1;
        }
        proof {
            assert(rules@.take(m as int) =~= rules@);
            assert(lists@.take(i + 1).drop_last() =~= lists@.take(i as int));
            assert(lists@.take(i + 1).last() == lists@[i as int]);
        }
        i = i + 1;
    }
    proof {
        assert(lists@.take(n as int) =~= lists@);
    }
    res
}

} // verus!
