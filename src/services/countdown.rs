//! Countdowns to departures, and the bounded, sorted lists that hold them.

use crate::text::{decimal, decimal_string, join, joined, views};
use vstd::prelude::*;

verus! {

/// Milliseconds in a minute.
pub const MILLIS_PER_MINUTE: i128 = 60_000;

/// Whole minutes from `now` until `departure` (both in milliseconds since the
/// Unix epoch), rounded down.
pub open spec fn minutes_until(departure: int, now: int) -> int {
    (departure - now) / (MILLIS_PER_MINUTE as int)
}

/// `x` inserted into `s` before the first element greater than it.
pub open spec fn insert_sorted(s: Seq<int>, x: int) -> Seq<int>
    decreases s.len(),
{
    if s.len() == 0 {
        seq![x]
    } else if x < s[0] {
        seq![x] + s
    } else {
        seq![s[0]] + insert_sorted(s.drop_first(), x)
    }
}

/// `s` sorted ascending (by insertion, so that equal values keep their order).
pub open spec fn sorted_ascending(s: Seq<int>) -> Seq<int>
    decreases s.len(),
{
    if s.len() == 0 {
        s
    } else {
        insert_sorted(sorted_ascending(s.drop_last()), s.last())
    }
}

/// The first `k` elements of `s`, or all of them when there are fewer.
pub open spec fn prefix(s: Seq<int>, k: int) -> Seq<int> {
    if k < s.len() {
        s.take(k)
    } else {
        s
    }
}

pub open spec fn is_sorted(s: Seq<int>) -> bool {
    forall|i: int, j: int| 0 <= i <= j < s.len() ==> s[i] <= s[j]
}

/// Inserting at the first position whose element exceeds `x`.
proof fn lemma_insert_sorted_at(s: Seq<int>, x: int, p: int)
    requires
        0 <= p <= s.len(),
        forall|k: int| 0 <= k < p ==> s[k] <= x,
        p < s.len() ==> x < s[p],
    ensures
        insert_sorted(s, x) == s.insert(p, x),
    decreases s.len(),
{
    if s.len() > 0 && p > 0 {
        lemma_insert_sorted_at(s.drop_first(), x, p - 1);
        assert(insert_sorted(s, x) =~= s.insert(p, x));
    } else if s.len() > 0 {
        assert(insert_sorted(s, x) =~= s.insert(p, x));
    } else {
        assert(insert_sorted(s, x) =~= s.insert(p, x));
    }
}

/// Only the first `k` elements decide the first `k` elements after an insertion.
pub proof fn lemma_insert_sorted_prefix(s: Seq<int>, x: int, k: int)
    requires
        0 <= k,
    ensures
        prefix(insert_sorted(s, x), k) == prefix(insert_sorted(prefix(s, k), x), k),
    decreases s.len(),
{
    lemma_insert_sorted_len(s, x);
    lemma_insert_sorted_len(prefix(s, k), x);
    if k == 0 {
        assert(prefix(insert_sorted(s, x), k) =~= prefix(insert_sorted(prefix(s, k), x), k));
    } else if s.len() <= k {
    } else if x < s[0] {
        assert(prefix(s, k)[0] == s[0]);
        assert(prefix(insert_sorted(s, x), k) =~= prefix(insert_sorted(prefix(s, k), x), k));
    } else {
        lemma_insert_sorted_prefix(s.drop_first(), x, k - 1);
        assert(prefix(s, k).drop_first() =~= prefix(s.drop_first(), k - 1));
        assert(prefix(s, k)[0] == s[0]);
        let rest = s.drop_first();
        lemma_insert_sorted_len(rest, x);
        lemma_insert_sorted_len(prefix(rest, k - 1), x);
        let a = insert_sorted(rest, x);
        let b = insert_sorted(prefix(rest, k - 1), x);
        assert(insert_sorted(s, x) == seq![s[0]] + a);
        assert(insert_sorted(prefix(s, k), x) == seq![s[0]] + b);
        assert(prefix(insert_sorted(s, x), k) =~= seq![s[0]] + prefix(a, k - 1));
        assert(prefix(insert_sorted(prefix(s, k), x), k) =~= seq![s[0]] + prefix(b, k - 1));
    }
}

proof fn lemma_insert_sorted_len(s: Seq<int>, x: int)
    ensures
        insert_sorted(s, x).len() == s.len() + 1,
    decreases s.len(),
{
    if s.len() > 0 {
        lemma_insert_sorted_len(s.drop_first(), x);
    }
}

/// Insertion keeps a sorted sequence sorted and adds exactly the inserted
/// value.
proof fn lemma_insert_sorted_sorted(s: Seq<int>, x: int)
    requires
        is_sorted(s),
    ensures
        is_sorted(insert_sorted(s, x)),
        insert_sorted(s, x).to_multiset() =~= s.to_multiset().insert(x),
    decreases s.len(),
{
    broadcast use vstd::seq_lib::group_to_multiset_ensures, vstd::seq_lib::lemma_multiset_commutative;

    let r = insert_sorted(s, x);
    if s.len() == 0 {
        assert(r =~= Seq::<int>::empty().push(x));
    } else if x < s[0] {
        assert(r == seq![x] + s);
        assert(seq![x] =~= Seq::<int>::empty().push(x));
        assert forall|i: int, j: int| 0 <= i <= j < r.len() implies r[i] <= r[j] by {
            if i > 0 {
                assert(r[i] == s[i - 1] && r[j] == s[j - 1]);
            } else if j > 0 {
                assert(r[j] == s[j - 1]);
            }
        }
    } else {
        let rest = s.drop_first();
        lemma_insert_sorted_sorted(rest, x);
        let t = insert_sorted(rest, x);
        assert(r == seq![s[0]] + t);
        assert(s =~= seq![s[0]] + rest);
        assert(seq![s[0]] =~= Seq::<int>::empty().push(s[0]));
        assert(r.to_multiset() =~= s.to_multiset().insert(x));
        assert forall|i: int, j: int| 0 <= i <= j < r.len() implies r[i] <= r[j] by {
            if i == 0 && j > 0 {
                assert(r[j] == t[j - 1]);
                assert(t.to_multiset().count(t[j - 1]) > 0);
                if t[j - 1] != x {
                    assert(rest.to_multiset().count(t[j - 1]) > 0);
                    assert(rest.contains(t[j - 1]));
                    let k = choose|k: int| 0 <= k < rest.len() && rest[k] == t[j - 1];
                    assert(s[k + 1] == r[j]);
                }
            } else if i > 0 {
                assert(r[i] == t[i - 1] && r[j] == t[j - 1]);
            }
        }
    }
}

/// `sorted_ascending` sorts: its result is in ascending order and holds
/// the same values, each as many times, as its argument.
pub proof fn lemma_sorted_ascending_sorts(s: Seq<int>)
    ensures
        is_sorted(sorted_ascending(s)),
        sorted_ascending(s).to_multiset() == s.to_multiset(),
    decreases s.len(),
{
    broadcast use vstd::seq_lib::group_to_multiset_ensures;

    if s.len() == 0 {
        assert(sorted_ascending(s) =~= s);
    } else {
        lemma_sorted_ascending_sorts(s.drop_last());
        lemma_insert_sorted_sorted(sorted_ascending(s.drop_last()), s.last());
        assert(s.drop_last().push(s.last()) =~= s);
    }
}

/// Number of minutes until an event.
#[derive(Debug, Clone, Copy, PartialEq, Eq)]
pub struct Countdown(pub i64);

impl Countdown {
    /// The whole minutes from `now` until `departure_time`, rounded down.
    pub fn until(departure_time: i64, now: i64) -> (r: Countdown)
        ensures
            r.0 == minutes_until(departure_time as int, now as int),
    {
        let delta: i128 = departure_time as i128 - now as i128;
        match delta.checked_div_euclid(MILLIS_PER_MINUTE) {
            Some(minutes) => Countdown(minutes as i64),
            None => Countdown(0),
        }
    }

    pub fn minutes(&self) -> (r: i64)
        ensures
            r == self.0,
    {
        self.0
    }

    /// The minutes, in decimal.
    pub fn to_text(&self) -> (r: String)
        ensures
            r@ == decimal(self.0 as int),
    {
        decimal_string(self.0)
    }
}

/// How one countdown is shown in a list: its minutes followed by `m`.
pub open spec fn countdown_text(minutes: int) -> Seq<char> {
    decimal(minutes) + "m"@
}

/// The pending departures of one stop, as countdowns sorted ascending and
/// holding at most `limit` of them: the earliest ones.
#[derive(Debug)]
pub struct CountdownList {
    countdowns: Vec<Countdown>,
    limit: usize,
}

impl View for CountdownList {
    type V = Seq<int>;

    closed spec fn view(&self) -> Seq<int> {
        self.countdowns@.map_values(|c: Countdown| c.0 as int)
    }
}

impl CountdownList {
    #[verifier::type_invariant]
    spec fn within_limit(self) -> bool {
        self.countdowns.len() <= self.limit
    }

    pub closed spec fn spec_limit(&self) -> nat {
        self.limit as nat
    }

    /// An empty list that keeps at most `limit` countdowns.
    pub fn new(limit: usize) -> (r: CountdownList)
        ensures
            r@ == Seq::<int>::empty(),
            r.spec_limit() == limit,
    {
        let r = CountdownList { countdowns: Vec::new(), limit };
        assert(r@ =~= Seq::<int>::empty());
        r
    }

    pub fn limit(&self) -> (r: usize)
        ensures
            r == self.spec_limit(),
    {
        self.limit
    }

    pub fn len(&self) -> (r: usize)
        ensures
            r == self@.len(),
            r <= self.spec_limit(),
    {
        proof {
            use_type_invariant(self);
        }
        self.countdowns.len()
    }

    pub fn get(&self, i: usize) -> (r: Countdown)
        requires
            i < self@.len(),
        ensures
            r.0 == self@[i as int],
    {
        self.countdowns[i]
    }

    /// The countdowns' minutes, in order.
    pub fn minutes(&self) -> (r: Vec<i64>)
        ensures
            r@.map_values(|m: i64| m as int) == self@,
    {
        let mut r: Vec<i64> = Vec::new();
        let mut i: usize = 0;
        while i < self.countdowns.len()
            invariant
                i <= self.countdowns.len(),
                r@.len() == i,
                forall|k: int| 0 <= k < i ==> r@[k] == self.countdowns@[k].0,
            decreases self.countdowns.len() - i,
        {
            r.push(self.countdowns[i].0);
            i += 1;
        }
        assert(r@.map_values(|m: i64| m as int) =~= self@);
        r
    }

    /// The countdowns as text, such as `1m, 5m, 10m`.
    pub fn to_text(&self) -> (r: String)
        ensures
            r@ == joined(self@.map_values(|m: int| countdown_text(m)), ", "@),
    {
        let mut parts: Vec<String> = Vec::new();
        let mut i: usize = 0;
        while i < self.countdowns.len()
            invariant
                i <= self.countdowns.len(),
                parts@.len() == i,
                forall|k: int|
                    0 <= k < i ==> (#[trigger] parts@[k])@ == countdown_text(
                        self.countdowns@[k].0 as int,
                    ),
            decreases self.countdowns.len() - i,
        {
            parts.push(decimal_string(self.countdowns[i].0).concat("m"));
            i += 1;
        }
        assert(views(parts@) =~= self@.map_values(|m: int| countdown_text(m)));
        join(&parts, ", ")
    }

    /// Adds the countdown to `departure_time`, seen from `now`, in sorted
    /// position; when that makes the list longer than its limit, the latest
    /// countdown is dropped.
    pub fn push(&mut self, departure_time: i64, now: i64)
        ensures
            final(self)@ == prefix(
                insert_sorted(old(self)@, minutes_until(departure_time as int, now as int)),
                old(self).spec_limit() as int,
            ),
            final(self).spec_limit() == old(self).spec_limit(),
    {
        proof {
            use_type_invariant(&*self);
        }
        let countdown = Countdown::until(departure_time, now);
        let ghost before = self@;
        let n = self.countdowns.len();
        let mut p: usize = 0;
        while p < n && self.countdowns[p].0 <= countdown.0
            invariant
                p <= n,
                n == self.countdowns.len(),
                before == self@,
                forall|k: int| 0 <= k < p ==> before[k] <= countdown.0,
            decreases n - p,
        {
            p += 1;
        }
        proof {
            lemma_insert_sorted_at(before, countdown.0 as int, p as int);
        }
        let mut list: Vec<Countdown> = Vec::new();
        core::mem::swap(&mut self.countdowns, &mut list);
        let ghost old_list = list@;
        list.insert(p, countdown);
        let ghost inserted = list@;
        assert(inserted.map_values(|c: Countdown| c.0 as int) =~= before.insert(
            p as int,
            countdown.0 as int,
        ));
        list.truncate(self.limit);
        assert(list@.map_values(|c: Countdown| c.0 as int) =~= prefix(
            before.insert(p as int, countdown.0 as int),
            self.limit as int,
        ));
        self.countdowns = list;
    }
}


} // verus!
