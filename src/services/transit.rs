//! Transit departures: configured lines and stops, the raw prediction
//! records, and their grouping into per-stop countdown lists.

pub use crate::services::countdown::{Countdown, CountdownList};

use crate::services::countdown::{
    insert_sorted, is_sorted, lemma_insert_sorted_prefix, lemma_sorted_ascending_sorts,
    minutes_until, prefix, sorted_ascending,
};
use crate::services::{ApiFetcher, SourceModel};
use crate::text::{decimal, decimal_string, join, joined, views};
use indexmap::IndexMap;
use vstd::prelude::*;

verus! {

/// Most pending departures shown for one stop.
pub const MAX_PREDICTIONS: usize = 3;

/// How long a predictions snapshot stays fresh, in milliseconds.
pub const TRANSIT_TTL_MILLIS: u64 = 30_000;

/// The endpoint prefix of the predictions service.
pub const PREDICTIONS_ENDPOINT: &'static str = "https://api-v3.mbta.com/predictions?filter[stop]=";

/// The first index of `s` whose element satisfies `f`.
pub open spec fn first_index<A>(s: Seq<A>, f: spec_fn(A) -> bool) -> Option<int>
    decreases s.len(),
{
    if s.len() == 0 {
        None
    } else {
        match first_index(s.drop_last(), f) {
            Some(i) => Some(i),
            None => if f(s.last()) {
                Some(s.len() - 1)
            } else {
                None
            },
        }
    }
}

proof fn lemma_first_index<A>(s: Seq<A>, f: spec_fn(A) -> bool)
    ensures
        first_index(s, f) matches Some(i) ==> 0 <= i < s.len() && f(s[i]) && forall|k: int|
            0 <= k < i ==> !f(#[trigger] s[k]),
        first_index(s, f) is None ==> forall|k: int| 0 <= k < s.len() ==> !f(#[trigger] s[k]),
    decreases s.len(),
{
    if s.len() > 0 {
        lemma_first_index(s.drop_last(), f);
        assert forall|k: int| 0 <= k < s.len() - 1 implies s.drop_last()[k] == s[k] by {}
    }
}

/// The first index is decided by the values of the predicate alone.
proof fn lemma_first_index_congruent<A, B>(
    s: Seq<A>,
    f: spec_fn(A) -> bool,
    t: Seq<B>,
    g: spec_fn(B) -> bool,
)
    requires
        s.len() == t.len(),
        forall|k: int| 0 <= k < s.len() ==> f(#[trigger] s[k]) == g(t[k]),
    ensures
        first_index(s, f) == first_index(t, g),
    decreases s.len(),
{
    if s.len() > 0 {
        assert forall|k: int| 0 <= k < s.len() - 1 implies f(#[trigger] s.drop_last()[k]) == g(
            t.drop_last()[k],
        ) by {
            assert(s.drop_last()[k] == s[k] && t.drop_last()[k] == t[k]);
        }
        lemma_first_index_congruent(s.drop_last(), f, t.drop_last(), g);
    }
}

/// The first index found in a prefix is the first index of the whole.
proof fn lemma_first_index_extend<A>(s: Seq<A>, f: spec_fn(A) -> bool, n: int)
    requires
        0 <= n <= s.len(),
        first_index(s.take(n), f) is Some,
    ensures
        first_index(s, f) == first_index(s.take(n), f),
    decreases s.len() - n,
{
    if n < s.len() {
        assert(s.take(n + 1).drop_last() =~= s.take(n));
        lemma_first_index_extend(s, f, n + 1);
    } else {
        assert(s.take(n) =~= s);
    }
}

/// Configuration for a transit line to show predictions for.
#[derive(Clone, Debug)]
pub struct TransitLine {
    pub name: String,
    /// Stops on the line to monitor.
    pub stops: Vec<TransitStop>,
}

/// Configuration for a single stop on a transit line.
#[derive(Clone, Debug)]
pub struct TransitStop {
    /// Display name for the stop or direction.
    pub name: String,
    /// Identifier of the stop in the predictions service.
    pub id: u32,
}

/// One raw prediction record of the service.
#[derive(Clone, Debug)]
pub struct Prediction {
    /// Departure instant in milliseconds since the Unix epoch; absent when
    /// the vehicle skips the stop.
    pub departure_time: Option<i64>,
    pub route_id: String,
    pub stop_id: String,
}

/// A response of the predictions service.
#[derive(Clone, Debug)]
pub struct ApiPredictions {
    pub data: Vec<Prediction>,
}

/// Pending departures for all stops on all lines.
#[derive(Debug)]
pub struct Predictions {
    pub lines: Vec<LinePrediction>,
}

#[derive(Debug)]
pub struct LinePrediction {
    pub name: String,
    pub stops: Vec<StopPrediction>,
}

#[derive(Debug)]
pub struct StopPrediction {
    pub id: u32,
    pub name: String,
    pub predictions: CountdownList,
}

pub open spec fn is_named(name: Seq<char>) -> spec_fn(TransitLine) -> bool {
    |l: TransitLine| l.name@ == name
}

pub open spec fn has_id(id: Seq<char>) -> spec_fn(TransitStop) -> bool {
    |st: TransitStop| decimal(st.id as int) == id
}

pub open spec fn shows_id(id: Seq<char>) -> spec_fn(StopPrediction) -> bool {
    |st: StopPrediction| decimal(st.id as int) == id
}

pub open spec fn is_key(key: Seq<char>) -> spec_fn(Seq<char>) -> bool {
    |k: Seq<char>| k == key
}

/// The index of the line called `name`.
pub open spec fn line_index(lines: Seq<TransitLine>, name: Seq<char>) -> Option<int> {
    first_index(lines, is_named(name))
}

/// The index of the first stop whose identifier, in decimal, is `id`.
pub open spec fn stop_index(stops: Seq<TransitStop>, id: Seq<char>) -> Option<int> {
    first_index(stops, has_id(id))
}

/// The configured lines keyed by name: a line whose name came before keeps
/// that first position and takes the stops of the later line.
pub open spec fn grouped(lines: Seq<TransitLine>) -> Seq<TransitLine>
    decreases lines.len(),
{
    if lines.len() == 0 {
        Seq::empty()
    } else {
        let g = grouped(lines.drop_last());
        match line_index(g, lines.last().name@) {
            Some(i) => g.update(i, lines.last()),
            None => g.push(lines.last()),
        }
    }
}

/// The line and stop that a record counts for, in the grouped lines `g`:
/// none when it has no departure time or names an unknown route or stop.
pub open spec fn record_slot(g: Seq<TransitLine>, r: Prediction) -> Option<(int, int)> {
    if r.departure_time is None {
        None
    } else {
        match line_index(g, r.route_id@) {
            None => None,
            Some(i) => match stop_index(g[i].stops@, r.stop_id@) {
                None => None,
                Some(j) => Some((i, j)),
            },
        }
    }
}

/// Minutes until each departure that counts for line `i`, stop `j`, in
/// record order.
pub open spec fn slot_minutes(
    g: Seq<TransitLine>,
    records: Seq<Prediction>,
    i: int,
    j: int,
    now: int,
) -> Seq<int>
    decreases records.len(),
{
    if records.len() == 0 {
        Seq::empty()
    } else {
        let prev = slot_minutes(g, records.drop_last(), i, j, now);
        if record_slot(g, records.last()) == Some((i, j)) {
            prev.push(minutes_until(records.last().departure_time->0 as int, now))
        } else {
            prev
        }
    }
}

/// The countdowns shown for line `i`, stop `j`: the earliest departures,
/// sorted ascending, at most `MAX_PREDICTIONS` of them.
pub open spec fn slot_countdowns(
    g: Seq<TransitLine>,
    records: Seq<Prediction>,
    i: int,
    j: int,
    now: int,
) -> Seq<int> {
    prefix(sorted_ascending(slot_minutes(g, records, i, j, now)), MAX_PREDICTIONS as int)
}

/// `out` shows line `l`: same name, same stops in the same order.
pub open spec fn shows_line(out: LinePrediction, l: TransitLine) -> bool {
    &&& out.name@ == l.name@
    &&& out.stops@.len() == l.stops@.len()
    &&& forall|j: int|
        0 <= j < l.stops@.len() ==> (#[trigger] out.stops@[j]).id == l.stops@[j].id
            && out.stops@[j].name@ == l.stops@[j].name@
            && out.stops@[j].predictions.spec_limit() == MAX_PREDICTIONS
}

/// `p` shows the grouped lines `g`, each stop with the countdowns that
/// `records` give it at `now`.
pub open spec fn shows_predictions(
    p: Seq<LinePrediction>,
    g: Seq<TransitLine>,
    records: Seq<Prediction>,
    now: int,
) -> bool {
    &&& p.len() == g.len()
    &&& forall|i: int| 0 <= i < g.len() ==> shows_line(#[trigger] p[i], g[i])
    &&& forall|i: int, j: int|
        0 <= i < g.len() && 0 <= j < g[i].stops@.len() ==> (#[trigger] p[i].stops@[j]).predictions@
            == slot_countdowns(g, records, i, j, now)
}

/// The records of a predictions snapshot, none when there is none.
pub open spec fn snapshot_records(s: SourceModel<ApiPredictions>) -> Seq<Prediction> {
    match s.snapshot {
        Some(d) => d.payload.data@,
        None => Seq::empty(),
    }
}

/// The stop identifiers of all lines, in decimal, in configuration order.
pub open spec fn stop_ids(lines: Seq<TransitLine>) -> Seq<Seq<char>>
    decreases lines.len(),
{
    if lines.len() == 0 {
        Seq::empty()
    } else {
        stop_ids(lines.drop_last()) + lines.last().stops@.map_values(
            |st: TransitStop| decimal(st.id as int),
        )
    }
}

/// The endpoint that serves predictions for the stops of `lines`.
pub open spec fn predictions_url(lines: Seq<TransitLine>) -> Seq<char> {
    PREDICTIONS_ENDPOINT@ + joined(stop_ids(lines), ","@)
}

#[verifier::external_type_specification]
#[verifier::external_body]
#[verifier::reject_recursive_types(K)]
#[verifier::reject_recursive_types(V)]
#[verifier::reject_recursive_types(S)]
pub struct ExIndexMap<K, V, S>(IndexMap<K, V, S>);

/// The keys of an index map of names, in insertion order.
pub uninterp spec fn route_keys(m: IndexMap<String, ()>) -> Seq<Seq<char>>;

/// The position of `key` among `keys`.
pub open spec fn key_index(keys: Seq<Seq<char>>, key: Seq<char>) -> Option<int> {
    first_index(keys, is_key(key))
}

/// Relies on `IndexMap::new`: a map without keys.
#[verifier::external_body]
fn route_index_new() -> (m: IndexMap<String, ()>)
    ensures
        route_keys(m) == Seq::<Seq<char>>::empty(),
{
    IndexMap::new()
}

/// Relies on `IndexMap::insert_full`: a key equal to one present keeps that
/// key's place and index; a new key goes last. Keys compare by their text.
#[verifier::external_body]
fn route_index_insert(m: &mut IndexMap<String, ()>, key: String) -> (i: usize)
    ensures
        key_index(route_keys(*old(m)), key@) matches Some(k) ==> i == k && route_keys(*final(m))
            == route_keys(*old(m)),
        key_index(route_keys(*old(m)), key@) is None ==> i == route_keys(*old(m)).len()
            && route_keys(*final(m)) == route_keys(*old(m)).push(key@),
{
    m.insert_full(key, ()).0
}

/// Relies on `IndexMap::get_index_of`: the index of the key equal to `key`.
#[verifier::external_body]
fn route_index_get(m: &IndexMap<String, ()>, key: &String) -> (r: Option<usize>)
    ensures
        r matches Some(i) ==> key_index(route_keys(*m), key@) == Some(i as int),
        r is None ==> key_index(route_keys(*m), key@) is None,
{
    m.get_index_of(key)
}

/// The names of lines.
pub open spec fn line_names(lines: Seq<TransitLine>) -> Seq<Seq<char>> {
    lines.map_values(|l: TransitLine| l.name@)
}

proof fn lemma_key_index_names(g: Seq<TransitLine>, name: Seq<char>)
    ensures
        key_index(line_names(g), name) == line_index(g, name),
{
    assert forall|k: int| 0 <= k < g.len() implies #[trigger] line_names(g)[k] == g[k].name@ by {}
    lemma_first_index_congruent(line_names(g), is_key(name), g, is_named(name));
}

/// A fresh entry for `line`: its name and stops, with no departures yet.
fn empty_line(line: &TransitLine) -> (r: LinePrediction)
    ensures
        shows_line(r, *line),
        forall|j: int| 0 <= j < line.stops@.len() ==> (#[trigger] r.stops@[j]).predictions@ =~= Seq::<int>::empty(),
{
    let mut stops: Vec<StopPrediction> = Vec::new();
    let mut j: usize = 0;
    while j < line.stops.len()
        invariant
            j <= line.stops.len(),
            stops@.len() == j,
            forall|k: int|
                0 <= k < j ==> (#[trigger] stops@[k]).id == line.stops@[k].id && stops@[k].name@
                    == line.stops@[k].name@ && stops@[k].predictions.spec_limit() == MAX_PREDICTIONS
                    && stops@[k].predictions@ =~= Seq::<int>::empty(),
        decreases line.stops.len() - j,
    {
        let stop = &line.stops[j];
        stops.push(
            StopPrediction {
                id: stop.id,
                name: stop.name.clone(),
                predictions: CountdownList::new(MAX_PREDICTIONS),
            },
        );
        j += 1;
    }
    LinePrediction { name: line.name.clone(), stops }
}

/// The index of the first stop whose identifier, in decimal, is `id`.
fn find_stop(stops: &Vec<StopPrediction>, id: &String) -> (r: Option<usize>)
    ensures
        r matches Some(j) ==> first_index(stops@, shows_id(id@)) == Some(j as int),
        r is None ==> first_index(stops@, shows_id(id@)) is None,
{
    let mut j: usize = 0;
    while j < stops.len()
        invariant
            j <= stops.len(),
            first_index(stops@.take(j as int), shows_id(id@)) is None,
        decreases stops.len() - j,
    {
        let text = decimal_string(stops[j].id as i64);
        proof {
            assert(stops@.take(j + 1).drop_last() =~= stops@.take(j as int));
            assert(stops@.take(j + 1).last() == stops@[j as int]);
            assert(shows_id(id@)(stops@[j as int]) == (decimal(stops@[j as int].id as int) == id@));
        }
        if text == *id {
            proof {
                lemma_first_index_extend(stops@, shows_id(id@), j + 1);
            }
            return Some(j);
        }
        j += 1;
    }
    assert(stops@.take(j as int) =~= stops@);
    None
}

/// The configured lines keyed by name, each with its stops and no
/// departures, and the index of each name.
fn group_lines(lines: &Vec<TransitLine>) -> (r: (Vec<LinePrediction>, IndexMap<String, ()>))
    ensures
        shows_predictions(r.0@, grouped(lines@), Seq::empty(), 0),
        route_keys(r.1) == line_names(grouped(lines@)),
{
    let mut groups: Vec<LinePrediction> = Vec::new();
    let mut keys = route_index_new();
    let mut n: usize = 0;
    proof {
        assert(lines@.take(0) =~= Seq::<TransitLine>::empty());
        assert(line_names(grouped(lines@.take(0))) =~= Seq::<Seq<char>>::empty());
    }
    while n < lines.len()
        invariant
            n <= lines.len(),
            shows_predictions(groups@, grouped(lines@.take(n as int)), Seq::empty(), 0),
            route_keys(keys) == line_names(grouped(lines@.take(n as int))),
        decreases lines.len() - n,
    {
        let line = &lines[n];
        let ghost g = grouped(lines@.take(n as int));
        let entry = empty_line(line);
        proof {
            assert(lines@.take(n + 1).drop_last() =~= lines@.take(n as int));
            lemma_key_index_names(g, line.name@);
            lemma_first_index(g, is_named(line.name@));
        }
        let i = route_index_insert(&mut keys, line.name.clone());
        let ghost g2 = grouped(lines@.take(n + 1));
        if i < groups.len() {
            groups.set(i, entry);
            proof {
                assert(g2 == g.update(i as int, *line));
                assert(line_names(g2) =~= line_names(g));
            }
        } else {
            groups.push(entry);
            proof {
                assert(g2 == g.push(*line));
                assert(line_names(g2) =~= line_names(g).push(line.name@));
            }
        }
        proof {
            assert forall|i2: int, j: int|
                0 <= i2 < g2.len() && 0 <= j < g2[i2].stops@.len() implies (
            #[trigger] groups@[i2].stops@[j]).predictions@ == slot_countdowns(
                g2,
                Seq::empty(),
                i2,
                j,
                0,
            ) by {
                assert(sorted_ascending(slot_minutes(g2, Seq::empty(), i2, j, 0)) =~= Seq::<
                    int,
                >::empty());
            }
        }
        n += 1;
    }
    assert(lines@.take(n as int) =~= lines@);
    (groups, keys)
}


/// A record changes only the slot it counts for.
proof fn lemma_slot_minutes_step(
    g: Seq<TransitLine>,
    records: Seq<Prediction>,
    n: int,
    i: int,
    j: int,
    now: int,
)
    requires
        0 <= n < records.len(),
    ensures
        record_slot(g, records[n]) == Some((i, j)) ==> slot_minutes(g, records.take(n + 1), i, j, now)
            == slot_minutes(g, records.take(n), i, j, now).push(
            minutes_until(records[n].departure_time->0 as int, now),
        ),
        record_slot(g, records[n]) != Some((i, j)) ==> slot_minutes(
            g,
            records.take(n + 1),
            i,
            j,
            now,
        ) == slot_minutes(g, records.take(n), i, j, now),
{
    assert(records.take(n + 1).drop_last() =~= records.take(n));
    assert(records.take(n + 1).last() == records[n]);
}

/// Sorting after appending is inserting into the sorted sequence.
proof fn lemma_sorted_ascending_push(s: Seq<int>, x: int)
    ensures
        sorted_ascending(s.push(x)) == insert_sorted(sorted_ascending(s), x),
{
    assert(s.push(x).drop_last() =~= s);
}

proof fn lemma_slot_minutes_skip(
    g: Seq<TransitLine>,
    before: Seq<Prediction>,
    record: Prediction,
    after: Seq<Prediction>,
    i: int,
    j: int,
    now: int,
)
    requires
        record_slot(g, record) is None,
    ensures
        slot_minutes(g, before.push(record) + after, i, j, now) == slot_minutes(
            g,
            before + after,
            i,
            j,
            now,
        ),
    decreases after.len(),
{
    if after.len() == 0 {
        assert(before.push(record) + after =~= before.push(record));
        assert(before.push(record).drop_last() =~= before);
        assert(before + after =~= before);
    } else {
        lemma_slot_minutes_skip(g, before, record, after.drop_last(), i, j, now);
        assert((before.push(record) + after).drop_last() =~= before.push(record) + after.drop_last());
        assert((before + after).drop_last() =~= before + after.drop_last());
    }
}

/// A record that names a route that no configured line has, or a stop that
/// its route does not have, is dropped: wherever it stands among the
/// records, every stop shows the same countdowns as without it, and the
/// records after it are still taken into account.
pub proof fn lemma_unknown_record_dropped(
    lines: Seq<TransitLine>,
    before: Seq<Prediction>,
    record: Prediction,
    after: Seq<Prediction>,
    now: int,
)
    requires
        ({
            let g = grouped(lines);
            match line_index(g, record.route_id@) {
                None => true,
                Some(k) => stop_index(g[k].stops@, record.stop_id@) is None,
            }
        }),
    ensures
        forall|i: int, j: int|
            #[trigger] slot_countdowns(grouped(lines), before + seq![record] + after, i, j, now)
                == slot_countdowns(grouped(lines), before + after, i, j, now),
{
    let g = grouped(lines);
    assert(before + seq![record] =~= before.push(record));
    assert forall|i: int, j: int|
        #[trigger] slot_countdowns(g, before + seq![record] + after, i, j, now) == slot_countdowns(
            g,
            before + after,
            i,
            j,
            now,
        ) by {
        lemma_slot_minutes_skip(g, before, record, after, i, j, now);
    }
}

/// Each stop shows its earliest departures in ascending order: at most
/// `MAX_PREDICTIONS` countdowns, taken from the stop's departures, and every
/// departure of the stop that is left out is no earlier than each shown one.
pub proof fn lemma_countdowns_are_earliest(
    g: Seq<TransitLine>,
    records: Seq<Prediction>,
    i: int,
    j: int,
    now: int,
)
    ensures
        ({
            let shown = slot_countdowns(g, records, i, j, now);
            let all = slot_minutes(g, records, i, j, now);
            &&& is_sorted(shown)
            &&& shown.len() == if all.len() < MAX_PREDICTIONS {
                all.len()
            } else {
                MAX_PREDICTIONS as nat
            }
            &&& shown.to_multiset().subset_of(all.to_multiset())
            &&& forall|v: int|
                #![trigger all.to_multiset().count(v)]
                all.to_multiset().count(v) > shown.to_multiset().count(v) ==> forall|k: int|
                    0 <= k < shown.len() ==> shown[k] <= v
        }),
{
    broadcast use vstd::seq_lib::group_to_multiset_ensures, vstd::seq_lib::lemma_multiset_commutative;

    let all = slot_minutes(g, records, i, j, now);
    let sorted = sorted_ascending(all);
    let shown = slot_countdowns(g, records, i, j, now);
    let k = MAX_PREDICTIONS as int;
    lemma_sorted_ascending_sorts(all);
    assert(sorted.len() == sorted.to_multiset().len());
    assert(all.len() == all.to_multiset().len());
    if sorted.len() > k {
        let rest = sorted.skip(k);
        assert(sorted =~= shown + rest);
        assert(sorted.to_multiset() =~= shown.to_multiset().add(rest.to_multiset()));
        assert forall|v: int|
            #![trigger all.to_multiset().count(v)]
            all.to_multiset().count(v) > shown.to_multiset().count(v) implies forall|m: int|
            0 <= m < shown.len() ==> shown[m] <= v by {
            assert(rest.to_multiset().count(v) > 0);
            assert(rest.contains(v));
            let r = choose|r: int| 0 <= r < rest.len() && rest[r] == v;
            assert(sorted[k + r] == v);
            assert forall|m: int| 0 <= m < shown.len() implies shown[m] <= v by {
                assert(sorted[m] == shown[m]);
            }
        }
    } else {
        assert(shown == sorted);
    }
}

/// Predictions for the configured transit lines, refreshed from the
/// predictions service.
#[derive(Debug)]
pub struct Transit {
    lines: Vec<TransitLine>,
    fetcher: ApiFetcher<ApiPredictions>,
}

impl Transit {
    pub closed spec fn spec_lines(&self) -> Seq<TransitLine> {
        self.lines@
    }

    pub closed spec fn source(&self) -> SourceModel<ApiPredictions> {
        self.fetcher@
    }

    /// Monitors the stops of `lines`; no predictions are held yet.
    pub fn new(lines: Vec<TransitLine>) -> (r: Transit)
        ensures
            r.spec_lines() == lines@,
            r.source() == (SourceModel::<ApiPredictions> {
                url: predictions_url(lines@),
                ttl: TRANSIT_TTL_MILLIS as int,
                snapshot: None,
                in_flight: false,
            }),
    {
        let mut ids: Vec<String> = Vec::new();
        let mut n: usize = 0;
        while n < lines.len()
            invariant
                n <= lines.len(),
                views(ids@) == stop_ids(lines@.take(n as int)),
            decreases lines.len() - n,
        {
            let stops = &lines[n].stops;
            let ghost before = views(ids@);
            let mut j: usize = 0;
            while j < stops.len()
                invariant
                    j <= stops.len(),
                    stops == lines@[n as int].stops,
                    views(ids@) == before + stops@.take(j as int).map_values(
                        |st: TransitStop| decimal(st.id as int),
                    ),
                decreases stops.len() - j,
            {
                let ghost ids_before = ids@;
                ids.push(decimal_string(stops[j].id as i64));
                proof {
                    assert(views(ids@) =~= views(ids_before).push(decimal(stops@[j as int].id as int)));
                    assert(stops@.take(j + 1).map_values(|st: TransitStop| decimal(st.id as int))
                        =~= stops@.take(j as int).map_values(|st: TransitStop| decimal(st.id as int)).push(
                        decimal(stops@[j as int].id as int),
                    ));
                    assert(views(ids@) =~= before + stops@.take(j + 1).map_values(
                        |st: TransitStop| decimal(st.id as int),
                    ));
                }
                j += 1;
            }
            proof {
                assert(stops@.take(j as int) =~= stops@);
                assert(lines@.take(n + 1).drop_last() =~= lines@.take(n as int));
            }
            n += 1;
        }
        assert(lines@.take(n as int) =~= lines@);
        let url = String::from_str(PREDICTIONS_ENDPOINT).concat(join(&ids, ",").as_str());
        Transit { lines, fetcher: ApiFetcher::new(url, TRANSIT_TTL_MILLIS) }
    }

    /// The configured lines.
    pub fn lines(&self) -> (r: &Vec<TransitLine>)
        ensures
            r@ == self.spec_lines(),
    {
        &self.lines
    }

    /// The source that holds the latest predictions.
    pub fn fetcher(&self) -> (r: &ApiFetcher<ApiPredictions>)
        ensures
            r@ == self.source(),
    {
        &self.fetcher
    }

    /// The source, for requesting refreshes and applying their outcomes.
    pub fn fetcher_mut(&mut self) -> (r: &mut ApiFetcher<ApiPredictions>)
        ensures
            r@ == old(self).source(),
            final(self).source() == final(r)@,
            final(self).spec_lines() == old(self).spec_lines(),
    {
        &mut self.fetcher
    }

    /// Pending departures for all stops on all lines, as seen at `now`.
    ///
    /// Lines are keyed by name, in configuration order. Records without a
    /// departure time (a skipped stop) and records naming an unknown route
    /// or stop are passed over; the others go to the first stop of their
    /// route with their stop identifier. Without a snapshot every stop is
    /// listed with no departures.
    pub fn predictions_at(&self, now: i64) -> (r: Predictions)
        ensures
            shows_predictions(
                r.lines@,
                grouped(self.spec_lines()),
                snapshot_records(self.source()),
                now as int,
            ),
    {
        let (mut groups, keys) = group_lines(&self.lines);
        let ghost g = grouped(self.lines@);
        proof {
            assert forall|i: int, j: int|
                0 <= i < g.len() && 0 <= j < g[i].stops@.len() implies (
            #[trigger] groups@[i].stops@[j]).predictions@ == slot_countdowns(
                g,
                Seq::empty(),
                i,
                j,
                now as int,
            ) by {
                assert(sorted_ascending(slot_minutes(g, Seq::empty(), i, j, now as int)) =~= Seq::<
                    int,
                >::empty());
                assert(sorted_ascending(slot_minutes(g, Seq::empty(), i, j, 0)) =~= Seq::<
                    int,
                >::empty());
            }
        }
        match self.fetcher.snapshot() {
            None => {},
            Some(data) => {
                let records = &data.data().data;
                let mut n: usize = 0;
                assert(records@.take(0) =~= Seq::<Prediction>::empty());
                while n < records.len()
                    invariant
                        n <= records.len(),
                        shows_predictions(groups@, g, records@.take(n as int), now as int),
                        route_keys(keys) == line_names(g),
                    decreases records.len() - n,
                {
                    let record = &records[n];
                    let ghost before = groups@;
                    let ghost slot: Option<(int, int)> = None;
                    match record.departure_time {
                        None => {},
                        Some(departure) => {
                            proof {
                                lemma_key_index_names(g, record.route_id@);
                                lemma_first_index(g, is_named(record.route_id@));
                            }
                            match route_index_get(&keys, &record.route_id) {
                                None => {},
                                Some(i) => {
                                    proof {
                                        assert forall|k: int|
                                            0 <= k < g[i as int].stops@.len() implies shows_id(
                                            record.stop_id@,
                                        )(#[trigger] groups@[i as int].stops@[k]) == has_id(
                                            record.stop_id@,
                                        )(g[i as int].stops@[k]) by {
                                            assert(shows_line(groups@[i as int], g[i as int]));
                                        }
                                        lemma_first_index_congruent(
                                            groups@[i as int].stops@,
                                            shows_id(record.stop_id@),
                                            g[i as int].stops@,
                                            has_id(record.stop_id@),
                                        );
                                    }
                                    match find_stop(&groups[i].stops, &record.stop_id) {
                                        None => {},
                                        Some(j) => {
                                            proof {
                                                slot = Some((i as int, j as int));
                                                lemma_first_index(
                                                    groups@[i as int].stops@,
                                                    shows_id(record.stop_id@),
                                                );
                                                let sm = slot_minutes(
                                                    g,
                                                    records@.take(n as int),
                                                    i as int,
                                                    j as int,
                                                    now as int,
                                                );
                                                lemma_sorted_ascending_push(
                                                    sm,
                                                    minutes_until(departure as int, now as int),
                                                );
                                                lemma_insert_sorted_prefix(
                                                    sorted_ascending(sm),
                                                    minutes_until(departure as int, now as int),
                                                    MAX_PREDICTIONS as int,
                                                );
                                            }
                                            groups[i].stops[j].predictions.push(departure, now);
                                        },
                                    }
                                },
                            }
                        },
                    }
                    proof {
                        assert(record_slot(g, records@[n as int]) == slot);
                        assert forall|i: int, j: int|
                            0 <= i < g.len() && 0 <= j < g[i].stops@.len() implies (
                        #[trigger] groups@[i].stops@[j]).predictions@ == slot_countdowns(
                            g,
                            records@.take(n + 1),
                            i,
                            j,
                            now as int,
                        ) by {
                            lemma_slot_minutes_step(g, records@, n as int, i, j, now as int);
                        }
                    }
                    n += 1;
                }
                assert(records@.take(n as int) =~= records@);
            },
        }
        Predictions { lines: groups }
    }

    /// Pending departures for all stops on all lines, as seen now.
    pub fn predictions(&self) -> (r: Predictions)
        ensures
            exists|now: i64|
                shows_predictions(
                    r.lines@,
                    grouped(self.spec_lines()),
                    snapshot_records(self.source()),
                    now as int,
                ),
    {
        self.predictions_at(crate::clock::now_millis())
    }
}

} // verus!
