//! Named series of upload/download points, keyed by the second they were
//! taken at: the store behind every table of the monitor.

use vstd::prelude::*;
use std::collections::BTreeMap;
use vstd::std_specs::iter::IteratorSpec;
use vstd::std_specs::cmp::OrdSpec;
use crate::text::{decimal, u128_to_decimal};
use crate::time::{at_or_after, is_at_or_after, rfc3339, rfc3339_text, timestamp_in_range, Moment};

verus! {

broadcast use vstd::std_specs::btree::group_btree_axioms;

/// Bytes up and bytes down at one point of a series.
#[derive(Clone, Copy, Debug, PartialEq, Eq)]
pub struct DataPoint {
    pub value_up: u128,
    pub value_down: u128,
}

/// The points of `m` taken at or after `start`.
pub open spec fn window(m: Map<i64, DataPoint>, start: Moment) -> Map<i64, DataPoint> {
    m.restrict(m.dom().filter(|k: i64| at_or_after(k, start)))
}

/// `s` lists the points of `m` in increasing order of time, each once.
pub open spec fn is_sorted_listing(s: Seq<(i64, DataPoint)>, m: Map<i64, DataPoint>) -> bool {
    &&& forall|i: int, j: int| 0 <= i < j < s.len() ==> s[i].0 < s[j].0
    &&& forall|i: int| 0 <= i < s.len() ==> m.contains_key(#[trigger] s[i].0) && m[s[i].0] == s[i].1
    &&& forall|k: i64| #[trigger] m.contains_key(k) ==> exists|i: int| 0 <= i < s.len() && s[i].0 == k
}

/// The points of `m` in increasing order of time (a `BTreeMap`'s iteration order).
pub open spec fn listing(m: Map<i64, DataPoint>) -> Seq<(i64, DataPoint)> {
    choose|s: Seq<(i64, DataPoint)>| is_sorted_listing(s, m)
}

/// The text of the point `e`: the time in RFC 3339, bytes up, bytes down.
pub open spec fn point_text(e: (i64, DataPoint)) -> Seq<Seq<char>> {
    seq![rfc3339_text(e.0), decimal(e.1.value_up as nat), decimal(e.1.value_down as nat)]
}

/// The text row of the point `e`, after the name `label` if there is one.
pub open spec fn row_text(label: Option<Seq<char>>, e: (i64, DataPoint)) -> Seq<Seq<char>> {
    match label {
        Some(name) => seq![name] + point_text(e),
        None => point_text(e),
    }
}

/// The rows of the points `m` in time order, each after the name `label`
/// if there is one.
pub open spec fn listing_rows(label: Option<Seq<char>>, m: Map<i64, DataPoint>) -> Seq<Seq<Seq<char>>> {
    listing(m).map_values(|e: (i64, DataPoint)| row_text(label, e))
}

proof fn lemma_increasing_keys(s: Seq<i64>)
    requires
        vstd::std_specs::btree::increasing_seq(s),
    ensures
        forall|i: int, j: int| 0 <= i < j < s.len() ==> s[i] < s[j],
{
    assert forall|i: int, j: int| 0 <= i < j < s.len() implies s[i] < s[j] by {
        assert(s[i].cmp_spec(&s[j]) is Less);
    }
}

proof fn lemma_sorted_listing_prefix(a: Seq<(i64, DataPoint)>, b: Seq<(i64, DataPoint)>, m: Map<i64, DataPoint>, n: int)
    requires
        is_sorted_listing(a, m),
        is_sorted_listing(b, m),
        0 <= n <= a.len(),
        0 <= n <= b.len(),
    ensures
        forall|i: int| 0 <= i < n ==> a[i] == b[i],
    decreases n,
{
    if n > 0 {
        lemma_sorted_listing_prefix(a, b, m, n - 1);
        let i = n - 1;
        let ka = a[i].0;
        let kb = b[i].0;
        assert(m.contains_key(ka));
        assert(m.contains_key(kb));
        let ja = choose|j: int| 0 <= j < b.len() && b[j].0 == ka;
        let jb = choose|j: int| 0 <= j < a.len() && a[j].0 == kb;
        if ka < kb {
            if ja < i {
                assert(a[ja] == b[ja]);
            }
        } else if kb < ka {
            if jb < i {
                assert(a[jb] == b[jb]);
            }
        }
        assert(ka == kb);
    }
}

/// Two time-ordered listings of the same points are the same sequence.
pub proof fn lemma_sorted_listing_unique(a: Seq<(i64, DataPoint)>, b: Seq<(i64, DataPoint)>, m: Map<i64, DataPoint>)
    requires
        is_sorted_listing(a, m),
        is_sorted_listing(b, m),
    ensures
        a == b,
{
    if a.len() <= b.len() {
        lemma_sorted_listing_prefix(a, b, m, a.len() as int);
        if a.len() < b.len() {
            let k = b[a.len() as int].0;
            assert(m.contains_key(k));
            let j = choose|j: int| 0 <= j < a.len() && a[j].0 == k;
            assert(a[j] == b[j]);
        }
    } else {
        lemma_sorted_listing_prefix(a, b, m, b.len() as int);
        let k = a[b.len() as int].0;
        assert(m.contains_key(k));
        let j = choose|j: int| 0 <= j < b.len() && b[j].0 == k;
        assert(a[j] == b[j]);
    }
    assert(a =~= b);
}

/// A finite set of seconds that is not empty has a latest one.
proof fn lemma_latest_second(keys: Set<i64>) -> (k: i64)
    requires
        keys.finite(),
        keys.len() > 0,
    ensures
        keys.contains(k),
        forall|j: i64| #[trigger] keys.contains(j) ==> j <= k,
    decreases keys.len(),
{
    let x = keys.choose();
    let rest = keys.remove(x);
    if rest.len() == 0 {
        assert forall|j: i64| #[trigger] keys.contains(j) implies j <= x by {
            if j != x {
                assert(rest.contains(j));
            }
        }
        x
    } else {
        let y = lemma_latest_second(rest);
        let k = if x <= y { y } else { x };
        assert forall|j: i64| #[trigger] keys.contains(j) implies j <= k by {
            if j != x {
                assert(rest.contains(j));
            }
        }
        k
    }
}

proof fn lemma_sorted_listing_witness(m: Map<i64, DataPoint>) -> (s: Seq<(i64, DataPoint)>)
    requires
        m.dom().finite(),
    ensures
        is_sorted_listing(s, m),
    decreases m.dom().len(),
{
    if m.dom().len() == 0 {
        assert forall|k: i64| #[trigger] m.contains_key(k) implies false by {
            assert(m.dom().remove(k).len() == m.dom().len() - 1);
        }
        seq![]
    } else {
        let k = lemma_latest_second(m.dom());
        let rest = m.remove(k);
        assert(rest.dom() =~= m.dom().remove(k));
        let s0 = lemma_sorted_listing_witness(rest);
        let s = s0.push((k, m[k]));
        assert forall|i: int, j: int| 0 <= i < j < s.len() implies s[i].0 < s[j].0 by {
            if j < s0.len() {
            } else {
                assert(rest.contains_key(s0[i].0));
                assert(m.dom().contains(s0[i].0));
            }
        }
        assert forall|i: int| 0 <= i < s.len() implies m.contains_key(#[trigger] s[i].0) && m[s[i].0] == s[i].1 by {
            if i < s0.len() {
                assert(s[i] == s0[i]);
                assert(rest.contains_key(s0[i].0));
            }
        }
        assert forall|key: i64| #[trigger] m.contains_key(key) implies exists|i: int| 0 <= i < s.len() && s[i].0 == key by {
            if key == k {
                assert(s[s0.len() as int].0 == key);
            } else {
                assert(rest.contains_key(key));
                let i = choose|i: int| 0 <= i < s0.len() && s0[i].0 == key;
                assert(s[i] == s0[i]);
            }
        }
        s
    }
}

/// Every finite map of points has a time-ordered listing, so `listing(m)`
/// is one.
pub proof fn lemma_listing_exists(m: Map<i64, DataPoint>)
    requires
        m.dom().finite(),
    ensures
        is_sorted_listing(listing(m), m),
{
    let s = lemma_sorted_listing_witness(m);
    assert(is_sorted_listing(s, m));
}

/// The text of an optional name.
pub open spec fn label_view(label: Option<&String>) -> Option<Seq<char>> {
    match label {
        Some(n) => Some(n@),
        None => None,
    }
}

/// Writes the rows of the points `m` in time order, each after the name
/// `label` if there is one.
pub fn point_rows(label: Option<&String>, m: &BTreeMap<i64, DataPoint>) -> (rows: Vec<Vec<String>>)
    requires
        forall|k: i64| #[trigger] m@.contains_key(k) ==> timestamp_in_range(k as int),
    ensures
        rows.deep_view() == listing_rows(label_view(label), m@),
{
    let ghost lab = label_view(label);
    let mut rows: Vec<Vec<String>> = Vec::new();
    let ghost all = vstd::std_specs::btree::spec_btree_map_iter(m).remaining();
    let ghost listed = all.map_values(|kv: (&i64, &DataPoint)| (*kv.0, *kv.1));
    for (k, v) in it: m.iter()
        invariant
            it.seq() == all,
            all == vstd::std_specs::btree::spec_btree_map_iter(m).remaining(),
            listed == all.map_values(|kv: (&i64, &DataPoint)| (*kv.0, *kv.1)),
            forall|k: i64| #[trigger] m@.contains_key(k) ==> timestamp_in_range(k as int),
            rows.len() == it.index(),
            lab == label_view(label),
            forall|j: int| 0 <= j < rows.len() ==> #[trigger] rows@[j].deep_view() == row_text(lab, listed[j]),
    {
        let ghost j = rows.len() as int;
        assert(m@.contains_key(*all[j].0));
        let row: Vec<String> = match label {
            Some(name) => vec![name.clone(), rfc3339(*k), u128_to_decimal(v.value_up), u128_to_decimal(v.value_down)],
            None => vec![rfc3339(*k), u128_to_decimal(v.value_up), u128_to_decimal(v.value_down)],
        };
        assert(row.deep_view() =~= row_text(lab, listed[j]));
        rows.push(row);
    }
    proof {
        let keys = all.map_values(|kv: (&i64, &DataPoint)| *kv.0);
        lemma_increasing_keys(keys);
        assert forall|i: int, j: int| 0 <= i < j < listed.len() implies listed[i].0 < listed[j].0 by {
            assert(keys[i] == listed[i].0);
            assert(keys[j] == listed[j].0);
        }
        assert forall|i: int| 0 <= i < listed.len() implies m@.contains_key(#[trigger] listed[i].0) && m@[listed[i].0] == listed[i].1 by {
            assert(m@.contains_key(*all[i].0));
        }
        assert forall|k: i64| #[trigger] m@.contains_key(k) implies exists|i: int| 0 <= i < listed.len() && listed[i].0 == k by {
            assert(all.contains((&k, &m@[k])));
            let i = choose|i: int| 0 <= i < all.len() && all[i] == (&k, &m@[k]);
            assert(listed[i].0 == k);
        }
        assert(is_sorted_listing(listed, m@));
        lemma_sorted_listing_unique(listed, listing(m@), m@);
        assert(rows.deep_view() =~= listing_rows(lab, m@));
    }
    rows
}

/// The points of `m` taken at or after `start`, as a new map.
fn window_of(m: &BTreeMap<i64, DataPoint>, start: Moment) -> (r: BTreeMap<i64, DataPoint>)
    ensures
        r@ == window(m@, start),
{
    let mut r = BTreeMap::new();
    let ghost all = vstd::std_specs::btree::spec_btree_map_iter(m).remaining();
    for (k, v) in it: m.iter()
        invariant
            it.seq() == all,
            all == vstd::std_specs::btree::spec_btree_map_iter(m).remaining(),
            forall|k: i64| #[trigger] r@.contains_key(k) ==> at_or_after(k, start) && m@.contains_key(k) && r@[k] == m@[k],
            forall|j: int| 0 <= j < it.index() && at_or_after(*all[j].0, start) ==> r@.contains_key(#[trigger] *all[j].0),
    {
        if is_at_or_after(*k, start) {
            r.insert(*k, *v);
        }
    }
    proof {
        assert forall|k: i64| #[trigger] m@.contains_key(k) && at_or_after(k, start) implies r@.contains_key(k) by {
            assert(all.contains((&k, &m@[k])));
            let j = choose|j: int| 0 <= j < all.len() && all[j] == (&k, &m@[k]);
            assert(*all[j].0 == k);
        }
    }
    assert(r@ =~= window(m@, start));
    r
}


/// One named series: its name and its points by second.
#[derive(Clone)]
pub struct Track {
    name: String,
    points: BTreeMap<i64, DataPoint>,
}

/// Series by name, in the order their names were first recorded. A name
/// occurs at most once; every point's second is representable.
#[derive(Clone)]
pub struct NamedSeries {
    tracks: Vec<Track>,
}

/// The points of the series `name` in `store`, empty if there is none.
pub open spec fn points_in(store: Map<Seq<char>, Map<i64, DataPoint>>, name: Seq<char>) -> Map<i64, DataPoint> {
    if store.contains_key(name) { store[name] } else { Map::empty() }
}

/// The points of the series `name` after one more point `(ts, dp)`: a
/// point at the same second is replaced.
pub open spec fn with_point(
    store: Map<Seq<char>, Map<i64, DataPoint>>,
    name: Seq<char>,
    ts: i64,
    dp: DataPoint,
) -> Map<Seq<char>, Map<i64, DataPoint>> {
    store.insert(name, points_in(store, name).insert(ts, dp))
}

/// The list of names after `name` is recorded: appended if it is new.
pub open spec fn with_name(names: Seq<Seq<char>>, name: Seq<char>) -> Seq<Seq<char>> {
    if names.contains(name) { names } else { names.push(name) }
}

/// The rows that a save writes for the series `names` of `store`: for each
/// name in order, its points from `start` on, in time order.
pub open spec fn export_rows(
    names: Seq<Seq<char>>,
    store: Map<Seq<char>, Map<i64, DataPoint>>,
    start: Moment,
) -> Seq<Seq<Seq<char>>>
    decreases names.len(),
{
    if names.len() == 0 {
        seq![]
    } else {
        export_rows(names.drop_last(), store, start) + listing_rows(
            Some(names.last()),
            window(store[names.last()], start),
        )
    }
}

impl View for NamedSeries {
    type V = Map<Seq<char>, Map<i64, DataPoint>>;

    closed spec fn view(&self) -> Map<Seq<char>, Map<i64, DataPoint>> {
        Map::new(
            |k: Seq<char>| self.names().contains(k),
            |k: Seq<char>| self.tracks@[self.names().index_of(k)].points@,
        )
    }
}

impl NamedSeries {
    /// The names of the series, in the order they were first recorded.
    pub closed spec fn names(&self) -> Seq<Seq<char>> {
        self.tracks@.map_values(|t: Track| t.name@)
    }

    /// Names are distinct and every stored second is representable.
    pub closed spec fn wf(&self) -> bool {
        &&& self.names().no_duplicates()
        &&& forall|i: int, k: i64|
            0 <= i < self.tracks.len() && #[trigger] self.tracks@[i].points@.contains_key(k)
                ==> timestamp_in_range(k as int)
    }

    /// The points of the series `name`, empty if there is none.
    pub open spec fn points_of(&self, name: Seq<char>) -> Map<i64, DataPoint> {
        points_in(self@, name)
    }

    /// What well-formedness gives callers: the names are the keys of the
    /// view, each once, and every stored second is representable.
    pub proof fn lemma_wf(&self)
        requires
            self.wf(),
        ensures
            self.names().no_duplicates(),
            forall|k: Seq<char>| #[trigger] self@.contains_key(k) <==> self.names().contains(k),
            forall|k: Seq<char>, t: i64| #[trigger] self@.contains_key(k) && #[trigger] self@[k].contains_key(t)
                ==> timestamp_in_range(t as int),
    {
        assert forall|k: Seq<char>, t: i64| #[trigger] self@.contains_key(k) && #[trigger] self@[k].contains_key(t)
            implies timestamp_in_range(t as int) by {
            self.lemma_index_of(k);
        }
    }

    proof fn lemma_index_of(&self, k: Seq<char>)
        requires
            self.names().no_duplicates(),
            self.names().contains(k),
        ensures
            0 <= self.names().index_of(k) < self.tracks.len(),
            self.tracks@[self.names().index_of(k)].name@ == k,
            self@[k] == self.tracks@[self.names().index_of(k)].points@,
            forall|i: int| 0 <= i < self.tracks.len() && self.tracks@[i].name@ == k ==> i == self.names().index_of(k),
    {
        let i = self.names().index_of(k);
        assert(self.names()[i] == k);
        assert forall|j: int| 0 <= j < self.tracks.len() && self.tracks@[j].name@ == k implies j == i by {
            assert(self.names()[j] == k);
        }
    }

    /// An empty store.
    pub fn new() -> (s: Self)
        ensures
            s.wf(),
            s@ == Map::<Seq<char>, Map<i64, DataPoint>>::empty(),
            s.names() == Seq::<Seq<char>>::empty(),
    {
        let s = NamedSeries { tracks: Vec::new() };
        assert(s.names() =~= Seq::<Seq<char>>::empty());
        assert(s@ =~= Map::<Seq<char>, Map<i64, DataPoint>>::empty());
        s
    }

    /// The position of the series `name`, if there is one.
    fn find(&self, name: &String) -> (r: Option<usize>)
        requires
            self.wf(),
        ensures
            match r {
                Some(i) => i < self.tracks.len() && self.tracks@[i as int].name@ == name@
                    && self.names().contains(name@) && self.names().index_of(name@) == i,
                None => !self.names().contains(name@),
            },
    {
        let mut i: usize = 0;
        while i < self.tracks.len()
            invariant
                self.wf(),
                i <= self.tracks.len(),
                forall|j: int| 0 <= j < i ==> self.tracks@[j].name@ != name@,
            decreases self.tracks.len() - i,
        {
            if self.tracks[i].name == *name {
                proof {
                    assert(self.names().contains(name@)) by {
                        assert(self.names()[i as int] == name@);
                    }
                    self.lemma_index_of(name@);
                }
                return Some(i);
            }
            i = i + 1;
        }
        proof {
            if self.names().contains(name@) {
                let j = choose|j: int| 0 <= j < self.names().len() && self.names()[j] == name@;
                assert(self.tracks@[j].name@ == name@);
            }
        }
        None
    }

    /// Adds the point `dp` at second `ts` to the series `name`, replacing a
    /// point at the same second, and creating the series if it is new.
    pub fn record(&mut self, name: String, ts: i64, dp: DataPoint)
        requires
            old(self).wf(),
            timestamp_in_range(ts as int),
        ensures
            final(self).wf(),
            final(self)@ == with_point(old(self)@, name@, ts, dp),
            final(self).names() == with_name(old(self).names(), name@),
    {
        let ghost old_names = self.names();
        match self.find(&name) {
            Some(i) => {
                proof { self.lemma_index_of(name@); }
                self.tracks[i].points.insert(ts, dp);
                proof {
                    assert(self.names() =~= old_names);
                    self.lemma_index_of(name@);
                    assert forall|k: Seq<char>| #[trigger] self@.contains_key(k) implies self@[k] == with_point(old(self)@, name@, ts, dp)[k] by {
                        self.lemma_index_of(k);
                        old(self).lemma_index_of(k);
                    }
                    assert(self@ =~= with_point(old(self)@, name@, ts, dp));
                }
            },
            None => {
                let mut points = BTreeMap::new();
                points.insert(ts, dp);
                self.tracks.push(Track { name, points });
                proof {
                    assert(self.names() =~= old_names.push(name@));
                    assert(self.names().no_duplicates()) by {
                        assert forall|a: int, b: int| 0 <= a < b < self.names().len() implies self.names()[a] != self.names()[b] by {
                            if b == self.names().len() - 1 {
                                assert(old_names[a] == self.names()[a]);
                            } else {
                                assert(old_names[a] == self.names()[a]);
                                assert(old_names[b] == self.names()[b]);
                            }
                        }
                    }
                    assert(self.names()[old_names.len() as int] == name@);
                    self.lemma_index_of(name@);
                    assert forall|k: Seq<char>| #[trigger] self@.contains_key(k) implies self@[k] == with_point(old(self)@, name@, ts, dp)[k] by {
                        self.lemma_index_of(k);
                        if k != name@ {
                            assert(old_names.contains(k)) by {
                                let j = self.names().index_of(k);
                                assert(j < old_names.len());
                                assert(old_names[j] == k);
                            }
                            old(self).lemma_index_of(k);
                            assert(self.tracks@[old_names.index_of(k)] == old(self).tracks@[old_names.index_of(k)]);
                        }
                    }
                    assert forall|k: Seq<char>| #[trigger] with_point(old(self)@, name@, ts, dp).contains_key(k) implies self@.contains_key(k) by {
                        if k != name@ {
                            let j = old_names.index_of(k);
                            old(self).lemma_index_of(k);
                            assert(self.names()[j] == k);
                        }
                    }
                    assert(self@ =~= with_point(old(self)@, name@, ts, dp));
                }
            },
        }
    }

    /// The points of the series `name`, if there is one (a map lookup).
    pub fn get(&self, name: &str) -> (r: Option<&BTreeMap<i64, DataPoint>>)
        requires
            self.wf(),
        ensures
            match r {
                Some(m) => self@.contains_key(name@) && m@ == self@[name@],
                None => !self@.contains_key(name@),
            },
    {
        let key = String::from_str(name);
        match self.find(&key) {
            Some(i) => {
                proof { self.lemma_index_of(name@); }
                Some(&self.tracks[i].points)
            },
            None => None,
        }
    }

    /// The points of the series `name` taken at or after `start`; empty if
    /// there is no such series.
    pub fn subset(&self, name: &str, start: Moment) -> (r: BTreeMap<i64, DataPoint>)
        requires
            self.wf(),
        ensures
            r@ == window(self.points_of(name@), start),
    {
        match self.get(name) {
            Some(m) => window_of(m, start),
            None => {
                let r = BTreeMap::new();
                assert(r@ =~= window(self.points_of(name@), start));
                r
            },
        }
    }

    /// The names of the series, in the order they were first recorded.
    pub fn name_list(&self) -> (r: Vec<String>)
        ensures
            r.deep_view() == self.names(),
    {
        let mut r: Vec<String> = Vec::new();
        let mut i: usize = 0;
        while i < self.tracks.len()
            invariant
                i <= self.tracks.len(),
                r.deep_view() == self.names().take(i as int),
            decreases self.tracks.len() - i,
        {
            let ghost before = r.deep_view();
            let name = self.tracks[i].name.clone();
            r.push(name);
            assert(r.deep_view() =~= before.push(name@));
            assert(self.names()[i as int] == name@);
            assert(r.deep_view() =~= self.names().take(i + 1));
            i = i + 1;
        }
        assert(self.names().take(i as int) =~= self.names());
        r
    }

    /// The rows that saving the store from `start` on writes: for each
    /// series in name order, its points from `start` on in time order, as
    /// name, RFC 3339 time, bytes up, bytes down.
    pub fn export(&self, start: Moment) -> (rows: Vec<Vec<String>>)
        requires
            self.wf(),
        ensures
            rows.deep_view() == export_rows(self.names(), self@, start),
    {
        let mut rows: Vec<Vec<String>> = Vec::new();
        let mut i: usize = 0;
        assert(export_rows(self.names().take(0), self@, start) =~= Seq::<Seq<Seq<char>>>::empty());
        while i < self.tracks.len()
            invariant
                self.wf(),
                i <= self.tracks.len(),
                rows.deep_view() == export_rows(self.names().take(i as int), self@, start),
            decreases self.tracks.len() - i,
        {
            let window_points = window_of(&self.tracks[i].points, start);
            proof {
                assert forall|k: i64| #[trigger] window_points@.contains_key(k) implies timestamp_in_range(k as int) by {
                    assert(self.tracks@[i as int].points@.contains_key(k));
                }
            }
            let mut more = point_rows(Some(&self.tracks[i].name), &window_points);
            let ghost before = rows.deep_view();
            rows.append(&mut more);
            proof {
                let name = self.names()[i as int];
                assert(self.names().contains(name));
                self.lemma_index_of(name);
                assert(self.names().take(i + 1).drop_last() =~= self.names().take(i as int));
                assert(self.names().take(i + 1).last() == name);
                assert(rows.deep_view() =~= before + listing_rows(Some(name), window(self@[name], start)));
            }
            i = i + 1;
        }
        assert(self.names().take(i as int) =~= self.names());
        rows
    }
}


/// The last point recorded for each name: a map from names to points.
pub struct LatestPoints {
    entries: Vec<(String, DataPoint)>,
}

impl View for LatestPoints {
    type V = Map<Seq<char>, DataPoint>;

    closed spec fn view(&self) -> Map<Seq<char>, DataPoint> {
        Map::new(
            |k: Seq<char>| self.keys().contains(k),
            |k: Seq<char>| self.entries@[self.keys().index_of(k)].1,
        )
    }
}

impl LatestPoints {
    closed spec fn keys(&self) -> Seq<Seq<char>> {
        self.entries@.map_values(|e: (String, DataPoint)| e.0@)
    }

    /// Each name occurs once.
    pub closed spec fn wf(&self) -> bool {
        self.keys().no_duplicates()
    }

    proof fn lemma_index_of(&self, k: Seq<char>)
        requires
            self.wf(),
            self.keys().contains(k),
        ensures
            0 <= self.keys().index_of(k) < self.entries.len(),
            self.entries@[self.keys().index_of(k)].0@ == k,
            self@[k] == self.entries@[self.keys().index_of(k)].1,
    {
        let i = self.keys().index_of(k);
        assert(self.keys()[i] == k);
    }

    /// An empty map.
    pub fn new() -> (s: Self)
        ensures
            s.wf(),
            s@ == Map::<Seq<char>, DataPoint>::empty(),
    {
        let s = LatestPoints { entries: Vec::new() };
        assert(s@ =~= Map::<Seq<char>, DataPoint>::empty());
        s
    }

    fn find(&self, name: &String) -> (r: Option<usize>)
        requires
            self.wf(),
        ensures
            match r {
                Some(i) => i < self.entries.len() && self.keys().contains(name@)
                    && self.keys().index_of(name@) == i,
                None => !self.keys().contains(name@),
            },
    {
        let mut i: usize = 0;
        while i < self.entries.len()
            invariant
                self.wf(),
                i <= self.entries.len(),
                forall|j: int| 0 <= j < i ==> self.entries@[j].0@ != name@,
            decreases self.entries.len() - i,
        {
            if self.entries[i].0 == *name {
                proof {
                    assert(self.keys()[i as int] == name@);
                    assert(self.keys().contains(name@));
                    let j = self.keys().index_of(name@);
                    assert(self.keys()[j] == name@);
                }
                return Some(i);
            }
            i = i + 1;
        }
        proof {
            if self.keys().contains(name@) {
                let j = choose|j: int| 0 <= j < self.keys().len() && self.keys()[j] == name@;
                assert(self.entries@[j].0@ == name@);
            }
        }
        None
    }

    /// Sets the point of `name` to `dp` (a map insert).
    pub fn insert(&mut self, name: String, dp: DataPoint)
        requires
            old(self).wf(),
        ensures
            final(self).wf(),
            final(self)@ == old(self)@.insert(name@, dp),
    {
        let ghost old_keys = self.keys();
        match self.find(&name) {
            Some(i) => {
                self.entries.set(i, (name, dp));
                proof {
                    assert(self.keys() =~= old_keys);
                    assert forall|k: Seq<char>| #[trigger] self@.contains_key(k) implies self@[k] == old(self)@.insert(name@, dp)[k] by {
                        self.lemma_index_of(k);
                        old(self).lemma_index_of(k);
                    }
                    assert(self@ =~= old(self)@.insert(name@, dp));
                }
            },
            None => {
                self.entries.push((name, dp));
                proof {
                    assert(self.keys() =~= old_keys.push(name@));
                    assert(self.keys().no_duplicates()) by {
                        assert forall|a: int, b: int| 0 <= a < b < self.keys().len() implies self.keys()[a] != self.keys()[b] by {
                            assert(old_keys[a] == self.keys()[a]);
                            if b < old_keys.len() {
                                assert(old_keys[b] == self.keys()[b]);
                            }
                        }
                    }
                    assert(self.keys()[old_keys.len() as int] == name@);
                    assert forall|k: Seq<char>| #[trigger] self@.contains_key(k) implies self@[k] == old(self)@.insert(name@, dp)[k] by {
                        self.lemma_index_of(k);
                        if k != name@ {
                            let j = self.keys().index_of(k);
                            assert(old_keys[j] == k);
                            old(self).lemma_index_of(k);
                        }
                    }
                    assert forall|k: Seq<char>| #[trigger] old(self)@.insert(name@, dp).contains_key(k) implies self@.contains_key(k) by {
                        if k != name@ {
                            let j = old_keys.index_of(k);
                            old(self).lemma_index_of(k);
                            assert(self.keys()[j] == k);
                        }
                    }
                    assert(self@ =~= old(self)@.insert(name@, dp));
                }
            },
        }
    }

    /// The point of `name`, if any (a map lookup).
    pub fn get(&self, name: &String) -> (r: Option<DataPoint>)
        requires
            self.wf(),
        ensures
            match r {
                Some(dp) => self@.contains_key(name@) && dp == self@[name@],
                None => !self@.contains_key(name@),
            },
    {
        match self.find(name) {
            Some(i) => {
                proof { self.lemma_index_of(name@); }
                Some(self.entries[i].1)
            },
            None => None,
        }
    }
}

} // verus!
