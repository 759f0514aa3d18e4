//! The state of a tree of decisions as JSON.
use crate::hierarchical::{HierarchicalSpec, tree, tree_js};
use crate::hierarchical_state::{HierBucket, HierView, HierarchicalCapsuleState, fresh_portfolio, hier_map, hiers_wf};
use crate::json::{Js, Json, copy_json, empty_object, field_behind, fields, js, jss, no_fields, put, reals_js, reals_round_trip};
use crate::learning_memory::{default_stats_list, stats_views};
use crate::learning_stats::{OptionStats, Rounded, StatsView, default_stats, read_reals_at, reals_at, stats_js, stats_of_js, stats_round_trip, stats_valid};
use crate::meta_bandit::{BanditView, MetaBandit};
use crate::table::{Table, entries_map};
use vstd::prelude::*;
use vstd::string::StringExecFns;

verus! {

/// The statistics of a bucket as JSON, with rounded numbers for display.
pub open spec fn shown_stats(s: Seq<OptionStats>, r: Seq<Rounded>) -> Seq<Js> {
    Seq::new(
        s.len(),
        |i: int|
            stats_js(s[i], r[i], r[i].effective_tries, (r[i].posterior_mean, r[i].posterior_var)),
    )
}

/// A bucket as JSON. `meta` is its portfolio.
pub open spec fn hier_js(b: HierBucket, r: Seq<Rounded>, meta: Js) -> Js {
    Js::Obj(
        no_fields().push(("weights"@, reals_js(b.weights@))).push(
            ("stats"@, Js::Arr(shown_stats(b.stats@, r))),
        ).push(("metaBandit"@, meta)),
    )
}

fn hier_json(b: &HierBucket, r: &Vec<Rounded>, meta: &Json) -> (j: Json)
    requires
        r@.len() == b.stats@.len(),
    ensures
        js(j) == hier_js(*b, r@, js(*meta)),
{
    let mut a: Vec<Json> = Vec::new();
    let mut i: usize = 0;
    while i < b.stats.len()
        invariant
            i <= b.stats.len(),
            r@.len() == b.stats@.len(),
            a@.len() == i,
            forall|k: int| 0 <= k < i ==> js(#[trigger] a@[k]) == shown_stats(b.stats@, r@)[k],
        decreases b.stats.len() - i,
    {
        a.push(b.stats[i].to_json(&r[i], false));
        i = i + 1;
    }
    assert(jss(a@) =~= shown_stats(b.stats@, r@));
    let mut o = empty_object();
    put(&mut o, "weights", Json::reals(&b.weights));
    put(&mut o, "stats", Json::Arr(a));
    put(&mut o, "metaBandit", copy_json(meta));
    Json::Obj(o)
}

pub open spec fn hier_fields(
    s: Seq<(String, HierBucket)>,
    r: Seq<Vec<Rounded>>,
    metas: Seq<Js>,
    n: int,
) -> Seq<(Seq<char>, Js)>
    decreases n,
{
    if n <= 0 {
        no_fields()
    } else {
        hier_fields(s, r, metas, n - 1).push(
            (s[n - 1].0@, hier_js(s[n - 1].1, r[n - 1]@, metas[n - 1])),
        )
    }
}

/// The state as JSON.
pub open spec fn state_json(s: HierarchicalCapsuleState, r: Seq<Vec<Rounded>>, metas: Seq<Js>) -> Js {
    Js::Obj(
        no_fields().push(("spec"@, tree_js(tree(s.spec)))).push(
            (
                "buckets"@,
                Js::Obj(
                    hier_fields(s.buckets.entries@, r, metas, s.buckets.entries@.len() as int),
                ),
            ),
        ),
    )
}

/// The statistics that JSON holds, or fresh ones for each of `n` options.
pub open spec fn stats_listed(j: Js, n: nat) -> Seq<StatsView> {
    match j.array_at("stats"@) {
        Some(a) => a.map_values(|x: Js| stats_of_js(x)),
        None => Seq::new(n, |i: int| default_stats()),
    }
}

fn read_stats_listed(j: &Json, n: usize) -> (v: Vec<OptionStats>)
    ensures
        stats_views(v@) == stats_listed(js(*j), n as nat),
        forall|i: int| 0 <= i < v@.len() ==> (#[trigger] v@[i]).wf(),
{
    match j.array_at("stats") {
        Some(a) => {
            let ghost all = jss(a@);
            let mut v: Vec<OptionStats> = Vec::new();
            let mut i: usize = 0;
            while i < a.len()
                invariant
                    i <= a.len(),
                    all == jss(a@),
                    v@.len() == i,
                    forall|k: int|
                        0 <= k < i ==> (#[trigger] v@[k]).seen() == stats_of_js(all[k])
                            && v@[k].wf(),
                decreases a.len() - i,
            {
                assert(all[i as int] == js(a@[i as int]));
                v.push(OptionStats::from_json(&a[i]));
                i = i + 1;
            }
            assert(stats_views(v@) =~= all.map_values(|x: Js| stats_of_js(x)));
            v
        },
        None => default_stats_list(n),
    }
}

/// The buckets among the fields; `metas` are the portfolios that could be read.
/// A bucket without weights is left out, and one without a portfolio starts with
/// a fresh one.
pub open spec fn hiers_of(o: Seq<(Seq<char>, Js)>, metas: Seq<Option<BanditView>>) -> Map<
    Seq<char>,
    HierView,
>
    decreases o.len(),
{
    if o.len() == 0 {
        Map::empty()
    } else {
        let rest = hiers_of(o.drop_last(), metas);
        let weights = reals_at(o.last().1, "weights"@);
        if weights.len() == 0 {
            rest
        } else {
            rest.insert(
                o.last().0,
                HierView {
                    weights,
                    stats: stats_listed(o.last().1, weights.len()),
                    meta_bandit: match metas[o.len() - 1] {
                        Some(m) => m,
                        None => fresh_portfolio(),
                    },
                },
            )
        }
    }
}

pub open spec fn bandit_views(s: Seq<Option<MetaBandit>>) -> Seq<Option<BanditView>> {
    s.map_values(
        |m: Option<MetaBandit>|
            match m {
                Some(b) => Some(b.seen()),
                None => None,
            },
    )
}

/// The fields of the buckets.
pub open spec fn bucket_list(j: Js) -> Seq<(Seq<char>, Js)> {
    match j.object_at("buckets"@) {
        Some(o) => o,
        None => no_fields(),
    }
}

fn read_hiers(o: &Vec<(String, Json)>, metas: Vec<Option<MetaBandit>>) -> (t: Table<HierBucket>)
    requires
        metas@.len() == o@.len(),
    ensures
        hier_map(t@) == hiers_of(fields(o@), bandit_views(metas@)),
        t.wf(),
        hiers_wf(t@),
{
    let ghost all = fields(o@);
    let ghost given = metas@;
    let mut left = metas;
    let mut t: Table<HierBucket> = Table::new();
    let mut i: usize = 0;
    proof {
        assert(all.take(0) =~= no_fields());
        assert(hier_map(t@) =~= Map::<Seq<char>, HierView>::empty());
        assert(given.skip(0) =~= given);
    }
    while i < o.len()
        invariant
            i <= o.len(),
            all == fields(o@),
            given.len() == o@.len(),
            left@ == given.skip(i as int),
            t.wf(),
            hiers_wf(t@),
            hier_map(t@) == hiers_of(all.take(i as int), bandit_views(given)),
        decreases o.len() - i,
    {
        let ghost before = t@;
        let ghost key = o@[i as int].0@;
        assert(all.take(i + 1).drop_last() =~= all.take(i as int));
        assert(all.take(i + 1).last() == (key, js(o@[i as int].1)));
        let found = left.remove(0);
        assert(found == given[i as int]);
        assert(left@ =~= given.skip(i + 1));
        assert(bandit_views(given)[i as int] == (match found {
            Some(b) => Some(b.seen()),
            None => None,
        }));
        let weights = read_reals_at(&o[i].1, "weights");
        if weights.len() > 0 {
            let stats = read_stats_listed(&o[i].1, weights.len());
            let meta_bandit = match found {
                Some(m) => m,
                None => MetaBandit::new(),
            };
            let b = HierBucket { weights, stats, meta_bandit };
            t.insert(o[i].0.clone(), b);
            assert(hier_map(before.insert(key, b)) =~= hier_map(before).insert(key, b.seen()));
        }
        i = i + 1;
    }
    assert(all.take(i as int) =~= all);
    t
}

/// There are numbers for display of each option, and a portfolio of each bucket.
pub open spec fn shown_fits(
    s: Seq<(String, HierBucket)>,
    r: Seq<Vec<Rounded>>,
    metas: int,
) -> bool {
    &&& r.len() == s.len()
    &&& metas == s.len()
    &&& forall|i: int| 0 <= i < s.len() ==> (#[trigger] r[i])@.len() == s[i].1.stats@.len()
}

impl HierarchicalCapsuleState {
    /// The state as JSON. `rounded` holds numbers for display, `metas` the
    /// portfolios of the buckets.
    pub fn to_json(&self, rounded: &Vec<Vec<Rounded>>, metas: &Vec<Json>) -> (j: Json)
        requires
            shown_fits(self.buckets.entries@, rounded@, metas@.len() as int),
        ensures
            js(j) == state_json(*self, rounded@, jss(metas@)),
    {
        let mut b = empty_object();
        let mut i: usize = 0;
        while i < self.buckets.entries.len()
            invariant
                i <= self.buckets.entries.len(),
                shown_fits(self.buckets.entries@, rounded@, metas@.len() as int),
                fields(b@) == hier_fields(self.buckets.entries@, rounded@, jss(metas@), i as int),
            decreases self.buckets.entries.len() - i,
        {
            assert(rounded@[i as int]@.len() == self.buckets.entries@[i as int].1.stats@.len());
            assert(jss(metas@)[i as int] == js(metas@[i as int]));
            let e = &self.buckets.entries[i];
            put(&mut b, e.0.as_str(), hier_json(&e.1, &rounded[i], &metas[i]));
            i = i + 1;
        }
        let mut o = empty_object();
        put(&mut o, "spec", self.spec.to_json());
        put(&mut o, "buckets", Json::Obj(b));
        Json::Obj(o)
    }

    /// Reads a state from JSON. `spec` is what the field `spec` was read as,
    /// `metas` the portfolios of the buckets, as far as they could be read.
    pub fn from_json(
        j: &Json,
        spec: Result<HierarchicalSpec, String>,
        metas: Vec<Option<MetaBandit>>,
    ) -> (r: Result<Self, String>)
        requires
            metas@.len() == bucket_list(js(*j)).len(),
        ensures
            match (js(*j).get("spec"@), spec) {
                (None, _) => r is Err && r->Err_0@ == "missing 'spec' field"@,
                (Some(_), Err(e)) => r is Err && r->Err_0@ == e@,
                (Some(_), Ok(s)) => r is Ok && r->Ok_0.wf() && r->Ok_0.spec == s
                    && r->Ok_0.views() == hiers_of(bucket_list(js(*j)), bandit_views(metas@)),
            },
    {
        if j.get("spec").is_none() {
            return Err(String::from_str("missing 'spec' field"));
        }
        let s = match spec {
            Ok(s) => s,
            Err(e) => {
                return Err(e);
            },
        };
        let none = empty_object();
        let buckets = match j.object_at("buckets") {
            Some(o) => {
                assert(o@.len() == fields(o@).len());
                read_hiers(o, metas)
            },
            None => {
                assert(none@.len() == fields(none@).len());
                read_hiers(&none, metas)
            },
        };
        Ok(HierarchicalCapsuleState { spec: s, buckets })
    }
}

/// All that a bucket holds can be written.
pub open spec fn hier_valid(b: HierBucket, r: Seq<Rounded>) -> bool {
    &&& b.weights@.len() > 0
    &&& forall|i: int| 0 <= i < b.weights@.len() ==> (#[trigger] b.weights@[i]).spec_is_finite()
    &&& r.len() == b.stats@.len()
    &&& forall|i: int|
        0 <= i < b.stats@.len() ==> stats_valid(#[trigger] b.stats@[i]) && r[i].effective_tries
            == b.stats@[i].effective_tries && r[i].posterior_mean == b.stats@[i].posterior_mean
            && r[i].posterior_var == b.stats@[i].posterior_var
            && r[i].effective_tries.spec_is_finite() && r[i].posterior_mean.spec_is_finite()
            && r[i].posterior_var.spec_is_finite()
}

proof fn hier_is_read(b: HierBucket, r: Seq<Rounded>, meta: Js)
    requires
        hier_valid(b, r),
    ensures
        reals_at(hier_js(b, r, meta), "weights"@) == b.weights@,
        stats_listed(hier_js(b, r, meta), b.weights@.len()) == stats_views(b.stats@),
{
    broadcast use field_behind;

    reveal_strlit("weights");
    reveal_strlit("stats");
    reveal_strlit("metaBandit");
    assert("weights"@.len() == 7);
    assert("stats"@.len() == 5);
    assert("metaBandit"@.len() == 10);
    let j = hier_js(b, r, meta);
    let a = shown_stats(b.stats@, r);
    assert(j.get("weights"@) == Some(reals_js(b.weights@)));
    assert(j.get("stats"@) == Some(Js::Arr(a)));
    reals_round_trip(b.weights@);
    assert(a.map_values(|x: Js| stats_of_js(x)) =~= stats_views(b.stats@)) by {
        assert forall|i: int| 0 <= i < a.len() implies stats_of_js(#[trigger] a[i])
            == b.stats@[i].seen() by {
            assert(stats_valid(b.stats@[i]));
            stats_round_trip(
                b.stats@[i],
                r[i],
                r[i].effective_tries,
                (r[i].posterior_mean, r[i].posterior_var),
            );
        }
    }
}

proof fn hiers_are_read(
    s: Seq<(String, HierBucket)>,
    r: Seq<Vec<Rounded>>,
    metas: Seq<Js>,
    read: Seq<Option<BanditView>>,
    n: int,
)
    requires
        0 <= n <= s.len(),
        r.len() == s.len(),
        read.len() == s.len(),
        forall|i: int| 0 <= i < s.len() ==> hier_valid((#[trigger] s[i]).1, r[i]@),
        forall|i: int| 0 <= i < s.len() ==> #[trigger] read[i] == Some(s[i].1.meta_bandit.seen()),
    ensures
        hier_fields(s, r, metas, n).len() == n,
        hiers_of(hier_fields(s, r, metas, n), read) == hier_map(entries_map(s.take(n))),
    decreases n,
{
    if n > 0 {
        hiers_are_read(s, r, metas, read, n - 1);
        let f = hier_fields(s, r, metas, n);
        let e = s[n - 1];
        assert(f.drop_last() =~= hier_fields(s, r, metas, n - 1));
        assert(hier_valid(e.1, r[n - 1]@));
        hier_is_read(e.1, r[n - 1]@, metas[n - 1]);
        assert(read[n - 1] == Some(e.1.meta_bandit.seen()));
        assert(s.take(n).drop_last() =~= s.take(n - 1));
        assert(hier_map(entries_map(s.take(n))) =~= hier_map(entries_map(s.take(n - 1))).insert(
            e.0@,
            e.1.seen(),
        ));
    } else {
        assert(hier_map(entries_map(s.take(0))) =~= Map::<Seq<char>, HierView>::empty());
    }
}

/// The buckets of a valid state that is written as JSON are read back unchanged,
/// if their portfolios are, and the numbers for display are those that are kept.
pub proof fn state_buckets_round_trip(
    s: HierarchicalCapsuleState,
    r: Seq<Vec<Rounded>>,
    metas: Seq<Js>,
    read: Seq<Option<BanditView>>,
)
    requires
        r.len() == s.buckets.entries@.len(),
        read.len() == s.buckets.entries@.len(),
        forall|i: int|
            0 <= i < s.buckets.entries@.len() ==> hier_valid(
                (#[trigger] s.buckets.entries@[i]).1,
                r[i]@,
            ),
        forall|i: int|
            0 <= i < s.buckets.entries@.len() ==> #[trigger] read[i] == Some(
                s.buckets.entries@[i].1.meta_bandit.seen(),
            ),
    ensures
        state_json(s, r, metas).get("spec"@) == Some(tree_js(tree(s.spec))),
        hiers_of(bucket_list(state_json(s, r, metas)), read) == s.views(),
{
    broadcast use field_behind;

    reveal_strlit("spec");
    reveal_strlit("buckets");
    assert("spec"@.len() == 4);
    assert("buckets"@.len() == 7);
    let e = s.buckets.entries@;
    let j = state_json(s, r, metas);
    assert(j.get("spec"@) == Some(tree_js(tree(s.spec))));
    assert(j.get("buckets"@) == Some(Js::Obj(hier_fields(e, r, metas, e.len() as int))));
    hiers_are_read(e, r, metas, read, e.len() as int);
    assert(e.take(e.len() as int) =~= e);
}

} // verus!
