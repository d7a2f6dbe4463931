//! Planting recommendations: the products of a region with the highest
//! average recent forecast demand.
use super::error::ContractError;
use super::storage::{self, forecast_of, product_of, region_ids, ProductView, Product};
use super::{ForecastingState, MarketDemandForecastingContract, REGION_READ_LIMIT};
use soroban_sdk::xdr::{FromXdr, ToXdr};
use crate::common::{
    trunc_div,
    first_match, is_first_match, lemma_first_match_at, lemma_first_match_none, lemma_first_match_some, Bytes32,
};
use vstd::prelude::*;

verus! {

#[verifier::external_type_specification]
#[verifier::external_body]
#[verifier::reject_recursive_types(K)]
#[verifier::reject_recursive_types(V)]
pub struct ExSorobanMap<K, V>(soroban_sdk::Map<K, V>);

#[verifier::external_type_specification]
#[verifier::external_body]
pub struct ExSorobanBytesN<const N: usize>(soroban_sdk::BytesN<N>);

#[verifier::external_type_specification]
#[verifier::external_body]
#[verifier::reject_recursive_types(T)]
pub struct ExSorobanVec<T>(soroban_sdk::Vec<T>);

/// The ledger map from product identifiers to the demands forecast for them.
pub type DemandMap = soroban_sdk::Map<soroban_sdk::BytesN<32>, soroban_sdk::Vec<i128>>;

/// The entries of a demand map: each product's demands, in the order added.
pub uninterp spec fn demand_entries(m: DemandMap) -> Map<Bytes32, Seq<i128>>;

/// Identifiers ordered as their 32 bytes are, most significant first.
pub open spec fn id_lt(a: Bytes32, b: Bytes32) -> bool {
    a.hi < b.hi || (a.hi == b.hi && a.lo < b.lo)
}

/// The most entries and demands, counted together, that a demand map may hold
/// when one of its operations below is called.  Each operation first moves
/// the map into a ledger environment of its own, so that the host meters no
/// more than this move and the operation itself; at this size both stay far
/// inside the host's default budget.
pub const DEMAND_LOAD_LIMIT: usize = 1024;

/// The entries and demands that `m` holds under the identifiers `ks`: one
/// for each entry and one for each demand.
pub open spec fn load_of(ks: Seq<Bytes32>, m: Map<Bytes32, Seq<i128>>) -> nat
    decreases ks.len(),
{
    if ks.len() == 0 {
        0
    } else {
        load_of(ks.drop_last(), m) + m[ks.last()].len() + 1
    }
}

/// `m` holds at most `limit` entries and demands, counted together.
pub open spec fn load_within(m: Map<Bytes32, Seq<i128>>, limit: nat) -> bool {
    exists|ks: Seq<Bytes32>|
        #[trigger] load_of(ks, m) <= limit && ks.no_duplicates() && forall|k: Bytes32|
            m.contains_key(k) <==> ks.contains(k)
}

/// `soroban_sdk::Map::new`, on a ledger environment of its own.  Claimed: the
/// map has no entries.
#[verifier::external_body]
fn demands_new() -> (fresh: DemandMap)
    ensures
        demand_entries(fresh) =~= Map::empty(),
{
    let env = soroban_sdk::Env::default();
    soroban_sdk::Map::new(&env)
}

/// `soroban_sdk::Map::get`, the identifier taken as its 32 bytes, most
/// significant first, after the map is carried into a fresh ledger
/// environment through its XDR encoding (`to_xdr`, then `from_xdr`), which
/// gives back the same entries.  Claimed: the entries are unchanged, and the
/// result is the demands stored under the product, if any.
#[verifier::external_body]
fn demands_get(m: &mut DemandMap, product_id: Bytes32) -> (r: Option<Vec<i128>>)
    requires
        load_within(demand_entries(*old(m)), DEMAND_LOAD_LIMIT as nat),
    ensures
        demand_entries(*final(m)) == demand_entries(*old(m)),
        match r {
            Some(v) => demand_entries(*old(m)).contains_key(product_id) && v@ == demand_entries(*old(m))[product_id],
            None => !demand_entries(*old(m)).contains_key(product_id),
        },
{
    let env = soroban_sdk::Env::default();
    let encoded = m.clone().to_xdr(m.env());
    let mut bytes = vec![0u8; encoded.len() as usize];
    encoded.copy_into_slice(&mut bytes);
    *m = DemandMap::from_xdr(&env, &soroban_sdk::Bytes::from_slice(&env, &bytes)).unwrap();
    let mut id = [0u8; 32];
    id[..16].copy_from_slice(&product_id.hi.to_be_bytes());
    id[16..].copy_from_slice(&product_id.lo.to_be_bytes());
    match m.get(soroban_sdk::BytesN::from_array(&env, &id)) {
        Some(v) => Some(v.iter().collect()),
        None => None,
    }
}

/// `soroban_sdk::Map::set`, after the map is carried into a fresh ledger
/// environment as in [`demands_get`].  Claimed: the product's demands are
/// replaced, every other entry is kept.
#[verifier::external_body]
fn demands_set(m: &mut DemandMap, product_id: Bytes32, demands: &Vec<i128>)
    requires
        load_within(demand_entries(*old(m)), DEMAND_LOAD_LIMIT as nat),
        demands@.len() <= DEMAND_LOAD_LIMIT,
    ensures
        demand_entries(*final(m)) == demand_entries(*old(m)).insert(product_id, demands@),
{
    let env = soroban_sdk::Env::default();
    let encoded = m.clone().to_xdr(m.env());
    let mut bytes = vec![0u8; encoded.len() as usize];
    encoded.copy_into_slice(&mut bytes);
    *m = DemandMap::from_xdr(&env, &soroban_sdk::Bytes::from_slice(&env, &bytes)).unwrap();
    let mut id = [0u8; 32];
    id[..16].copy_from_slice(&product_id.hi.to_be_bytes());
    id[16..].copy_from_slice(&product_id.lo.to_be_bytes());
    m.set(soroban_sdk::BytesN::from_array(&env, &id), soroban_sdk::Vec::from_slice(&env, demands.as_slice()));
}

/// `soroban_sdk::Map::is_empty`, after the map is carried into a fresh ledger
/// environment as in [`demands_get`].  Claimed: the entries are unchanged,
/// and the result is true exactly when there is none.
#[verifier::external_body]
fn demands_is_empty(m: &mut DemandMap) -> (b: bool)
    requires
        load_within(demand_entries(*old(m)), DEMAND_LOAD_LIMIT as nat),
    ensures
        demand_entries(*final(m)) == demand_entries(*old(m)),
        b == (demand_entries(*old(m)) =~= Map::empty()),
{
    let env = soroban_sdk::Env::default();
    let encoded = m.clone().to_xdr(m.env());
    let mut bytes = vec![0u8; encoded.len() as usize];
    encoded.copy_into_slice(&mut bytes);
    *m = DemandMap::from_xdr(&env, &soroban_sdk::Bytes::from_slice(&env, &bytes)).unwrap();
    m.is_empty()
}

/// `soroban_sdk::Map::iter`, each key read back as an identifier, after the
/// map is carried into a fresh ledger environment as in [`demands_get`].
/// Claimed, as the map's documentation promises and as the ledger compares
/// byte strings: the entries are unchanged, and every entry comes once, in
/// ascending order of the keys' bytes.
#[verifier::external_body]
fn demands_entries(m: &mut DemandMap) -> (r: Vec<(Bytes32, Vec<i128>)>)
    requires
        load_within(demand_entries(*old(m)), DEMAND_LOAD_LIMIT as nat),
    ensures
        demand_entries(*final(m)) == demand_entries(*old(m)),
        forall|i: int, j: int| 0 <= i < j < r@.len() ==> id_lt(#[trigger] r@[i].0, #[trigger] r@[j].0),
        forall|i: int| 0 <= i < r@.len() ==> demand_entries(*old(m)).contains_key(#[trigger] r@[i].0)
            && r@[i].1@ == demand_entries(*old(m))[r@[i].0],
        forall|k: Bytes32| demand_entries(*old(m)).contains_key(k) ==> exists|i: int| 0 <= i < r@.len() && #[trigger] r@[i].0 == k,
{
    let env = soroban_sdk::Env::default();
    let encoded = m.clone().to_xdr(m.env());
    let mut bytes = vec![0u8; encoded.len() as usize];
    encoded.copy_into_slice(&mut bytes);
    *m = DemandMap::from_xdr(&env, &soroban_sdk::Bytes::from_slice(&env, &bytes)).unwrap();
    let mut r = Vec::new();
    for (key, demands) in m.iter() {
        let b = key.to_array();
        let hi = u128::from_be_bytes(b[..16].try_into().unwrap());
        r.push((Bytes32 { hi, lo: u128::from_be_bytes(b[16..].try_into().unwrap()) }, demands.iter().collect()));
    }
    r
}

/// Two listings of the same identifiers on which two maps agree hold the same load.
proof fn lemma_load_agree(ks: Seq<Bytes32>, m1: Map<Bytes32, Seq<i128>>, m2: Map<Bytes32, Seq<i128>>)
    requires
        forall|i: int| 0 <= i < ks.len() ==> m1[#[trigger] ks[i]] == m2[ks[i]],
    ensures
        load_of(ks, m1) == load_of(ks, m2),
    decreases ks.len(),
{
    if ks.len() > 0 {
        let rest = ks.drop_last();
        assert forall|i: int| 0 <= i < rest.len() implies m1[#[trigger] rest[i]] == m2[rest[i]] by {
            assert(rest[i] == ks[i]);
        }
        assert(m1[ks[ks.len() - 1]] == m2[ks[ks.len() - 1]]);
        lemma_load_agree(rest, m1, m2);
    }
}

/// Giving a listed product one more demand adds one to the load.
proof fn lemma_load_bump(ks: Seq<Bytes32>, m: Map<Bytes32, Seq<i128>>, k: Bytes32, v: Seq<i128>)
    requires
        ks.no_duplicates(),
        ks.contains(k),
        v.len() == m[k].len() + 1,
    ensures
        load_of(ks, m.insert(k, v)) == load_of(ks, m) + 1,
    decreases ks.len(),
{
    let rest = ks.drop_last();
    let last = ks.len() - 1;
    if ks[last] == k {
        assert forall|i: int| 0 <= i < rest.len() implies m[#[trigger] rest[i]] == m.insert(k, v)[rest[i]] by {
            assert(rest[i] == ks[i]);
            assert(ks[i] != ks[last]);
        }
        lemma_load_agree(rest, m, m.insert(k, v));
    } else {
        let j = choose|j: int| 0 <= j < ks.len() && ks[j] == k;
        assert(rest[j] == k);
        assert(rest.no_duplicates()) by {
            assert forall|a: int, b: int| 0 <= a < rest.len() && 0 <= b < rest.len() && a != b implies rest[a] != rest[b] by {
                assert(rest[a] == ks[a] && rest[b] == ks[b]);
            }
        }
        lemma_load_bump(rest, m, k, v);
    }
}

/// A product identifier with the average of its recent demands.
pub type RankedProduct = (Bytes32, i128);

/// The entries of `s` are ordered by demand, highest first.
pub open spec fn descending(s: Seq<RankedProduct>) -> bool {
    forall|p: int, q: int| 0 <= p < q < s.len() ==> (#[trigger] s[p]).1 >= (#[trigger] s[q]).1
}

pub open spec fn below(v: i128) -> spec_fn(RankedProduct) -> bool {
    |e: RankedProduct| e.1 < v
}

/// Where an entry of demand `v` goes in a list ordered highest first: after
/// every entry of at least that demand.
pub open spec fn insert_position(s: Seq<RankedProduct>, v: i128) -> int {
    match first_match(s, below(v)) {
        Some(k) => k,
        None => s.len() as int,
    }
}

/// `s` ordered by demand, highest first, entries of equal demand in the order
/// they come in `s`.
pub open spec fn sort_desc(s: Seq<RankedProduct>) -> Seq<RankedProduct>
    decreases s.len(),
{
    if s.len() == 0 {
        s
    } else {
        let t = sort_desc(s.drop_last());
        t.insert(insert_position(t, s.last().1), s.last())
    }
}

/// Ordering by demand gives a list ordered highest first, with the same entries.
pub proof fn lemma_sort_desc(s: Seq<RankedProduct>)
    ensures
        descending(sort_desc(s)),
        sort_desc(s).len() == s.len(),
        sort_desc(s).to_multiset() == s.to_multiset(),
    decreases s.len(),
{
    broadcast use vstd::seq_lib::group_to_multiset_ensures;
    if s.len() > 0 {
        let t = sort_desc(s.drop_last());
        let x = s.last();
        lemma_sort_desc(s.drop_last());
        let p = insert_position(t, x.1);
        match first_match(t, below(x.1)) {
            Some(k) => {
                let k2 = choose|i: int| is_first_match(t, below(x.1), i);
                assert(is_first_match(t, below(x.1), k2));
                assert(0 <= p < t.len());
                assert(t[p].1 < x.1);
                assert(forall|q: int| 0 <= q < p ==> !below(x.1)(#[trigger] t[q]));
            },
            None => {
                if exists|i: int| 0 <= i < t.len() && below(x.1)(#[trigger] t[i]) {
                    let i = choose|i: int| 0 <= i < t.len() && below(x.1)(#[trigger] t[i]);
                    assert(false) by {
                        lemma_first_match_some(t, below(x.1), i);
                    }
                }
                assert(p == t.len());
            },
        }
        t.insert_ensures(p, x);
        let u = t.insert(p, x);
        assert forall|a: int, b: int| 0 <= a < b < u.len() implies (#[trigger] u[a]).1 >= (#[trigger] u[b]).1 by {
            if b < p {
            } else if b == p {
                assert(!below(x.1)(t[a]));
            } else if a < p {
                assert(u[b] == t[b - 1]);
            } else if a == p {
                assert(u[b] == t[b - 1]);
                assert(t[p].1 < x.1);
                assert(t[p].1 >= t[b - 1].1 || p == b - 1);
            } else {
                assert(u[a] == t[a - 1]);
                assert(u[b] == t[b - 1]);
            }
        }
        assert(s == s.drop_last().push(x));
        vstd::seq_lib::to_multiset_insert(t, p, x);
        vstd::seq_lib::to_multiset_build(s.drop_last(), x);
    }
}

/// Orders the products by average demand, highest first, keeping the order
/// of equal averages, by insertion: each entry in turn is moved left past the
/// entries of lower demand before it.
#[verifier::rlimit(40)]
pub fn sort_by_demand(a: &mut Vec<RankedProduct>)
    ensures
        final(a)@ == sort_desc(old(a)@),
{
    let ghost orig = a@;
    let len = a.len();
    if len > 1 {
        proof { lemma_sort_desc_short(orig.take(1)); }
        let mut i: usize = 1;
        while i < len
            invariant
                1 <= i <= len,
                len == orig.len(),
                a@.len() == len,
                a@.take(i as int) == sort_desc(orig.take(i as int)),
                a@.skip(i as int) == orig.skip(i as int),
            decreases len - i,
        {
            let ghost sorted = sort_desc(orig.take(i as int));
            proof {
                lemma_sort_desc(orig.take(i as int));
                assert(a@[i as int] == orig.skip(i as int)[0]);
            }
            let key = a[i];
            assert(key == orig[i as int]);
            assert forall|t: int| 0 <= t < i implies a@[t] == sorted[t] by {
                assert(a@.take(i as int)[t] == a@[t]);
            }
            assert forall|t: int| 0 <= t < orig.skip(i + 1).len() implies #[trigger] a@.skip(i + 1)[t] == orig.skip(i + 1)[t] by {
                assert(a@.skip(i as int)[t + 1] == orig.skip(i as int)[t + 1]);
            }
            assert(a@.skip(i + 1) =~= orig.skip(i + 1));
            let mut j: usize = i - 1;
            while a[j].1 < key.1
                invariant_except_break
                    j < i,
                    i < len,
                    a@.len() == len,
                    sorted.len() == i,
                    descending(sorted),
                    forall|t: int| 0 <= t <= j ==> a@[t] == sorted[t],
                    a@[j + 1] == (if j + 1 == i { key } else { sorted[j + 1] }),
                    forall|t: int| j + 2 <= t <= i ==> a@[t] == sorted[t - 1],
                    forall|t: int| j + 1 <= t < i ==> (#[trigger] sorted[t]).1 < key.1,
                    a@.skip(i + 1) == orig.skip(i + 1),
                ensures
                    j < i,
                    a@.len() == len,
                    a@.skip(i + 1) == orig.skip(i + 1),
                    forall|t: int| 0 <= t <= j ==> a@[t] == sorted[t],
                    forall|t: int| j + 2 <= t <= i ==> a@[t] == sorted[t - 1],
                    forall|t: int| j + 1 <= t < i ==> (#[trigger] sorted[t]).1 < key.1,
                    a@[j as int].1 < key.1 ==> j == 0 && a@[1] == sorted[0] && sorted[0].1 < key.1,
                    !(a@[j as int].1 < key.1) ==> a@[j + 1] == (if j + 1 == i { key } else { sorted[j + 1] }),
                decreases j,
            {
                let val = a[j];
                a.set(j + 1, val);
                assert(a@.skip(i + 1) =~= orig.skip(i + 1));
                if j == 0 {
                    break;
                }
                j -= 1;
            }
            let ghost pos: int = if a@[j as int].1 < key.1 { 0 } else { j + 1 };
            proof {
                assert forall|q: int| 0 <= q < pos implies !below(key.1)(#[trigger] sorted[q]) by {
                    if q < j {
                        assert(sorted[q].1 >= sorted[j as int].1);
                    }
                }
                if pos < i {
                    assert(is_first_match(sorted, below(key.1), pos));
                    lemma_first_match_at(sorted, below(key.1), pos);
                } else {
                    lemma_first_match_none(sorted, below(key.1));
                }
            }
            if a[j].1 < key.1 {
                a.set(j, key);
            } else {
                a.set(j + 1, key);
            }
            proof {
                sorted.insert_ensures(pos, key);
                assert(orig.take(i + 1 as int).drop_last() =~= orig.take(i as int));
                assert(a@.take(i + 1 as int) =~= sorted.insert(pos, key));
                assert(a@.skip(i + 1 as int) =~= orig.skip(i + 1 as int));
            }
            i += 1;
        }
        assert(a@ =~= a@.take(len as int));
        assert(orig =~= orig.take(len as int));
    } else {
        proof { lemma_sort_desc_short(orig); }
    }
}

/// A list of at most one entry is already ordered.
proof fn lemma_sort_desc_short(s: Seq<RankedProduct>)
    requires
        s.len() <= 1,
    ensures
        sort_desc(s) == s,
{
    if s.len() == 1 {
        let e = Seq::<RankedProduct>::empty();
        assert(s.drop_last() =~= e);
        assert(sort_desc(e) == e);
        lemma_first_match_none(e, below(s.last().1));
        assert(insert_position(e, s.last().1) == 0);
        assert(e.insert(0, s.last()) =~= s);
    }
}

/// The earliest time a forecast may have to count as recent: `days` days
/// before `now`, or the beginning of time.
pub open spec fn cutoff_time(now: u64, days: u64) -> u64 {
    if now >= days * 86400 { (now - days * 86400) as u64 } else { 0 }
}

/// The demands of the recent forecasts among `ids` that are stored, grouped
/// by product, each product's in the order of `ids`.
pub open spec fn recent_demands(s: ForecastingState, ids: Seq<Bytes32>, cutoff: u64) -> Map<Bytes32, Seq<i128>>
    decreases ids.len(),
{
    if ids.len() == 0 {
        Map::empty()
    } else {
        let m = recent_demands(s, ids.drop_last(), cutoff);
        match forecast_of(s, ids.last()) {
            Some(f) => if f.timestamp >= cutoff {
                let before = if m.contains_key(f.product_id) { m[f.product_id] } else { Seq::empty() };
                m.insert(f.product_id, before.push(f.predicted_demand))
            } else {
                m
            },
            None => m,
        }
    }
}

/// The identifiers are in ascending order.
pub open spec fn ascending(ks: Seq<Bytes32>) -> bool {
    forall|i: int, j: int| 0 <= i < j < ks.len() ==> id_lt(#[trigger] ks[i], #[trigger] ks[j])
}

/// `ks` lists the products of `m`, each once, in ascending order.
pub open spec fn lists_keys(ks: Seq<Bytes32>, m: Map<Bytes32, Seq<i128>>) -> bool {
    &&& ascending(ks)
    &&& forall|i: int| 0 <= i < ks.len() ==> m.contains_key(#[trigger] ks[i])
    &&& forall|k: Bytes32| m.contains_key(k) ==> ks.contains(k)
}

/// The products of `m` in ascending order of their identifiers.
pub open spec fn key_order(m: Map<Bytes32, Seq<i128>>) -> Seq<Bytes32> {
    choose|ks: Seq<Bytes32>| lists_keys(ks, m)
}

/// The sum of a list of demands.
pub open spec fn demand_sum(d: Seq<i128>) -> int
    decreases d.len(),
{
    if d.len() == 0 { 0 } else { demand_sum(d.drop_last()) + d.last() }
}

/// The average of a list of demands, rounded toward zero.
pub open spec fn average(d: Seq<i128>) -> i128 {
    trunc_div(demand_sum(d), d.len() as int) as i128
}

/// Each product of `ks` that has demands in `m`, with their average, in the order of `ks`.
pub open spec fn averaged(ks: Seq<Bytes32>, m: Map<Bytes32, Seq<i128>>) -> Seq<RankedProduct>
    decreases ks.len(),
{
    if ks.len() == 0 {
        Seq::empty()
    } else {
        let rest = averaged(ks.drop_last(), m);
        if m[ks.last()].len() > 0 { rest.push((ks.last(), average(m[ks.last()]))) } else { rest }
    }
}

/// The stored products among the first `n` ranked, in rank order.
pub open spec fn top_products(s: ForecastingState, ranked: Seq<RankedProduct>, n: nat) -> Seq<ProductView>
    decreases n,
{
    if n == 0 || n > ranked.len() {
        Seq::empty()
    } else {
        let rest = top_products(s, ranked, (n - 1) as nat);
        match product_of(s, ranked[n - 1].0) {
            Some(p) => rest.push(p),
            None => rest,
        }
    }
}

/// The products ranked by their average recent demand in a region, highest
/// first, ties in ascending order of identifier.
pub open spec fn ranking(s: ForecastingState, region: Seq<char>, days: u64, now: u64) -> Seq<RankedProduct> {
    let m = recent_demands(s, region_ids(s.region_forecasts, region), cutoff_time(now, days));
    sort_desc(averaged(key_order(m), m))
}

/// The recommended products of a region: the first five of the ranking.
pub open spec fn recommendation_of(s: ForecastingState, region: Seq<char>, days: u64, now: u64) -> Seq<ProductView> {
    let ranked = ranking(s, region, days, now);
    top_products(s, ranked, if ranked.len() < 5 { ranked.len() } else { 5 })
}

/// The region lists few enough forecasts to read, and the time window and
/// every product's running sum of demands fit.
pub open spec fn recommend_fits(s: ForecastingState, region: Seq<char>, days: u64, now: u64) -> bool {
    let m = recent_demands(s, region_ids(s.region_forecasts, region), cutoff_time(now, days));
    &&& region_ids(s.region_forecasts, region).len() <= REGION_READ_LIMIT
    &&& days * 86400 <= u64::MAX
    &&& forall|k: Bytes32, n: int| m.contains_key(k) && 0 <= n <= m[k].len() ==> i128::MIN <= #[trigger] demand_sum(
        m[k].take(n),
    ) <= i128::MAX
}

/// Two ascending lists with the same identifiers are the same list.
pub proof fn lemma_ascending_unique(a: Seq<Bytes32>, b: Seq<Bytes32>)
    requires
        ascending(a),
        ascending(b),
        forall|x: Bytes32| a.contains(x) <==> b.contains(x),
    ensures
        a == b,
    decreases a.len(),
{
    if a.len() == 0 {
        if b.len() > 0 {
            assert(b.contains(b[0]));
        }
        assert(a =~= b);
    } else {
        assert(a.contains(a[0]));
        assert(b.len() > 0);
        assert(b.contains(b[0]));
        let k = choose|k: int| 0 <= k < a.len() && a[k] == b[0];
        let l = choose|l: int| 0 <= l < b.len() && b[l] == a[0];
        if k > 0 && l > 0 {
            assert(id_lt(a[0], a[k]));
            assert(id_lt(b[0], b[l]));
            assert(false);
        }
        assert(a[0] == b[0]);
        let a1 = a.drop_first();
        let b1 = b.drop_first();
        assert forall|x: Bytes32| a1.contains(x) <==> b1.contains(x) by {
            if a1.contains(x) {
                let i = choose|i: int| 0 <= i < a1.len() && a1[i] == x;
                assert(a[i + 1] == x);
                assert(id_lt(a[0], a[i + 1]));
                assert(b.contains(x));
                let j = choose|j: int| 0 <= j < b.len() && b[j] == x;
                assert(j != 0);
                assert(b1[j - 1] == x);
            }
            if b1.contains(x) {
                let i = choose|i: int| 0 <= i < b1.len() && b1[i] == x;
                assert(b[i + 1] == x);
                assert(id_lt(b[0], b[i + 1]));
                assert(a.contains(x));
                let j = choose|j: int| 0 <= j < a.len() && a[j] == x;
                assert(j != 0);
                assert(a1[j - 1] == x);
            }
        }
        assert forall|i: int, j: int| 0 <= i < j < a1.len() implies id_lt(#[trigger] a1[i], #[trigger] a1[j]) by {
            assert(a1[i] == a[i + 1] && a1[j] == a[j + 1]);
        }
        assert forall|i: int, j: int| 0 <= i < j < b1.len() implies id_lt(#[trigger] b1[i], #[trigger] b1[j]) by {
            assert(b1[i] == b[i + 1] && b1[j] == b[j + 1]);
        }
        lemma_ascending_unique(a1, b1);
        assert(a =~= b) by {
            assert forall|i: int| 0 <= i < a.len() implies a[i] == b[i] by {
                if i > 0 {
                    assert(a[i] == a1[i - 1]);
                    assert(b[i] == b1[i - 1]);
                }
            }
        }
    }
}

/// A listing of the products of `m` is their order.
pub proof fn lemma_key_order(ks: Seq<Bytes32>, m: Map<Bytes32, Seq<i128>>)
    requires
        lists_keys(ks, m),
    ensures
        key_order(m) == ks,
{
    let o = key_order(m);
    assert(lists_keys(o, m));
    assert forall|x: Bytes32| o.contains(x) <==> ks.contains(x) by {
        if o.contains(x) {
            let i = choose|i: int| 0 <= i < o.len() && o[i] == x;
            assert(m.contains_key(o[i]));
        }
        if ks.contains(x) {
            let i = choose|i: int| 0 <= i < ks.len() && ks[i] == x;
            assert(m.contains_key(ks[i]));
        }
    }
    lemma_ascending_unique(o, ks);
}

/// The views of a list of products.
pub open spec fn product_views(v: Seq<Product>) -> Seq<ProductView> {
    v.map_values(|p: Product| p@)
}

/// The average of a non-empty list of demands, rounded toward zero.
pub fn average_demand(demands: &Vec<i128>) -> (avg: i128)
    requires
        demands@.len() > 0,
        forall|n: int| 0 <= n <= demands@.len() ==> i128::MIN <= #[trigger] demand_sum(demands@.take(n)) <= i128::MAX,
    ensures
        avg == average(demands@),
{
    let mut sum: i128 = 0;
    let mut k: usize = 0;
    while k < demands.len()
        invariant
            k <= demands@.len(),
            forall|n: int| 0 <= n <= demands@.len() ==> i128::MIN <= #[trigger] demand_sum(demands@.take(n)) <= i128::MAX,
            sum == demand_sum(demands@.take(k as int)),
        decreases demands@.len() - k,
    {
        assert(demands@.take(k + 1 as int).drop_last() == demands@.take(k as int));
        assert(i128::MIN <= demand_sum(demands@.take(k + 1 as int)) <= i128::MAX);
        sum = sum + demands[k];
        k += 1;
    }
    assert(demands@.take(demands@.len() as int) == demands@);
    let count = demands.len() as i128;
    sum / count
}

/// The demands of the forecasts among `forecast_ids` made at `cutoff` or
/// later, grouped by product in a ledger map; the map holds at most two
/// entries and demands for each forecast read.
fn group_recent(state: &MarketDemandForecastingContract, forecast_ids: &Vec<Bytes32>, cutoff: u64) -> (recent: DemandMap)
    requires
        forecast_ids@.len() <= REGION_READ_LIMIT,
    ensures
        demand_entries(recent) == recent_demands(state@, forecast_ids@, cutoff),
        load_within(demand_entries(recent), DEMAND_LOAD_LIMIT as nat),
{
    let mut recent = demands_new();
    let ghost mut ks: Seq<Bytes32> = Seq::empty();
    let mut i: usize = 0;
    while i < forecast_ids.len()
        invariant
            i <= forecast_ids@.len() <= REGION_READ_LIMIT,
            demand_entries(recent) == recent_demands(state@, forecast_ids@.take(i as int), cutoff),
            ks.no_duplicates(),
            forall|k: Bytes32| demand_entries(recent).contains_key(k) <==> ks.contains(k),
            forall|k: Bytes32| demand_entries(recent).contains_key(k) ==> #[trigger] demand_entries(recent)[k].len() <= i,
            load_of(ks, demand_entries(recent)) <= 2 * i,
        decreases forecast_ids@.len() - i,
    {
        assert(forecast_ids@.take(i + 1 as int).drop_last() == forecast_ids@.take(i as int));
        match storage::get_forecast(state, forecast_ids[i]) {
            Ok(forecast) => {
                if forecast.timestamp >= cutoff {
                    let ghost before = demand_entries(recent);
                    let product_id = forecast.product_id;
                    assert(load_within(before, DEMAND_LOAD_LIMIT as nat)) by {
                        assert(load_of(ks, before) <= DEMAND_LOAD_LIMIT);
                    }
                    let mut demands = match demands_get(&mut recent, product_id) {
                        Some(v) => v,
                        None => Vec::new(),
                    };
                    demands.push(forecast.predicted_demand);
                    demands_set(&mut recent, product_id, &demands);
                    proof {
                        let after = demand_entries(recent);
                        if before.contains_key(product_id) {
                            lemma_load_bump(ks, before, product_id, demands@);
                        } else {
                            assert forall|j: int| 0 <= j < ks.len() implies before[#[trigger] ks[j]] == after[ks[j]] by {
                                assert(ks.contains(ks[j]));
                            }
                            lemma_load_agree(ks, before, after);
                            let grown = ks.push(product_id);
                            assert(grown.drop_last() =~= ks);
                            assert(grown.no_duplicates()) by {
                                assert forall|a: int, b: int| 0 <= a < grown.len() && 0 <= b < grown.len() && a != b
                                    implies grown[a] != grown[b] by {
                                    if a < ks.len() && b < ks.len() {
                                        assert(grown[a] == ks[a] && grown[b] == ks[b]);
                                    } else if a < ks.len() {
                                        assert(ks.contains(grown[a]));
                                    } else {
                                        assert(ks.contains(grown[b]));
                                    }
                                }
                            }
                            assert forall|k: Bytes32| after.contains_key(k) <==> grown.contains(k) by {
                                if ks.contains(k) {
                                    let j = choose|j: int| 0 <= j < ks.len() && ks[j] == k;
                                    assert(grown[j] == k);
                                }
                                if grown.contains(k) && k != product_id {
                                    let j = choose|j: int| 0 <= j < grown.len() && grown[j] == k;
                                    assert(ks[j] == k);
                                }
                                if k == product_id {
                                    assert(grown[ks.len() as int] == k);
                                }
                            }
                            ks = grown;
                        }
                    }
                }
            },
            Err(_) => {},
        }
        i += 1;
    }
    assert(forecast_ids@.take(forecast_ids@.len() as int) == forecast_ids@);
    assert(load_of(ks, demand_entries(recent)) <= DEMAND_LOAD_LIMIT);
    recent
}

/// Every running sum of a list of demands fits in 128 bits.
pub open spec fn sums_fit(d: Seq<i128>) -> bool {
    forall|n: int| 0 <= n <= d.len() ==> i128::MIN <= #[trigger] demand_sum(d.take(n)) <= i128::MAX
}

/// Whether every running sum of a list of demands fits in 128 bits.
pub fn sums_in_range(d: &Vec<i128>) -> (b: bool)
    ensures
        b == sums_fit(d@),
{
    let mut sum: i128 = 0;
    let mut k: usize = 0;
    assert(d@.take(0) =~= Seq::<i128>::empty());
    while k < d.len()
        invariant
            k <= d@.len(),
            sum == demand_sum(d@.take(k as int)),
            forall|n: int| 0 <= n <= k ==> i128::MIN <= #[trigger] demand_sum(d@.take(n)) <= i128::MAX,
        decreases d@.len() - k,
    {
        assert(d@.take(k + 1 as int).drop_last() == d@.take(k as int));
        match sum.checked_add(d[k]) {
            Some(next) => {
                sum = next;
            },
            None => {
                assert(!(i128::MIN <= demand_sum(d@.take(k + 1 as int)) <= i128::MAX));
                return false;
            },
        }
        k += 1;
    }
    true
}

/// Whether a recommendation for the region can be made within the machine
/// ranges and the host's budget; where it cannot, making it overflows.
pub fn recommend_in_range(state: &MarketDemandForecastingContract, region: &String, time_window_days: u64, now: u64) -> (b: bool)
    ensures
        b == recommend_fits(state@, region@, time_window_days, now),
{
    let forecast_ids = storage::get_region_forecast_ids(state, region);
    if forecast_ids.len() > REGION_READ_LIMIT {
        return false;
    }
    if time_window_days > u64::MAX / 86400 {
        return false;
    }
    let time_window_seconds = time_window_days * 86400;
    let cutoff = if now >= time_window_seconds { now - time_window_seconds } else { 0 };
    assert(cutoff == cutoff_time(now, time_window_days));
    let ghost m = recent_demands(state@, forecast_ids@, cutoff);
    let mut recent = group_recent(state, &forecast_ids, cutoff);
    let entries = demands_entries(&mut recent);
    let mut k: usize = 0;
    while k < entries.len()
        invariant
            k <= entries@.len(),
            m == demand_entries(recent),
            m == recent_demands(state@, region_ids(state@.region_forecasts, region@), cutoff_time(now, time_window_days)),
            forall|a: int| 0 <= a < entries@.len() ==> m.contains_key(#[trigger] entries@[a].0)
                && entries@[a].1@ == m[entries@[a].0],
            forall|a: int| 0 <= a < k ==> sums_fit(#[trigger] entries@[a].1@),
        decreases entries@.len() - k,
    {
        if !sums_in_range(&entries[k].1) {
            proof {
                let key = entries@[k as int].0;
                let n = choose|n: int| 0 <= n <= entries@[k as int].1@.len() && !(i128::MIN <= #[trigger] demand_sum(
                    entries@[k as int].1@.take(n),
                ) <= i128::MAX);
                assert(m.contains_key(key) && 0 <= n <= m[key].len());
                assert(!(i128::MIN <= demand_sum(m[key].take(n)) <= i128::MAX));
            }
            return false;
        }
        k += 1;
    }
    proof {
        assert forall|key: Bytes32, n: int| m.contains_key(key) && 0 <= n <= m[key].len() implies i128::MIN
            <= #[trigger] demand_sum(m[key].take(n)) <= i128::MAX by {
            let a = choose|a: int| 0 <= a < entries@.len() && #[trigger] entries@[a].0 == key;
            assert(sums_fit(entries@[a].1@));
        }
    }
    true
}

/// The products to plant in a region: those with the highest average
/// demand over the forecasts of the last `time_window_days` days before
/// `now`, at most five, highest first.
pub fn generate_recommendation(
    state: &MarketDemandForecastingContract,
    region: &String,
    time_window_days: u64,
    now: u64,
) -> (r: Result<Vec<Product>, ContractError>)
    requires
        recommend_fits(state@, region@, time_window_days, now),
    ensures
        region_ids(state@.region_forecasts, region@).len() == 0 ==> r == Err::<Vec<Product>, ContractError>(
            ContractError::RegionNotFound,
        ),
        region_ids(state@.region_forecasts, region@).len() > 0 ==> (r matches Ok(v) && product_views(v@)
            == recommendation_of(state@, region@, time_window_days, now)),
{
    let forecast_ids = storage::get_region_forecast_ids(state, region);
    if forecast_ids.len() == 0 {
        return Err(ContractError::RegionNotFound);
    }
    let time_window_seconds = time_window_days * 86400;
    let cutoff = if now >= time_window_seconds { now - time_window_seconds } else { 0 };
    let ghost m = recent_demands(state@, forecast_ids@, cutoff);
    let mut recent = group_recent(state, &forecast_ids, cutoff);
    if demands_is_empty(&mut recent) {
        proof {
            lemma_key_order(Seq::empty(), m);
            assert(averaged(Seq::empty(), m) =~= Seq::<RankedProduct>::empty());
            lemma_sort_desc_short(Seq::empty());
        }
        let none: Vec<Product> = Vec::new();
        assert(product_views(none@) =~= Seq::<ProductView>::empty());
        return Ok(none);
    }
    let entries = demands_entries(&mut recent);
    let ghost ks = entries@.map_values(|e: (Bytes32, Vec<i128>)| e.0);
    proof {
        assert forall|k: Bytes32| m.contains_key(k) implies ks.contains(k) by {
            let i = choose|i: int| 0 <= i < entries@.len() && #[trigger] entries@[i].0 == k;
            assert(ks[i] == k);
        }
        assert forall|a: int, b: int| 0 <= a < b < ks.len() implies id_lt(#[trigger] ks[a], #[trigger] ks[b]) by {
            assert(ks[a] == entries@[a].0 && ks[b] == entries@[b].0);
        }
        assert forall|a: int| 0 <= a < ks.len() implies m.contains_key(#[trigger] ks[a]) by {
            assert(ks[a] == entries@[a].0);
        }
        lemma_key_order(ks, m);
    }
    let mut averaged_demands: Vec<RankedProduct> = Vec::new();
    let mut k: usize = 0;
    while k < entries.len()
        invariant
            k <= entries@.len(),
            ks == entries@.map_values(|e: (Bytes32, Vec<i128>)| e.0),
            m == demand_entries(recent),
            recommend_fits(state@, region@, time_window_days, now),
            m == recent_demands(state@, region_ids(state@.region_forecasts, region@), cutoff_time(now, time_window_days)),
            forall|a: int| 0 <= a < entries@.len() ==> m.contains_key(#[trigger] entries@[a].0)
                && entries@[a].1@ == m[entries@[a].0],
            averaged_demands@ == averaged(ks.take(k as int), m),
        decreases entries@.len() - k,
    {
        assert(ks.take(k + 1 as int).drop_last() == ks.take(k as int));
        assert(ks.take(k + 1 as int).last() == entries@[k as int].0);
        if entries[k].1.len() > 0 {
            let product_id = entries[k].0;
            assert(m.contains_key(product_id));
            let average = average_demand(&entries[k].1);
            averaged_demands.push((product_id, average));
        }
        k += 1;
    }
    assert(ks.take(ks.len() as int) == ks);
    sort_by_demand(&mut averaged_demands);
    let ghost ranked = averaged_demands@;
    let limit = if averaged_demands.len() < 5 { averaged_demands.len() } else { 5 };
    let mut recommendations: Vec<Product> = Vec::new();
    let mut t: usize = 0;
    while t < limit
        invariant
            t <= limit,
            limit <= averaged_demands@.len(),
            ranked == averaged_demands@,
            product_views(recommendations@) == top_products(state@, ranked, t as nat),
        decreases limit - t,
    {
        match storage::get_product(state, averaged_demands[t].0) {
            Ok(product) => {
                let ghost before = recommendations@;
                recommendations.push(product);
                assert(product_views(recommendations@) =~= product_views(before).push(product@));
            },
            Err(_) => {},
        }
        t += 1;
    }
    Ok(recommendations)
}
} // verus!
