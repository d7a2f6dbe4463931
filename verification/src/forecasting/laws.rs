//! Properties that hold across the forecasting operations.
use super::forecasting::record_model;
use super::recommendations::{average, demand_sum, descending, lemma_sort_desc, ranking, recent_demands, cutoff_time, averaged, key_order, recommendation_of, top_products, RankedProduct};
use super::storage::{forecast_key, forecast_of, product_key, product_of, region_ids, upsert_forecast, upsert_product, DemandForecast, ProductView};
use super::ForecastingState;
use crate::common::{first_match, is_first_match, lemma_first_match_push, lemma_first_match_update, trunc_div, Bytes32};
use vstd::prelude::*;

verus! {

/// At most `n` products are taken from a ranking.
proof fn lemma_top_products_len(s: ForecastingState, ranked: Seq<RankedProduct>, n: nat)
    ensures
        top_products(s, ranked, n).len() <= n,
    decreases n,
{
    if n > 0 && n <= ranked.len() {
        lemma_top_products_len(s, ranked, (n - 1) as nat);
    }
}

/// The ranking of a region's products puts higher average demand first and
/// holds each product with recent forecasts once, with its average; at most
/// five products are recommended.
pub proof fn law_recommendations_ranked(s: ForecastingState, region: Seq<char>, days: u64, now: u64)
    ensures
        descending(ranking(s, region, days, now)),
        ({
            let m = recent_demands(s, region_ids(s.region_forecasts, region), cutoff_time(now, days));
            ranking(s, region, days, now).to_multiset() == averaged(key_order(m), m).to_multiset()
        }),
        recommendation_of(s, region, days, now).len() <= 5,
{
    let m = recent_demands(s, region_ids(s.region_forecasts, region), cutoff_time(now, days));
    lemma_sort_desc(averaged(key_order(m), m));
    let ranked = ranking(s, region, days, now);
    lemma_top_products_len(s, ranked, if ranked.len() < 5 { ranked.len() } else { 5 });
}

/// A stored forecast is what is read back under its identifier; forecasts
/// under other identifiers read as before.
pub proof fn law_forecast_read_after_write(s: ForecastingState, f: DemandForecast, other: Bytes32)
    ensures
        forecast_of(record_model(s, f), f.forecast_id) == Some(f),
        other != f.forecast_id ==> forecast_of(record_model(s, f), other) == forecast_of(s, other),
{
    let key = forecast_key(f.forecast_id);
    let okey = forecast_key(other);
    match first_match(s.forecasts, key) {
        Some(i) => {
            let k = choose|k: int| is_first_match(s.forecasts, key, k);
            assert(is_first_match(s.forecasts, key, k));
            lemma_first_match_update(s.forecasts, key, i, f);
            if other != f.forecast_id {
                lemma_first_match_update(s.forecasts, okey, i, f);
                if first_match(s.forecasts, okey) is Some {
                    let k2 = choose|k2: int| is_first_match(s.forecasts, okey, k2);
                    assert(is_first_match(s.forecasts, okey, k2));
                }
            }
        },
        None => {
            lemma_first_match_push(s.forecasts, key, f);
            if other != f.forecast_id {
                lemma_first_match_push(s.forecasts, okey, f);
                if first_match(s.forecasts, okey) is Some {
                    let k2 = choose|k2: int| is_first_match(s.forecasts, okey, k2);
                    assert(is_first_match(s.forecasts, okey, k2));
                }
            }
        },
    }
}

/// A registered product is what is read back under its identifier; products
/// under other identifiers read as before.
pub proof fn law_product_read_after_write(s: ForecastingState, p: ProductView, other: Bytes32)
    ensures
        product_of(ForecastingState { products: upsert_product(s.products, p), ..s }, p.product_id) == Some(p),
        other != p.product_id ==> product_of(ForecastingState { products: upsert_product(s.products, p), ..s }, other)
            == product_of(s, other),
{
    let key = product_key(p.product_id);
    let okey = product_key(other);
    match first_match(s.products, key) {
        Some(i) => {
            let k = choose|k: int| is_first_match(s.products, key, k);
            assert(is_first_match(s.products, key, k));
            lemma_first_match_update(s.products, key, i, p);
            if other != p.product_id {
                lemma_first_match_update(s.products, okey, i, p);
                if first_match(s.products, okey) is Some {
                    let k2 = choose|k2: int| is_first_match(s.products, okey, k2);
                    assert(is_first_match(s.products, okey, k2));
                }
            }
        },
        None => {
            lemma_first_match_push(s.products, key, p);
            if other != p.product_id {
                lemma_first_match_push(s.products, okey, p);
                if first_match(s.products, okey) is Some {
                    let k2 = choose|k2: int| is_first_match(s.products, okey, k2);
                    assert(is_first_match(s.products, okey, k2));
                }
            }
        },
    }
}


/// Every entry of the averages of `ks` is a listed product with demands, paired with their average.
proof fn lemma_averaged_entry(ks: Seq<Bytes32>, m: Map<Bytes32, Seq<i128>>, e: RankedProduct)
    requires
        averaged(ks, m).contains(e),
    ensures
        ks.contains(e.0),
        m[e.0].len() > 0,
        e.1 == average(m[e.0]),
    decreases ks.len(),
{
    let rest = averaged(ks.drop_last(), m);
    let last = ks[ks.len() - 1];
    if rest.contains(e) {
        lemma_averaged_entry(ks.drop_last(), m, e);
        let i = choose|i: int| 0 <= i < ks.drop_last().len() && ks.drop_last()[i] == e.0;
        assert(ks[i] == e.0);
    } else {
        let a = averaged(ks, m);
        let i = choose|i: int| 0 <= i < a.len() && a[i] == e;
        assert(m[last].len() > 0 && a == rest.push((last, average(m[last]))));
        assert(i == rest.len());
        assert(ks[ks.len() - 1] == e.0);
    }
}

/// The demand a product is ranked by in a region is the mean of its recent
/// demands there, rounded toward zero: the product has recent demands, and
/// the value it is ranked by, times their count, is within one count of
/// their sum, on the side of zero.
pub proof fn law_ranked_by_mean(s: ForecastingState, region: Seq<char>, days: u64, now: u64, j: int)
    requires
        0 <= j < ranking(s, region, days, now).len(),
        ({
            let m = recent_demands(s, region_ids(s.region_forecasts, region), cutoff_time(now, days));
            i128::MIN <= demand_sum(m[ranking(s, region, days, now)[j].0]) <= i128::MAX
        }),
    ensures
        ({
            let m = recent_demands(s, region_ids(s.region_forecasts, region), cutoff_time(now, days));
            let e = ranking(s, region, days, now)[j];
            let d = m[e.0];
            let n = d.len() as int;
            &&& n > 0
            &&& demand_sum(d) >= 0 ==> e.1 * n <= demand_sum(d) < (e.1 + 1) * n
            &&& demand_sum(d) < 0 ==> (e.1 - 1) * n < demand_sum(d) <= e.1 * n
        }),
{
    broadcast use vstd::seq_lib::group_to_multiset_ensures;
    let m = recent_demands(s, region_ids(s.region_forecasts, region), cutoff_time(now, days));
    let a = averaged(key_order(m), m);
    lemma_sort_desc(a);
    let r = ranking(s, region, days, now);
    let e = r[j];
    assert(r.contains(e));
    assert(r.to_multiset().count(e) > 0);
    assert(a.contains(e));
    lemma_averaged_entry(key_order(m), m, e);
    let d = m[e.0];
    let n = d.len() as int;
    let sum = demand_sum(d);
    if sum >= 0 {
        let q = sum / n;
        assert(q * n <= sum < (q + 1) * n && 0 <= q <= sum) by (nonlinear_arith)
            requires
                n > 0,
                sum >= 0,
                q == sum / n,
        ;
        assert(trunc_div(sum, n) == q);
        assert(e.1 == average(d));
        assert(average(d) == q);
        assert(e.1 * n <= sum < (e.1 + 1) * n);
    } else {
        let p = (-sum) / n;
        assert(p * n <= -sum < (p + 1) * n && 0 <= p <= -sum) by (nonlinear_arith)
            requires
                n > 0,
                -sum > 0,
                p == (-sum) / n,
        ;
        assert(trunc_div(sum, n) == -p);
        assert(e.1 == average(d));
        assert(average(d) == -p);
        let v = e.1 as int;
        assert((v - 1) * n < sum <= v * n) by (nonlinear_arith)
            requires
                v == -p,
                p * n <= -sum < (p + 1) * n,
        ;
    }
    assert(n > 0);
}
} // verus!
