//! Properties that hold across the auction house's operations.
use super::datatype::{Auction, ProductView, ReturnPolicy};
use super::listing::upsert_product;
use super::product_auction::{bid_error, finalize_error};
use super::shipping::{delivery_days, shipping_cost};
use super::verification::{policy_key, policy_of, with_policy};
use super::{auction_key, auction_of, product_key, product_of, AuctionState};
use crate::common::{
    first_match, is_first_match, lemma_first_match_at, lemma_first_match_none, lemma_first_match_push,
    lemma_first_match_some, lemma_first_match_update, Address,
};
use vstd::prelude::*;

verus! {

/// At most one auction of each product of each seller is open.
pub open spec fn auctions_unique(a: Seq<Auction>) -> bool {
    forall|i: int, j: int|
        #![trigger a[i], a[j]]
        0 <= i < j < a.len() ==> a[i].seller != a[j].seller || a[i].product_id != a[j].product_id
}

/// Storing a product makes it what is read back under its seller and
/// identifier, and leaves what is read under every other key as it was.
pub proof fn law_product_read_after_write(s: AuctionState, p: ProductView, seller: Address, id: u128)
    ensures
        product_of(AuctionState { products: upsert_product(s.products, p), ..s }, p.seller, p.id) == Some(p),
        (seller != p.seller || id != p.id) ==> product_of(AuctionState { products: upsert_product(s.products, p), ..s }, seller, id)
            == product_of(s, seller, id),
{
    let key = product_key(p.seller, p.id);
    let other = product_key(seller, id);
    match first_match(s.products, key) {
        Some(i) => {
            let k = choose|k: int| is_first_match(s.products, key, k);
            assert(is_first_match(s.products, key, k));
            lemma_first_match_update(s.products, key, i, p);
            if seller != p.seller || id != p.id {
                lemma_first_match_update(s.products, other, i, p);
                match first_match(s.products, other) {
                    Some(j) => {
                        let k2 = choose|k2: int| is_first_match(s.products, other, k2);
                        assert(is_first_match(s.products, other, k2));
                        assert(j != i);
                    },
                    None => {},
                }
            }
        },
        None => {
            lemma_first_match_push(s.products, key, p);
            if seller != p.seller || id != p.id {
                lemma_first_match_push(s.products, other, p);
                match first_match(s.products, other) {
                    Some(j) => {
                        let k2 = choose|k2: int| is_first_match(s.products, other, k2);
                        assert(is_first_match(s.products, other, k2));
                    },
                    None => {},
                }
            }
        },
    }
}

/// An accepted bid becomes the auction's highest bid: strictly above the one
/// before and not below the reserve price.
pub proof fn law_bid_raises_highest(s: AuctionState, product_id: u128, bid_amount: u64, bidder: Address, seller: Address, now: u64)
    requires
        bid_error(s, product_id, bid_amount, bidder, seller, now) is None,
    ensures
        ({
            let i = first_match(s.auctions, auction_key(seller, product_id)).unwrap();
            let before = s.auctions[i];
            let ns = AuctionState {
                auctions: s.auctions.update(i, Auction { highest_bid: bid_amount, highest_bidder: Some(bidder), ..before }),
                ..s
            };
            &&& auction_of(ns, seller, product_id) matches Some(after)
            &&& after.highest_bid == bid_amount
            &&& after.highest_bidder == Some(bidder)
            &&& after.highest_bid > before.highest_bid
            &&& after.highest_bid >= after.reserve_price
        }),
{
    let key = auction_key(seller, product_id);
    let i = first_match(s.auctions, key).unwrap();
    let k = choose|k: int| is_first_match(s.auctions, key, k);
    assert(is_first_match(s.auctions, key, k));
    let before = s.auctions[i];
    lemma_first_match_update(s.auctions, key, i, Auction { highest_bid: bid_amount, highest_bidder: Some(bidder), ..before });
}

/// Opening an auction only where none is open keeps at most one auction per
/// product of a seller.
pub proof fn law_auction_opened_once(
    s: AuctionState,
    seller: Address,
    reserve_price: u64,
    auction_end_time: u64,
    product_id: u128,
)
    requires
        auctions_unique(s.auctions),
        auction_of(s, seller, product_id) is None,
    ensures
        auctions_unique(s.auctions.push(Auction {
            product_id,
            highest_bid: 0,
            highest_bidder: None,
            reserve_price,
            auction_end_time,
            seller,
        })),
{
    let a = Auction { product_id, highest_bid: 0, highest_bidder: None, reserve_price, auction_end_time, seller };
    let u = s.auctions.push(a);
    assert forall|i: int, j: int| #![trigger u[i], u[j]] 0 <= i < j < u.len() implies u[i].seller != u[j].seller
        || u[i].product_id != u[j].product_id by {
        if j == s.auctions.len() && u[i].seller == u[j].seller && u[i].product_id == u[j].product_id {
            assert(auction_key(seller, product_id)(s.auctions[i]));
            lemma_first_match_some(s.auctions, auction_key(seller, product_id), i);
        } else if j < s.auctions.len() {
            assert(u[i] == s.auctions[i] && u[j] == s.auctions[j]);
        }
    }
}

/// Settling an auction closes it and takes one unit of the product out of
/// stock.
pub proof fn law_settlement_closes_auction(s: AuctionState, seller: Address, product_id: u128, now: u64)
    requires
        auctions_unique(s.auctions),
        finalize_error(s, seller, product_id, now) is None,
    ensures
        ({
            let i = first_match(s.auctions, auction_key(seller, product_id)).unwrap();
            let p = product_of(s, seller, product_id).unwrap();
            let ns = AuctionState {
                products: upsert_product(s.products, ProductView { stock: (p.stock - 1) as u32, ..p }),
                auctions: s.auctions.remove(i),
                ..s
            };
            &&& auction_of(ns, seller, product_id) is None
            &&& product_of(ns, seller, product_id) matches Some(q) && q.stock == p.stock - 1
            &&& auctions_unique(ns.auctions)
        }),
{
    let key = auction_key(seller, product_id);
    let i = first_match(s.auctions, key).unwrap();
    let k = choose|k: int| is_first_match(s.auctions, key, k);
    assert(is_first_match(s.auctions, key, k));
    let r = s.auctions.remove(i);
    assert forall|j: int| 0 <= j < r.len() implies !key(#[trigger] r[j]) by {
        if j < i {
            assert(r[j] == s.auctions[j]);
        } else {
            assert(r[j] == s.auctions[j + 1]);
            assert(s.auctions[i].seller != s.auctions[j + 1].seller || s.auctions[i].product_id != s.auctions[j + 1].product_id);
        }
    }
    lemma_first_match_none(r, key);
    let p = product_of(s, seller, product_id).unwrap();
    law_product_read_after_write(s, ProductView { stock: (p.stock - 1) as u32, ..p }, seller, product_id);
    let ns = AuctionState {
        products: upsert_product(s.products, ProductView { stock: (p.stock - 1) as u32, ..p }),
        auctions: r,
        ..s
    };
    assert(product_of(ns, seller, product_id) == product_of(
        AuctionState { products: upsert_product(s.products, ProductView { stock: (p.stock - 1) as u32, ..p }), ..s },
        seller,
        product_id,
    ));
    assert forall|a: int, b: int| #![trigger r[a], r[b]] 0 <= a < b < r.len() implies r[a].seller != r[b].seller
        || r[a].product_id != r[b].product_id by {
        let a0 = if a < i { a } else { a + 1 };
        let b0 = if b < i { b } else { b + 1 };
        assert(r[a] == s.auctions[a0] && r[b] == s.auctions[b0]);
        assert(s.auctions[a0].seller != s.auctions[b0].seller || s.auctions[a0].product_id != s.auctions[b0].product_id);
    }
}

/// Shipping farther never costs less nor takes less time.
pub proof fn law_shipping_grows_with_distance(weight_pounds: u32, near_km: u32, far_km: u32)
    requires
        near_km <= far_km,
    ensures
        shipping_cost(weight_pounds, near_km) <= shipping_cost(weight_pounds, far_km),
        delivery_days(near_km) <= delivery_days(far_km),
{
}

/// A seller's return policy reads back as the one last set; the policies of
/// other sellers read as before.
pub proof fn law_policy_read_after_write(s: AuctionState, seller: Address, policy: String, other: Address)
    ensures
        policy_of(AuctionState { return_policies: with_policy(s.return_policies, seller, policy), ..s }, seller)
            == Some(policy),
        other != seller ==> policy_of(
            AuctionState { return_policies: with_policy(s.return_policies, seller, policy), ..s },
            other,
        ) == policy_of(s, other),
{
    let key = policy_key(seller);
    let okey = policy_key(other);
    let entry = ReturnPolicy { seller, policy };
    match first_match(s.return_policies, key) {
        Some(i) => {
            let k = choose|k: int| is_first_match(s.return_policies, key, k);
            assert(is_first_match(s.return_policies, key, k));
            lemma_first_match_update(s.return_policies, key, i, entry);
            if other != seller {
                lemma_first_match_update(s.return_policies, okey, i, entry);
                if first_match(s.return_policies, okey) is Some {
                    let k2 = choose|k2: int| is_first_match(s.return_policies, okey, k2);
                    assert(is_first_match(s.return_policies, okey, k2));
                }
            }
        },
        None => {
            lemma_first_match_push(s.return_policies, key, entry);
            if other != seller {
                lemma_first_match_push(s.return_policies, okey, entry);
                if first_match(s.return_policies, okey) is Some {
                    let k2 = choose|k2: int| is_first_match(s.return_policies, okey, k2);
                    assert(is_first_match(s.return_policies, okey, k2));
                }
            }
        },
    }
}


/// Delivery time by distance: up to 50 km takes one day, up to 200 km three,
/// up to 500 km five, and anything farther seven.
pub proof fn law_delivery_time_bands(distance_km: u32)
    ensures
        distance_km <= 50 ==> delivery_days(distance_km) == 1,
        50 < distance_km <= 200 ==> delivery_days(distance_km) == 3,
        200 < distance_km <= 500 ==> delivery_days(distance_km) == 5,
        500 < distance_km ==> delivery_days(distance_km) == 7,
{
}
} // verus!
