//! An auction house for agricultural products: listings, English auctions,
//! shipping and verification of products, sellers, disputes and returns.
pub mod datatype;
pub mod laws;
pub mod listing;
pub mod product_auction;
pub mod shipping;
pub mod verification;

use crate::common::{as_index, first_match, lemma_first_match_at, lemma_first_match_none, Address};
use datatype::{
    AdminError, Auction, AuctionError, Dispute, Product, ProductError, ProductView, ReturnPolicy,
    ReturnRequest, SellerVerification, Shipment, ShippingError,
};
use vstd::prelude::*;

verus! {

/// The persistent state of the auction contract.
pub struct ProductAuctionContract {
    pub admin: Option<Address>,
    /// The identifier the next listed product gets.
    pub next_product_id: u128,
    /// Each product under its seller and identifier.
    pub products: Vec<Product>,
    /// Each seller's products as they were when listed, in order.
    pub product_lists: Vec<Product>,
    /// Each open auction under its seller and product.
    pub auctions: Vec<Auction>,
    /// Each shipment under its seller and tracking number.
    pub shipments: Vec<Shipment>,
    /// Each seller's shipments as they were when created, in order.
    pub shipment_lists: Vec<Shipment>,
    /// The shipments kept with the contract instance itself, under their
    /// seller and tracking number: where status updates look shipments up.
    pub instance_shipments: Vec<Shipment>,
    pub seller_verifications: Vec<SellerVerification>,
    pub disputes: Vec<Dispute>,
    pub return_policies: Vec<ReturnPolicy>,
    pub return_requests: Vec<ReturnRequest>,
}

/// The mathematical content of the contract's state.
pub struct AuctionState {
    pub admin: Option<Address>,
    pub next_product_id: u128,
    pub products: Seq<ProductView>,
    pub product_lists: Seq<ProductView>,
    pub auctions: Seq<Auction>,
    pub shipments: Seq<Shipment>,
    pub shipment_lists: Seq<Shipment>,
    pub instance_shipments: Seq<Shipment>,
    pub seller_verifications: Seq<SellerVerification>,
    pub disputes: Seq<Dispute>,
    pub return_policies: Seq<ReturnPolicy>,
    pub return_requests: Seq<ReturnRequest>,
}

pub open spec fn product_views(ps: Seq<Product>) -> Seq<ProductView> {
    ps.map_values(|p: Product| p@)
}

impl View for ProductAuctionContract {
    type V = AuctionState;

    open spec fn view(&self) -> AuctionState {
        AuctionState {
            admin: self.admin,
            next_product_id: self.next_product_id,
            products: product_views(self.products@),
            product_lists: product_views(self.product_lists@),
            auctions: self.auctions@,
            shipments: self.shipments@,
            shipment_lists: self.shipment_lists@,
            instance_shipments: self.instance_shipments@,
            seller_verifications: self.seller_verifications@,
            disputes: self.disputes@,
            return_policies: self.return_policies@,
            return_requests: self.return_requests@,
        }
    }
}

pub open spec fn product_key(seller: Address, id: u128) -> spec_fn(ProductView) -> bool {
    |p: ProductView| p.seller == seller && p.id == id
}

pub open spec fn auction_key(seller: Address, id: u128) -> spec_fn(Auction) -> bool {
    |a: Auction| a.seller == seller && a.product_id == id
}

pub open spec fn shipment_key(seller: Address, tracking: Seq<char>) -> spec_fn(Shipment) -> bool {
    |s: Shipment| s.seller == seller && s.tracking_number@ == tracking
}

/// The product of a seller with an identifier, if any.
pub open spec fn product_of(s: AuctionState, seller: Address, id: u128) -> Option<ProductView> {
    match first_match(s.products, product_key(seller, id)) {
        Some(i) => Some(s.products[i]),
        None => None,
    }
}

/// The auction of a seller's product, if any.
pub open spec fn auction_of(s: AuctionState, seller: Address, id: u128) -> Option<Auction> {
    match first_match(s.auctions, auction_key(seller, id)) {
        Some(i) => Some(s.auctions[i]),
        None => None,
    }
}

/// The shipment of a seller with a tracking number, if any.
pub open spec fn shipment_of(s: AuctionState, seller: Address, tracking: Seq<char>) -> Option<Shipment> {
    match first_match(s.shipments, shipment_key(seller, tracking)) {
        Some(i) => Some(s.shipments[i]),
        None => None,
    }
}

/// The products a seller listed, in order.
pub open spec fn listed_by(ps: Seq<ProductView>, seller: Address) -> Seq<ProductView>
    decreases ps.len(),
{
    if ps.len() == 0 {
        Seq::empty()
    } else {
        let rest = listed_by(ps.drop_last(), seller);
        if ps.last().seller == seller { rest.push(ps.last()) } else { rest }
    }
}

/// The shipments a seller created, in order.
pub open spec fn shipped_by(ss: Seq<Shipment>, seller: Address) -> Seq<Shipment>
    decreases ss.len(),
{
    if ss.len() == 0 {
        Seq::empty()
    } else {
        let rest = shipped_by(ss.drop_last(), seller);
        if ss.last().seller == seller { rest.push(ss.last()) } else { rest }
    }
}

/// A copy of a list of texts.
pub fn copy_texts(v: &Vec<String>) -> (r: Vec<String>)
    ensures
        r@ == v@,
{
    let mut r: Vec<String> = Vec::new();
    let mut i: usize = 0;
    while i < v.len()
        invariant
            i <= v@.len(),
            r@ == v@.take(i as int),
        decreases v@.len() - i,
    {
        r.push(v[i].clone());
        i += 1;
        assert(r@ == v@.take(i as int));
    }
    assert(v@.take(v@.len() as int) == v@);
    r
}

/// A copy of a product.
pub fn copy_product(p: &Product) -> (r: Product)
    ensures
        r@ == p@,
{
    Product {
        id: p.id,
        seller: p.seller,
        name: p.name.clone(),
        description: p.description.clone(),
        price: p.price,
        condition: p.condition,
        stock: p.stock,
        images: copy_texts(&p.images),
        weight_grams: p.weight_grams,
        verified: p.verified,
    }
}

/// A copy of a shipment.
pub fn copy_shipment(s: &Shipment) -> (r: Shipment)
    ensures
        r == *s,
{
    Shipment {
        seller: s.seller,
        buyer: s.buyer,
        weight_grams: s.weight_grams,
        distance_km: s.distance_km,
        shipping_cost: s.shipping_cost,
        delivery_estimate_days: s.delivery_estimate_days,
        status: s.status.clone(),
        tracking_number: s.tracking_number.clone(),
    }
}

impl ProductAuctionContract {
    /// A contract with no administrator and nothing listed.
    pub fn new() -> (c: Self)
        ensures
            c@ == (AuctionState {
                admin: None,
                next_product_id: 1,
                products: Seq::empty(),
                product_lists: Seq::empty(),
                auctions: Seq::empty(),
                shipments: Seq::empty(),
                shipment_lists: Seq::empty(),
                instance_shipments: Seq::empty(),
                seller_verifications: Seq::empty(),
                disputes: Seq::empty(),
                return_policies: Seq::empty(),
                return_requests: Seq::empty(),
            }),
    {
        let c = ProductAuctionContract {
            admin: None,
            next_product_id: 1,
            products: Vec::new(),
            product_lists: Vec::new(),
            auctions: Vec::new(),
            shipments: Vec::new(),
            shipment_lists: Vec::new(),
            instance_shipments: Vec::new(),
            seller_verifications: Vec::new(),
            disputes: Vec::new(),
            return_policies: Vec::new(),
            return_requests: Vec::new(),
        };
        assert(c@.products =~= Seq::<ProductView>::empty());
        assert(c@.product_lists =~= Seq::<ProductView>::empty());
        c
    }

    /// The position of a seller's product, if any.
    pub fn find_product(&self, seller: Address, id: u128) -> (r: Option<usize>)
        ensures
            as_index(r) == first_match(self@.products, product_key(seller, id)),
    {
        let ghost v = self@.products;
        let mut i: usize = 0;
        while i < self.products.len()
            invariant
                v == self@.products,
                v.len() == self.products@.len(),
                i <= v.len(),
                forall|j: int| 0 <= j < i ==> !product_key(seller, id)(#[trigger] v[j]),
            decreases v.len() - i,
        {
            assert(v[i as int] == self.products@[i as int]@);
            if self.products[i].seller == seller && self.products[i].id == id {
                proof { lemma_first_match_at(v, product_key(seller, id), i as int); }
                return Some(i);
            }
            i += 1;
        }
        proof { lemma_first_match_none(v, product_key(seller, id)); }
        None
    }

    /// The position of the auction of a seller's product, if any.
    pub fn find_auction(&self, seller: Address, id: u128) -> (r: Option<usize>)
        ensures
            as_index(r) == first_match(self@.auctions, auction_key(seller, id)),
    {
        let mut i: usize = 0;
        while i < self.auctions.len()
            invariant
                i <= self.auctions@.len(),
                forall|j: int| 0 <= j < i ==> !auction_key(seller, id)(#[trigger] self.auctions@[j]),
            decreases self.auctions@.len() - i,
        {
            if self.auctions[i].seller == seller && self.auctions[i].product_id == id {
                proof { lemma_first_match_at(self.auctions@, auction_key(seller, id), i as int); }
                return Some(i);
            }
            i += 1;
        }
        proof { lemma_first_match_none(self.auctions@, auction_key(seller, id)); }
        None
    }

    /// The position of a shipment in a list kept under seller and tracking number, if any.
    pub fn find_shipment_in(list: &Vec<Shipment>, seller: Address, tracking_number: &String) -> (r: Option<usize>)
        ensures
            as_index(r) == first_match(list@, shipment_key(seller, tracking_number@)),
    {
        let mut i: usize = 0;
        while i < list.len()
            invariant
                i <= list@.len(),
                forall|j: int| 0 <= j < i ==> !shipment_key(seller, tracking_number@)(#[trigger] list@[j]),
            decreases list@.len() - i,
        {
            if list[i].seller == seller && list[i].tracking_number == *tracking_number {
                proof { lemma_first_match_at(list@, shipment_key(seller, tracking_number@), i as int); }
                return Some(i);
            }
            i += 1;
        }
        proof { lemma_first_match_none(list@, shipment_key(seller, tracking_number@)); }
        None
    }

    /// Sets the administrator, once.
    pub fn initialize(&mut self, admin: Address) -> (r: Result<(), AdminError>)
        ensures
            old(self)@.admin is Some ==> r == Err::<(), AdminError>(AdminError::AlreadyVerified)
                && final(self)@ == old(self)@,
            old(self)@.admin is None ==> r == Ok::<(), AdminError>(())
                && final(self)@ == (AuctionState { admin: Some(admin), ..old(self)@ }),
    {
        if self.admin.is_some() {
            return Err(AdminError::AlreadyVerified);
        }
        self.admin = Some(admin);
        Ok(())
    }

    /// The administrator, or `UnauthorizedAccess` before one is set.
    pub fn get_admin(&self) -> (r: Result<Address, AdminError>)
        ensures
            r == (match self@.admin {
                Some(a) => Ok::<Address, AdminError>(a),
                None => Err(AdminError::UnauthorizedAccess),
            }),
    {
        match self.admin {
            Some(a) => Ok(a),
            None => Err(AdminError::UnauthorizedAccess),
        }
    }

    /// The auction of a seller's product.
    pub fn get_auction(&self, seller: Address, product_id: u128) -> (r: Result<Auction, AuctionError>)
        ensures
            r == (match auction_of(self@, seller, product_id) {
                Some(a) => Ok::<Auction, AuctionError>(a),
                None => Err(AuctionError::AuctionNotFound),
            }),
    {
        match self.find_auction(seller, product_id) {
            Some(i) => Ok(self.auctions[i]),
            None => Err(AuctionError::AuctionNotFound),
        }
    }

    /// The products a seller listed, as they were when listed, in order.
    pub fn get_products(&self, seller: Address) -> (r: Result<Vec<Product>, ProductError>)
        ensures
            r matches Ok(v) && product_views(v@) == listed_by(self@.product_lists, seller),
    {
        let mut r: Vec<Product> = Vec::new();
        let ghost all = self@.product_lists;
        let mut i: usize = 0;
        while i < self.product_lists.len()
            invariant
                all == self@.product_lists,
                all.len() == self.product_lists@.len(),
                i <= all.len(),
                product_views(r@) == listed_by(all.take(i as int), seller),
            decreases all.len() - i,
        {
            assert(all.take(i + 1 as int).drop_last() == all.take(i as int));
            assert(all[i as int] == self.product_lists@[i as int]@);
            if self.product_lists[i].seller == seller {
                let ghost before = r@;
                r.push(copy_product(&self.product_lists[i]));
                assert(product_views(r@) =~= product_views(before).push(all[i as int]));
            }
            i += 1;
        }
        assert(all.take(all.len() as int) == all);
        Ok(r)
    }

    /// The product of a seller with an identifier.
    pub fn get_product(&self, seller: Address, product_id: u128) -> (r: Result<Product, ProductError>)
        ensures
            match product_of(self@, seller, product_id) {
                Some(p) => r matches Ok(q) && q@ == p,
                None => r == Err::<Product, ProductError>(ProductError::ProductNotFound),
            },
    {
        match self.find_product(seller, product_id) {
            Some(i) => {
                assert(self@.products[i as int] == self.products@[i as int]@);
                Ok(copy_product(&self.products[i]))
            },
            None => Err(ProductError::ProductNotFound),
        }
    }

    /// The shipment of a seller with a tracking number.
    pub fn get_shipment(&self, seller: Address, tracking_number: String) -> (r: Result<Shipment, ShippingError>)
        ensures
            r == (match shipment_of(self@, seller, tracking_number@) {
                Some(s) => Ok::<Shipment, ShippingError>(s),
                None => Err(ShippingError::ShipmentNotFound),
            }),
    {
        match Self::find_shipment_in(&self.shipments, seller, &tracking_number) {
            Some(i) => Ok(copy_shipment(&self.shipments[i])),
            None => Err(ShippingError::ShipmentNotFound),
        }
    }

    /// The shipments a seller created, as they were when created, in order.
    pub fn get_shipments(&self, seller: Address) -> (r: Result<Vec<Shipment>, ShippingError>)
        ensures
            r matches Ok(v) && v@ == shipped_by(self@.shipment_lists, seller),
    {
        let mut r: Vec<Shipment> = Vec::new();
        let mut i: usize = 0;
        while i < self.shipment_lists.len()
            invariant
                i <= self.shipment_lists@.len(),
                r@ == shipped_by(self.shipment_lists@.take(i as int), seller),
            decreases self.shipment_lists@.len() - i,
        {
            assert(self.shipment_lists@.take(i + 1 as int).drop_last() == self.shipment_lists@.take(i as int));
            if self.shipment_lists[i].seller == seller {
                r.push(copy_shipment(&self.shipment_lists[i]));
            }
            i += 1;
        }
        assert(self.shipment_lists@.take(self.shipment_lists@.len() as int) == self.shipment_lists@);
        Ok(r)
    }
}

} // verus!
