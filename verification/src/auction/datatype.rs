//! Records kept by the product auction contract.
use crate::common::Address;
use vstd::prelude::*;

verus! {

/// Why an auction operation was refused.
#[derive(Clone, Copy, Debug, PartialEq, Eq, Structural)]
pub enum AuctionError {
    BidTooLow,
    AuctionEnded,
    AuctionAlreadyExists,
    InvalidBidder,
    AuctionNotFound,
    TooLateToExtend,
    InvalidAuctionEndTime,
    AuctionNotYetEnded,
    NoBidsPlaced,
    ProductNotFound,
    OutOfStock,
}

/// An English auction of one product of a seller.
#[derive(Clone, Copy, Debug, PartialEq, Eq, Structural)]
pub struct Auction {
    pub product_id: u128,
    pub highest_bid: u64,
    pub highest_bidder: Option<Address>,
    pub reserve_price: u64,
    pub auction_end_time: u64,
    pub seller: Address,
}

/// Why a product listing operation was refused.
#[derive(Clone, Copy, Debug, PartialEq, Eq, Structural)]
pub enum ProductError {
    InvalidDescription,
    InvalidPrice,
    InvalidWeight,
    OutOfStock,
    InvalidImageCount,
    ProductNotFound,
    Unauthorized,
}

/// The condition a product is sold in.
#[derive(Clone, Copy, Debug, PartialEq, Eq, Structural)]
pub enum Condition {
    New,
    OpenBox,
    UsedGood,
    UsedAcceptable,
    Refurbished,
}

/// A product a seller lists.
pub struct Product {
    pub id: u128,
    pub seller: Address,
    pub name: String,
    pub description: String,
    pub price: u64,
    pub condition: Condition,
    pub stock: u32,
    pub images: Vec<String>,
    pub weight_grams: u64,
    /// Whether the administrator found the product authentic.
    pub verified: bool,
}

/// The mathematical content of a [`Product`].
pub struct ProductView {
    pub id: u128,
    pub seller: Address,
    pub name: String,
    pub description: String,
    pub price: u64,
    pub condition: Condition,
    pub stock: u32,
    pub images: Seq<String>,
    pub weight_grams: u64,
    pub verified: bool,
}

impl View for Product {
    type V = ProductView;

    open spec fn view(&self) -> ProductView {
        ProductView {
            id: self.id,
            seller: self.seller,
            name: self.name,
            description: self.description,
            price: self.price,
            condition: self.condition,
            stock: self.stock,
            images: self.images@,
            weight_grams: self.weight_grams,
            verified: self.verified,
        }
    }
}

/// Shipping cost per kilometre.
pub const COST_PER_KM: u64 = 1;

/// Shipping cost per pound of weight.
pub const COST_PER_POUND: u64 = 6;

/// A shipment of a seller to a buyer, known by its tracking number.
#[derive(Clone, Debug)]
pub struct Shipment {
    pub seller: Address,
    pub buyer: Address,
    pub weight_grams: u32,
    pub distance_km: u32,
    pub shipping_cost: u64,
    pub delivery_estimate_days: u32,
    pub status: String,
    pub tracking_number: String,
}

/// Why a shipping operation was refused.
#[derive(Clone, Copy, Debug, PartialEq, Eq, Structural)]
pub enum ShippingError {
    RestrictedLocation,
    ShipmentAlreadyExists,
    InvalidBuyerZone,
    ShipmentNotFound,
}

/// Why an administrative operation was refused.
#[derive(Clone, Copy, Debug, PartialEq, Eq, Structural)]
pub enum AdminError {
    AlreadyVerified,
    UnauthorizedAccess,
}

/// Why a verification, dispute or return operation was refused.
#[derive(Clone, Copy, Debug, PartialEq, Eq, Structural)]
pub enum VerificationError {
    ProductNotFound,
    AlreadyRequested,
    NoVerificationRequest,
    DisputeAlreadyExists,
    DisputeNotFound,
    ReturnAlreadyRequested,
    ReturnRequestNotFound,
}

/// Where a seller's verification stands.
#[derive(Clone, Copy, Debug, PartialEq, Eq, Structural)]
pub enum SellerVerificationStatus {
    Pending,
    Verified,
    Rejected,
}

/// Where a dispute stands.
#[derive(Clone, Copy, Debug, PartialEq, Eq, Structural)]
pub enum DisputeStatus {
    Pending,
    Resolved,
    Rejected,
}

/// A buyer's dispute over a product of a seller.
#[derive(Clone, Debug)]
pub struct Dispute {
    pub buyer: Address,
    pub seller: Address,
    pub product_id: u128,
    pub reason: String,
    pub status: DisputeStatus,
}

/// A buyer's request to return a product of a seller.
#[derive(Clone, Debug)]
pub struct ReturnRequest {
    pub buyer: Address,
    pub seller: Address,
    pub product_id: u128,
    pub reason: String,
    pub status: String,
}

/// The verification status of a seller.
#[derive(Clone, Copy, Debug, PartialEq, Eq, Structural)]
pub struct SellerVerification {
    pub seller: Address,
    pub status: SellerVerificationStatus,
}

/// The return policy of a seller.
#[derive(Clone, Debug)]
pub struct ReturnPolicy {
    pub seller: Address,
    pub policy: String,
}

} // verus!
