//! English auctions of listed products.
use super::datatype::{Auction, AuctionError, ProductView};
use super::listing::upsert_product;
use super::{auction_key, auction_of, product_of, AuctionState, ProductAuctionContract};
use crate::common::{first_match, Address};
use vstd::prelude::*;

verus! {

/// Why a bid is refused, if it is: no such auction, a bid of the seller, an
/// auction past its end, or a bid not above the highest or below the reserve.
pub open spec fn bid_error(s: AuctionState, product_id: u128, bid_amount: u64, bidder: Address, seller: Address, now: u64) -> Option<AuctionError> {
    match auction_of(s, seller, product_id) {
        None => Some(AuctionError::AuctionNotFound),
        Some(a) => if bidder == a.seller {
            Some(AuctionError::InvalidBidder)
        } else if a.auction_end_time < now {
            Some(AuctionError::AuctionEnded)
        } else if bid_amount <= a.highest_bid || bid_amount < a.reserve_price {
            Some(AuctionError::BidTooLow)
        } else {
            None
        },
    }
}

/// Why an extension is refused, if it is: no such auction, an auction past
/// its end or within ten minutes of it, or a new end not after the old one.
pub open spec fn extension_error(s: AuctionState, seller: Address, product_id: u128, new_end_time: u64, now: u64) -> Option<AuctionError> {
    match auction_of(s, seller, product_id) {
        None => Some(AuctionError::AuctionNotFound),
        Some(a) => if a.auction_end_time < now {
            Some(AuctionError::AuctionEnded)
        } else if a.auction_end_time - now <= 600 {
            Some(AuctionError::TooLateToExtend)
        } else if new_end_time <= a.auction_end_time {
            Some(AuctionError::InvalidAuctionEndTime)
        } else {
            None
        },
    }
}

/// Why finalizing is refused, if it is: no such auction, an auction not yet
/// ended, no bid, no such product, or no stock left.
pub open spec fn finalize_error(s: AuctionState, seller: Address, product_id: u128, now: u64) -> Option<AuctionError> {
    match auction_of(s, seller, product_id) {
        None => Some(AuctionError::AuctionNotFound),
        Some(a) => if a.auction_end_time > now {
            Some(AuctionError::AuctionNotYetEnded)
        } else if a.highest_bidder is None {
            Some(AuctionError::NoBidsPlaced)
        } else {
            match product_of(s, seller, product_id) {
                None => Some(AuctionError::ProductNotFound),
                Some(p) => if p.stock == 0 { Some(AuctionError::OutOfStock) } else { None },
            }
        },
    }
}

impl ProductAuctionContract {
    /// A seller opens an auction of a product, with no bid yet.
    pub fn create_auction(&mut self, seller: Address, reserve_price: u64, auction_end_time: u64, product_id: u128) -> (r: Result<(), AuctionError>)
        ensures
            auction_of(old(self)@, seller, product_id) is Some ==> r == Err::<(), AuctionError>(AuctionError::AuctionAlreadyExists)
                && final(self)@ == old(self)@,
            auction_of(old(self)@, seller, product_id) is None ==> r == Ok::<(), AuctionError>(()) && final(self)@ == (AuctionState {
                auctions: old(self)@.auctions.push(Auction {
                    product_id,
                    highest_bid: 0,
                    highest_bidder: None,
                    reserve_price,
                    auction_end_time,
                    seller,
                }),
                ..old(self)@
            }),
    {
        if self.find_auction(seller, product_id).is_some() {
            return Err(AuctionError::AuctionAlreadyExists);
        }
        let auction = Auction { product_id, highest_bid: 0, highest_bidder: None, reserve_price, auction_end_time, seller };
        self.auctions.push(auction);
        assert(self@.products == old(self)@.products);
        Ok(())
    }

    /// `bidder` bids `bid_amount` at `now`; an accepted bid becomes the highest.
    pub fn place_bid(&mut self, product_id: u128, bid_amount: u64, bidder: Address, seller: Address, now: u64) -> (r: Result<bool, AuctionError>)
        ensures
            match bid_error(old(self)@, product_id, bid_amount, bidder, seller, now) {
                Some(e) => r == Err::<bool, AuctionError>(e) && final(self)@ == old(self)@,
                None => {
                    let i = first_match(old(self)@.auctions, auction_key(seller, product_id)).unwrap();
                    &&& r == Ok::<bool, AuctionError>(true)
                    &&& final(self)@ == (AuctionState {
                        auctions: old(self)@.auctions.update(i, Auction {
                            highest_bid: bid_amount,
                            highest_bidder: Some(bidder),
                            ..old(self)@.auctions[i]
                        }),
                        ..old(self)@
                    })
                },
            },
    {
        let i = match self.find_auction(seller, product_id) {
            Some(i) => i,
            None => return Err(AuctionError::AuctionNotFound),
        };
        let mut auction = self.auctions[i];
        if bidder == auction.seller {
            return Err(AuctionError::InvalidBidder);
        }
        if auction.auction_end_time < now {
            return Err(AuctionError::AuctionEnded);
        }
        if bid_amount <= auction.highest_bid || bid_amount < auction.reserve_price {
            return Err(AuctionError::BidTooLow);
        }
        auction.highest_bid = bid_amount;
        auction.highest_bidder = Some(bidder);
        self.auctions.set(i, auction);
        assert(self@.products == old(self)@.products);
        Ok(true)
    }

    /// A seller moves the end of an auction later, while more than ten minutes remain.
    pub fn extend_auction(&mut self, seller: Address, product_id: u128, new_end_time: u64, now: u64) -> (r: Result<(), AuctionError>)
        ensures
            match extension_error(old(self)@, seller, product_id, new_end_time, now) {
                Some(e) => r == Err::<(), AuctionError>(e) && final(self)@ == old(self)@,
                None => {
                    let i = first_match(old(self)@.auctions, auction_key(seller, product_id)).unwrap();
                    &&& r == Ok::<(), AuctionError>(())
                    &&& final(self)@ == (AuctionState {
                        auctions: old(self)@.auctions.update(i, Auction { auction_end_time: new_end_time, ..old(self)@.auctions[i] }),
                        ..old(self)@
                    })
                },
            },
    {
        let i = match self.find_auction(seller, product_id) {
            Some(i) => i,
            None => return Err(AuctionError::AuctionNotFound),
        };
        let mut auction = self.auctions[i];
        if auction.auction_end_time < now {
            return Err(AuctionError::AuctionEnded);
        }
        let min_extension_time: u64 = 600;
        if auction.auction_end_time - now <= min_extension_time {
            return Err(AuctionError::TooLateToExtend);
        }
        if new_end_time <= auction.auction_end_time {
            return Err(AuctionError::InvalidAuctionEndTime);
        }
        auction.auction_end_time = new_end_time;
        self.auctions.set(i, auction);
        assert(self@.products == old(self)@.products);
        Ok(())
    }

    /// A seller settles an ended auction that has a bid: one unit of the
    /// product leaves the stock and the auction is closed.
    pub fn finalize_auction(&mut self, seller: Address, product_id: u128, now: u64) -> (r: Result<(), AuctionError>)
        ensures
            match finalize_error(old(self)@, seller, product_id, now) {
                Some(e) => r == Err::<(), AuctionError>(e) && final(self)@ == old(self)@,
                None => {
                    let i = first_match(old(self)@.auctions, auction_key(seller, product_id)).unwrap();
                    let p = product_of(old(self)@, seller, product_id).unwrap();
                    &&& r == Ok::<(), AuctionError>(())
                    &&& final(self)@ == (AuctionState {
                        products: upsert_product(old(self)@.products, ProductView { stock: (p.stock - 1) as u32, ..p }),
                        auctions: old(self)@.auctions.remove(i),
                        ..old(self)@
                    })
                },
            },
    {
        let i = match self.find_auction(seller, product_id) {
            Some(i) => i,
            None => return Err(AuctionError::AuctionNotFound),
        };
        let auction = self.auctions[i];
        if auction.auction_end_time > now {
            return Err(AuctionError::AuctionNotYetEnded);
        }
        if auction.highest_bidder.is_none() {
            return Err(AuctionError::NoBidsPlaced);
        }
        let mut product = match self.get_product(seller, product_id) {
            Ok(p) => p,
            Err(_) => return Err(AuctionError::ProductNotFound),
        };
        if product.stock == 0 {
            return Err(AuctionError::OutOfStock);
        }
        product.stock = product.stock - 1;
        self.put_product(product);
        let ghost mid = self@;
        self.auctions.remove(i);
        assert(self@.products == mid.products);
        Ok(())
    }
}

} // verus!
