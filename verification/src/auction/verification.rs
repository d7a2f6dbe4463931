//! Verifying products and sellers; disputes and returns.
use super::datatype::{
    Condition, Dispute, DisputeStatus, ProductView, ReturnPolicy, ReturnRequest, SellerVerification,
    SellerVerificationStatus, VerificationError,
};
use super::listing::upsert_product;
use super::{product_of, AuctionState, ProductAuctionContract};
use crate::common::{as_index, first_match, lemma_first_match_at, lemma_first_match_none, Address};
use vstd::prelude::*;

verus! {

pub open spec fn verification_key(seller: Address) -> spec_fn(SellerVerification) -> bool {
    |v: SellerVerification| v.seller == seller
}

pub open spec fn dispute_key(buyer: Address, seller: Address, product_id: u128) -> spec_fn(Dispute) -> bool {
    |d: Dispute| d.buyer == buyer && d.seller == seller && d.product_id == product_id
}

pub open spec fn policy_key(seller: Address) -> spec_fn(ReturnPolicy) -> bool {
    |p: ReturnPolicy| p.seller == seller
}

pub open spec fn return_key(buyer: Address, product_id: u128) -> spec_fn(ReturnRequest) -> bool {
    |r: ReturnRequest| r.buyer == buyer && r.product_id == product_id
}

/// The verification status of a seller, if one was requested.
pub open spec fn seller_status(s: AuctionState, seller: Address) -> Option<SellerVerificationStatus> {
    match first_match(s.seller_verifications, verification_key(seller)) {
        Some(i) => Some(s.seller_verifications[i].status),
        None => None,
    }
}

/// The dispute of a buyer over a product of a seller, if any.
pub open spec fn dispute_of(s: AuctionState, buyer: Address, seller: Address, product_id: u128) -> Option<Dispute> {
    match first_match(s.disputes, dispute_key(buyer, seller, product_id)) {
        Some(i) => Some(s.disputes[i]),
        None => None,
    }
}

/// The return request of a buyer for a product, if any.
pub open spec fn return_of(s: AuctionState, buyer: Address, product_id: u128) -> Option<ReturnRequest> {
    match first_match(s.return_requests, return_key(buyer, product_id)) {
        Some(i) => Some(s.return_requests[i]),
        None => None,
    }
}

/// The return policy of a seller, if one was set.
pub open spec fn policy_of(s: AuctionState, seller: Address) -> Option<String> {
    match first_match(s.return_policies, policy_key(seller)) {
        Some(i) => Some(s.return_policies[i].policy),
        None => None,
    }
}

/// The policies after setting `seller`'s: the seller's entry replaced, or a
/// new one added.
pub open spec fn with_policy(ps: Seq<ReturnPolicy>, seller: Address, policy: String) -> Seq<ReturnPolicy> {
    match first_match(ps, policy_key(seller)) {
        Some(i) => ps.update(i, ReturnPolicy { seller, policy }),
        None => ps.push(ReturnPolicy { seller, policy }),
    }
}

/// A new return request.
pub open spec fn requested(buyer: Address, seller: Address, product_id: u128, reason: String, status: String) -> ReturnRequest {
    ReturnRequest { buyer, seller, product_id, reason, status }
}

impl ProductAuctionContract {
    fn find_verification(&self, seller: Address) -> (r: Option<usize>)
        ensures
            as_index(r) == first_match(self@.seller_verifications, verification_key(seller)),
    {
        let mut i: usize = 0;
        while i < self.seller_verifications.len()
            invariant
                i <= self.seller_verifications@.len(),
                forall|j: int| 0 <= j < i ==> !verification_key(seller)(#[trigger] self.seller_verifications@[j]),
            decreases self.seller_verifications@.len() - i,
        {
            if self.seller_verifications[i].seller == seller {
                proof { lemma_first_match_at(self.seller_verifications@, verification_key(seller), i as int); }
                return Some(i);
            }
            i += 1;
        }
        proof { lemma_first_match_none(self.seller_verifications@, verification_key(seller)); }
        None
    }

    fn find_dispute(&self, buyer: Address, seller: Address, product_id: u128) -> (r: Option<usize>)
        ensures
            as_index(r) == first_match(self@.disputes, dispute_key(buyer, seller, product_id)),
    {
        let mut i: usize = 0;
        while i < self.disputes.len()
            invariant
                i <= self.disputes@.len(),
                forall|j: int| 0 <= j < i ==> !dispute_key(buyer, seller, product_id)(#[trigger] self.disputes@[j]),
            decreases self.disputes@.len() - i,
        {
            let d = &self.disputes[i];
            if d.buyer == buyer && d.seller == seller && d.product_id == product_id {
                proof { lemma_first_match_at(self.disputes@, dispute_key(buyer, seller, product_id), i as int); }
                return Some(i);
            }
            i += 1;
        }
        proof { lemma_first_match_none(self.disputes@, dispute_key(buyer, seller, product_id)); }
        None
    }

    fn find_policy(&self, seller: Address) -> (r: Option<usize>)
        ensures
            as_index(r) == first_match(self@.return_policies, policy_key(seller)),
    {
        let mut i: usize = 0;
        while i < self.return_policies.len()
            invariant
                i <= self.return_policies@.len(),
                forall|j: int| 0 <= j < i ==> !policy_key(seller)(#[trigger] self.return_policies@[j]),
            decreases self.return_policies@.len() - i,
        {
            if self.return_policies[i].seller == seller {
                proof { lemma_first_match_at(self.return_policies@, policy_key(seller), i as int); }
                return Some(i);
            }
            i += 1;
        }
        proof { lemma_first_match_none(self.return_policies@, policy_key(seller)); }
        None
    }

    fn find_return(&self, buyer: Address, product_id: u128) -> (r: Option<usize>)
        ensures
            as_index(r) == first_match(self@.return_requests, return_key(buyer, product_id)),
    {
        let mut i: usize = 0;
        while i < self.return_requests.len()
            invariant
                i <= self.return_requests@.len(),
                forall|j: int| 0 <= j < i ==> !return_key(buyer, product_id)(#[trigger] self.return_requests@[j]),
            decreases self.return_requests@.len() - i,
        {
            if self.return_requests[i].buyer == buyer && self.return_requests[i].product_id == product_id {
                proof { lemma_first_match_at(self.return_requests@, return_key(buyer, product_id), i as int); }
                return Some(i);
            }
            i += 1;
        }
        proof { lemma_first_match_none(self.return_requests@, return_key(buyer, product_id)); }
        None
    }

    /// Records whether a product of a seller is authentic.  The caller
    /// (meant to be the administrator) authorizes the call; its address is not
    /// checked against the stored administrator.
    pub fn verify_product(&mut self, _admin: Address, seller: Address, product_id: u128, is_authentic: bool) -> (r: Result<(), VerificationError>)
        ensures
            match product_of(old(self)@, seller, product_id) {
                None => r == Err::<(), VerificationError>(VerificationError::ProductNotFound) && final(self)@ == old(self)@,
                Some(p) => r == Ok::<(), VerificationError>(()) && final(self)@ == (AuctionState {
                    products: upsert_product(old(self)@.products, ProductView { verified: is_authentic, ..p }),
                    ..old(self)@
                }),
            },
    {
        let mut product = match self.get_product(seller, product_id) {
            Ok(p) => p,
            Err(_) => return Err(VerificationError::ProductNotFound),
        };
        product.verified = is_authentic;
        self.put_product(product);
        Ok(())
    }

    /// A seller asks to be verified, once.
    pub fn request_seller_verification(&mut self, seller: Address) -> (r: Result<(), VerificationError>)
        ensures
            seller_status(old(self)@, seller) is Some ==> r == Err::<(), VerificationError>(VerificationError::AlreadyRequested)
                && final(self)@ == old(self)@,
            seller_status(old(self)@, seller) is None ==> r == Ok::<(), VerificationError>(()) && final(self)@ == (AuctionState {
                seller_verifications: old(self)@.seller_verifications.push(SellerVerification {
                    seller,
                    status: SellerVerificationStatus::Pending,
                }),
                ..old(self)@
            }),
    {
        if self.find_verification(seller).is_some() {
            return Err(VerificationError::AlreadyRequested);
        }
        self.seller_verifications.push(SellerVerification { seller, status: SellerVerificationStatus::Pending });
        assert(self@.products == old(self)@.products);
        assert(self@.product_lists == old(self)@.product_lists);
        Ok(())
    }

    /// Decides a seller's verification request: verified or rejected.  The
    /// caller authorizes the call; its address is not checked.
    pub fn verify_seller(&mut self, _admin: Address, seller: Address, is_verified: bool) -> (r: Result<(), VerificationError>)
        ensures
            match first_match(old(self)@.seller_verifications, verification_key(seller)) {
                None => r == Err::<(), VerificationError>(VerificationError::NoVerificationRequest) && final(self)@ == old(self)@,
                Some(i) => r == Ok::<(), VerificationError>(()) && final(self)@ == (AuctionState {
                    seller_verifications: old(self)@.seller_verifications.update(i, SellerVerification {
                        seller,
                        status: if is_verified { SellerVerificationStatus::Verified } else { SellerVerificationStatus::Rejected },
                    }),
                    ..old(self)@
                }),
            },
    {
        let i = match self.find_verification(seller) {
            Some(i) => i,
            None => return Err(VerificationError::NoVerificationRequest),
        };
        let status = if is_verified { SellerVerificationStatus::Verified } else { SellerVerificationStatus::Rejected };
        self.seller_verifications.set(i, SellerVerification { seller, status });
        assert(self@.products == old(self)@.products);
        assert(self@.product_lists == old(self)@.product_lists);
        Ok(())
    }

    /// Records the verified condition of a product of a seller.  The caller
    /// authorizes the call; its address is not checked.
    pub fn verify_condition(&mut self, _admin: Address, seller: Address, product_id: u128, condition: Condition) -> (r: Result<(), VerificationError>)
        ensures
            match product_of(old(self)@, seller, product_id) {
                None => r == Err::<(), VerificationError>(VerificationError::ProductNotFound) && final(self)@ == old(self)@,
                Some(p) => r == Ok::<(), VerificationError>(()) && final(self)@ == (AuctionState {
                    products: upsert_product(old(self)@.products, ProductView { condition, ..p }),
                    ..old(self)@
                }),
            },
    {
        let mut product = match self.get_product(seller, product_id) {
            Ok(p) => p,
            Err(_) => return Err(VerificationError::ProductNotFound),
        };
        product.condition = condition;
        self.put_product(product);
        Ok(())
    }

    /// A buyer opens a dispute over a product of a seller, once.
    pub fn open_dispute(&mut self, buyer: Address, seller: Address, product_id: u128, reason: String) -> (r: Result<(), VerificationError>)
        ensures
            dispute_of(old(self)@, buyer, seller, product_id) is Some ==> r == Err::<(), VerificationError>(
                VerificationError::DisputeAlreadyExists,
            ) && final(self)@ == old(self)@,
            dispute_of(old(self)@, buyer, seller, product_id) is None ==> r == Ok::<(), VerificationError>(()) && final(self)@ == (
            AuctionState {
                disputes: old(self)@.disputes.push(Dispute { buyer, seller, product_id, reason, status: DisputeStatus::Pending }),
                ..old(self)@
            }),
    {
        if self.find_dispute(buyer, seller, product_id).is_some() {
            return Err(VerificationError::DisputeAlreadyExists);
        }
        self.disputes.push(Dispute { buyer, seller, product_id, reason, status: DisputeStatus::Pending });
        assert(self@.products == old(self)@.products);
        assert(self@.product_lists == old(self)@.product_lists);
        Ok(())
    }

    /// Settles a dispute with a resolution.  The caller authorizes the call;
    /// its address is not checked.
    pub fn resolve_dispute(
        &mut self,
        _admin: Address,
        buyer: Address,
        seller: Address,
        product_id: u128,
        resolution: DisputeStatus,
    ) -> (r: Result<(), VerificationError>)
        ensures
            match first_match(old(self)@.disputes, dispute_key(buyer, seller, product_id)) {
                None => r == Err::<(), VerificationError>(VerificationError::DisputeNotFound) && final(self)@ == old(self)@,
                Some(i) => r == Ok::<(), VerificationError>(()) && final(self)@ == (AuctionState {
                    disputes: old(self)@.disputes.update(i, Dispute { status: resolution, ..old(self)@.disputes[i] }),
                    ..old(self)@
                }),
            },
    {
        let i = match self.find_dispute(buyer, seller, product_id) {
            Some(i) => i,
            None => return Err(VerificationError::DisputeNotFound),
        };
        let d = &self.disputes[i];
        let updated = Dispute {
            buyer: d.buyer,
            seller: d.seller,
            product_id: d.product_id,
            reason: d.reason.clone(),
            status: resolution,
        };
        self.disputes.set(i, updated);
        assert(self@.products == old(self)@.products);
        assert(self@.product_lists == old(self)@.product_lists);
        Ok(())
    }

    /// A seller sets its return policy, replacing any earlier one.
    pub fn set_return_policy(&mut self, seller: Address, policy: String) -> (r: Result<(), VerificationError>)
        ensures
            r == Ok::<(), VerificationError>(()),
            final(self)@ == (AuctionState {
                return_policies: with_policy(old(self)@.return_policies, seller, policy),
                ..old(self)@
            }),
    {
        match self.find_policy(seller) {
            Some(i) => self.return_policies.set(i, ReturnPolicy { seller, policy }),
            None => self.return_policies.push(ReturnPolicy { seller, policy }),
        }
        assert(self@.products == old(self)@.products);
        assert(self@.product_lists == old(self)@.product_lists);
        Ok(())
    }

    /// A buyer asks to return a product, once per product.
    pub fn request_return(&mut self, buyer: Address, seller: Address, product_id: u128, reason: String) -> (r: Result<(), VerificationError>)
        ensures
            return_of(old(self)@, buyer, product_id) is Some ==> r == Err::<(), VerificationError>(
                VerificationError::ReturnAlreadyRequested,
            ) && final(self)@ == old(self)@,
            return_of(old(self)@, buyer, product_id) is None ==> r == Ok::<(), VerificationError>(()) && exists|status: String|
                {
                &&& status@ == "Requested"@
                &&& final(self)@ == (AuctionState {
                    return_requests: old(self)@.return_requests.push(#[trigger] requested(buyer, seller, product_id, reason, status)),
                    ..old(self)@
                })
            },
    {
        if self.find_return(buyer, product_id).is_some() {
            return Err(VerificationError::ReturnAlreadyRequested);
        }
        let status = "Requested".to_owned();
        let ghost st = status;
        self.return_requests.push(ReturnRequest { buyer, seller, product_id, reason, status });
        assert(self@.products == old(self)@.products);
        assert(self@.product_lists == old(self)@.product_lists);
        assert(self@ == AuctionState {
            return_requests: old(self)@.return_requests.push(requested(buyer, seller, product_id, reason, st)),
            ..old(self)@
        });
        Ok(())
    }

    /// Settles a return request with a resolution.  The caller authorizes
    /// the call; its address is not checked.
    pub fn resolve_return(&mut self, _admin: Address, buyer: Address, product_id: u128, resolution: String) -> (r: Result<(), VerificationError>)
        ensures
            match first_match(old(self)@.return_requests, return_key(buyer, product_id)) {
                None => r == Err::<(), VerificationError>(VerificationError::ReturnRequestNotFound) && final(self)@ == old(self)@,
                Some(i) => r == Ok::<(), VerificationError>(()) && final(self)@ == (AuctionState {
                    return_requests: old(self)@.return_requests.update(i, ReturnRequest {
                        status: resolution,
                        ..old(self)@.return_requests[i]
                    }),
                    ..old(self)@
                }),
            },
    {
        let i = match self.find_return(buyer, product_id) {
            Some(i) => i,
            None => return Err(VerificationError::ReturnRequestNotFound),
        };
        let q = &self.return_requests[i];
        let updated = ReturnRequest {
            buyer: q.buyer,
            seller: q.seller,
            product_id: q.product_id,
            reason: q.reason.clone(),
            status: resolution,
        };
        self.return_requests.set(i, updated);
        assert(self@.products == old(self)@.products);
        assert(self@.product_lists == old(self)@.product_lists);
        Ok(())
    }
}

} // verus!
