//! Listing products and keeping their stock.
use super::datatype::{Condition, Product, ProductError, ProductView};
use super::{product_key, product_of, AuctionState, ProductAuctionContract};
use crate::common::{first_match, Address};
use vstd::prelude::*;

verus! {

/// Why a listing is refused, if it is: a description of fewer than 10 or
/// more than 500 characters, a zero price, a zero weight, or no image.
pub open spec fn listing_error(description: Seq<char>, price: u64, weight_grams: u64, images: Seq<String>) -> Option<ProductError> {
    if description.len() < 10 || description.len() > 500 {
        Some(ProductError::InvalidDescription)
    } else if price == 0 {
        Some(ProductError::InvalidPrice)
    } else if weight_grams == 0 {
        Some(ProductError::InvalidWeight)
    } else if images.len() == 0 {
        Some(ProductError::InvalidImageCount)
    } else {
        None
    }
}

/// The product list after storing a product under its seller and identifier.
pub open spec fn upsert_product(ps: Seq<ProductView>, p: ProductView) -> Seq<ProductView> {
    match first_match(ps, product_key(p.seller, p.id)) {
        Some(i) => ps.update(i, p),
        None => ps.push(p),
    }
}

impl ProductAuctionContract {
    /// Stores a product under its seller and identifier.
    pub(crate) fn put_product(&mut self, p: Product)
        ensures
            final(self)@ == (AuctionState { products: upsert_product(old(self)@.products, p@), ..old(self)@ }),
    {
        let ghost pv = p@;
        match self.find_product(p.seller, p.id) {
            Some(i) => {
                self.products.set(i, p);
                assert(self@.products =~= old(self)@.products.update(i as int, pv));
            },
            None => {
                self.products.push(p);
                assert(self@.products =~= old(self)@.products.push(pv));
            },
        }
        assert(self@.product_lists =~= old(self)@.product_lists);
    }

    /// Whether listing a product keeps the identifier counter in range.
    pub fn listing_in_range(&self, description: &String, price: u64, images: &Vec<String>, weight_grams: u64) -> (b: bool)
        ensures
            b == (listing_error(description@, price, weight_grams, images@) is None ==> self.next_product_id < u128::MAX),
    {
        let length = description.as_str().unicode_len();
        if length < 10 || length > 500 || price == 0 || weight_grams == 0 || images.len() == 0 {
            return true;
        }
        self.next_product_id < u128::MAX
    }

    /// A seller lists a product; it gets the next product identifier, is not
    /// verified yet, and is added to the seller's list.
    pub fn add_product(
        &mut self,
        seller: Address,
        name: String,
        description: String,
        price: u64,
        condition: Condition,
        stock: u32,
        images: Vec<String>,
        weight_grams: u64,
    ) -> (r: Result<u128, ProductError>)
        requires
            listing_error(description@, price, weight_grams, images@) is None ==> old(self).next_product_id < u128::MAX,
        ensures
            match listing_error(description@, price, weight_grams, images@) {
                Some(e) => r == Err::<u128, ProductError>(e) && final(self)@ == old(self)@,
                None => {
                    let id = old(self)@.next_product_id;
                    let p = ProductView {
                        id,
                        seller,
                        name,
                        description,
                        price,
                        condition,
                        stock,
                        images: images@,
                        weight_grams,
                        verified: false,
                    };
                    &&& r == Ok::<u128, ProductError>(id)
                    &&& final(self)@ == (AuctionState {
                        next_product_id: (id + 1) as u128,
                        products: upsert_product(old(self)@.products, p),
                        product_lists: old(self)@.product_lists.push(p),
                        ..old(self)@
                    })
                },
            },
    {
        let length = description.as_str().unicode_len();
        if length < 10 || length > 500 {
            return Err(ProductError::InvalidDescription);
        }
        if price == 0 {
            return Err(ProductError::InvalidPrice);
        }
        if weight_grams == 0 {
            return Err(ProductError::InvalidWeight);
        }
        if images.len() == 0 {
            return Err(ProductError::InvalidImageCount);
        }
        let id = self.next_product_id;
        self.next_product_id = id + 1;
        let product = Product {
            id,
            seller,
            name,
            description,
            price,
            condition,
            stock,
            images,
            weight_grams,
            verified: false,
        };
        let listed = super::copy_product(&product);
        self.put_product(product);
        let ghost before = self.product_lists@;
        self.product_lists.push(listed);
        assert(self@.product_lists =~= super::product_views(before).push(listed@));
        Ok(id)
    }

    /// A seller sets the stock of a product.
    pub fn update_stock(&mut self, seller: Address, product_id: u128, new_stock: u32) -> (r: Result<(), ProductError>)
        ensures
            match product_of(old(self)@, seller, product_id) {
                None => r == Err::<(), ProductError>(ProductError::ProductNotFound) && final(self)@ == old(self)@,
                Some(p) => r == Ok::<(), ProductError>(()) && final(self)@ == (AuctionState {
                    products: upsert_product(old(self)@.products, ProductView { stock: new_stock, ..p }),
                    ..old(self)@
                }),
            },
    {
        let mut product = match self.get_product(seller, product_id) {
            Ok(p) => p,
            Err(e) => return Err(e),
        };
        product.stock = new_stock;
        self.put_product(product);
        Ok(())
    }
}

} // verus!
