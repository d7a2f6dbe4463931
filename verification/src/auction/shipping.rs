//! Shipping sold products.
use super::datatype::{Shipment, ShippingError, COST_PER_KM, COST_PER_POUND};
use super::{shipment_key, shipment_of, AuctionState, ProductAuctionContract};
use crate::common::{first_match, Address};
use vstd::prelude::*;

verus! {

/// The cost of shipping: 6 per pound plus 1 per kilometre.
pub open spec fn shipping_cost(weight_pounds: u32, distance_km: u32) -> int {
    weight_pounds * COST_PER_POUND + distance_km * COST_PER_KM
}

/// The days a delivery takes: 1 up to 50 km, 3 up to 200 km, 5 up to 500 km, 7 beyond.
pub open spec fn delivery_days(distance_km: u32) -> u32 {
    if distance_km <= 50 {
        1
    } else if distance_km <= 200 {
        3
    } else if distance_km <= 500 {
        5
    } else {
        7
    }
}

/// The zones goods are not shipped to.
pub open spec fn restricted_zone(zone: Seq<char>) -> bool {
    zone == "RestrictedZone1"@ || zone == "RestrictedZone2"@
}

/// The cost of shipping a weight over a distance.
pub fn calculate_shipping_cost(weight_pounds: u32, distance_km: u32) -> (cost: u64)
    ensures
        cost == shipping_cost(weight_pounds, distance_km),
{
    let weight_cost = weight_pounds as u64 * COST_PER_POUND;
    let distance_cost = distance_km as u64 * COST_PER_KM;
    weight_cost + distance_cost
}

/// The days a delivery over a distance takes.
pub fn estimate_delivery_time(distance_km: u32) -> (days: u32)
    ensures
        days == delivery_days(distance_km),
{
    if distance_km <= 50 {
        1
    } else if distance_km <= 200 {
        3
    } else if distance_km <= 500 {
        5
    } else {
        7
    }
}

/// The shipment a seller creates: pending, with its cost and delivery estimate.
pub open spec fn new_shipment(
    seller: Address,
    buyer: Address,
    weight_grams: u32,
    distance_km: u32,
    tracking_number: String,
    status: String,
) -> Shipment {
    Shipment {
        seller,
        buyer,
        weight_grams,
        distance_km,
        shipping_cost: shipping_cost(weight_grams, distance_km) as u64,
        delivery_estimate_days: delivery_days(distance_km),
        status,
        tracking_number,
    }
}

impl ProductAuctionContract {
    /// A seller creates a shipment to a buyer under a new tracking number;
    /// the buyer's zone must be named and not restricted.
    pub fn create_shipment(
        &mut self,
        seller: Address,
        buyer: Address,
        buyer_zone: String,
        weight_grams: u32,
        distance_km: u32,
        tracking_number: String,
    ) -> (r: Result<String, ShippingError>)
        ensures
            shipment_of(old(self)@, seller, tracking_number@) is Some ==> r == Err::<String, ShippingError>(
                ShippingError::ShipmentAlreadyExists,
            ) && final(self)@ == old(self)@,
            shipment_of(old(self)@, seller, tracking_number@) is None && buyer_zone@.len() == 0 ==> r == Err::<
                String,
                ShippingError,
            >(ShippingError::InvalidBuyerZone) && final(self)@ == old(self)@,
            shipment_of(old(self)@, seller, tracking_number@) is None && buyer_zone@.len() > 0 && restricted_zone(
                buyer_zone@,
            ) ==> r == Err::<String, ShippingError>(ShippingError::RestrictedLocation) && final(self)@ == old(self)@,
            shipment_of(old(self)@, seller, tracking_number@) is None && buyer_zone@.len() > 0 && !restricted_zone(
                buyer_zone@,
            ) ==> (r matches Ok(t) && t@ == tracking_number@) && exists|status: String| {
                &&& status@ == "Pending"@
                &&& final(self)@ == (AuctionState {
                    shipments: old(self)@.shipments.push(#[trigger] new_shipment(seller, buyer, weight_grams, distance_km, tracking_number, status)),
                    shipment_lists: old(self)@.shipment_lists.push(new_shipment(seller, buyer, weight_grams, distance_km, tracking_number, status)),
                    ..old(self)@
                })
            },
    {
        if Self::find_shipment_in(&self.shipments, seller, &tracking_number).is_some() {
            return Err(ShippingError::ShipmentAlreadyExists);
        }
        if buyer_zone.as_str().is_empty() {
            return Err(ShippingError::InvalidBuyerZone);
        }
        let zone1 = "RestrictedZone1".to_owned();
        let zone2 = "RestrictedZone2".to_owned();
        if buyer_zone == zone1 || buyer_zone == zone2 {
            return Err(ShippingError::RestrictedLocation);
        }
        let shipping_cost = calculate_shipping_cost(weight_grams, distance_km);
        let delivery_time = estimate_delivery_time(distance_km);
        let status = "Pending".to_owned();
        let ghost st = status;
        let shipment = Shipment {
            seller,
            buyer,
            weight_grams,
            distance_km,
            shipping_cost,
            delivery_estimate_days: delivery_time,
            status,
            tracking_number: tracking_number.clone(),
        };
        self.shipment_lists.push(super::copy_shipment(&shipment));
        self.shipments.push(shipment);
        assert(self@.products == old(self)@.products);
        assert(self@.product_lists == old(self)@.product_lists);
        assert(self@ == AuctionState {
            shipments: old(self)@.shipments.push(new_shipment(seller, buyer, weight_grams, distance_km, tracking_number, st)),
            shipment_lists: old(self)@.shipment_lists.push(new_shipment(seller, buyer, weight_grams, distance_km, tracking_number, st)),
            ..old(self)@
        });
        Ok(tracking_number)
    }

    /// A seller sets the status of a shipment, looked up among the shipments
    /// kept with the contract instance.
    pub fn update_shipping_status(&mut self, tracking_number: String, seller: Address, new_status: String) -> (r: Result<(), ShippingError>)
        ensures
            match first_match(old(self)@.instance_shipments, shipment_key(seller, tracking_number@)) {
                None => r == Err::<(), ShippingError>(ShippingError::ShipmentNotFound) && final(self)@ == old(self)@,
                Some(i) => r == Ok::<(), ShippingError>(()) && final(self)@ == (AuctionState {
                    instance_shipments: old(self)@.instance_shipments.update(i, Shipment {
                        status: new_status,
                        ..old(self)@.instance_shipments[i]
                    }),
                    ..old(self)@
                }),
            },
    {
        let i = match Self::find_shipment_in(&self.instance_shipments, seller, &tracking_number) {
            Some(i) => i,
            None => return Err(ShippingError::ShipmentNotFound),
        };
        let mut shipment = super::copy_shipment(&self.instance_shipments[i]);
        shipment.status = new_status;
        self.instance_shipments.set(i, shipment);
        assert(self@.products == old(self)@.products);
        assert(self@.product_lists == old(self)@.product_lists);
        Ok(())
    }
}

} // verus!
