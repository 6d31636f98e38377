//! The stored records that the income report reads, as plain values, and the
//! lookups that resolve an order's references.

use vstd::prelude::*;
use crate::money::{amount_limit, decimal_amount, price_amount, price_of_text, DecimalValue};

verus! {

/// A restaurant order; `timestamp` is an instant in seconds.
#[derive(Clone, Debug)]
pub struct RestaurantOrder {
    pub order_id: String,
    pub restaurant_id: String,
    pub menu_item_id: String,
    pub quantity: i32,
    pub timestamp: i64,
}

/// A souvenir order; `timestamp` is an instant in seconds.
#[derive(Clone, Debug)]
pub struct SouvenirOrder {
    pub order_id: String,
    pub store_id: String,
    pub souvenir_id: String,
    pub quantity: i32,
    pub timestamp: i64,
}

/// A place in a ride's queue: one ticket; `joined_at` is an instant in seconds.
#[derive(Clone, Debug)]
pub struct RideQueueEntry {
    pub queue_id: String,
    pub ride_id: String,
    pub joined_at: i64,
}

#[derive(Clone, Debug)]
pub struct Restaurant {
    pub restaurant_id: String,
    pub name: String,
}

#[derive(Clone, Debug)]
pub struct Store {
    pub store_id: String,
    pub name: String,
}

/// A menu item; its price is stored as decimal text.
#[derive(Clone, Debug)]
pub struct MenuItem {
    pub menu_item_id: String,
    pub price: String,
}

#[derive(Clone, Debug)]
pub struct Souvenir {
    pub souvenir_id: String,
    pub price: DecimalValue,
}

/// A ride; its price is stored as decimal text.
#[derive(Clone, Debug)]
pub struct Ride {
    pub ride_id: String,
    pub name: String,
    pub price: String,
}

/// The position of the first of `ids`, from position `j` on, that equals `id`.
pub open spec fn first_match(ids: Seq<Seq<char>>, id: Seq<char>, j: int) -> Option<int>
    decreases ids.len() - j,
{
    if j >= ids.len() || j < 0 {
        None
    } else if ids[j] == id {
        Some(j)
    } else {
        first_match(ids, id, j + 1)
    }
}

pub proof fn lemma_first_match_in_range(ids: Seq<Seq<char>>, id: Seq<char>, j: int)
    ensures
        first_match(ids, id, j) matches Some(i) ==> j <= i < ids.len() && ids[i] == id,
    decreases ids.len() - j,
{
    if 0 <= j < ids.len() && ids[j] != id {
        lemma_first_match_in_range(ids, id, j + 1);
    }
}

pub open spec fn restaurant_ids(s: Seq<Restaurant>) -> Seq<Seq<char>> {
    s.map_values(|r: Restaurant| r.restaurant_id@)
}

pub open spec fn store_ids(s: Seq<Store>) -> Seq<Seq<char>> {
    s.map_values(|r: Store| r.store_id@)
}

pub open spec fn menu_item_ids(s: Seq<MenuItem>) -> Seq<Seq<char>> {
    s.map_values(|r: MenuItem| r.menu_item_id@)
}

pub open spec fn souvenir_ids(s: Seq<Souvenir>) -> Seq<Seq<char>> {
    s.map_values(|r: Souvenir| r.souvenir_id@)
}

pub open spec fn ride_ids(s: Seq<Ride>) -> Seq<Seq<char>> {
    s.map_values(|r: Ride| r.ride_id@)
}

/// The name of restaurant `id`, or `Unknown Restaurant`.
pub open spec fn restaurant_name(s: Seq<Restaurant>, id: Seq<char>) -> Seq<char> {
    match first_match(restaurant_ids(s), id, 0) {
        Some(i) => s[i].name@,
        None => "Unknown Restaurant"@,
    }
}

/// The name of store `id`, or `Unknown Store`.
pub open spec fn store_name(s: Seq<Store>, id: Seq<char>) -> Seq<char> {
    match first_match(store_ids(s), id, 0) {
        Some(i) => s[i].name@,
        None => "Unknown Store"@,
    }
}

/// The name of ride `id`, or `Unknown Ride`.
pub open spec fn ride_name(s: Seq<Ride>, id: Seq<char>) -> Seq<char> {
    match first_match(ride_ids(s), id, 0) {
        Some(i) => s[i].name@,
        None => "Unknown Ride"@,
    }
}

/// The unit price of menu item `id`; zero where it is missing or unreadable.
pub open spec fn menu_item_price(s: Seq<MenuItem>, id: Seq<char>) -> int {
    match first_match(menu_item_ids(s), id, 0) {
        Some(i) => price_of_text(s[i].price@),
        None => 0,
    }
}

/// The unit price of souvenir `id`; zero where it is missing or out of range.
pub open spec fn souvenir_price(s: Seq<Souvenir>, id: Seq<char>) -> int {
    match first_match(souvenir_ids(s), id, 0) {
        Some(i) => if s[i].price.wf() {
            s[i].price.amount()
        } else {
            0
        },
        None => 0,
    }
}

/// The ticket price of ride `id`; zero where it is missing or unreadable.
pub open spec fn ride_price(s: Seq<Ride>, id: Seq<char>) -> int {
    match first_match(ride_ids(s), id, 0) {
        Some(i) => price_of_text(s[i].price@),
        None => 0,
    }
}

/// The name of restaurant `id`, or `Unknown Restaurant`.
pub fn lookup_restaurant_name(s: &Vec<Restaurant>, id: &String) -> (r: String)
    ensures
        r@ == restaurant_name(s@, id@),
{
    let mut j: usize = 0;
    while j < s.len()
        invariant
            j <= s.len(),
            first_match(restaurant_ids(s@), id@, 0) == first_match(restaurant_ids(s@), id@, j as int),
        decreases s.len() - j,
    {
        if s[j].restaurant_id == *id {
            return s[j].name.clone();
        }
        j = j + 1;
    }
    crate::text::owned("Unknown Restaurant")
}

/// The name of store `id`, or `Unknown Store`.
pub fn lookup_store_name(s: &Vec<Store>, id: &String) -> (r: String)
    ensures
        r@ == store_name(s@, id@),
{
    let mut j: usize = 0;
    while j < s.len()
        invariant
            j <= s.len(),
            first_match(store_ids(s@), id@, 0) == first_match(store_ids(s@), id@, j as int),
        decreases s.len() - j,
    {
        if s[j].store_id == *id {
            return s[j].name.clone();
        }
        j = j + 1;
    }
    crate::text::owned("Unknown Store")
}

/// The name of ride `id`, or `Unknown Ride`.
pub fn lookup_ride_name(s: &Vec<Ride>, id: &String) -> (r: String)
    ensures
        r@ == ride_name(s@, id@),
{
    let mut j: usize = 0;
    while j < s.len()
        invariant
            j <= s.len(),
            first_match(ride_ids(s@), id@, 0) == first_match(ride_ids(s@), id@, j as int),
        decreases s.len() - j,
    {
        if s[j].ride_id == *id {
            return s[j].name.clone();
        }
        j = j + 1;
    }
    crate::text::owned("Unknown Ride")
}

/// The unit price of menu item `id`, zero where it is missing or unreadable.
pub fn lookup_menu_item_price(s: &Vec<MenuItem>, id: &String) -> (r: i128)
    ensures
        r == menu_item_price(s@, id@),
        -amount_limit() < r < amount_limit(),
{
    let mut j: usize = 0;
    while j < s.len()
        invariant
            j <= s.len(),
            first_match(menu_item_ids(s@), id@, 0) == first_match(menu_item_ids(s@), id@, j as int),
        decreases s.len() - j,
    {
        if s[j].menu_item_id == *id {
            return price_amount(s[j].price.as_str());
        }
        j = j + 1;
    }
    0
}

/// The unit price of souvenir `id`, zero where it is missing or out of range.
pub fn lookup_souvenir_price(s: &Vec<Souvenir>, id: &String) -> (r: i128)
    ensures
        r == souvenir_price(s@, id@),
        -amount_limit() < r < amount_limit(),
{
    let mut j: usize = 0;
    while j < s.len()
        invariant
            j <= s.len(),
            first_match(souvenir_ids(s@), id@, 0) == first_match(souvenir_ids(s@), id@, j as int),
        decreases s.len() - j,
    {
        if s[j].souvenir_id == *id {
            if s[j].price.is_wf() {
                return decimal_amount(s[j].price);
            } else {
                return 0;
            }
        }
        j = j + 1;
    }
    0
}

/// The ticket price of ride `id`, zero where it is missing or unreadable.
pub fn lookup_ride_price(s: &Vec<Ride>, id: &String) -> (r: i128)
    ensures
        r == ride_price(s@, id@),
        -amount_limit() < r < amount_limit(),
{
    let mut j: usize = 0;
    while j < s.len()
        invariant
            j <= s.len(),
            first_match(ride_ids(s@), id@, 0) == first_match(ride_ids(s@), id@, j as int),
        decreases s.len() - j,
    {
        if s[j].ride_id == *id {
            return price_amount(s[j].price.as_str());
        }
        j = j + 1;
    }
    0
}

} // verus!
