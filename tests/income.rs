use park_backend::income::{
    build_income_report, IncomeData, IncomeReport, IncomeReportHandler, ReportSources,
};
use park_backend::money::DecimalValue;
use park_backend::period::{resolve_period, ReportError, ReportPeriod};
use park_backend::records::{
    MenuItem, Restaurant, RestaurantOrder, Ride, RideQueueEntry, Souvenir, SouvenirOrder, Store,
};

const UNIT: i128 = 1_000_000_000;
const NOON: i64 = 1718452800;

fn window() -> ReportPeriod {
    resolve_period("day", NOON).unwrap()
}

fn restaurant_order(id: &str, restaurant: &str, item: &str, quantity: i32, at: i64) -> RestaurantOrder {
    RestaurantOrder {
        order_id: id.to_string(),
        restaurant_id: restaurant.to_string(),
        menu_item_id: item.to_string(),
        quantity,
        timestamp: at,
    }
}

fn souvenir_order(id: &str, store: &str, souvenir: &str, quantity: i32, at: i64) -> SouvenirOrder {
    SouvenirOrder {
        order_id: id.to_string(),
        store_id: store.to_string(),
        souvenir_id: souvenir.to_string(),
        quantity,
        timestamp: at,
    }
}

fn ticket(id: &str, ride: &str, at: i64) -> RideQueueEntry {
    RideQueueEntry { queue_id: id.to_string(), ride_id: ride.to_string(), joined_at: at }
}

fn sample_data() -> IncomeData {
    IncomeData {
        restaurant_orders: vec![restaurant_order("o1", "r1", "m1", 3, NOON)],
        souvenir_orders: vec![souvenir_order("s1", "st1", "sv1", 2, NOON)],
        ride_queue: vec![ticket("q1", "rd1", NOON)],
        restaurants: vec![Restaurant { restaurant_id: "r1".to_string(), name: "Paris Bread".to_string() }],
        menu_items: vec![MenuItem { menu_item_id: "m1".to_string(), price: "10.00".to_string() }],
        stores: vec![Store { store_id: "st1".to_string(), name: "Dragon Lego".to_string() }],
        souvenirs: vec![Souvenir {
            souvenir_id: "sv1".to_string(),
            price: DecimalValue { mantissa: 500, scale: 2 },
        }],
        rides: vec![Ride {
            ride_id: "rd1".to_string(),
            name: "Vortex Odyssey".to_string(),
            price: "8.00".to_string(),
        }],
    }
}

fn sources_of(data: IncomeData) -> ReportSources {
    ReportSources {
        restaurant_orders: Ok(data.restaurant_orders),
        souvenir_orders: Ok(data.souvenir_orders),
        ride_queue: Ok(data.ride_queue),
        restaurants: Ok(data.restaurants),
        menu_items: Ok(data.menu_items),
        stores: Ok(data.stores),
        souvenirs: Ok(data.souvenirs),
        rides: Ok(data.rides),
    }
}

fn report(data: &IncomeData) -> IncomeReport {
    build_income_report(&window(), data).unwrap()
}

#[test]
fn one_order_of_each_kind() {
    let r = IncomeReportHandler::generate_income_report(&window(), sources_of(sample_data())).unwrap();
    assert_eq!(r.consumption.total, 30 * UNIT);
    assert_eq!(r.marketing.total, 10 * UNIT);
    assert_eq!(r.operations.total, 8 * UNIT);
    assert_eq!(r.grand_total, 48 * UNIT);
    assert_eq!(r.consumption.restaurants.len(), 1);
    assert_eq!(r.marketing.stores.len(), 1);
    assert_eq!(r.operations.rides.len(), 1);
    let restaurant = &r.consumption.restaurants[0];
    assert_eq!(restaurant.restaurant_id, "r1");
    assert_eq!(restaurant.restaurant_name, "Paris Bread");
    assert_eq!(restaurant.order_count, 1);
    assert_eq!(restaurant.items_sold, 3);
    let store = &r.marketing.stores[0];
    assert_eq!(store.store_name, "Dragon Lego");
    assert_eq!(store.items_sold, 2);
    let ride = &r.operations.rides[0];
    assert_eq!(ride.ride_name, "Vortex Odyssey");
    assert_eq!(ride.ticket_count, 1);
    assert_eq!(r.period, "2024-06-15");
}

#[test]
fn window_end_is_excluded_and_start_included() {
    let w = window();
    let mut data = sample_data();
    data.restaurant_orders = vec![
        restaurant_order("a", "r1", "m1", 1, w.start),
        restaurant_order("b", "r1", "m1", 5, w.end),
        restaurant_order("c", "r1", "m1", 7, w.start - 1),
    ];
    let r = report(&data);
    assert_eq!(r.consumption.total, 10 * UNIT);
    assert_eq!(r.consumption.restaurants[0].order_count, 1);
    assert_eq!(r.consumption.restaurants[0].items_sold, 1);
}

#[test]
fn missing_menu_item_counts_as_zero() {
    let mut data = sample_data();
    data.restaurant_orders = vec![restaurant_order("o9", "r1", "missing", 4, NOON)];
    let r = report(&data);
    assert_eq!(r.consumption.total, 0);
    assert_eq!(r.consumption.restaurants.len(), 1);
    assert_eq!(r.consumption.restaurants[0].total_income, 0);
    assert_eq!(r.consumption.restaurants[0].order_count, 1);
    assert_eq!(r.consumption.restaurants[0].items_sold, 4);
}

#[test]
fn unreadable_prices_and_unknown_names() {
    let mut data = sample_data();
    data.menu_items[0].price = "ten".to_string();
    data.restaurants.clear();
    data.stores.clear();
    data.rides.clear();
    data.souvenirs[0].price = DecimalValue { mantissa: 5, scale: 40 };
    let r = report(&data);
    assert_eq!(r.consumption.total, 0);
    assert_eq!(r.consumption.restaurants[0].restaurant_name, "Unknown Restaurant");
    assert_eq!(r.marketing.stores[0].store_name, "Unknown Store");
    assert_eq!(r.marketing.total, 0);
    assert_eq!(r.operations.rides[0].ride_name, "Unknown Ride");
    assert_eq!(r.operations.rides[0].ticket_count, 1);
    assert_eq!(r.operations.total, 0);
}

#[test]
fn totals_add_up_per_entity_and_category() {
    let mut data = sample_data();
    data.menu_items.push(MenuItem { menu_item_id: "m2".to_string(), price: "2.25".to_string() });
    data.restaurants.push(Restaurant { restaurant_id: "r2".to_string(), name: "The Beer Bar".to_string() });
    data.restaurant_orders = vec![
        restaurant_order("a", "r1", "m1", 1, NOON),
        restaurant_order("b", "r2", "m2", 4, NOON + 1),
        restaurant_order("c", "r1", "m2", 2, NOON + 2),
    ];
    data.ride_queue.push(ticket("q2", "rd1", NOON + 5));
    let r = report(&data);
    assert_eq!(r.consumption.restaurants.len(), 2);
    let r1 = &r.consumption.restaurants[0];
    let r2 = &r.consumption.restaurants[1];
    assert_eq!(r1.restaurant_id, "r1");
    assert_eq!(r1.total_income, 14_500_000_000);
    assert_eq!(r1.order_count, 2);
    assert_eq!(r1.items_sold, 3);
    assert_eq!(r2.total_income, 9 * UNIT);
    let sum: i128 = r.consumption.restaurants.iter().map(|e| e.total_income).sum();
    assert_eq!(r.consumption.total, sum);
    assert_eq!(r.operations.total, 16 * UNIT);
    assert_eq!(r.operations.rides[0].ticket_count, 2);
    assert_eq!(r.grand_total, r.consumption.total + r.marketing.total + r.operations.total);
}

#[test]
fn empty_window_lists_no_entities() {
    let mut data = sample_data();
    data.restaurant_orders[0].timestamp = NOON + 86_400;
    data.souvenir_orders.clear();
    data.ride_queue.clear();
    let r = report(&data);
    assert!(r.consumption.restaurants.is_empty());
    assert!(r.marketing.stores.is_empty());
    assert!(r.operations.rides.is_empty());
    assert_eq!(r.grand_total, 0);
}

#[test]
fn generating_twice_gives_the_same_report() {
    let a = report(&sample_data());
    let b = report(&sample_data());
    assert_eq!(format!("{:?}", a), format!("{:?}", b));
}

#[test]
fn first_failed_fetch_aborts_the_report() {
    let mut sources = sources_of(sample_data());
    sources.stores = Err("stores unreachable".to_string());
    sources.rides = Err("rides unreachable".to_string());
    let e = IncomeReportHandler::generate_income_report(&window(), sources).unwrap_err();
    assert_eq!(e, ReportError::DataAccess("stores unreachable".to_string()));
    assert_eq!(e.message(), "stores unreachable");
}

#[test]
fn amounts_beyond_the_range_are_refused() {
    let mut data = sample_data();
    data.souvenirs[0].price = DecimalValue { mantissa: 70_000_000_000_000_000_000_000_000_000, scale: 0 };
    data.souvenir_orders[0].quantity = 1_000;
    let e = build_income_report(&window(), &data).unwrap_err();
    assert_eq!(e, ReportError::AmountOverflow);
}

#[test]
fn negative_amounts_still_sum_exactly() {
    let mut data = sample_data();
    data.restaurant_orders.push(restaurant_order("refund", "r1", "m1", -1, NOON));
    let r = report(&data);
    assert_eq!(r.consumption.total, 20 * UNIT);
    assert_eq!(r.consumption.restaurants[0].items_sold, 2);
}
