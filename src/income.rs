//! The income report: each category's orders inside the reporting window,
//! priced against the reference data and grouped by restaurant, store or ride.

use vstd::prelude::*;
use crate::grouping::{
    abs, abs_sum, accumulate, groups_of, key_count, key_quantity, key_total, keys_of,
    lemma_group_bounds, lemma_group_sum, lemma_listed_keys_counted, line_models, line_sum, group_sum, Group, GroupModel, Line,
    LineModel,
};
use crate::period::{
    instant_in_range, period_end, period_label, period_of_token, period_start, resolve_period,
    ReportError, ReportPeriod,
};
use crate::records::{
    first_match, lemma_first_match_in_range, menu_item_ids,
    lookup_menu_item_price, lookup_restaurant_name, lookup_ride_name, lookup_ride_price,
    lookup_souvenir_price, lookup_store_name, menu_item_price, restaurant_name, ride_name,
    ride_price, souvenir_price, store_name, MenuItem, Restaurant, RestaurantOrder,
    Ride, RideQueueEntry, Souvenir, SouvenirOrder, Store,
};

verus! {

/// An order reduced to what the report reads: the group it counts toward, its
/// unit price, its quantity and its instant.
#[derive(Clone, Debug)]
pub struct Sale {
    pub key: String,
    pub price: i128,
    pub quantity: i32,
    pub time: i64,
}

pub struct SaleModel {
    pub key: Seq<char>,
    pub price: int,
    pub quantity: int,
    pub time: int,
}

impl Sale {
    pub open spec fn model(self) -> SaleModel {
        SaleModel {
            key: self.key@,
            price: self.price as int,
            quantity: self.quantity as int,
            time: self.time as int,
        }
    }
}

pub open spec fn in_window(t: int, start: int, end: int) -> bool {
    start <= t < end
}

/// The lines of the sales whose instant lies in `[start, end)`, each worth its
/// unit price times its quantity.
pub open spec fn sale_lines(sales: Seq<SaleModel>, start: int, end: int) -> Seq<LineModel>
    decreases sales.len(),
{
    if sales.len() == 0 {
        Seq::empty()
    } else {
        let lines = sale_lines(sales.drop_last(), start, end);
        let s = sales.last();
        if in_window(s.time, start, end) {
            lines.push(LineModel { key: s.key, value: s.price * s.quantity, quantity: s.quantity })
        } else {
            lines
        }
    }
}

pub open spec fn restaurant_sales(orders: Seq<RestaurantOrder>, menu: Seq<MenuItem>) -> Seq<
    SaleModel,
> {
    orders.map_values(
        |o: RestaurantOrder|
            SaleModel {
                key: o.restaurant_id@,
                price: menu_item_price(menu, o.menu_item_id@),
                quantity: o.quantity as int,
                time: o.timestamp as int,
            },
    )
}

pub open spec fn souvenir_sales(orders: Seq<SouvenirOrder>, souvenirs: Seq<Souvenir>) -> Seq<
    SaleModel,
> {
    orders.map_values(
        |o: SouvenirOrder|
            SaleModel {
                key: o.store_id@,
                price: souvenir_price(souvenirs, o.souvenir_id@),
                quantity: o.quantity as int,
                time: o.timestamp as int,
            },
    )
}

pub open spec fn ride_sales(entries: Seq<RideQueueEntry>, rides: Seq<Ride>) -> Seq<SaleModel> {
    entries.map_values(
        |e: RideQueueEntry|
            SaleModel {
                key: e.ride_id@,
                price: ride_price(rides, e.ride_id@),
                quantity: 1,
                time: e.joined_at as int,
            },
    )
}

/// One more sale adds its line, if it is in the window, to the lines and their sums.
proof fn lemma_sale_lines_step(sales: Seq<SaleModel>, start: int, end: int)
    requires
        sales.len() > 0,
    ensures
        ({
            let before = sale_lines(sales.drop_last(), start, end);
            let after = sale_lines(sales, start, end);
            let s = sales.last();
            if in_window(s.time, start, end) {
                &&& after.len() == before.len() + 1
                &&& abs_sum(after) == abs_sum(before) + abs(s.price * s.quantity)
                &&& line_sum(after) == line_sum(before) + s.price * s.quantity
            } else {
                after == before
            }
        }),
{
    let before = sale_lines(sales.drop_last(), start, end);
    let s = sales.last();
    let l = LineModel { key: s.key, value: s.price * s.quantity, quantity: s.quantity };
    assert(before.push(l).drop_last() =~= before);
}

proof fn lemma_sale_lines_prefix(sales: Seq<SaleModel>, i: int, start: int, end: int)
    requires
        0 <= i <= sales.len(),
    ensures
        abs_sum(sale_lines(sales.take(i), start, end)) <= abs_sum(sale_lines(sales, start, end)),
        sale_lines(sales, start, end).len() <= sales.len(),
    decreases sales.len() - i,
{
    if i < sales.len() {
        lemma_sale_lines_prefix(sales, i + 1, start, end);
        assert(sales.take(i + 1).drop_last() =~= sales.take(i));
        lemma_sale_lines_step(sales.take(i + 1), start, end);
    } else {
        assert(sales.take(i) =~= sales);
    }
    lemma_sale_lines_len(sales, start, end);
}

proof fn lemma_sale_lines_len(sales: Seq<SaleModel>, start: int, end: int)
    ensures
        sale_lines(sales, start, end).len() <= sales.len(),
        abs_sum(sale_lines(sales, start, end)) >= 0,
    decreases sales.len(),
{
    if sales.len() > 0 {
        lemma_sale_lines_len(sales.drop_last(), start, end);
        lemma_sale_lines_step(sales, start, end);
    }
}

/// The lines of the sales in `[start, end)`, with their sum; `used` is the
/// magnitude already spent from the `i128` range. `None` exactly when the
/// magnitudes, with `used`, exceed that range.
fn window_lines(sales: &Vec<Sale>, start: i64, end: i64, used: i128) -> (r: Option<
    (Vec<Line>, i128, i128),
>)
    requires
        0 <= used,
    ensures
        ({
            let lines = sale_lines(sales@.map_values(|s: Sale| s.model()), start as int, end as int);
            match r {
                Some((v, u, total)) => line_models(v@) == lines && u == used + abs_sum(lines)
                    && total == line_sum(lines),
                None => used + abs_sum(lines) > i128::MAX,
            }
        }),
{
    let ghost all = sales@.map_values(|s: Sale| s.model());
    let mut lines: Vec<Line> = Vec::new();
    let mut spent: i128 = used;
    let mut total: i128 = 0;
    let mut i: usize = 0;
    while i < sales.len()
        invariant
            i <= sales.len(),
            0 <= used,
            all == sales@.map_values(|s: Sale| s.model()),
            line_models(lines@) == sale_lines(all.take(i as int), start as int, end as int),
            spent == used + abs_sum(sale_lines(all.take(i as int), start as int, end as int)),
            total == line_sum(sale_lines(all.take(i as int), start as int, end as int)),
            abs(total as int) <= abs_sum(sale_lines(all.take(i as int), start as int, end as int)),
        decreases sales.len() - i,
    {
        let sale = &sales[i];
        let ghost before = all.take(i as int);
        let ghost after = all.take(i as int + 1);
        proof {
            assert(after.drop_last() =~= before);
            assert(after.last() == sale.model());
            lemma_sale_lines_len(before, start as int, end as int);
            lemma_sale_lines_step(after, start as int, end as int);
        }
        if start <= sale.time && sale.time < end {
            let value = match sale.price.checked_mul(sale.quantity as i128) {
                Some(v) => v,
                None => {
                    proof {
                        lemma_sale_lines_prefix(all, i as int + 1, start as int, end as int);
                        assert(all.take(sales.len() as int) =~= all);
                    }
                    return None;
                },
            };
            let magnitude = if value >= 0 {
                value
            } else if value == i128::MIN {
                proof {
                    lemma_sale_lines_prefix(all, i as int + 1, start as int, end as int);
                    assert(all.take(sales.len() as int) =~= all);
                }
                return None;
            } else {
                -value
            };
            spent = match spent.checked_add(magnitude) {
                Some(x) => x,
                None => {
                    proof {
                        lemma_sale_lines_prefix(all, i as int + 1, start as int, end as int);
                        assert(all.take(sales.len() as int) =~= all);
                    }
                    return None;
                },
            };
            total = total + value;
            lines.push(Line { key: sale.key.clone(), value, quantity: sale.quantity });
            proof {
                assert(line_models(lines@) =~= line_models(lines@.drop_last()).push(
                    lines@.last().model(),
                ));
            }
        }
        i = i + 1;
    }
    proof {
        assert(all.take(sales.len() as int) =~= all);
    }
    Some((lines, spent, total))
}

fn restaurant_sales_of(orders: &Vec<RestaurantOrder>, menu: &Vec<MenuItem>) -> (r: Vec<Sale>)
    ensures
        r@.map_values(|s: Sale| s.model()) == restaurant_sales(orders@, menu@),
{
    let mut r: Vec<Sale> = Vec::new();
    let mut i: usize = 0;
    while i < orders.len()
        invariant
            i <= orders.len(),
            r.len() == i,
            forall|j: int| 0 <= j < i ==> (#[trigger] r@[j]).model() == restaurant_sales(orders@, menu@)[j],
        decreases orders.len() - i,
    {
        let o = &orders[i];
        let price = lookup_menu_item_price(menu, &o.menu_item_id);
        r.push(Sale { key: o.restaurant_id.clone(), price, quantity: o.quantity, time: o.timestamp });
        i = i + 1;
    }
    assert(r@.map_values(|s: Sale| s.model()) =~= restaurant_sales(orders@, menu@));
    r
}

fn souvenir_sales_of(orders: &Vec<SouvenirOrder>, souvenirs: &Vec<Souvenir>) -> (r: Vec<Sale>)
    ensures
        r@.map_values(|s: Sale| s.model()) == souvenir_sales(orders@, souvenirs@),
{
    let mut r: Vec<Sale> = Vec::new();
    let mut i: usize = 0;
    while i < orders.len()
        invariant
            i <= orders.len(),
            r.len() == i,
            forall|j: int|
                0 <= j < i ==> (#[trigger] r@[j]).model() == souvenir_sales(orders@, souvenirs@)[j],
        decreases orders.len() - i,
    {
        let o = &orders[i];
        let price = lookup_souvenir_price(souvenirs, &o.souvenir_id);
        r.push(Sale { key: o.store_id.clone(), price, quantity: o.quantity, time: o.timestamp });
        i = i + 1;
    }
    assert(r@.map_values(|s: Sale| s.model()) =~= souvenir_sales(orders@, souvenirs@));
    r
}

fn ride_sales_of(entries: &Vec<RideQueueEntry>, rides: &Vec<Ride>) -> (r: Vec<Sale>)
    ensures
        r@.map_values(|s: Sale| s.model()) == ride_sales(entries@, rides@),
{
    let mut r: Vec<Sale> = Vec::new();
    let mut i: usize = 0;
    while i < entries.len()
        invariant
            i <= entries.len(),
            r.len() == i,
            forall|j: int| 0 <= j < i ==> (#[trigger] r@[j]).model() == ride_sales(entries@, rides@)[j],
        decreases entries.len() - i,
    {
        let e = &entries[i];
        let price = lookup_ride_price(rides, &e.ride_id);
        r.push(Sale { key: e.ride_id.clone(), price, quantity: 1, time: e.joined_at });
        i = i + 1;
    }
    assert(r@.map_values(|s: Sale| s.model()) =~= ride_sales(entries@, rides@));
    r
}

/// A restaurant's income over the window.
#[derive(Clone, Debug)]
pub struct RestaurantIncome {
    pub restaurant_id: String,
    pub restaurant_name: String,
    pub total_income: i128,
    pub order_count: i64,
    pub items_sold: i64,
}

/// A store's income over the window.
#[derive(Clone, Debug)]
pub struct StoreIncome {
    pub store_id: String,
    pub store_name: String,
    pub total_income: i128,
    pub order_count: i64,
    pub items_sold: i64,
}

/// A ride's income over the window.
#[derive(Clone, Debug)]
pub struct RideIncome {
    pub ride_id: String,
    pub ride_name: String,
    pub total_income: i128,
    pub ticket_count: i64,
}

/// Restaurant income: the consumption category.
#[derive(Clone, Debug)]
pub struct ConsumptionReport {
    pub total: i128,
    pub restaurants: Vec<RestaurantIncome>,
}

/// Store income: the marketing category.
#[derive(Clone, Debug)]
pub struct MarketingReport {
    pub total: i128,
    pub stores: Vec<StoreIncome>,
}

/// Ride income: the operations category.
#[derive(Clone, Debug)]
pub struct OperationsReport {
    pub total: i128,
    pub rides: Vec<RideIncome>,
}

/// The income report of one period; amounts are fixed-point, see `money`.
#[derive(Clone, Debug)]
pub struct IncomeReport {
    pub consumption: ConsumptionReport,
    pub marketing: MarketingReport,
    pub operations: OperationsReport,
    pub grand_total: i128,
    pub period: String,
}

/// One entity's line of a category: id, name, income, orders (or tickets),
/// and items sold (tickets, for rides).
pub struct EntityIncome {
    pub id: Seq<char>,
    pub name: Seq<char>,
    pub total: int,
    pub count: int,
    pub items: int,
}

pub struct CategoryModel {
    pub total: int,
    pub entities: Seq<EntityIncome>,
}

pub struct IncomeReportModel {
    pub consumption: CategoryModel,
    pub marketing: CategoryModel,
    pub operations: CategoryModel,
    pub grand_total: int,
    pub period: Seq<char>,
}

impl RestaurantIncome {
    pub open spec fn model(self) -> EntityIncome {
        EntityIncome {
            id: self.restaurant_id@,
            name: self.restaurant_name@,
            total: self.total_income as int,
            count: self.order_count as int,
            items: self.items_sold as int,
        }
    }
}

impl StoreIncome {
    pub open spec fn model(self) -> EntityIncome {
        EntityIncome {
            id: self.store_id@,
            name: self.store_name@,
            total: self.total_income as int,
            count: self.order_count as int,
            items: self.items_sold as int,
        }
    }
}

impl RideIncome {
    pub open spec fn model(self) -> EntityIncome {
        EntityIncome {
            id: self.ride_id@,
            name: self.ride_name@,
            total: self.total_income as int,
            count: self.ticket_count as int,
            items: self.ticket_count as int,
        }
    }
}

impl IncomeReport {
    pub open spec fn model(self) -> IncomeReportModel {
        IncomeReportModel {
            consumption: CategoryModel {
                total: self.consumption.total as int,
                entities: self.consumption.restaurants@.map_values(|e: RestaurantIncome| e.model()),
            },
            marketing: CategoryModel {
                total: self.marketing.total as int,
                entities: self.marketing.stores@.map_values(|e: StoreIncome| e.model()),
            },
            operations: CategoryModel {
                total: self.operations.total as int,
                entities: self.operations.rides@.map_values(|e: RideIncome| e.model()),
            },
            grand_total: self.grand_total as int,
            period: self.period@,
        }
    }
}

pub open spec fn restaurant_incomes(lines: Seq<LineModel>, restaurants: Seq<Restaurant>) -> Seq<
    EntityIncome,
> {
    groups_of(lines).map_values(
        |g: GroupModel|
            EntityIncome {
                id: g.key,
                name: restaurant_name(restaurants, g.key),
                total: g.total,
                count: g.count,
                items: g.quantity,
            },
    )
}

pub open spec fn store_incomes(lines: Seq<LineModel>, stores: Seq<Store>) -> Seq<EntityIncome> {
    groups_of(lines).map_values(
        |g: GroupModel|
            EntityIncome {
                id: g.key,
                name: store_name(stores, g.key),
                total: g.total,
                count: g.count,
                items: g.quantity,
            },
    )
}

pub open spec fn ride_incomes(lines: Seq<LineModel>, rides: Seq<Ride>) -> Seq<EntityIncome> {
    groups_of(lines).map_values(
        |g: GroupModel|
            EntityIncome {
                id: g.key,
                name: ride_name(rides, g.key),
                total: g.total,
                count: g.count,
                items: g.count,
            },
    )
}

fn restaurant_incomes_of(groups: &Vec<Group>, restaurants: &Vec<Restaurant>) -> (r: Vec<
    RestaurantIncome,
>)
    ensures
        r.len() == groups.len(),
        forall|j: int|
            0 <= j < r.len() ==> (#[trigger] r@[j]).model() == (EntityIncome {
                id: groups@[j].key@,
                name: restaurant_name(restaurants@, groups@[j].key@),
                total: groups@[j].total as int,
                count: groups@[j].count as int,
                items: groups@[j].quantity as int,
            }),
{
    let mut r: Vec<RestaurantIncome> = Vec::new();
    let mut i: usize = 0;
    while i < groups.len()
        invariant
            i <= groups.len(),
            r.len() == i,
            forall|j: int|
                0 <= j < i ==> (#[trigger] r@[j]).model() == (EntityIncome {
                    id: groups@[j].key@,
                    name: restaurant_name(restaurants@, groups@[j].key@),
                    total: groups@[j].total as int,
                    count: groups@[j].count as int,
                    items: groups@[j].quantity as int,
                }),
        decreases groups.len() - i,
    {
        let g = &groups[i];
        r.push(
            RestaurantIncome {
                restaurant_id: g.key.clone(),
                restaurant_name: lookup_restaurant_name(restaurants, &g.key),
                total_income: g.total,
                order_count: g.count,
                items_sold: g.quantity,
            },
        );
        i = i + 1;
    }
    r
}

fn store_incomes_of(groups: &Vec<Group>, stores: &Vec<Store>) -> (r: Vec<StoreIncome>)
    ensures
        r.len() == groups.len(),
        forall|j: int|
            0 <= j < r.len() ==> (#[trigger] r@[j]).model() == (EntityIncome {
                id: groups@[j].key@,
                name: store_name(stores@, groups@[j].key@),
                total: groups@[j].total as int,
                count: groups@[j].count as int,
                items: groups@[j].quantity as int,
            }),
{
    let mut r: Vec<StoreIncome> = Vec::new();
    let mut i: usize = 0;
    while i < groups.len()
        invariant
            i <= groups.len(),
            r.len() == i,
            forall|j: int|
                0 <= j < i ==> (#[trigger] r@[j]).model() == (EntityIncome {
                    id: groups@[j].key@,
                    name: store_name(stores@, groups@[j].key@),
                    total: groups@[j].total as int,
                    count: groups@[j].count as int,
                    items: groups@[j].quantity as int,
                }),
        decreases groups.len() - i,
    {
        let g = &groups[i];
        r.push(
            StoreIncome {
                store_id: g.key.clone(),
                store_name: lookup_store_name(stores, &g.key),
                total_income: g.total,
                order_count: g.count,
                items_sold: g.quantity,
            },
        );
        i = i + 1;
    }
    r
}

fn ride_incomes_of(groups: &Vec<Group>, rides: &Vec<Ride>) -> (r: Vec<RideIncome>)
    ensures
        r.len() == groups.len(),
        forall|j: int|
            0 <= j < r.len() ==> (#[trigger] r@[j]).model() == (EntityIncome {
                id: groups@[j].key@,
                name: ride_name(rides@, groups@[j].key@),
                total: groups@[j].total as int,
                count: groups@[j].count as int,
                items: groups@[j].count as int,
            }),
{
    let mut r: Vec<RideIncome> = Vec::new();
    let mut i: usize = 0;
    while i < groups.len()
        invariant
            i <= groups.len(),
            r.len() == i,
            forall|j: int|
                0 <= j < i ==> (#[trigger] r@[j]).model() == (EntityIncome {
                    id: groups@[j].key@,
                    name: ride_name(rides@, groups@[j].key@),
                    total: groups@[j].total as int,
                    count: groups@[j].count as int,
                    items: groups@[j].count as int,
                }),
        decreases groups.len() - i,
    {
        let g = &groups[i];
        r.push(
            RideIncome {
                ride_id: g.key.clone(),
                ride_name: lookup_ride_name(rides, &g.key),
                total_income: g.total,
                ticket_count: g.count,
            },
        );
        i = i + 1;
    }
    r
}

/// Everything the report reads: the three order streams and the reference data.
#[derive(Clone, Debug)]
pub struct IncomeData {
    pub restaurant_orders: Vec<RestaurantOrder>,
    pub souvenir_orders: Vec<SouvenirOrder>,
    pub ride_queue: Vec<RideQueueEntry>,
    pub restaurants: Vec<Restaurant>,
    pub menu_items: Vec<MenuItem>,
    pub stores: Vec<Store>,
    pub souvenirs: Vec<Souvenir>,
    pub rides: Vec<Ride>,
}

impl IncomeData {
    pub open spec fn restaurant_lines(self, start: int, end: int) -> Seq<LineModel> {
        sale_lines(restaurant_sales(self.restaurant_orders@, self.menu_items@), start, end)
    }

    pub open spec fn store_lines(self, start: int, end: int) -> Seq<LineModel> {
        sale_lines(souvenir_sales(self.souvenir_orders@, self.souvenirs@), start, end)
    }

    pub open spec fn ride_lines(self, start: int, end: int) -> Seq<LineModel> {
        sale_lines(ride_sales(self.ride_queue@, self.rides@), start, end)
    }

    /// Whether the report's exact amounts and counts fit the integer types:
    /// the magnitudes of all lines in the window sum to at most `i128::MAX`,
    /// and no stream holds more than `u32::MAX` records.
    pub open spec fn fits(self, start: int, end: int) -> bool {
        &&& abs_sum(self.restaurant_lines(start, end)) + abs_sum(self.store_lines(start, end))
            + abs_sum(self.ride_lines(start, end)) <= i128::MAX
        &&& self.restaurant_orders.len() <= u32::MAX
        &&& self.souvenir_orders.len() <= u32::MAX
        &&& self.ride_queue.len() <= u32::MAX
    }
}

/// The report of `data` over the window of `period`.
pub open spec fn income_report_model(period: ReportPeriod, data: IncomeData) -> IncomeReportModel {
    let (start, end) = (period.start as int, period.end as int);
    let rl = data.restaurant_lines(start, end);
    let sl = data.store_lines(start, end);
    let tl = data.ride_lines(start, end);
    IncomeReportModel {
        consumption: CategoryModel {
            total: line_sum(rl),
            entities: restaurant_incomes(rl, data.restaurants@),
        },
        marketing: CategoryModel { total: line_sum(sl), entities: store_incomes(sl, data.stores@) },
        operations: CategoryModel { total: line_sum(tl), entities: ride_incomes(tl, data.rides@) },
        grand_total: line_sum(rl) + line_sum(sl) + line_sum(tl),
        period: period.label@,
    }
}

proof fn lemma_lines_bounded(lines: Seq<Line>)
    ensures
        abs(line_sum(line_models(lines))) <= abs_sum(line_models(lines)),
        abs_sum(line_models(lines)) >= 0,
{
    let m = line_models(lines);
    assert forall|i: int| 0 <= i < m.len() implies -0x8000_0000 <= #[trigger] m[i].quantity
        < 0x8000_0000 by {
        assert(m[i] == lines[i].model());
    }
    lemma_group_bounds(m, Seq::empty());
}

/// Builds the report of `data` over the window of `period`: the orders in the
/// window, priced and grouped per restaurant, store and ride, with each
/// category's total and the grand total. Fails with `AmountOverflow` exactly
/// when the exact amounts do not fit.
pub fn build_income_report(period: &ReportPeriod, data: &IncomeData) -> (r: Result<
    IncomeReport,
    ReportError,
>)
    ensures
        data.fits(period.start as int, period.end as int) ==> (r matches Ok(rep) && rep.model()
            == income_report_model(*period, *data)),
        !data.fits(period.start as int, period.end as int) ==> r == Err::<
            IncomeReport,
            ReportError,
        >(ReportError::AmountOverflow),
{
    let ghost start = period.start as int;
    let ghost end = period.end as int;
    let rs = restaurant_sales_of(&data.restaurant_orders, &data.menu_items);
    let ss = souvenir_sales_of(&data.souvenir_orders, &data.souvenirs);
    let ts = ride_sales_of(&data.ride_queue, &data.rides);
    proof {
        lemma_sale_lines_len(restaurant_sales(data.restaurant_orders@, data.menu_items@), start, end);
        lemma_sale_lines_len(souvenir_sales(data.souvenir_orders@, data.souvenirs@), start, end);
        lemma_sale_lines_len(ride_sales(data.ride_queue@, data.rides@), start, end);
    }
    if data.restaurant_orders.len() > 0xffff_ffff || data.souvenir_orders.len() > 0xffff_ffff
        || data.ride_queue.len() > 0xffff_ffff {
        return Err(ReportError::AmountOverflow);
    }
    let (rl, used, consumption_total) = match window_lines(&rs, period.start, period.end, 0) {
        Some(x) => x,
        None => return Err(ReportError::AmountOverflow),
    };
    let (sl, used, marketing_total) = match window_lines(&ss, period.start, period.end, used) {
        Some(x) => x,
        None => return Err(ReportError::AmountOverflow),
    };
    let (tl, used, operations_total) = match window_lines(&ts, period.start, period.end, used) {
        Some(x) => x,
        None => return Err(ReportError::AmountOverflow),
    };
    proof {
        lemma_lines_bounded(rl@);
        lemma_lines_bounded(sl@);
        lemma_lines_bounded(tl@);
    }
    let restaurant_groups = accumulate(&rl);
    let store_groups = accumulate(&sl);
    let ride_groups = accumulate(&tl);
    let restaurants = restaurant_incomes_of(&restaurant_groups, &data.restaurants);
    let stores = store_incomes_of(&store_groups, &data.stores);
    let rides = ride_incomes_of(&ride_groups, &data.rides);
    let grand_total = consumption_total + marketing_total + operations_total;
    let report = IncomeReport {
        consumption: ConsumptionReport { total: consumption_total, restaurants },
        marketing: MarketingReport { total: marketing_total, stores },
        operations: OperationsReport { total: operations_total, rides },
        grand_total,
        period: period.label.clone(),
    };
    proof {
        let m = income_report_model(*period, *data);
        assert(report.model().consumption.entities =~= m.consumption.entities);
        assert(report.model().marketing.entities =~= m.marketing.entities);
        assert(report.model().operations.entities =~= m.operations.entities);
    }
    Ok(report)
}

/// The results of the fetches the report needs; a fetch that failed holds its
/// error message.
#[derive(Debug)]
pub struct ReportSources {
    pub restaurant_orders: Result<Vec<RestaurantOrder>, String>,
    pub souvenir_orders: Result<Vec<SouvenirOrder>, String>,
    pub ride_queue: Result<Vec<RideQueueEntry>, String>,
    pub restaurants: Result<Vec<Restaurant>, String>,
    pub menu_items: Result<Vec<MenuItem>, String>,
    pub stores: Result<Vec<Store>, String>,
    pub souvenirs: Result<Vec<Souvenir>, String>,
    pub rides: Result<Vec<Ride>, String>,
}

impl ReportSources {
    /// The message of the first failed fetch, in the order of the fields.
    pub open spec fn first_failure(self) -> Option<String> {
        if self.restaurant_orders is Err {
            Some(self.restaurant_orders->Err_0)
        } else if self.souvenir_orders is Err {
            Some(self.souvenir_orders->Err_0)
        } else if self.ride_queue is Err {
            Some(self.ride_queue->Err_0)
        } else if self.restaurants is Err {
            Some(self.restaurants->Err_0)
        } else if self.menu_items is Err {
            Some(self.menu_items->Err_0)
        } else if self.stores is Err {
            Some(self.stores->Err_0)
        } else if self.souvenirs is Err {
            Some(self.souvenirs->Err_0)
        } else if self.rides is Err {
            Some(self.rides->Err_0)
        } else {
            None
        }
    }

    /// The fetched data, where every fetch succeeded.
    pub open spec fn data(self) -> IncomeData {
        IncomeData {
            restaurant_orders: self.restaurant_orders->Ok_0,
            souvenir_orders: self.souvenir_orders->Ok_0,
            ride_queue: self.ride_queue->Ok_0,
            restaurants: self.restaurants->Ok_0,
            menu_items: self.menu_items->Ok_0,
            stores: self.stores->Ok_0,
            souvenirs: self.souvenirs->Ok_0,
            rides: self.rides->Ok_0,
        }
    }
}

/// The report over a resolved period.
pub struct IncomeReportHandler;

impl IncomeReportHandler {
    /// Resolves a period token (`day`, `week` or `month`) at instant `now`.
    pub fn resolve_period(period: &str, now: i64) -> (r: Result<ReportPeriod, ReportError>)
        requires
            instant_in_range(now as int),
        ensures
            match period_of_token(period@) {
                None => r == Err::<ReportPeriod, ReportError>(ReportError::InvalidPeriod),
                Some(kind) => r matches Ok(p) && p.start == period_start(kind, now as int) && p.end
                    == period_end(kind, now as int) && p.label@ == period_label(kind, now as int),
            },
    {
        resolve_period(period, now)
    }

    /// The income report over `period` from the fetched `sources`: the first
    /// failed fetch aborts it with its message; otherwise it is the report of
    /// the fetched data, or `AmountOverflow` where its amounts do not fit.
    pub fn generate_income_report(period: &ReportPeriod, sources: ReportSources) -> (r: Result<
        IncomeReport,
        ReportError,
    >)
        ensures
            match sources.first_failure() {
                Some(m) => r == Err::<IncomeReport, ReportError>(ReportError::DataAccess(m)),
                None => {
                    &&& sources.data().fits(period.start as int, period.end as int) ==> (r matches Ok(
                        rep,
                    ) && rep.model() == income_report_model(*period, sources.data()))
                    &&& !sources.data().fits(period.start as int, period.end as int) ==> r == Err::<
                        IncomeReport,
                        ReportError,
                    >(ReportError::AmountOverflow)
                },
            },
    {
        let restaurant_orders = match sources.restaurant_orders {
            Ok(v) => v,
            Err(m) => return Err(ReportError::DataAccess(m)),
        };
        let souvenir_orders = match sources.souvenir_orders {
            Ok(v) => v,
            Err(m) => return Err(ReportError::DataAccess(m)),
        };
        let ride_queue = match sources.ride_queue {
            Ok(v) => v,
            Err(m) => return Err(ReportError::DataAccess(m)),
        };
        let restaurants = match sources.restaurants {
            Ok(v) => v,
            Err(m) => return Err(ReportError::DataAccess(m)),
        };
        let menu_items = match sources.menu_items {
            Ok(v) => v,
            Err(m) => return Err(ReportError::DataAccess(m)),
        };
        let stores = match sources.stores {
            Ok(v) => v,
            Err(m) => return Err(ReportError::DataAccess(m)),
        };
        let souvenirs = match sources.souvenirs {
            Ok(v) => v,
            Err(m) => return Err(ReportError::DataAccess(m)),
        };
        let rides = match sources.rides {
            Ok(v) => v,
            Err(m) => return Err(ReportError::DataAccess(m)),
        };
        let data = IncomeData {
            restaurant_orders,
            souvenir_orders,
            ride_queue,
            restaurants,
            menu_items,
            stores,
            souvenirs,
            rides,
        };
        build_income_report(period, &data)
    }
}

/// The sum of the entities' incomes.
pub open spec fn entity_sum(es: Seq<EntityIncome>) -> int
    decreases es.len(),
{
    if es.len() == 0 {
        0
    } else {
        entity_sum(es.drop_last()) + es.last().total
    }
}

proof fn lemma_entity_sum(es: Seq<EntityIncome>, keys: Seq<Seq<char>>, lines: Seq<LineModel>)
    requires
        es.len() == keys.len(),
        forall|i: int| 0 <= i < es.len() ==> (#[trigger] es[i]).total == key_total(lines, keys[i]),
    ensures
        entity_sum(es) == group_sum(keys, lines),
    decreases es.len(),
{
    if es.len() > 0 {
        lemma_entity_sum(es.drop_last(), keys.drop_last(), lines);
    }
}

/// The grand total is the sum of the three category totals.
pub proof fn lemma_grand_total(period: ReportPeriod, data: IncomeData)
    ensures
        ({
            let m = income_report_model(period, data);
            m.grand_total == m.consumption.total + m.marketing.total + m.operations.total
        }),
{
}

/// Each category's total is the sum of the incomes of the entities it lists.
pub proof fn lemma_category_totals(period: ReportPeriod, data: IncomeData)
    ensures
        ({
            let m = income_report_model(period, data);
            &&& entity_sum(m.consumption.entities) == m.consumption.total
            &&& entity_sum(m.marketing.entities) == m.marketing.total
            &&& entity_sum(m.operations.entities) == m.operations.total
        }),
{
    let (start, end) = (period.start as int, period.end as int);
    let m = income_report_model(period, data);
    let rl = data.restaurant_lines(start, end);
    let sl = data.store_lines(start, end);
    let tl = data.ride_lines(start, end);
    lemma_group_sum(rl);
    lemma_group_sum(sl);
    lemma_group_sum(tl);
    lemma_entity_sum(m.consumption.entities, keys_of(rl), rl);
    lemma_entity_sum(m.marketing.entities, keys_of(sl), sl);
    lemma_entity_sum(m.operations.entities, keys_of(tl), tl);
}

/// Only entities with an order in the window are listed: each listed entity
/// counts at least one order or ticket.
pub proof fn lemma_listed_entities_have_orders(period: ReportPeriod, data: IncomeData)
    ensures
        ({
            let m = income_report_model(period, data);
            &&& forall|i: int|
                0 <= i < m.consumption.entities.len() ==> (#[trigger] m.consumption.entities[i]).count >= 1
            &&& forall|i: int|
                0 <= i < m.marketing.entities.len() ==> (#[trigger] m.marketing.entities[i]).count >= 1
            &&& forall|i: int|
                0 <= i < m.operations.entities.len() ==> (#[trigger] m.operations.entities[i]).count >= 1
        }),
{
    let (start, end) = (period.start as int, period.end as int);
    let m = income_report_model(period, data);
    let rl = data.restaurant_lines(start, end);
    let sl = data.store_lines(start, end);
    let tl = data.ride_lines(start, end);
    assert forall|i: int| 0 <= i < m.consumption.entities.len() implies (
    #[trigger] m.consumption.entities[i]).count >= 1 by {
        assert(keys_of(rl).contains(keys_of(rl)[i]));
        lemma_listed_keys_counted(rl, keys_of(rl)[i]);
    }
    assert forall|i: int| 0 <= i < m.marketing.entities.len() implies (
    #[trigger] m.marketing.entities[i]).count >= 1 by {
        assert(keys_of(sl).contains(keys_of(sl)[i]));
        lemma_listed_keys_counted(sl, keys_of(sl)[i]);
    }
    assert forall|i: int| 0 <= i < m.operations.entities.len() implies (
    #[trigger] m.operations.entities[i]).count >= 1 by {
        assert(keys_of(tl).contains(keys_of(tl)[i]));
        lemma_listed_keys_counted(tl, keys_of(tl)[i]);
    }
}

/// Two reports built from the same period and data are the same report.
pub proof fn lemma_report_deterministic(
    period: ReportPeriod,
    data: IncomeData,
    a: IncomeReport,
    b: IncomeReport,
)
    requires
        a.model() == income_report_model(period, data),
        b.model() == income_report_model(period, data),
    ensures
        a.model() == b.model(),
{
}

/// The window is half-open: a sale at its start counts, one at its end does not.
pub proof fn lemma_window_bounds(s: SaleModel, start: int, end: int)
    requires
        start < end,
    ensures
        s.time == start ==> sale_lines(seq![s], start, end) == seq![
            LineModel { key: s.key, value: s.price * s.quantity, quantity: s.quantity },
        ],
        s.time == end ==> sale_lines(seq![s], start, end).len() == 0,
{
    let one = seq![s];
    assert(one.drop_last() =~= Seq::<SaleModel>::empty());
    assert(one.last() == s);
    assert(sale_lines(Seq::<SaleModel>::empty(), start, end) == Seq::<LineModel>::empty());
    reveal_with_fuel(sale_lines, 2);
    assert(Seq::<LineModel>::empty().push(
        LineModel { key: s.key, value: s.price * s.quantity, quantity: s.quantity },
    ) =~= seq![LineModel { key: s.key, value: s.price * s.quantity, quantity: s.quantity }]);
}

/// An order whose menu item is missing still counts for its restaurant, with
/// no income.
pub proof fn lemma_missing_menu_item(
    order: RestaurantOrder,
    menu: Seq<MenuItem>,
    restaurants: Seq<Restaurant>,
    start: int,
    end: int,
)
    requires
        start <= order.timestamp < end,
        !menu_item_ids(menu).contains(order.menu_item_id@),
    ensures
        ({
            let lines = sale_lines(restaurant_sales(seq![order], menu), start, end);
            restaurant_incomes(lines, restaurants) == seq![
                EntityIncome {
                    id: order.restaurant_id@,
                    name: restaurant_name(restaurants, order.restaurant_id@),
                    total: 0,
                    count: 1,
                    items: order.quantity as int,
                },
            ]
        }),
{
    let ids = menu_item_ids(menu);
    lemma_first_match_in_range(ids, order.menu_item_id@, 0);
    if let Some(i) = first_match(ids, order.menu_item_id@, 0) {
        assert(ids.contains(order.menu_item_id@));
    }
    let sales = restaurant_sales(seq![order], menu);
    assert(sales.drop_last() =~= Seq::<SaleModel>::empty());
    assert(sales.last().price == 0);
    assert(sale_lines(Seq::<SaleModel>::empty(), start, end) == Seq::<LineModel>::empty());
    let l = LineModel { key: order.restaurant_id@, value: 0, quantity: order.quantity as int };
    let lines = sale_lines(sales, start, end);
    assert(lines =~= seq![l]);
    assert(lines.drop_last() =~= Seq::<LineModel>::empty());
    assert(lines.last() == l);
    assert(keys_of(Seq::<LineModel>::empty()) == Seq::<Seq<char>>::empty());
    assert(Seq::<Seq<char>>::empty().push(l.key) =~= seq![l.key]);
    assert(keys_of(lines) =~= seq![l.key]);
    assert(key_total(Seq::<LineModel>::empty(), l.key) == 0);
    assert(key_count(Seq::<LineModel>::empty(), l.key) == 0);
    assert(key_quantity(Seq::<LineModel>::empty(), l.key) == 0);
    assert(restaurant_incomes(lines, restaurants) =~= seq![
        EntityIncome {
            id: order.restaurant_id@,
            name: restaurant_name(restaurants, order.restaurant_id@),
            total: 0,
            count: 1,
            items: order.quantity as int,
        },
    ]);
}

} // verus!
