//! The rules each record kind enforces before the store is touched, and the
//! keys under which read results are cached.

use vstd::prelude::*;
use crate::calendar::{
    clock_time_of_text, minute_instant_of_text, parse_clock_time, parse_minute_instant, TimeOfDay,
};
use crate::money::DecimalValue;
use crate::text::{i64_text, integer_of_text, integer_text, joined, owned, parse_i64, str_eq};

verus! {

/// The statuses a lost-and-found log entry may hold.
pub open spec fn is_log_status(s: Seq<char>) -> bool {
    s == "Returned to Owner"@ || s == "Found"@ || s == "Missing"@
}

/// The statuses a restaurant order may hold.
pub open spec fn is_order_status(s: Seq<char>) -> bool {
    s == "Pending"@ || s == "Cooking"@ || s == "Ready to Serve"@ || s == "Complete"@
}

/// The audiences a broadcast message may address.
pub open spec fn is_audience(s: Seq<char>) -> bool {
    s == "Customer"@ || s == "Staff"@
}

/// The statuses a broadcast message may hold.
pub open spec fn is_broadcast_status(s: Seq<char>) -> bool {
    s == "Pending"@ || s == "Sent"@
}

/// The statuses of a maintenance task that keep its staff member busy.
pub open spec fn is_active_task_status(s: Seq<char>) -> bool {
    s == "Pending"@ || s == "Ongoing"@
}

/// A stored balance or an entered amount: the integer the text writes, or zero
/// where it writes none that fits an `i64`.
pub open spec fn whole_amount(s: Seq<char>) -> int {
    match integer_of_text(s) {
        Some(v) => if i64::MIN <= v <= i64::MAX {
            v
        } else {
            0
        },
        None => 0,
    }
}

/// What bcrypt's `verify` answers for a password and a stored hash: whether
/// they match, or `None` where the hash cannot be read.
pub uninterp spec fn bcrypt_verdict(password: Seq<char>, hash: Seq<char>) -> Option<bool>;

/// The mantissa and scale rust_decimal's `from_str_exact` reads from a text.
pub uninterp spec fn exact_decimal_of_text(s: Seq<char>) -> Option<(int, int)>;

/// Relies on bcrypt's `verify`: whether `password` matches `hash`, or the
/// error text where the hash cannot be read.
#[verifier::external_body]
fn bcrypt_verify(password: &str, hash: &str) -> (r: Result<bool, String>)
    ensures
        match bcrypt_verdict(password@, hash@) {
            Some(b) => r == Ok::<bool, String>(b),
            None => r is Err,
        },
{
    match bcrypt::verify(password, hash) {
        Ok(b) => Ok(b),
        Err(e) => Err(e.to_string()),
    }
}

/// Relies on rust_decimal's `Decimal::from_str_exact`, `mantissa` and
/// `scale`: the number a text writes without rounding, or the error text.
#[verifier::external_body]
fn parse_exact_decimal(text: &str) -> (r: Result<DecimalValue, String>)
    ensures
        match r {
            Ok(v) => v.wf() && exact_decimal_of_text(text@) == Some(
                (v.mantissa as int, v.scale as int),
            ),
            Err(_) => exact_decimal_of_text(text@) is None,
        },
{
    match rust_decimal::Decimal::from_str_exact(text) {
        Ok(d) => Ok(DecimalValue { mantissa: d.mantissa(), scale: d.scale() }),
        Err(e) => Err(e.to_string()),
    }
}

/// Reads an opening and a closing time under `%H:%M:%S`; a failure names the
/// field through its prefix and carries the parser's message.
fn parse_hours(opening: &str, closing: &str, opening_prefix: &str, closing_prefix: &str) -> (r:
    Result<(TimeOfDay, TimeOfDay), String>)
    ensures
        match (clock_time_of_text(opening@), clock_time_of_text(closing@)) {
            (Some(o), Some(c)) => (r matches Ok((a, b)) && (a.hour as int, a.minute as int, a.second as int) == o && (
                b.hour as int,
                b.minute as int,
                b.second as int,
            ) == c),
            (None, _) => (r matches Err(m) && (exists|e: Seq<char>| m@ == opening_prefix@ + e)),
            (Some(_), None) => (r matches Err(m) && (exists|e: Seq<char>|
                m@ == closing_prefix@ + e)),
        },
{
    let open = match parse_clock_time(opening) {
        Ok(t) => t,
        Err(e) => return Err(joined(opening_prefix, e.as_str())),
    };
    let close = match parse_clock_time(closing) {
        Ok(t) => t,
        Err(e) => return Err(joined(closing_prefix, e.as_str())),
    };
    Ok((open, close))
}

pub struct RestaurantHandler;

impl RestaurantHandler {
    /// Reads a restaurant's opening and closing times (`HH:MM:SS`).
    pub fn parse_opening_hours(opening: &str, closing: &str) -> (r: Result<
        (TimeOfDay, TimeOfDay),
        String,
    >)
        ensures
            match (clock_time_of_text(opening@), clock_time_of_text(closing@)) {
                (Some(o), Some(c)) => (r matches Ok((a, b)) && (a.hour as int, a.minute as int, a.second as int) == o && (
                    b.hour as int,
                    b.minute as int,
                    b.second as int,
                ) == c),
                (None, _) => (r matches Err(m) && (exists|e: Seq<char>|
                    m@ == "Invalid opening time format: "@ + e)),
                (Some(_), None) => (r matches Err(m) && (exists|e: Seq<char>|
                    m@ == "Invalid closing time format: "@ + e)),
            },
    {
        parse_hours(opening, closing, "Invalid opening time format: ", "Invalid closing time format: ")
    }
}

pub struct StoreHandler;

impl StoreHandler {
    /// Reads a store's opening and closing times (`HH:MM:SS`).
    pub fn parse_opening_hours(opening: &str, closing: &str) -> (r: Result<
        (TimeOfDay, TimeOfDay),
        String,
    >)
        ensures
            match (clock_time_of_text(opening@), clock_time_of_text(closing@)) {
                (Some(o), Some(c)) => (r matches Ok((a, b)) && (a.hour as int, a.minute as int, a.second as int) == o && (
                    b.hour as int,
                    b.minute as int,
                    b.second as int,
                ) == c),
                (None, _) => (r matches Err(m) && (exists|e: Seq<char>|
                    m@ == "Invalid opening_time format: "@ + e)),
                (Some(_), None) => (r matches Err(m) && (exists|e: Seq<char>|
                    m@ == "Invalid closing_time format: "@ + e)),
            },
    {
        parse_hours(opening, closing, "Invalid opening_time format: ", "Invalid closing_time format: ")
    }

    /// The cache key of the store list.
    pub fn stores_cache_key() -> (r: String)
        ensures
            r@ == "view_stores_cache"@,
    {
        owned("view_stores_cache")
    }
}

pub struct RideHandler;

impl RideHandler {
    /// The cache key of the ride list.
    pub fn rides_cache_key() -> (r: String)
        ensures
            r@ == "view_rides_cache"@,
    {
        owned("view_rides_cache")
    }
}

pub struct OrderSouvenirHandler;

impl OrderSouvenirHandler {
    /// The cache key of the souvenir order list.
    pub fn order_souvenirs_cache_key() -> (r: String)
        ensures
            r@ == "view_order_souvenirs_cache"@,
    {
        owned("view_order_souvenirs_cache")
    }
}

pub struct LostAndFoundItemsLogHandler;

impl LostAndFoundItemsLogHandler {
    /// Accepts `Returned to Owner`, `Found` and `Missing`.
    pub fn validate_status(status: &str) -> (r: Result<(), String>)
        ensures
            r is Ok <==> is_log_status(status@),
            r matches Err(m) ==> m@
                == "Invalid status provided. Must be 'Returned to Owner', 'Found', or 'Missing'."@,
    {
        if str_eq(status, "Returned to Owner") || str_eq(status, "Found") || str_eq(
            status,
            "Missing",
        ) {
            Ok(())
        } else {
            Err(
                owned(
                    "Invalid status provided. Must be 'Returned to Owner', 'Found', or 'Missing'.",
                ),
            )
        }
    }

    /// The cache key of the list of log entries.
    pub fn logs_cache_key() -> (r: String)
        ensures
            r@ == "view_logs_cache"@,
    {
        owned("view_logs_cache")
    }
}

pub struct OrderRestaurantHandler;

impl OrderRestaurantHandler {
    /// Accepts `Pending`, `Cooking`, `Ready to Serve` and `Complete`.
    pub fn validate_status(status: &str) -> (r: Result<(), String>)
        ensures
            r is Ok <==> is_order_status(status@),
            r matches Err(m) ==> m@ == "Invalid status provided."@,
    {
        if str_eq(status, "Pending") || str_eq(status, "Cooking") || str_eq(
            status,
            "Ready to Serve",
        ) || str_eq(status, "Complete") {
            Ok(())
        } else {
            Err(owned("Invalid status provided."))
        }
    }

    /// The status a new order starts in.
    pub fn initial_status() -> (r: String)
        ensures
            r@ == "Pending"@,
    {
        owned("Pending")
    }
}

pub struct BroadcastMessageHandler;

impl BroadcastMessageHandler {
    /// Accepts the audiences `Customer` and `Staff`.
    pub fn validate_audience(audience: &str) -> (r: Result<(), String>)
        ensures
            r is Ok <==> is_audience(audience@),
            r matches Err(m) ==> m@ == "Invalid target audience. Must be 'Customer' or 'Staff'"@,
    {
        if str_eq(audience, "Customer") || str_eq(audience, "Staff") {
            Ok(())
        } else {
            Err(owned("Invalid target audience. Must be 'Customer' or 'Staff'"))
        }
    }

    /// Accepts the statuses `Pending` and `Sent`.
    pub fn validate_status(status: &str) -> (r: Result<(), String>)
        ensures
            r is Ok <==> is_broadcast_status(status@),
            r matches Err(m) ==> m@ == "Invalid status. Must be 'Pending' or 'Sent'"@,
    {
        if str_eq(status, "Pending") || str_eq(status, "Sent") {
            Ok(())
        } else {
            Err(owned("Invalid status. Must be 'Pending' or 'Sent'"))
        }
    }

    /// Checks a new message: its audience first, then its status.
    pub fn validate_new_message(audience: &str, status: &str) -> (r: Result<(), String>)
        ensures
            r is Ok <==> is_audience(audience@) && is_broadcast_status(status@),
            !is_audience(audience@) ==> (r matches Err(m) && m@
                == "Invalid target audience. Must be 'Customer' or 'Staff'"@),
            is_audience(audience@) && !is_broadcast_status(status@) ==> (r matches Err(m) && m@
                == "Invalid status. Must be 'Pending' or 'Sent'"@),
    {
        match Self::validate_audience(audience) {
            Ok(()) => Self::validate_status(status),
            Err(m) => Err(m),
        }
    }

    /// Whether a message with this audience and status is shown to `audience`:
    /// only sent messages, and only to their own audience.
    pub fn is_shown_to(message_audience: &str, message_status: &str, audience: &str) -> (r: bool)
        ensures
            r == (message_audience@ == audience@ && message_status@ == "Sent"@),
    {
        str_eq(message_audience, audience) && str_eq(message_status, "Sent")
    }
}

pub struct MaintenanceScheduleHandler;

impl MaintenanceScheduleHandler {
    /// Whether a task in this status keeps its staff member busy.
    pub fn is_active_status(status: &str) -> (r: bool)
        ensures
            r == is_active_task_status(status@),
    {
        str_eq(status, "Pending") || str_eq(status, "Ongoing")
    }

    /// Reads a task's start and end (`YYYY-MM-DDTHH:MM`) as instants.
    pub fn parse_schedule_dates(start: &str, end: &str) -> (r: Result<(i64, i64), String>)
        ensures
            match (minute_instant_of_text(start@), minute_instant_of_text(end@)) {
                (Some(s), Some(e)) => r == Ok::<(i64, i64), String>((s as i64, e as i64)),
                (None, _) => (r matches Err(m) && (exists|x: Seq<char>|
                    m@ == "Invalid start_date format: "@ + x)),
                (Some(_), None) => (r matches Err(m) && (exists|x: Seq<char>|
                    m@ == "Invalid end_date format: "@ + x)),
            },
    {
        let s = match parse_minute_instant(start) {
            Ok(t) => t,
            Err(e) => return Err(joined("Invalid start_date format: ", e.as_str())),
        };
        let e = match parse_minute_instant(end) {
            Ok(t) => t,
            Err(x) => return Err(joined("Invalid end_date format: ", x.as_str())),
        };
        Ok((s, e))
    }

    /// Refuses a new task for a staff member whose tasks, with the given
    /// statuses, include one that is still active.
    pub fn check_staff_available(statuses: &Vec<String>) -> (r: Result<(), String>)
        ensures
            r is Ok <==> forall|i: int|
                0 <= i < statuses.len() ==> !is_active_task_status(#[trigger] statuses@[i]@),
            r matches Err(m) ==> m@
                == "This staff member already has an active (Pending or Ongoing) maintenance task."@,
    {
        let mut i: usize = 0;
        while i < statuses.len()
            invariant
                i <= statuses.len(),
                forall|j: int| 0 <= j < i ==> !is_active_task_status(#[trigger] statuses@[j]@),
            decreases statuses.len() - i,
        {
            if Self::is_active_status(statuses[i].as_str()) {
                return Err(
                    owned(
                        "This staff member already has an active (Pending or Ongoing) maintenance task.",
                    ),
                );
            }
            i = i + 1;
        }
        Ok(())
    }
}

pub struct CustomerHandler;

impl CustomerHandler {
    /// The balance after a top-up, as text. Unreadable texts count as zero; the
    /// amount must be positive, and the new balance must fit an `i64`.
    pub fn top_up_balance(current_balance: &str, amount: &str) -> (r: Result<String, String>)
        ensures
            whole_amount(amount@) <= 0 ==> (r matches Err(m) && m@
                == "Top-up amount must be a positive whole number"@),
            whole_amount(amount@) > 0 && whole_amount(current_balance@) + whole_amount(amount@)
                <= i64::MAX ==> (r matches Ok(s) && s@ == integer_text(
                whole_amount(current_balance@) + whole_amount(amount@),
            )),
            whole_amount(amount@) > 0 && whole_amount(current_balance@) + whole_amount(amount@)
                > i64::MAX ==> (r matches Err(m) && m@ == "Balance exceeds the supported range"@),
    {
        let current: i64 = match parse_i64(current_balance) {
            Some(v) => v,
            None => 0,
        };
        let top_up: i64 = match parse_i64(amount) {
            Some(v) => v,
            None => 0,
        };
        if top_up <= 0 {
            return Err(owned("Top-up amount must be a positive whole number"));
        }
        match current.checked_add(top_up) {
            Some(total) => Ok(i64_text(total)),
            None => Err(owned("Balance exceeds the supported range")),
        }
    }
}

pub struct StaffHandler;

impl StaffHandler {
    /// Checks a password against the stored bcrypt hash.
    pub fn verify_password(password: &str, password_hash: &str) -> (r: Result<(), String>)
        ensures
            r is Ok <==> bcrypt_verdict(password@, password_hash@) == Some(true),
            bcrypt_verdict(password@, password_hash@) == Some(false) ==> (r matches Err(m) && m@
                == "Invalid password"@),
            bcrypt_verdict(password@, password_hash@) is None ==> (r matches Err(m) && (exists|e: Seq<char>|
                m@ == "Password verification error: "@ + e)),
    {
        match bcrypt_verify(password, password_hash) {
            Ok(true) => Ok(()),
            Ok(false) => Err(owned("Invalid password")),
            Err(e) => Err(joined("Password verification error: ", e.as_str())),
        }
    }
}

pub struct SouvenirHandler;

impl SouvenirHandler {
    /// Reads a price without rounding, as rust_decimal's exact parse does.
    pub fn parse_price(price: &str) -> (r: Result<DecimalValue, String>)
        ensures
            match exact_decimal_of_text(price@) {
                Some((m, e)) => r == Ok::<DecimalValue, String>(
                    DecimalValue { mantissa: m as i128, scale: e as u32 },
                ),
                None => (r matches Err(msg) && (exists|x: Seq<char>|
                    msg@ == "Invalid price format: "@ + x)),
            },
    {
        match parse_exact_decimal(price) {
            Ok(v) => Ok(v),
            Err(e) => Err(joined("Invalid price format: ", e.as_str())),
        }
    }

    /// The cache key of the souvenir list of one store, or of all stores.
    pub fn souvenirs_cache_key(store_id: Option<&str>) -> (r: String)
        ensures
            match store_id {
                Some(id) => r@ == "view_souvenirs_cache_store_"@ + id@,
                None => r@ == "view_souvenirs_cache_all"@,
            },
    {
        match store_id {
            Some(id) => joined("view_souvenirs_cache_store_", id),
            None => owned("view_souvenirs_cache_all"),
        }
    }
}

/// A message with the name of its sender.
#[derive(Clone, Debug)]
pub struct MessageWithSenderName<M> {
    pub message: M,
    pub sender_name: String,
}

/// A customer-service chat with the name of its customer.
#[derive(Clone, Debug)]
pub struct ChatWithCustomerName<C> {
    pub chat: C,
    pub customer_name: String,
}

pub struct ChatHandler;

impl ChatHandler {
    /// The name of the chat every customer has with the venue's staff.
    pub fn customer_service_chat_name() -> (r: String)
        ensures
            r@ == "Customer Service"@,
    {
        owned("Customer Service")
    }

    /// The name shown for a message's sender: the customer's, else the staff
    /// member's, else `Unknown Sender`.
    pub fn sender_name(customer_name: Option<String>, staff_name: Option<String>) -> (r: String)
        ensures
            match (customer_name, staff_name) {
                (Some(c), _) => r@ == c@,
                (None, Some(s)) => r@ == s@,
                (None, None) => r@ == "Unknown Sender"@,
            },
    {
        match customer_name {
            Some(c) => c,
            None => match staff_name {
                Some(s) => s,
                None => owned("Unknown Sender"),
            },
        }
    }

    /// A message paired with its sender's name, found as `sender_name` finds it.
    pub fn with_sender_name<M>(
        message: M,
        customer_name: Option<String>,
        staff_name: Option<String>,
    ) -> (r: MessageWithSenderName<M>)
        ensures
            r.message == message,
            match (customer_name, staff_name) {
                (Some(c), _) => r.sender_name@ == c@,
                (None, Some(s)) => r.sender_name@ == s@,
                (None, None) => r.sender_name@ == "Unknown Sender"@,
            },
    {
        MessageWithSenderName { message, sender_name: Self::sender_name(customer_name, staff_name) }
    }

    /// The cache key of the customer-service chats listed for staff.
    pub fn staff_chats_cache_key() -> (r: String)
        ensures
            r@ == "view_customer_service_chats_for_staff_cache"@,
    {
        owned("view_customer_service_chats_for_staff_cache")
    }

    /// The cache key of a chat's messages.
    pub fn messages_cache_key(chat_id: &str) -> (r: String)
        ensures
            r@ == "get_messages_chat_"@ + chat_id@,
    {
        joined("get_messages_chat_", chat_id)
    }

    /// The cache key of a user's chat list.
    pub fn user_chats_cache_key(user_id: &str) -> (r: String)
        ensures
            r@ == "view_chats_user_"@ + user_id@,
    {
        joined("view_chats_user_", user_id)
    }
}

} // verus!
