use park_backend::calendar::TimeOfDay;
use park_backend::handlers::{
    BroadcastMessageHandler, ChatHandler, ChatWithCustomerName, CustomerHandler,
    LostAndFoundItemsLogHandler, MaintenanceScheduleHandler, OrderRestaurantHandler,
    OrderSouvenirHandler, RestaurantHandler, RideHandler, SouvenirHandler, StaffHandler,
    StoreHandler,
};
use park_backend::money::{decimal_amount, price_amount, DecimalValue};
use park_backend::response::{ApiResponse, CachedData};
use park_backend::ui::map_ui_id_to_name;

#[test]
fn log_statuses() {
    assert!(LostAndFoundItemsLogHandler::validate_status("Found").is_ok());
    assert!(LostAndFoundItemsLogHandler::validate_status("Returned to Owner").is_ok());
    assert_eq!(
        LostAndFoundItemsLogHandler::validate_status("Lost").unwrap_err(),
        "Invalid status provided. Must be 'Returned to Owner', 'Found', or 'Missing'."
    );
    assert_eq!(LostAndFoundItemsLogHandler::logs_cache_key(), "view_logs_cache");
}

#[test]
fn order_statuses() {
    assert!(OrderRestaurantHandler::validate_status("Ready to Serve").is_ok());
    assert_eq!(OrderRestaurantHandler::validate_status("Served").unwrap_err(), "Invalid status provided.");
    assert_eq!(OrderRestaurantHandler::initial_status(), "Pending");
}

#[test]
fn broadcast_rules() {
    assert!(BroadcastMessageHandler::validate_new_message("Staff", "Sent").is_ok());
    assert_eq!(
        BroadcastMessageHandler::validate_new_message("Everyone", "Draft").unwrap_err(),
        "Invalid target audience. Must be 'Customer' or 'Staff'"
    );
    assert_eq!(
        BroadcastMessageHandler::validate_new_message("Customer", "Draft").unwrap_err(),
        "Invalid status. Must be 'Pending' or 'Sent'"
    );
    assert!(BroadcastMessageHandler::is_shown_to("Customer", "Sent", "Customer"));
    assert!(!BroadcastMessageHandler::is_shown_to("Customer", "Pending", "Customer"));
    assert!(!BroadcastMessageHandler::is_shown_to("Staff", "Sent", "Customer"));
}

#[test]
fn maintenance_assignment() {
    let done = vec!["Completed".to_string(), "Cancelled".to_string()];
    assert!(MaintenanceScheduleHandler::check_staff_available(&done).is_ok());
    assert!(MaintenanceScheduleHandler::check_staff_available(&vec![]).is_ok());
    let busy = vec!["Completed".to_string(), "Ongoing".to_string()];
    assert_eq!(
        MaintenanceScheduleHandler::check_staff_available(&busy).unwrap_err(),
        "This staff member already has an active (Pending or Ongoing) maintenance task."
    );
}

#[test]
fn balance_top_up() {
    assert_eq!(CustomerHandler::top_up_balance("100", "50").unwrap(), "150");
    assert_eq!(CustomerHandler::top_up_balance("abc", "+7").unwrap(), "7");
    assert_eq!(CustomerHandler::top_up_balance("-20", "5").unwrap(), "-15");
    assert_eq!(
        CustomerHandler::top_up_balance("100", "0").unwrap_err(),
        "Top-up amount must be a positive whole number"
    );
    assert_eq!(
        CustomerHandler::top_up_balance("100", "1.5").unwrap_err(),
        "Top-up amount must be a positive whole number"
    );
    assert_eq!(
        CustomerHandler::top_up_balance("9223372036854775807", "1").unwrap_err(),
        "Balance exceeds the supported range"
    );
}

#[test]
fn password_check() {
    let hash = bcrypt::hash("secret", 4).unwrap();
    assert!(StaffHandler::verify_password("secret", &hash).is_ok());
    assert_eq!(StaffHandler::verify_password("guess", &hash).unwrap_err(), "Invalid password");
    let e = StaffHandler::verify_password("secret", "not a hash").unwrap_err();
    assert!(e.starts_with("Password verification error: "));
}

#[test]
fn souvenir_prices_and_keys() {
    assert_eq!(SouvenirHandler::parse_price("12.50").unwrap(), DecimalValue { mantissa: 1250, scale: 2 });
    assert!(SouvenirHandler::parse_price("12,50").unwrap_err().starts_with("Invalid price format: "));
    assert_eq!(SouvenirHandler::souvenirs_cache_key(Some("s-1")), "view_souvenirs_cache_store_s-1");
    assert_eq!(SouvenirHandler::souvenirs_cache_key(None), "view_souvenirs_cache_all");
}

#[test]
fn chat_names_and_keys() {
    assert_eq!(ChatHandler::sender_name(Some("Ana".to_string()), Some("Bo".to_string())), "Ana");
    assert_eq!(ChatHandler::sender_name(None, Some("Bo".to_string())), "Bo");
    assert_eq!(ChatHandler::sender_name(None, None), "Unknown Sender");
    assert_eq!(ChatHandler::messages_cache_key("c7"), "get_messages_chat_c7");
    assert_eq!(ChatHandler::user_chats_cache_key("u3"), "view_chats_user_u3");
    assert_eq!(ChatHandler::customer_service_chat_name(), "Customer Service");
}

#[test]
fn price_texts() {
    assert_eq!(price_amount("10.00"), 10_000_000_000);
    assert_eq!(price_amount("-0.5"), -500_000_000);
    assert_eq!(price_amount("abc"), 0);
    assert_eq!(price_amount(""), 0);
    assert_eq!(decimal_amount(DecimalValue { mantissa: 1_234_567_891_234, scale: 12 }), 1_234_567_891);
    assert_eq!(decimal_amount(DecimalValue { mantissa: -1_999, scale: 12 }), -1);
}

#[test]
fn ui_names() {
    assert_eq!(map_ui_id_to_name("RE-002"), "restaurant/c251a835-efda-4487-b481-c655d024c85f");
    assert_eq!(map_ui_id_to_name("ST-001"), "staff");
    assert_eq!(map_ui_id_to_name("CU-001"), "customer");
    assert_eq!(map_ui_id_to_name("XX-999"), "unknown_ui");
}

#[test]
fn response_envelopes() {
    match ApiResponse::success(5u8) {
        ApiResponse::Success { data, message } => {
            assert_eq!(data, 5);
            assert!(message.is_none());
        }
        ApiResponse::Error { .. } => panic!("expected success"),
    }
    match ApiResponse::<u8>::error("boom".to_string()) {
        ApiResponse::Error { data, message } => {
            assert!(data.is_none());
            assert_eq!(message, "boom");
        }
        ApiResponse::Success { .. } => panic!("expected error"),
    }
    let cached = CachedData { data: vec![1, 2] };
    assert_eq!(cached.data.len(), 2);
}

#[test]
fn opening_hours() {
    let (open, close) = RestaurantHandler::parse_opening_hours("08:30:00", "22:15:05").unwrap();
    assert_eq!(open, TimeOfDay { hour: 8, minute: 30, second: 0 });
    assert_eq!(close, TimeOfDay { hour: 22, minute: 15, second: 5 });
    assert!(RestaurantHandler::parse_opening_hours("8am", "22:00:00")
        .unwrap_err()
        .starts_with("Invalid opening time format: "));
    assert!(RestaurantHandler::parse_opening_hours("08:00:00", "25:00:00")
        .unwrap_err()
        .starts_with("Invalid closing time format: "));
    assert!(StoreHandler::parse_opening_hours("08:00", "22:00:00")
        .unwrap_err()
        .starts_with("Invalid opening_time format: "));
    assert!(StoreHandler::parse_opening_hours("08:00:00", "")
        .unwrap_err()
        .starts_with("Invalid closing_time format: "));
}

#[test]
fn schedule_dates() {
    let (start, end) =
        MaintenanceScheduleHandler::parse_schedule_dates("2024-06-15T10:30", "2024-06-15T12:00").unwrap();
    assert_eq!(start, 1718447400);
    assert_eq!(end, 1718452800);
    assert!(MaintenanceScheduleHandler::parse_schedule_dates("2024-06-15 10:30", "2024-06-15T12:00")
        .unwrap_err()
        .starts_with("Invalid start_date format: "));
    assert!(MaintenanceScheduleHandler::parse_schedule_dates("2024-06-15T10:30", "tomorrow")
        .unwrap_err()
        .starts_with("Invalid end_date format: "));
}

#[test]
fn list_cache_keys() {
    assert_eq!(StoreHandler::stores_cache_key(), "view_stores_cache");
    assert_eq!(RideHandler::rides_cache_key(), "view_rides_cache");
    assert_eq!(OrderSouvenirHandler::order_souvenirs_cache_key(), "view_order_souvenirs_cache");
    assert_eq!(ChatHandler::staff_chats_cache_key(), "view_customer_service_chats_for_staff_cache");
}

#[test]
fn message_sender_pairing() {
    let m = ChatHandler::with_sender_name(7u32, None, Some("Bo".to_string()));
    assert_eq!(m.message, 7);
    assert_eq!(m.sender_name, "Bo");
    let c = ChatWithCustomerName { chat: "c1", customer_name: "Ana".to_string() };
    assert_eq!(c.customer_name, "Ana");
}
