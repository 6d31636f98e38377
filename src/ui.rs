//! Which screen the desktop shell opens for a configured UI id.

use vstd::prelude::*;
use crate::text::str_eq;

verus! {

/// The screen path for a UI id; `unknown_ui` for an id that names none.
pub open spec fn ui_name(ui_id: Seq<char>) -> Seq<char> {
    if ui_id == "RE-001"@ {
        "restaurant/643a030d-3caa-4162-8a91-54230fca568f"@
    } else if ui_id == "ST-RE-001"@ {
        "restaurant/643a030d-3caa-4162-8a91-54230fca568f/staff"@
    } else if ui_id == "RE-002"@ {
        "restaurant/c251a835-efda-4487-b481-c655d024c85f"@
    } else if ui_id == "ST-RE-002"@ {
        "restaurant/c251a835-efda-4487-b481-c655d024c85f/staff"@
    } else if ui_id == "RE-003"@ {
        "restaurant/ac0e43b0-f9e1-4a31-9a5f-e33487135776"@
    } else if ui_id == "ST-RE-003"@ {
        "restaurant/ac0e43b0-f9e1-4a31-9a5f-e33487135776/staff"@
    } else if ui_id == "RI-000"@ {
        "ride/6f860dcf-d7e8-4a09-ad0b-4fbfa783a144"@
    } else if ui_id == "ST-RI-000"@ {
        "ride/6f860dcf-d7e8-4a09-ad0b-4fbfa783a144/staff"@
    } else if ui_id == "RI-001"@ {
        "ride/bf3d0465-377f-4a36-8fef-f491ddd5591a"@
    } else if ui_id == "ST-RI-001"@ {
        "ride/bf3d0465-377f-4a36-8fef-f491ddd5591a/staff"@
    } else if ui_id == "RI-002"@ {
        "ride/a38a0c09-f6c2-4889-8fe8-be78f2cecaf9"@
    } else if ui_id == "ST-RI-002"@ {
        "ride/a38a0c09-f6c2-4889-8fe8-be78f2cecaf9/staff"@
    } else if ui_id == "RI-003"@ {
        "ride/be758d9e-5273-4789-a75b-cac22e20a301"@
    } else if ui_id == "ST-RI-003"@ {
        "ride/be758d9e-5273-4789-a75b-cac22e20a301/staff"@
    } else if ui_id == "SR-001"@ {
        "store/2fb3f823-b6a2-4b97-a5de-bb03d622e2c6"@
    } else if ui_id == "SR-002"@ {
        "store/d989b2aa-1ecb-4a31-a3da-6270bd64ebdc"@
    } else if ui_id == "SR-003"@ {
        "store/34084866-0196-4ef5-9b95-9c692489deac"@
    } else if ui_id == "ST-001"@ {
        "staff"@
    } else if ui_id == "CU-001"@ {
        "customer"@
    } else {
        "unknown_ui"@
    }
}

/// The screen path for a UI id; `unknown_ui` for an id that names none.
pub fn map_ui_id_to_name(ui_id: &str) -> (r: &'static str)
    ensures
        r@ == ui_name(ui_id@),
{
    if str_eq(ui_id, "RE-001") {
        "restaurant/643a030d-3caa-4162-8a91-54230fca568f"
    } else if str_eq(ui_id, "ST-RE-001") {
        "restaurant/643a030d-3caa-4162-8a91-54230fca568f/staff"
    } else if str_eq(ui_id, "RE-002") {
        "restaurant/c251a835-efda-4487-b481-c655d024c85f"
    } else if str_eq(ui_id, "ST-RE-002") {
        "restaurant/c251a835-efda-4487-b481-c655d024c85f/staff"
    } else if str_eq(ui_id, "RE-003") {
        "restaurant/ac0e43b0-f9e1-4a31-9a5f-e33487135776"
    } else if str_eq(ui_id, "ST-RE-003") {
        "restaurant/ac0e43b0-f9e1-4a31-9a5f-e33487135776/staff"
    } else if str_eq(ui_id, "RI-000") {
        "ride/6f860dcf-d7e8-4a09-ad0b-4fbfa783a144"
    } else if str_eq(ui_id, "ST-RI-000") {
        "ride/6f860dcf-d7e8-4a09-ad0b-4fbfa783a144/staff"
    } else if str_eq(ui_id, "RI-001") {
        "ride/bf3d0465-377f-4a36-8fef-f491ddd5591a"
    } else if str_eq(ui_id, "ST-RI-001") {
        "ride/bf3d0465-377f-4a36-8fef-f491ddd5591a/staff"
    } else if str_eq(ui_id, "RI-002") {
        "ride/a38a0c09-f6c2-4889-8fe8-be78f2cecaf9"
    } else if str_eq(ui_id, "ST-RI-002") {
        "ride/a38a0c09-f6c2-4889-8fe8-be78f2cecaf9/staff"
    } else if str_eq(ui_id, "RI-003") {
        "ride/be758d9e-5273-4789-a75b-cac22e20a301"
    } else if str_eq(ui_id, "ST-RI-003") {
        "ride/be758d9e-5273-4789-a75b-cac22e20a301/staff"
    } else if str_eq(ui_id, "SR-001") {
        "store/2fb3f823-b6a2-4b97-a5de-bb03d622e2c6"
    } else if str_eq(ui_id, "SR-002") {
        "store/d989b2aa-1ecb-4a31-a3da-6270bd64ebdc"
    } else if str_eq(ui_id, "SR-003") {
        "store/34084866-0196-4ef5-9b95-9c692489deac"
    } else if str_eq(ui_id, "ST-001") {
        "staff"
    } else if str_eq(ui_id, "CU-001") {
        "customer"
    } else {
        "unknown_ui"
    }
}

} // verus!
