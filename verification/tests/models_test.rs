use mandate_gate::models::{escape_json, MandateStatus};

#[test]
fn escape_json_escapes_quotes_and_control_characters() {
    assert_eq!(escape_json("a\"b\\c\nd\re\tf"), "a\\\"b\\\\c\\nd\\re\\tf");
}

#[test]
fn status_text_round_trips() {
    for s in [MandateStatus::Active, MandateStatus::Expired, MandateStatus::Revoked] {
        assert_eq!(MandateStatus::from_str(s.as_str()), s);
    }
    assert_eq!(MandateStatus::from_str("REVOKED"), MandateStatus::Revoked);
    assert_eq!(MandateStatus::from_str("whatever"), MandateStatus::Active);
}

use mandate_gate::audit_service::{generate_hex_id, get_iso_timestamp, log_audit_event};
use mandate_gate::calendar::{civil_from_days, format_stamp};
use mandate_gate::gate_service::{format_inr, get_today_date_str};
use mandate_gate::models::{AuditLogEntry, GateDecision, MandateModel};

fn sample_mandate() -> MandateModel {
    MandateModel {
        mandate_id: "m\"1".to_string(),
        user_id: "user_rahul".to_string(),
        merchant_id: "zepto".to_string(),
        max_per_txn: 80000,
        max_per_day: 200000,
        max_total: 1000000,
        spent_today: 150000,
        spent_total: -5,
        last_spent_date: "2026-08-30".to_string(),
        expires_at: "2027-12-31T23:59:59Z".to_string(),
        created_at: "2026-08-30T00:00:00Z".to_string(),
        status: MandateStatus::Revoked,
    }
}

#[test]
fn mandate_json_has_every_field_in_order() {
    let m = sample_mandate();
    assert_eq!(
        m.to_json(Some(0), "0.0", "1.5"),
        r#"{"mandate_id":"m\"1","user_id":"user_rahul","merchant_id":"zepto","max_per_txn":80000,"max_per_day":200000,"max_total":1000000,"spent_today":150000,"spent_total":-5,"spent_today_current":0,"daily_utilization_pct":0.0,"total_utilization_pct":1.5,"last_spent_date":"2026-08-30","expires_at":"2027-12-31T23:59:59Z","created_at":"2026-08-30T00:00:00Z","status":"revoked"}"#
    );
    assert!(m.to_json(None, "75.0", "0.0").contains(r#""spent_today_current":150000"#));
}

#[test]
fn decision_json_writes_only_present_optional_fields() {
    let d = GateDecision {
        decision: "denied".to_string(),
        reason: "max_per_txn_exceeded".to_string(),
        mandate_id: None,
        user_id: "u".to_string(),
        merchant_id: "m".to_string(),
        requested_amount: 100,
        limit: Some(50),
        already_spent: None,
        razorpay_order_id: None,
        updated_mandate: None,
        message: Some("line\nbreak".to_string()),
    };
    assert_eq!(
        d.to_json("", ""),
        r#"{"decision":"denied","reason":"max_per_txn_exceeded","mandate_id":null,"user_id":"u","merchant_id":"m","requested_amount":100,"limit":50,"message":"line\nbreak"}"#
    );
    let mut a = d.clone();
    a.mandate_id = Some("x".to_string());
    a.limit = None;
    a.already_spent = Some(0);
    a.razorpay_order_id = Some("order_1".to_string());
    a.updated_mandate = Some(sample_mandate());
    a.message = None;
    let j = a.to_json("75.0", "0.0");
    assert!(j.starts_with(r#"{"decision":"denied","reason":"max_per_txn_exceeded","mandate_id":"x","user_id":"u","merchant_id":"m","requested_amount":100,"already_spent":0,"razorpay_order_id":"order_1","updated_mandate":{"mandate_id":"m\"1""#));
    assert!(j.ends_with(r#""daily_utilization_pct":75.0,"total_utilization_pct":0.0,"last_spent_date":"2026-08-30","expires_at":"2027-12-31T23:59:59Z","created_at":"2026-08-30T00:00:00Z","status":"revoked"}}"#));
}

#[test]
fn audit_json_reads_empty_details_as_an_empty_object() {
    let e = AuditLogEntry {
        log_id: "log_1".to_string(),
        timestamp: "2026-01-01T00:00:00Z".to_string(),
        mandate_id: "m".to_string(),
        user_id: "u".to_string(),
        merchant_id: "z".to_string(),
        requested_amount: 7,
        decision: "denied".to_string(),
        reason: "r".to_string(),
        details_json: String::new(),
        razorpay_order_id: None,
    };
    assert_eq!(
        e.to_json(),
        r#"{"log_id":"log_1","timestamp":"2026-01-01T00:00:00Z","mandate_id":"m","user_id":"u","merchant_id":"z","requested_amount":7,"decision":"denied","reason":"r","details":{},"razorpay_order_id":null}"#
    );
    let mut f = e.clone();
    f.details_json = r#"{"a":1}"#.to_string();
    f.razorpay_order_id = Some("order_9".to_string());
    assert!(f.to_json().ends_with(r#""details":{"a":1},"razorpay_order_id":"order_9"}"#));
}

#[test]
fn rupee_amounts_have_two_decimals() {
    assert_eq!(format_inr(40000), "\u{20b9}400.00");
    assert_eq!(format_inr(12345), "\u{20b9}123.45");
    assert_eq!(format_inr(5), "\u{20b9}0.05");
    assert_eq!(format_inr(0), "\u{20b9}0.00");
    assert_eq!(format_inr(-150), "\u{20b9}-1.50");
}

#[test]
fn dates_follow_the_gregorian_calendar() {
    assert_eq!(get_today_date_str(0), "1970-01-01");
    assert_eq!(get_today_date_str(951782400), "2000-02-29");
    assert_eq!(get_today_date_str(951868799), "2000-02-29");
    assert_eq!(get_today_date_str(1735603200), "2024-12-31");
    assert_eq!(get_today_date_str(1788048000), "2026-08-30");
    assert_eq!(get_today_date_str(4102444800), "2100-01-01");
    assert_eq!(get_today_date_str(253402300799), "9999-12-31");
    assert_eq!(get_today_date_str(u64::MAX), "584554051223-11-09");
    assert_eq!(civil_from_days(59), (1970, 3, 1));
}

#[test]
fn timestamps_count_whole_years() {
    assert_eq!(get_iso_timestamp(0), "1970-01-01T00:00:00Z");
    assert_eq!(get_iso_timestamp(31536000 * 55), "2025-01-01T00:00:00Z");
    assert_eq!(get_iso_timestamp(31536000 * 55 - 1), "2024-01-01T00:00:00Z");
}

#[test]
fn hex_ids_take_a_prefix_of_both_readings() {
    assert_eq!(generate_hex_id(6, 0xabcdef, 0x2a), "abcdef");
    assert_eq!(generate_hex_id(7, 0xabcdef, 0x2a), "abcdef2");
    assert_eq!(generate_hex_id(6, 0x1f, 0x2a), "1f2a");
    assert_eq!(generate_hex_id(6, 0, 0), "00");
}

#[test]
fn audit_entries_carry_their_event() {
    let e = log_audit_event("m1", "u1", "z", 500, "approved", "passed_all_checks", "{}", Some("order_x"), 0x12345678, 1, 0);
    assert_eq!(e.log_id, "log_123456");
    assert_eq!(e.timestamp, "1970-01-01T00:00:00Z");
    assert_eq!((e.mandate_id.as_str(), e.user_id.as_str(), e.merchant_id.as_str()), ("m1", "u1", "z"));
    assert_eq!(e.requested_amount, 500);
    assert_eq!(e.razorpay_order_id.as_deref(), Some("order_x"));
    let n = log_audit_event("m1", "u1", "z", 500, "denied", "r", "", None, 1, 2, 0);
    assert_eq!(n.log_id, "log_12");
    assert_eq!(n.razorpay_order_id, None);
}

#[test]
fn stamps_give_date_and_time_of_day() {
    assert_eq!(format_stamp(1788091200), "2026-08-30T12:00:00Z");
    assert_eq!(format_stamp(59), "1970-01-01T00:00:59Z");
    assert_eq!(format_stamp(951868799), "2000-02-29T23:59:59Z");
}

#[test]
fn later_moments_have_later_stamps() {
    let moments = [0u64, 59, 60, 3599, 3600, 86399, 86400, 951868799, 951868800, 1788091200];
    for w in moments.windows(2) {
        let (a, b) = (format_stamp(w[0]), format_stamp(w[1]));
        assert!(mandate_gate::text::is_before(&a, &b), "{} before {}", a, b);
        assert!(!mandate_gate::text::is_before(&b, &a));
    }
    assert!(!mandate_gate::text::is_before("2026-08-30", "2026-08-30"));
    assert!(mandate_gate::text::is_before("2026-08-30", "2026-08-30T00:00:00Z"));
}

#[test]
fn escaping_shows_every_special_character() {
    assert_eq!(escape_json("a\"b\\c\nd\re\tf\u{20b9}"), "a\\\"b\\\\c\\nd\\re\\tf\u{20b9}");
}
