use mandate_gate::audit_service::log_audit_event;
use mandate_gate::gate_service::{
    gate_step, gate_step_defined, GateEffect, GateEvent, GatePhase,
};
use mandate_gate::models::{AuditLogEntry, AuthorizeRequest, GateDecision, MandateModel, MandateStatus};
use mandate_gate::razorpay_client::{create_razorpay_order, OrderPlan, RazorpayError};

/// The date the fixtures were written for: the mandates below were last
/// spent on it.
const TODAY: &str = "2026-08-30";

/// The moment of the requests, on that date.
const NOW: &str = "2026-08-30T12:00:00Z";

struct Store {
    mandates: Vec<MandateModel>,
    audit: Vec<AuditLogEntry>,
    clock: u32,
}

fn mandate(
    id: &str,
    user: &str,
    merchant: &str,
    caps: (i64, i64, i64),
    spent: (i64, i64),
    last: &str,
    expires: &str,
    created: &str,
    status: &str,
) -> MandateModel {
    MandateModel {
        mandate_id: id.to_string(),
        user_id: user.to_string(),
        merchant_id: merchant.to_string(),
        max_per_txn: caps.0,
        max_per_day: caps.1,
        max_total: caps.2,
        spent_today: spent.0,
        spent_total: spent.1,
        last_spent_date: last.to_string(),
        expires_at: expires.to_string(),
        created_at: created.to_string(),
        status: MandateStatus::from_str(status),
    }
}

fn setup_test_db() -> Store {
    Store {
        mandates: vec![
            mandate("m_active_01", "user_rahul", "zepto", (80000, 200000, 1000000), (150000, 150000), "2026-08-30", "2028-12-31T23:59:59Z", "2026-08-30T00:00:00Z", "active"),
            mandate("m_expired_01", "user_rahul", "blinkit", (100000, 200000, 500000), (0, 0), "2026-08-30", "2020-01-01T00:00:00Z", "2020-01-01T00:00:00Z", "expired"),
            mandate("m_revoked_01", "user_rahul", "swiggy", (100000, 200000, 500000), (0, 0), "2026-08-30", "2028-12-31T23:59:59Z", "2026-08-30T00:00:00Z", "revoked"),
            mandate("m_old_date_01", "user_priya", "amazon", (500000, 500000, 1000000), (450000, 450000), "2020-01-01", "2028-12-31T23:59:59Z", "2026-08-30T00:00:00Z", "active"),
        ],
        audit: Vec::new(),
        clock: 1,
    }
}

impl Store {
    /// Runs the authorization protocol against the in-memory store, doing
    /// the work each step asks for, until a decision comes.
    fn authorize(&mut self, req: &AuthorizeRequest, order_error: Option<RazorpayError>) -> GateDecision {
        let mut phase = GatePhase::Start;
        let mut event = GateEvent::Begin;
        let mut order_error = order_error;
        loop {
            assert!(gate_step_defined(req, TODAY, NOW, &phase, &event));
            let step = gate_step(req, TODAY, NOW, phase, event);
            let mut next = None;
            for effect in step.effects {
                match effect {
                    GateEffect::BeginImmediate => next = Some(GateEvent::LockResult(Ok(()))),
                    GateEffect::QueryMandateById(id) => {
                        let m = self.mandates.iter().find(|m| m.mandate_id == id).cloned();
                        next = Some(GateEvent::MandateLoaded(Ok(m)));
                    }
                    GateEffect::QueryActiveMandate(user, merchant) => {
                        let m = self
                            .mandates
                            .iter()
                            .filter(|m| m.user_id == user && m.merchant_id == merchant && m.status == MandateStatus::Active)
                            .max_by(|a, b| a.created_at.cmp(&b.created_at))
                            .cloned();
                        next = Some(GateEvent::MandateLoaded(Ok(m)));
                    }
                    GateEffect::UpdateMandateStatus(id, status) => {
                        for m in self.mandates.iter_mut().filter(|m| m.mandate_id == id) {
                            m.status = MandateStatus::from_str(&status);
                        }
                    }
                    GateEffect::UpdateMandateSpend(id, today, total, date) => {
                        for m in self.mandates.iter_mut().filter(|m| m.mandate_id == id) {
                            m.spent_today = today;
                            m.spent_total = total;
                            m.last_spent_date = date.clone();
                        }
                    }
                    GateEffect::LogAudit(e) => {
                        self.clock += 1;
                        let entry = log_audit_event(
                            &e.mandate_id,
                            &e.user_id,
                            &e.merchant_id,
                            e.requested_amount,
                            &e.decision,
                            &e.reason,
                            &e.details_json,
                            e.razorpay_order_id.as_deref(),
                            self.clock,
                            7,
                            1_788_000_000,
                        );
                        self.audit.insert(0, entry);
                    }
                    GateEffect::Commit | GateEffect::Rollback => {}
                    GateEffect::CreateOrder(o) => {
                        let result = match order_error.take() {
                            Some(err) => Err(err),
                            None => match create_razorpay_order(o.amount, &o.user_id, &o.merchant_id, &o.mandate_id, "", "", 0xabcdef, 42) {
                                OrderPlan::Simulated(order) => Ok(order),
                                OrderPlan::Remote(..) => panic!("no live keys in tests"),
                            },
                        };
                        next = Some(GateEvent::OrderResult(result));
                    }
                }
            }
            if let Some(d) = step.decision {
                return d;
            }
            phase = step.phase;
            event = next.expect("a step without a decision asks for outside work");
        }
    }

    fn logs_for(&self, mandate_id: &str) -> Vec<&AuditLogEntry> {
        self.audit.iter().filter(|e| e.mandate_id == mandate_id).collect()
    }

    fn find(&self, id: &str) -> &MandateModel {
        self.mandates.iter().find(|m| m.mandate_id == id).unwrap()
    }
}

fn request(user: &str, merchant: &str, amount: i64, mandate_id: Option<&str>) -> AuthorizeRequest {
    AuthorizeRequest {
        user_id: user.to_string(),
        merchant_id: merchant.to_string(),
        amount,
        mandate_id: mandate_id.map(|s| s.to_string()),
    }
}

#[test]
fn test_approved_transaction() {
    let mut store = setup_test_db();
    let req = request("user_rahul", "zepto", 20000, Some("m_active_01"));
    let decision = store.authorize(&req, None);
    assert_eq!(decision.decision, "approved");
    assert_eq!(decision.reason, "passed_all_checks");
    assert!(decision.razorpay_order_id.is_some());

    let logs = store.logs_for("m_active_01");
    assert!(!logs.is_empty());
    assert_eq!(logs[0].decision, "approved");
}

#[test]
fn test_max_per_txn_exceeded() {
    let mut store = setup_test_db();
    let req = request("user_rahul", "zepto", 100000, Some("m_active_01"));
    let decision = store.authorize(&req, None);
    assert_eq!(decision.decision, "denied");
    assert_eq!(decision.reason, "max_per_txn_exceeded");
    assert_eq!(decision.limit, Some(80000));
}

#[test]
fn test_max_per_day_exceeded() {
    let mut store = setup_test_db();
    let req = request("user_rahul", "zepto", 70000, Some("m_active_01"));
    let decision = store.authorize(&req, None);
    assert_eq!(decision.decision, "denied");
    assert_eq!(decision.reason, "max_per_day_exceeded");
    assert_eq!(decision.limit, Some(200000));
}

#[test]
fn test_merchant_mismatch() {
    let mut store = setup_test_db();
    let req = request("user_rahul", "swiggy", 20000, Some("m_active_01"));
    let decision = store.authorize(&req, None);
    assert_eq!(decision.decision, "denied");
    assert_eq!(decision.reason, "merchant_mismatch");
}

#[test]
fn test_user_mismatch() {
    let mut store = setup_test_db();
    let req = request("user_priya", "zepto", 20000, Some("m_active_01"));
    let decision = store.authorize(&req, None);
    assert_eq!(decision.decision, "denied");
    assert_eq!(decision.reason, "user_mismatch");
}

#[test]
fn test_expired_mandate() {
    let mut store = setup_test_db();
    let req = request("user_rahul", "blinkit", 10000, Some("m_expired_01"));
    let decision = store.authorize(&req, None);
    assert_eq!(decision.decision, "denied");
    assert_eq!(decision.reason, "mandate_expired");
}

#[test]
fn test_revoked_mandate() {
    let mut store = setup_test_db();
    let req = request("user_rahul", "swiggy", 10000, Some("m_revoked_01"));
    let decision = store.authorize(&req, None);
    assert_eq!(decision.decision, "denied");
    assert_eq!(decision.reason, "mandate_revoked");
}

#[test]
fn active_mandate_past_its_expiry_is_denied_and_marked_expired() {
    let mut store = setup_test_db();
    store.mandates.push(mandate("m_lapsed_01", "user_rahul", "zepto", (80000, 200000, 1000000), (0, 0), TODAY, "2026-01-01T00:00:00Z", "2025-01-01T00:00:00Z", "active"));
    let req = request("user_rahul", "zepto", 10000, Some("m_lapsed_01"));
    let decision = store.authorize(&req, None);
    assert_eq!(decision.decision, "denied");
    assert_eq!(decision.reason, "mandate_expired");
    assert_eq!(store.find("m_lapsed_01").status, MandateStatus::Expired);
    assert_eq!(store.find("m_lapsed_01").spent_total, 0);
}

#[test]
fn expiry_counts_to_the_second() {
    let mut store = setup_test_db();
    store.mandates.push(mandate("m_morning_01", "user_rahul", "uber", (80000, 200000, 1000000), (0, 0), TODAY, "2026-08-30T06:00:00Z", "2025-01-01T00:00:00Z", "active"));
    store.mandates.push(mandate("m_evening_01", "user_rahul", "uber", (80000, 200000, 1000000), (0, 0), TODAY, "2026-08-30T18:00:00Z", "2025-01-01T00:00:00Z", "active"));
    let early = store.authorize(&request("user_rahul", "uber", 10000, Some("m_morning_01")), None);
    assert_eq!(early.reason, "mandate_expired");
    let late = store.authorize(&request("user_rahul", "uber", 10000, Some("m_evening_01")), None);
    assert_eq!(late.decision, "approved");
}

#[test]
fn test_daily_reset_logic() {
    let mut store = setup_test_db();
    let req = request("user_priya", "amazon", 400000, Some("m_old_date_01"));
    let decision = store.authorize(&req, None);
    assert_eq!(decision.decision, "approved");
}

#[test]
fn test_concurrency_race_condition() {
    // The immediate transaction serializes the two requests: the second sees
    // the first one's spending.
    let mut store = setup_test_db();
    let req = request("user_rahul", "zepto", 40000, Some("m_active_01"));
    let res1 = store.authorize(&req, None);
    let res2 = store.authorize(&req, None);

    let approved_count = (if res1.decision == "approved" { 1 } else { 0 }) + (if res2.decision == "approved" { 1 } else { 0 });
    let denied_count = (if res1.decision == "denied" { 1 } else { 0 }) + (if res2.decision == "denied" { 1 } else { 0 });

    assert_eq!(approved_count, 1, "Exactly one parallel transaction must be approved");
    assert_eq!(denied_count, 1, "Exactly one parallel transaction must be denied");
}

#[test]
fn approval_updates_counters_and_reports_the_charged_mandate() {
    let mut store = setup_test_db();
    let req = request("user_rahul", "zepto", 20000, Some("m_active_01"));
    let d = store.authorize(&req, None);
    let m = store.find("m_active_01");
    assert_eq!((m.spent_today, m.spent_total), (170000, 170000));
    assert_eq!(m.last_spent_date, TODAY);
    let u = d.updated_mandate.unwrap();
    assert_eq!((u.spent_today, u.spent_total), (170000, 170000));
    assert_eq!(d.razorpay_order_id.as_deref(), Some("order_test_abcdef2"));
    assert_eq!(
        d.message.as_deref(),
        Some("Transaction approved: \u{20b9}200.00 charged under mandate 'm_active_01'. Razorpay Order ID: order_test_abcdef2.")
    );
    let log = &store.logs_for("m_active_01")[0];
    assert_eq!(log.details_json, r#"{"max_per_txn":80000,"max_per_day":200000,"spent_today":170000,"spent_total":170000}"#);
    assert_eq!(log.razorpay_order_id.as_deref(), Some("order_test_abcdef2"));
}

#[test]
fn denial_leaves_counters_alone_and_is_logged() {
    let mut store = setup_test_db();
    let req = request("user_rahul", "zepto", 70000, Some("m_active_01"));
    let d = store.authorize(&req, None);
    assert_eq!(d.already_spent, Some(150000));
    assert_eq!(
        d.message.as_deref(),
        Some("Transaction denied: Requested \u{20b9}700.00 exceeds remaining daily cap \u{20b9}500.00 (spent \u{20b9}1500.00 / \u{20b9}2000.00 today).")
    );
    let m = store.find("m_active_01");
    assert_eq!((m.spent_today, m.spent_total), (150000, 150000));
    let logs = store.logs_for("m_active_01");
    assert_eq!(logs.len(), 1);
    assert_eq!(logs[0].reason, "max_per_day_exceeded");
    assert_eq!(logs[0].details_json, r#"{"limit":200000,"already_spent":150000,"requested":70000}"#);
}

#[test]
fn per_transaction_denial_reports_no_spending() {
    let mut store = setup_test_db();
    let d = store.authorize(&request("user_rahul", "zepto", 100000, Some("m_active_01")), None);
    assert_eq!(d.already_spent, Some(0));
    assert_eq!(
        d.message.as_deref(),
        Some("Transaction denied: Requested amount \u{20b9}1000.00 exceeds single transaction limit \u{20b9}800.00.")
    );
}

#[test]
fn total_cap_is_checked_after_the_daily_cap() {
    let mut store = setup_test_db();
    store.mandates[3].max_total = 460000;
    let d = store.authorize(&request("user_priya", "amazon", 20000, Some("m_old_date_01")), None);
    assert_eq!(d.reason, "max_total_exceeded");
    assert_eq!(d.limit, Some(460000));
    assert_eq!(d.already_spent, Some(450000));
    assert_eq!(
        d.message.as_deref(),
        Some("Transaction denied: Requested \u{20b9}200.00 exceeds remaining total mandate cap \u{20b9}100.00 (spent \u{20b9}4500.00 / \u{20b9}4600.00 total).")
    );
}

#[test]
fn expired_mandate_is_marked_expired() {
    let mut store = setup_test_db();
    store.mandates[0].expires_at = "2025-06-01T00:00:00Z".to_string();
    let d = store.authorize(&request("user_rahul", "zepto", 100, Some("m_active_01")), None);
    assert_eq!(d.reason, "mandate_expired");
    assert_eq!(store.find("m_active_01").status, MandateStatus::Expired);
    assert_eq!(d.message.as_deref(), Some("Mandate 'm_active_01' expired at 2025-06-01T00:00:00Z."));
}

#[test]
fn missing_mandate_is_denied_and_logged_under_its_id() {
    let mut store = setup_test_db();
    let d = store.authorize(&request("user_rahul", "zepto", 100, Some("nope")), None);
    assert_eq!(d.decision, "denied");
    assert_eq!(d.reason, "mandate_not_found");
    assert_eq!(d.message.as_deref(), Some("Mandate 'nope' was not found in the database."));
    assert_eq!(store.logs_for("nope").len(), 1);
}

#[test]
fn lookup_without_an_id_finds_the_active_mandate() {
    let mut store = setup_test_db();
    let d = store.authorize(&request("user_rahul", "zepto", 20000, None), None);
    assert_eq!(d.decision, "approved");
    assert_eq!(d.mandate_id.as_deref(), Some("m_active_01"));
    let d = store.authorize(&request("user_rahul", "uber", 20000, None), None);
    assert_eq!(d.reason, "mandate_not_found");
    assert_eq!(d.mandate_id, None);
    assert_eq!(d.message.as_deref(), Some("No active mandate found for user 'user_rahul' at merchant 'uber'."));
    assert_eq!(store.logs_for("none").len(), 1);
}

#[test]
fn order_failure_is_an_error_and_spends_nothing() {
    let mut store = setup_test_db();
    let err = RazorpayError { status_code: 400, message: "bad key".to_string() };
    let d = store.authorize(&request("user_rahul", "zepto", 20000, Some("m_active_01")), Some(err));
    assert_eq!(d.decision, "error");
    assert_eq!(d.reason, "razorpay_api_error");
    assert_eq!(d.message.as_deref(), Some("Razorpay API Error: bad key"));
    assert_eq!(store.find("m_active_01").spent_today, 150000);
    assert_eq!(store.logs_for("m_active_01")[0].details_json, r#"{"error_code":400,"message":"bad key"}"#);
}

#[test]
fn lock_failure_is_an_error_without_work() {
    let req = request("user_rahul", "zepto", 20000, Some("m_active_01"));
    let step = gate_step(&req, TODAY, NOW, GatePhase::Locking, GateEvent::LockResult(Err("busy".to_string())));
    assert!(step.effects.is_empty());
    let d = step.decision.unwrap();
    assert_eq!(d.reason, "database_lock_error");
    assert_eq!(d.message.as_deref(), Some("Database lock error: busy"));
}

#[test]
fn lookup_failure_rolls_back() {
    let req = request("user_rahul", "zepto", 20000, None);
    let step = gate_step(&req, TODAY, NOW, GatePhase::Loading, GateEvent::MandateLoaded(Err("disk".to_string())));
    assert!(matches!(step.effects.as_slice(), [GateEffect::Rollback]));
    let d = step.decision.unwrap();
    assert_eq!((d.decision.as_str(), d.reason.as_str()), ("error", "db_error"));
    assert_eq!(d.message.as_deref(), Some("disk"));
}
