use mandate_gate::config::{parse_env_file, Config};
use mandate_gate::models::{AuditLogEntry, MandateModel, MandateStatus};
use mandate_gate::razorpay_client::{
    create_razorpay_order, extract_json_string, is_real_key, network_error, order_from_response,
    OrderPlan,
};
use mandate_gate::server_service::{
    audit_logs_body, authorization_response, created_body, creation_response, error_body,
    extract_json_field, extract_json_num, extract_query_param, http_response, immediate_response,
    insert_mandate_sql, list_mandates_body, route_request, NewMandate, Route,
};
use mandate_gate::models::GateDecision;

#[test]
fn json_fields_are_read_after_their_key() {
    let body = r#"{"user_id": "user_rahul","merchant_id":"zepto","amount": 40000,"neg":-7,"q":"5"}"#;
    assert_eq!(extract_json_field(body, "user_id").as_deref(), Some("user_rahul"));
    assert_eq!(extract_json_field(body, "merchant_id").as_deref(), Some("zepto"));
    assert_eq!(extract_json_field(body, "amount"), None);
    assert_eq!(extract_json_field(body, "missing"), None);
    assert_eq!(extract_json_num(body, "amount"), Some(40000));
    assert_eq!(extract_json_num(body, "neg"), Some(-7));
    assert_eq!(extract_json_num(body, "q"), None);
    assert_eq!(extract_json_num(r#"{"n":99999999999999999999}"#, "n"), None);
    assert_eq!(extract_json_string(r#"{"id":"order_1","x":2}"#, "id").as_deref(), Some("order_1"));
    assert_eq!(extract_json_string(r#"{"id": "order_1"}"#, "id"), None);
}

#[test]
fn query_parameters_are_found_by_key() {
    let q = "mandate_id=m1&decision=denied&limit=5&flag";
    assert_eq!(extract_query_param(q, "decision").as_deref(), Some("denied"));
    assert_eq!(extract_query_param(q, "limit").as_deref(), Some("5"));
    assert_eq!(extract_query_param(q, "flag"), None);
    assert_eq!(extract_query_param("a=1=2", "a").as_deref(), Some("1=2"));
    assert_eq!(extract_query_param("", "a"), None);
}

#[test]
fn requests_are_routed_by_method_and_path() {
    assert!(matches!(route_request(""), Route::Ignore));
    assert!(matches!(route_request("GET\r\n\r\n"), Route::Ignore));
    assert!(matches!(route_request("PUT / HTTP/1.1\r\n\r\n"), Route::Ignore));
    assert!(matches!(route_request("OPTIONS /gate/authorize HTTP/1.1\r\n\r\n"), Route::Options));
    match route_request("GET /index.html HTTP/1.1\r\nHost: x\r\n\r\n") {
        Route::StaticFile(p, c) => assert_eq!((p.as_str(), c.as_str()), ("static/index.html", "text/html")),
        _ => panic!("static file"),
    }
    assert!(matches!(route_request("GET /gate/mandates HTTP/1.1\r\n\r\n"), Route::ListMandates));
    match route_request("GET /gate/audit?limit=5&decision=denied HTTP/1.1\r\n\r\n") {
        Route::AuditLogs(m, d, l) => {
            assert_eq!(m, None);
            assert_eq!(d.as_deref(), Some("denied"));
            assert_eq!(l, 5);
        }
        _ => panic!("audit"),
    }
    match route_request("GET /gate/audit?limit=x HTTP/1.1\r\n\r\n") {
        Route::AuditLogs(_, _, l) => assert_eq!(l, 50),
        _ => panic!("audit"),
    }
    assert!(matches!(route_request("GET /nowhere HTTP/1.1\r\n\r\n"), Route::NotFound));
    let post = "POST /gate/authorize HTTP/1.1\r\nContent-Type: application/json\r\n\r\n{\"mandate_id\":\"mandate_zepto_rahul\",\"user_id\":\"user_rahul\",\"merchant_id\":\"zepto\",\"amount\":40000}";
    match route_request(post) {
        Route::Authorize(r) => {
            assert_eq!((r.user_id.as_str(), r.merchant_id.as_str(), r.amount), ("user_rahul", "zepto", 40000));
            assert_eq!(r.mandate_id.as_deref(), Some("mandate_zepto_rahul"));
        }
        _ => panic!("authorize"),
    }
    match route_request("POST /gate/authorize HTTP/1.1\r\n\r\n{\"user_id\":\"u\",\"amount\":0}") {
        Route::BadRequest(b) => assert_eq!(b, r#"{"error":"Missing user_id, merchant_id, or amount"}"#),
        _ => panic!("bad request"),
    }
    match route_request("POST /gate/mandates HTTP/1.1\r\n\r\n{\"mandate_id\":\"m\",\"user_id\":\"u\",\"merchant_id\":\"z\",\"max_per_txn\":5}") {
        Route::CreateMandate(n) => assert_eq!((n.max_per_txn, n.max_per_day, n.max_total), (5, 0, 0)),
        _ => panic!("create"),
    }
    match route_request("POST /agent/chat HTTP/1.1\r\n\r\n{\"prompt\":\"buy 5 rupees\"}") {
        Route::AgentChat(p, u) => {
            assert_eq!(p, "buy 5 rupees");
            assert_eq!(u, None);
        }
        _ => panic!("chat"),
    }
    match route_request("POST /agent/chat HTTP/1.1\r\n\r\n{}") {
        Route::BadRequest(b) => assert_eq!(b, r#"{"error":"Missing prompt"}"#),
        _ => panic!("bad request"),
    }
}

#[test]
fn responses_count_body_bytes() {
    assert_eq!(
        http_response(200, "text/plain", "\u{20b9}1", false),
        "HTTP/1.1 200 OK\r\nContent-Type: text/plain\r\nContent-Length: 4\r\nConnection: close\r\n\r\n\u{20b9}1"
    );
    assert_eq!(
        http_response(404, "application/json", "{}", true),
        "HTTP/1.1 404 Not Found\r\nContent-Type: application/json\r\nContent-Length: 2\r\nConnection: close\r\nAccess-Control-Allow-Origin: *\r\nAccess-Control-Allow-Methods: GET, POST, OPTIONS\r\nAccess-Control-Allow-Headers: Content-Type\r\n\r\n{}"
    );
    assert!(http_response(201, "a", "", false).starts_with("HTTP/1.1 201 Created\r\n"));
    assert!(http_response(302, "a", "", false).starts_with("HTTP/1.1 302 OK\r\n"));
}

#[test]
fn listing_bodies_join_their_items() {
    let m = MandateModel {
        mandate_id: "m".to_string(),
        user_id: "u".to_string(),
        merchant_id: "z".to_string(),
        max_per_txn: 1,
        max_per_day: 2,
        max_total: 3,
        spent_today: 2,
        spent_total: 2,
        last_spent_date: "2020-01-01".to_string(),
        expires_at: "e".to_string(),
        created_at: "c".to_string(),
        status: MandateStatus::Active,
    };
    let body = list_mandates_body(&vec![m.clone(), m], "2026-08-30", &vec!["0.0".to_string(); 2], &vec!["66.7".to_string(); 2]);
    assert!(body.starts_with(r#"{"status":"success","mandates":[{"mandate_id":"m""#));
    assert_eq!(body.matches(r#""spent_today_current":0"#).count(), 2);
    assert!(body.contains("},{"));
    assert_eq!(list_mandates_body(&vec![], "d", &vec![], &vec![]), r#"{"status":"success","mandates":[]}"#);
    let e = AuditLogEntry {
        log_id: "l".to_string(),
        timestamp: "t".to_string(),
        mandate_id: "m".to_string(),
        user_id: "u".to_string(),
        merchant_id: "z".to_string(),
        requested_amount: 1,
        decision: "d".to_string(),
        reason: "r".to_string(),
        details_json: "{}".to_string(),
        razorpay_order_id: None,
    };
    let b = audit_logs_body(&vec![e]);
    assert!(b.starts_with(r#"{"status":"success","count":1,"logs":[{"log_id":"l""#));
    assert!(b.ends_with("}]}"));
    assert_eq!(created_body("m1"), r#"{"status":"success","mandate_id":"m1"}"#);
    assert_eq!(error_body("bad \"x\""), r#"{"error":"bad \"x\""}"#);
}

#[test]
fn new_mandates_are_inserted_active() {
    let n = NewMandate {
        mandate_id: "mandate_uber_01".to_string(),
        user_id: "user_priya".to_string(),
        merchant_id: "uber".to_string(),
        max_per_txn: 100000,
        max_per_day: 300000,
        max_total: 1000000,
    };
    assert_eq!(
        insert_mandate_sql(&n, "2026-08-30"),
        "INSERT INTO mandates (mandate_id, user_id, merchant_id, max_per_txn, max_per_day, max_total, spent_today, spent_total, last_spent_date, expires_at, created_at, status) VALUES ('mandate_uber_01', 'user_priya', 'uber', 100000, 300000, 1000000, 0, 0, '2026-08-30', '2027-12-31T23:59:59Z', '2026-08-30T00:00:00Z', 'active');"
    );
}

#[test]
fn placeholder_keys_simulate_orders() {
    assert!(!is_real_key("", "secret"));
    assert!(!is_real_key("rzp_test_your_key_id", "secret"));
    assert!(!is_real_key("rzp_live_1", "your_test_secret"));
    assert!(is_real_key("rzp_live_1", "secret"));
    match create_razorpay_order(500, "u", "z", "m", "rzp_test_your_key_id", "x", 0xabcdef1, 3) {
        OrderPlan::Simulated(o) => {
            assert_eq!(o.id, "order_test_abcdef1");
            assert_eq!((o.amount, o.currency.as_str(), o.status.as_str()), (500, "INR", "created"));
        }
        OrderPlan::Remote(..) => panic!("placeholder keys"),
    }
    match create_razorpay_order(500, "u", "z", "m", "rzp_live_1", "s", 0xabcdef1, 3) {
        OrderPlan::Remote(auth, payload) => {
            assert_eq!(auth, "rzp_live_1:s");
            assert_eq!(payload, r#"{"amount":500,"currency":"INR","receipt":"rcpt_gate_abcdef","notes":{"mandate_id":"m","user_id":"u","merchant_id":"z"}}"#);
        }
        OrderPlan::Simulated(_) => panic!("live keys"),
    }
}

#[test]
fn razorpay_replies_are_read() {
    let o = order_from_response(r#"{"id":"order_ABC","amount":100}"#, 100).unwrap();
    assert_eq!((o.id.as_str(), o.amount), ("order_ABC", 100));
    let e = order_from_response(r#"{"error":{"code":"BAD_REQUEST_ERROR","description":"Authentication failed"}}"#, 1).unwrap_err();
    assert_eq!((e.status_code, e.message.as_str()), (400, "Authentication failed"));
    let e = order_from_response("garbage", 1).unwrap_err();
    assert_eq!(e.message, "garbage");
    let e = network_error("timed out");
    assert_eq!((e.status_code, e.message.as_str()), (503, "Network error reaching Razorpay: timed out"));
}

#[test]
fn env_files_set_trimmed_pairs() {
    let entries = parse_env_file("# comment\nPORT = 9000\r\n\n  HOST=1.2.3.4  \nBAD LINE\nKEY=a=b\n");
    let pairs: Vec<(&str, &str)> = entries.iter().map(|(k, v)| (k.as_str(), v.as_str())).collect();
    assert_eq!(pairs, vec![("PORT", "9000"), ("HOST", "1.2.3.4"), ("KEY", "a=b")]);
    assert!(parse_env_file("").is_empty());
}

#[test]
fn settings_fall_back_to_defaults() {
    let c = Config::from_env_values(None, Some("abc".to_string()), None, None, None, None);
    assert_eq!(c.db_path, "mandate_gate.db");
    assert_eq!(c.port, 8000);
    assert_eq!(c.host, "0.0.0.0");
    assert_eq!(c.razorpay_key_id, "");
    let c = Config::from_env_values(Some("x.db".to_string()), Some("+80".to_string()), Some("h".to_string()), Some("k".to_string()), Some("s".to_string()), Some("o".to_string()));
    assert_eq!((c.db_path.as_str(), c.port, c.host.as_str()), ("x.db", 80, "h"));
    assert_eq!(Config::from_env_values(None, Some("70000".to_string()), None, None, None, None).port, 8000);
}

fn decision(word: &str, reason: &str) -> GateDecision {
    GateDecision {
        decision: word.to_string(),
        reason: reason.to_string(),
        mandate_id: None,
        user_id: "u".to_string(),
        merchant_id: "m".to_string(),
        requested_amount: 5,
        limit: None,
        already_spent: None,
        razorpay_order_id: None,
        updated_mandate: None,
        message: None,
    }
}

#[test]
fn readme_bodies_with_spaces_are_read() {
    let b = r#"{ "mandate_id": "mandate_zepto_rahul", "user_id": "user_rahul", "merchant_id": "zepto", "amount": 40000 }"#;
    assert_eq!(extract_json_field(b, "mandate_id").as_deref(), Some("mandate_zepto_rahul"));
    assert_eq!(extract_json_field(b, "user_id").as_deref(), Some("user_rahul"));
    assert_eq!(extract_json_field(b, "merchant_id").as_deref(), Some("zepto"));
    assert_eq!(extract_json_field(b, "amount"), None);
    assert_eq!(extract_json_field(b, "prompt"), None);
    assert_eq!(extract_json_num(b, "amount"), Some(40000));
    assert_eq!(extract_json_num(b, "user_id"), None);
    assert_eq!(extract_json_num(b, "limit"), None);
    let c = r#"{ "mandate_id": "mandate_uber_01", "max_per_txn": 100000, "max_total": 1000000 }"#;
    assert_eq!(extract_json_num(c, "max_per_txn"), Some(100000));
    assert_eq!(extract_json_num(c, "max_total"), Some(1000000));
    match route_request(&format!("POST /gate/authorize HTTP/1.1\r\nContent-Type: application/json\r\n\r\n{}", b)) {
        Route::Authorize(req) => {
            assert_eq!((req.user_id.as_str(), req.merchant_id.as_str(), req.amount), ("user_rahul", "zepto", 40000));
            assert_eq!(req.mandate_id.as_deref(), Some("mandate_zepto_rahul"));
        }
        _ => panic!("authorize"),
    }
}

#[test]
fn the_agent_answers_on_both_paths() {
    for path in ["/agent/process", "/agent/chat"] {
        let raw = format!("POST {} HTTP/1.1\r\n\r\n{{\"prompt\": \"Order food for \u{20b9}500 from Swiggy for user_rahul\"}}", path);
        match route_request(&raw) {
            Route::AgentChat(p, u) => {
                assert_eq!(p, "Order food for \u{20b9}500 from Swiggy for user_rahul");
                assert_eq!(u, None);
            }
            _ => panic!("agent route"),
        }
    }
}

#[test]
fn an_authorization_is_answered_by_its_decision() {
    let ok = authorization_response(&decision("approved", "passed_all_checks"), "0.0", "0.0");
    assert!(ok.starts_with("HTTP/1.1 200 OK\r\nContent-Type: application/json\r\n"));
    assert!(ok.contains("Access-Control-Allow-Origin: *"));
    assert!(ok.ends_with(&decision("approved", "passed_all_checks").to_json("0.0", "0.0")));
    let no = authorization_response(&decision("denied", "max_total_exceeded"), "0.0", "0.0");
    assert!(no.starts_with("HTTP/1.1 400 Bad Request\r\n"));
    let err = authorization_response(&decision("error", "db_error"), "0.0", "0.0");
    assert!(err.starts_with("HTTP/1.1 400 Bad Request\r\n"));
}

#[test]
fn some_routes_are_answered_at_once() {
    let bad = route_request("POST /gate/authorize HTTP/1.1\r\n\r\n{\"user_id\": \"u\"}");
    let answer = immediate_response(&bad).unwrap();
    assert!(answer.starts_with("HTTP/1.1 400 Bad Request\r\n"));
    assert!(answer.ends_with("\r\n\r\n{\"error\":\"Missing user_id, merchant_id, or amount\"}"));
    let missing = immediate_response(&route_request("GET /nowhere HTTP/1.1\r\n\r\n")).unwrap();
    assert!(missing.starts_with("HTTP/1.1 404 Not Found\r\n"));
    assert!(missing.ends_with("{\"error\":\"Not Found\"}"));
    let options = immediate_response(&route_request("OPTIONS /gate/authorize HTTP/1.1\r\n\r\n")).unwrap();
    assert!(options.starts_with("HTTP/1.1 200 OK\r\nContent-Type: text/plain\r\n"));
    assert!(options.ends_with("\r\n\r\nOK"));
    assert!(immediate_response(&route_request("GET /gate/audit?limit=5 HTTP/1.1\r\n\r\n")).is_none());
}

#[test]
fn a_creation_is_answered_by_the_insert() {
    let made = creation_response("m1", &Ok(()));
    assert!(made.starts_with("HTTP/1.1 201 Created\r\n"));
    assert!(made.ends_with("{\"status\":\"success\",\"mandate_id\":\"m1\"}"));
    let failed = creation_response("m1", &Err("UNIQUE constraint failed".to_string()));
    assert!(failed.starts_with("HTTP/1.1 400 Bad Request\r\n"));
    assert!(failed.ends_with("{\"error\":\"UNIQUE constraint failed\"}"));
}
