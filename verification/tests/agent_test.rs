use mandate_gate::agent_service::{agent_reply, process_agent_request, AgentNext};
use mandate_gate::models::GateDecision;
use mandate_gate::nlu_parser::{
    amount_probes, digit_run_amount_fits, fallback_amount_paise, parse_intent_fallback, AmountProbe,
};

fn probes(text: &str) -> Vec<String> {
    amount_probes(text)
        .into_iter()
        .map(|p| match p {
            AmountProbe::Currency(t) => format!("currency:{}", t),
            AmountProbe::Word(t, c) => format!("word:{}:{}", t, c),
        })
        .collect()
}

#[test]
fn prompts_name_user_and_merchant() {
    let i = parse_intent_fallback("Order groceries for \u{20b9}400 from Zepto for user_rahul", 40000);
    assert_eq!((i.user_id.as_str(), i.merchant_id.as_str()), ("user_rahul", "zepto"));
    assert_eq!(i.amount_paise, 40000);
    assert_eq!(i.parser_used, "deterministic_regex");
    let i = parse_intent_fallback("Buy a kindle on AMAZON for Priya", 1);
    assert_eq!((i.user_id.as_str(), i.merchant_id.as_str()), ("user_priya", "amazon"));
    let i = parse_intent_fallback("Dinner from Swiggy or Zomato", 1);
    assert_eq!(i.merchant_id, "swiggy");
    let i = parse_intent_fallback("Something somewhere", 1);
    assert_eq!((i.user_id.as_str(), i.merchant_id.as_str()), ("user_rahul", "zepto"));
}

#[test]
fn amount_probes_follow_the_words() {
    assert_eq!(
        probes("order groceries for \u{20b9}400 from zepto"),
        vec![
            "word:order:false",
            "word:groceries:false",
            "word:for:false",
            "word:400:true",
            "word:from:true",
            "word:zepto:false",
        ]
    );
    assert_eq!(
        probes("spend rs500 at amazon"),
        vec!["word:spend:true", "currency:500", "word:rs500:false", "word:at:true", "word:amazon:false"]
    );
    assert_eq!(probes("pay 250 rupees."), vec!["word:pay:false", "word:250:true", "word:rupees.:false"]);
    assert!(probes("   ").is_empty());
}

#[test]
fn the_first_digit_run_is_the_last_resort() {
    assert_eq!(fallback_amount_paise("order 12 apples and 3 pears"), 1200);
    assert_eq!(fallback_amount_paise("no digits here"), 0);
    assert_eq!(fallback_amount_paise("x 99999999999999999999"), 0);
    assert!(digit_run_amount_fits("x 92233720368547758"));
    assert!(!digit_run_amount_fits("x 92233720368547759"));
}

#[test]
fn prompts_without_an_amount_are_answered_at_once() {
    let intent = parse_intent_fallback("buy something from uber", 0);
    let plan = process_agent_request(intent, Some("user_x"));
    assert_eq!(plan.intent.user_id, "user_x");
    match plan.next {
        AgentNext::Reply(msg, d) => {
            assert_eq!(msg, "I couldn't identify a valid transaction amount from your request. Please specify an amount, e.g., 'Spend \u{20b9}500 at Zepto'.");
            assert_eq!((d.decision.as_str(), d.reason.as_str()), ("error", "invalid_amount"));
            assert_eq!((d.user_id.as_str(), d.merchant_id.as_str(), d.requested_amount), ("user_x", "uber", 0));
            assert_eq!(d.message.as_deref(), Some("Invalid transaction amount in prompt."));
        }
        AgentNext::Authorize(_) => panic!("no request without an amount"),
    }
}

#[test]
fn prompts_with_an_amount_become_requests() {
    let intent = parse_intent_fallback("order 400 rupees of food from swiggy", 40000);
    let plan = process_agent_request(intent, None);
    match plan.next {
        AgentNext::Authorize(req) => {
            assert_eq!((req.user_id.as_str(), req.merchant_id.as_str(), req.amount), ("user_rahul", "swiggy", 40000));
            assert_eq!(req.mandate_id, None);
        }
        AgentNext::Reply(..) => panic!("an amount makes a request"),
    }
}

fn decision(kind: &str, reason: &str, message: Option<&str>) -> GateDecision {
    GateDecision {
        decision: kind.to_string(),
        reason: reason.to_string(),
        mandate_id: Some("mandate_zepto_01".to_string()),
        user_id: "user_rahul".to_string(),
        merchant_id: "zepto".to_string(),
        requested_amount: 40000,
        limit: None,
        already_spent: None,
        razorpay_order_id: Some("order_test_1".to_string()),
        updated_mandate: None,
        message: message.map(|s| s.to_string()),
    }
}

#[test]
fn replies_describe_the_decision() {
    let intent = parse_intent_fallback("order 400 rupees from zepto", 40000);
    assert_eq!(
        agent_reply(&intent, &decision("approved", "passed_all_checks", Some("ok"))),
        "\u{2705} **Transaction Approved by Spend-Gate**\n- Merchant: `ZEPTO`\n- Amount: `\u{20b9}400.00`\n- Mandate ID: `mandate_zepto_01`\n- Razorpay Order ID: `order_test_1`\n\nThe payment authorization passed all 8 mandate checks and the Razorpay test order has been generated."
    );
    assert_eq!(
        agent_reply(&intent, &decision("denied", "max_per_day_exceeded", None)),
        "\u{1f6ab} **Transaction Blocked by Spend-Gate**\n- Reason: `max_per_day_exceeded`\n- Merchant: `ZEPTO`\n- Requested Amount: `\u{20b9}400.00`\n- Mandate ID: `mandate_zepto_01`\n\n**Detail:** Denied"
    );
    assert_eq!(
        agent_reply(&intent, &decision("error", "db_error", Some("disk"))),
        "\u{26a0}\u{fe0f} **Gate Service Error**\n- Reason: `db_error`\n- Detail: disk"
    );
}

#[test]
fn readme_cli_prompt_reads_user_and_merchant() {
    let i = parse_intent_fallback("Order food for \u{20b9}500 from Swiggy for user_rahul", 50000);
    assert_eq!(i.user_id, "user_rahul");
    assert_eq!(i.merchant_id, "swiggy");
    assert_eq!(i.amount_paise, 50000);
}
