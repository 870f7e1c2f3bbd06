//! The shopping agent's side of the authorizer: turning a read prompt into a
//! request, and the authorizer's decision into a reply.

use vstd::prelude::*;
use crate::gate_service::{format_inr, inr_text};
use crate::models::{opt_text, AuthorizeRequest, DecisionView, GateDecision, RequestView};
use crate::nlu_parser::{IntentView, ParsedIntent};
use crate::text::{owned, push_str, to_uppercase, uppercase};

verus! {

/// What the agent does with a read prompt.
#[derive(Debug, Clone)]
pub enum AgentNext {
    /// Answer at once with this message and decision.
    Reply(String, GateDecision),
    /// Put this request to the authorizer.
    Authorize(AuthorizeRequest),
}

/// The agent's plan for a prompt: the intent it acts on (with any user
/// override applied) and what it does next.
#[derive(Debug, Clone)]
pub struct AgentPlan {
    pub intent: ParsedIntent,
    pub next: AgentNext,
}

/// The reply when the prompt gave no positive amount.
pub open spec fn invalid_amount_reply() -> Seq<char> {
    "I couldn't identify a valid transaction amount from your request. Please specify an amount, e.g., 'Spend \u{20b9}500 at Zepto'."@
}

/// The intent with the user replaced by the override, when there is one.
pub open spec fn overridden(i: IntentView, user_id_override: Option<Seq<char>>) -> IntentView {
    match user_id_override {
        Some(u) => IntentView { user_id: u, ..i },
        None => i,
    }
}

/// The decision when the prompt gave no positive amount.
pub open spec fn invalid_amount_decision(i: IntentView) -> DecisionView {
    DecisionView {
        decision: "error"@,
        reason: "invalid_amount"@,
        mandate_id: None,
        user_id: i.user_id,
        merchant_id: i.merchant_id,
        requested_amount: 0,
        limit: None,
        already_spent: None,
        razorpay_order_id: None,
        updated_mandate: None,
        message: Some("Invalid transaction amount in prompt."@),
    }
}

/// The request the agent puts to the authorizer for an intent: no mandate named,
/// so the authorizer looks up the active mandate of the user at the merchant.
pub open spec fn intent_request(i: IntentView) -> RequestView {
    RequestView {
        user_id: i.user_id,
        merchant_id: i.merchant_id,
        amount: i.amount_paise,
        mandate_id: None,
    }
}

/// Plans the agent's answer to a read prompt: with the user override
/// applied, a prompt without a positive amount is answered at once with an
/// `invalid_amount` error; any other is put to the authorizer as a request.
pub fn process_agent_request(intent: ParsedIntent, user_id_override: Option<&str>) -> (r: AgentPlan)
    ensures
        r.intent@ == overridden(
            intent@,
            match user_id_override {
                Some(u) => Some(u@),
                None => None,
            },
        ),
        r.intent@.amount_paise <= 0 ==> (r.next matches AgentNext::Reply(msg, d) && msg@
            == invalid_amount_reply() && d@ == invalid_amount_decision(r.intent@)),
        r.intent@.amount_paise > 0 ==> (r.next matches AgentNext::Authorize(req) && req@
            == intent_request(r.intent@)),
{
    let mut intent = intent;
    match user_id_override {
        Some(u) => {
            intent.user_id = owned(u);
        },
        None => {},
    }
    if intent.amount_paise <= 0 {
        let d = GateDecision {
            decision: owned("error"),
            reason: owned("invalid_amount"),
            mandate_id: None,
            user_id: intent.user_id.clone(),
            merchant_id: intent.merchant_id.clone(),
            requested_amount: 0,
            limit: None,
            already_spent: None,
            razorpay_order_id: None,
            updated_mandate: None,
            message: Some(owned("Invalid transaction amount in prompt.")),
        };
        let msg = owned(
            "I couldn't identify a valid transaction amount from your request. Please specify an amount, e.g., 'Spend \u{20b9}500 at Zepto'.",
        );
        return AgentPlan { intent: intent, next: AgentNext::Reply(msg, d) };
    }
    let req = AuthorizeRequest {
        user_id: intent.user_id.clone(),
        merchant_id: intent.merchant_id.clone(),
        amount: intent.amount_paise,
        mandate_id: None,
    };
    AgentPlan { intent: intent, next: AgentNext::Authorize(req) }
}

/// An optional text, or a default in its place.
pub open spec fn or_default(o: Option<Seq<char>>, dflt: Seq<char>) -> Seq<char> {
    match o {
        Some(t) => t,
        None => dflt,
    }
}

/// The agent's reply to the authorizer's decision on an intent.
pub open spec fn agent_reply_text(i: IntentView, d: DecisionView) -> Seq<char> {
    if d.decision == "approved"@ {
        "\u{2705} **Transaction Approved by Spend-Gate**\n- Merchant: `"@ + uppercase(i.merchant_id)
            + "`\n- Amount: `"@ + inr_text(i.amount_paise as int) + "`\n- Mandate ID: `"@
            + or_default(d.mandate_id, "none"@) + "`\n- Razorpay Order ID: `"@ + or_default(
            d.razorpay_order_id,
            "none"@,
        )
            + "`\n\nThe payment authorization passed all 8 mandate checks and the Razorpay test order has been generated."@
    } else if d.decision == "denied"@ {
        "\u{1f6ab} **Transaction Blocked by Spend-Gate**\n- Reason: `"@ + d.reason
            + "`\n- Merchant: `"@ + uppercase(i.merchant_id) + "`\n- Requested Amount: `"@
            + inr_text(i.amount_paise as int) + "`\n- Mandate ID: `"@ + or_default(
            d.mandate_id,
            "none"@,
        ) + "`\n\n**Detail:** "@ + or_default(d.message, "Denied"@)
    } else {
        "\u{26a0}\u{fe0f} **Gate Service Error**\n- Reason: `"@ + d.reason + "`\n- Detail: "@
            + or_default(d.message, "Error"@)
    }
}

fn push_or_default(out: &mut String, o: &Option<String>, dflt: &str)
    ensures
        final(out)@ == old(out)@ + or_default(opt_text(*o), dflt@),
{
    match o {
        Some(t) => push_str(out, t.as_str()),
        None => push_str(out, dflt),
    }
}

/// The agent's reply to the authorizer's decision on an intent: an approval
/// names the merchant (upper-cased), amount, mandate and order; a denial the
/// reason, merchant, amount, mandate and detail; anything else the reason
/// and detail of the error.
pub fn agent_reply(intent: &ParsedIntent, decision: &GateDecision) -> (r: String)
    ensures
        r@ == agent_reply_text(intent@, decision@),
{
    let mut out = String::new();
    if decision.decision == owned("approved") {
        push_str(&mut out, "\u{2705} **Transaction Approved by Spend-Gate**\n- Merchant: `");
        let up = to_uppercase(intent.merchant_id.as_str());
        push_str(&mut out, up.as_str());
        push_str(&mut out, "`\n- Amount: `");
        let amount = format_inr(intent.amount_paise);
        push_str(&mut out, amount.as_str());
        push_str(&mut out, "`\n- Mandate ID: `");
        push_or_default(&mut out, &decision.mandate_id, "none");
        push_str(&mut out, "`\n- Razorpay Order ID: `");
        push_or_default(&mut out, &decision.razorpay_order_id, "none");
        push_str(
            &mut out,
            "`\n\nThe payment authorization passed all 8 mandate checks and the Razorpay test order has been generated.",
        );
    } else if decision.decision == owned("denied") {
        push_str(&mut out, "\u{1f6ab} **Transaction Blocked by Spend-Gate**\n- Reason: `");
        push_str(&mut out, decision.reason.as_str());
        push_str(&mut out, "`\n- Merchant: `");
        let up = to_uppercase(intent.merchant_id.as_str());
        push_str(&mut out, up.as_str());
        push_str(&mut out, "`\n- Requested Amount: `");
        let amount = format_inr(intent.amount_paise);
        push_str(&mut out, amount.as_str());
        push_str(&mut out, "`\n- Mandate ID: `");
        push_or_default(&mut out, &decision.mandate_id, "none");
        push_str(&mut out, "`\n\n**Detail:** ");
        push_or_default(&mut out, &decision.message, "Denied");
    } else {
        push_str(&mut out, "\u{26a0}\u{fe0f} **Gate Service Error**\n- Reason: `");
        push_str(&mut out, decision.reason.as_str());
        push_str(&mut out, "`\n- Detail: ");
        push_or_default(&mut out, &decision.message, "Error");
    }
    out
}

} // verus!
