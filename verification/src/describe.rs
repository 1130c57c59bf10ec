//! The texts by which the contract reports agents, stages and actions in its
//! answers: the `Debug` renderings of those values.
use vstd::prelude::*;

use crate::text::{debug_quoted, debug_str, decimal, owned, push_decimal, push_str};
use crate::types::{ActionType, ContractError, EvolutionStage, Personality, StoredKind};

verus! {

/// The rendering of a personality.
pub open spec fn personality_text(p: Personality) -> Seq<char> {
    "Personality { greed: "@ + decimal(p.greed as nat) + ", fear: "@ + decimal(p.fear as nat)
        + ", cooperation: "@ + decimal(p.cooperation as nat) + ", aggression: "@ + decimal(
        p.aggression as nat,
    ) + ", risk_tolerance: "@ + decimal(p.risk_tolerance as nat) + " }"@
}

/// The name of a stage.
pub open spec fn stage_text(stage: EvolutionStage) -> Seq<char> {
    match stage {
        EvolutionStage::Seed => "Seed"@,
        EvolutionStage::Awakened => "Awakened"@,
        EvolutionStage::Autonomous => "Autonomous"@,
        EvolutionStage::Singularity => "Singularity"@,
    }
}

/// The rendering of an amount of the 128-bit coin unit.
pub open spec fn amount_text(n: u128) -> Seq<char> {
    "Uint128("@ + decimal(n as nat) + ")"@
}

/// The rendering of a truth value.
pub open spec fn bool_text(b: bool) -> Seq<char> {
    if b {
        "true"@
    } else {
        "false"@
    }
}

/// The rendering of an action.
pub open spec fn action_text(a: ActionType) -> Seq<char> {
    match a {
        ActionType::Trade { market, side, amount, price } => "Trade { market: "@ + debug_quoted(
            market@,
        ) + ", side: "@ + debug_quoted(side@) + ", amount: "@ + amount_text(amount)
            + ", price: "@ + amount_text(price) + " }"@,
        ActionType::Hire { target, fee } => "Hire { target: "@ + debug_quoted(target@)
            + ", fee: "@ + amount_text(fee) + " }"@,
        ActionType::Attack { target, damage } => "Attack { target: "@ + debug_quoted(target@)
            + ", damage: "@ + decimal(damage as nat) + " }"@,
        ActionType::Alliance { partner, terms } => "Alliance { partner: "@ + debug_quoted(
            partner@,
        ) + ", terms: "@ + debug_quoted(terms@) + " }"@,
        ActionType::MintAsset { name, supply } => "MintAsset { name: "@ + debug_quoted(name@)
            + ", supply: "@ + amount_text(supply) + " }"@,
        ActionType::Governance { proposal_id, vote } => "Governance { proposal_id: "@ + decimal(
            proposal_id as nat,
        ) + ", vote: "@ + bool_text(vote) + " }"@,
    }
}

/// Renders a personality.
pub fn describe_personality(p: &Personality) -> (s: String)
    ensures
        s@ == personality_text(*p),
{
    let mut s = owned("Personality { greed: ");
    push_decimal(&mut s, p.greed as u128);
    push_str(&mut s, ", fear: ");
    push_decimal(&mut s, p.fear as u128);
    push_str(&mut s, ", cooperation: ");
    push_decimal(&mut s, p.cooperation as u128);
    push_str(&mut s, ", aggression: ");
    push_decimal(&mut s, p.aggression as u128);
    push_str(&mut s, ", risk_tolerance: ");
    push_decimal(&mut s, p.risk_tolerance as u128);
    push_str(&mut s, " }");
    assert(s@ =~= personality_text(*p));
    s
}

/// Names a stage.
pub fn describe_stage(stage: EvolutionStage) -> (s: String)
    ensures
        s@ == stage_text(stage),
{
    match stage {
        EvolutionStage::Seed => owned("Seed"),
        EvolutionStage::Awakened => owned("Awakened"),
        EvolutionStage::Autonomous => owned("Autonomous"),
        EvolutionStage::Singularity => owned("Singularity"),
    }
}

fn push_amount(s: &mut String, n: u128)
    ensures
        final(s)@ == old(s)@ + amount_text(n),
{
    push_str(s, "Uint128(");
    push_decimal(s, n);
    push_str(s, ")");
    assert(final(s)@ =~= old(s)@ + amount_text(n));
}

fn push_quoted(s: &mut String, text: &String)
    ensures
        final(s)@ == old(s)@ + debug_quoted(text@),
{
    let q = debug_str(text.as_str());
    push_str(s, q.as_str());
}

/// Renders an action.
pub fn describe_action(a: &ActionType) -> (s: String)
    ensures
        s@ == action_text(*a),
{
    match a {
        ActionType::Trade { market, side, amount, price } => {
            let mut s = owned("Trade { market: ");
            push_quoted(&mut s, market);
            push_str(&mut s, ", side: ");
            push_quoted(&mut s, side);
            push_str(&mut s, ", amount: ");
            push_amount(&mut s, *amount);
            push_str(&mut s, ", price: ");
            push_amount(&mut s, *price);
            push_str(&mut s, " }");
            assert(s@ =~= action_text(*a));
            s
        },
        ActionType::Hire { target, fee } => {
            let mut s = owned("Hire { target: ");
            push_quoted(&mut s, target);
            push_str(&mut s, ", fee: ");
            push_amount(&mut s, *fee);
            push_str(&mut s, " }");
            assert(s@ =~= action_text(*a));
            s
        },
        ActionType::Attack { target, damage } => {
            let mut s = owned("Attack { target: ");
            push_quoted(&mut s, target);
            push_str(&mut s, ", damage: ");
            push_decimal(&mut s, *damage as u128);
            push_str(&mut s, " }");
            assert(s@ =~= action_text(*a));
            s
        },
        ActionType::Alliance { partner, terms } => {
            let mut s = owned("Alliance { partner: ");
            push_quoted(&mut s, partner);
            push_str(&mut s, ", terms: ");
            push_quoted(&mut s, terms);
            push_str(&mut s, " }");
            assert(s@ =~= action_text(*a));
            s
        },
        ActionType::MintAsset { name, supply } => {
            let mut s = owned("MintAsset { name: ");
            push_quoted(&mut s, name);
            push_str(&mut s, ", supply: ");
            push_amount(&mut s, *supply);
            push_str(&mut s, " }");
            assert(s@ =~= action_text(*a));
            s
        },
        ActionType::Governance { proposal_id, vote } => {
            let mut s = owned("Governance { proposal_id: ");
            push_decimal(&mut s, *proposal_id as u128);
            push_str(&mut s, ", vote: ");
            if *vote {
                push_str(&mut s, "true");
            } else {
                push_str(&mut s, "false");
            }
            push_str(&mut s, " }");
            assert(s@ =~= action_text(*a));
            s
        },
    }
}

/// The name of a kind of stored value.
pub open spec fn stored_kind_text(kind: StoredKind) -> Seq<char> {
    match kind {
        StoredKind::Agent => "AIAgent"@,
        StoredKind::Inference => "VerifiedInference"@,
        StoredKind::NextActionId => "next_action_id"@,
        StoredKind::Population => "ai_population"@,
    }
}

/// The message that explains a refusal.
pub open spec fn error_text(e: ContractError) -> Seq<char> {
    match e {
        ContractError::InvalidPersonality => "Personality values must be 0-100"@,
        ContractError::InsufficientInitialFunds => "Insufficient initial funds"@,
        ContractError::NotAuthorizedAgent => "Not authorized as AI agent"@,
        ContractError::InferenceMismatch => "Inference output mismatch with action"@,
        ContractError::AlreadyAtSingularity => "Already at singularity"@,
        ContractError::InsufficientBalance => "Insufficient balance for evolution"@,
        ContractError::UnauthorizedOracle => "Unauthorized oracle"@,
        ContractError::NotFound(kind) => stored_kind_text(kind) + " not found"@,
        ContractError::Rejected(reason) => reason@,
    }
}

/// Explains a refusal.
pub fn describe_error(e: &ContractError) -> (s: String)
    ensures
        s@ == error_text(*e),
{
    match e {
        ContractError::InvalidPersonality => owned("Personality values must be 0-100"),
        ContractError::InsufficientInitialFunds => owned("Insufficient initial funds"),
        ContractError::NotAuthorizedAgent => owned("Not authorized as AI agent"),
        ContractError::InferenceMismatch => owned("Inference output mismatch with action"),
        ContractError::AlreadyAtSingularity => owned("Already at singularity"),
        ContractError::InsufficientBalance => owned("Insufficient balance for evolution"),
        ContractError::UnauthorizedOracle => owned("Unauthorized oracle"),
        ContractError::NotFound(kind) => {
            let mut s = match kind {
                StoredKind::Agent => owned("AIAgent"),
                StoredKind::Inference => owned("VerifiedInference"),
                StoredKind::NextActionId => owned("next_action_id"),
                StoredKind::Population => owned("ai_population"),
            };
            push_str(&mut s, " not found");
            s
        },
        ContractError::Rejected(reason) => reason.clone(),
    }
}

} // verus!
