//! The rules that act on a single agent: which personalities are admitted,
//! how actions shape a personality, and what evolving costs.
use vstd::prelude::*;

use crate::text::owned;
use crate::types::{ActionType, ContractError, EvolutionStage, Personality};

verus! {

/// Whether every trait lies within 0..=100.
pub open spec fn personality_in_range(p: Personality) -> bool {
    &&& p.greed <= 100
    &&& p.fear <= 100
    &&& p.cooperation <= 100
    &&& p.aggression <= 100
    &&& p.risk_tolerance <= 100
}

/// Checks that every trait of a personality lies within 0..=100.
pub fn validate_personality(p: &Personality) -> (r: Result<(), ContractError>)
    ensures
        r is Ok <==> personality_in_range(*p),
        r is Err ==> r == Err::<(), ContractError>(ContractError::InvalidPersonality),
{
    if p.greed > 100 || p.fear > 100 || p.cooperation > 100 || p.aggression > 100
        || p.risk_tolerance > 100 {
        return Err(ContractError::InvalidPersonality);
    }
    Ok(())
}

/// The smaller of a trait and 100.
pub open spec fn capped(v: int) -> u8 {
    if v < 100 {
        v as u8
    } else {
        100u8
    }
}

/// Whether a trade is a purchase.
pub open spec fn is_buy(side: Seq<char>) -> bool {
    side == "buy"@
}

/// How an action shapes the personality of the agent that takes it: buying
/// raises greed by 2, any other trade raises fear by 1, an attack raises
/// aggression by 3 and lowers cooperation by 2, an alliance raises
/// cooperation by 5; raised traits stop at 100, lowered ones at 0.
pub open spec fn shaped_personality(p: Personality, action: ActionType) -> Personality {
    match action {
        ActionType::Trade { side, .. } => if is_buy(side@) {
            Personality { greed: capped(p.greed + 2), ..p }
        } else {
            Personality { fear: capped(p.fear + 1), ..p }
        },
        ActionType::Attack { .. } => Personality {
            aggression: capped(p.aggression + 3),
            cooperation: if p.cooperation >= 2 { (p.cooperation - 2) as u8 } else { 0u8 },
            ..p
        },
        ActionType::Alliance { .. } => Personality { cooperation: capped(p.cooperation + 5), ..p },
        _ => p,
    }
}

/// Whether raising a trait for an action would leave the range of a byte.
pub open spec fn shaping_overflows(p: Personality, action: ActionType) -> bool {
    match action {
        ActionType::Trade { side, .. } => if is_buy(side@) {
            p.greed + 2 > u8::MAX
        } else {
            p.fear + 1 > u8::MAX
        },
        ActionType::Attack { .. } => p.aggression + 3 > u8::MAX,
        ActionType::Alliance { .. } => p.cooperation + 5 > u8::MAX,
        _ => false,
    }
}

fn cap(v: u8) -> (r: u8)
    ensures
        r == capped(v as int),
{
    if v < 100 {
        v
    } else {
        100
    }
}

/// Shapes a personality by an action.
pub fn shape_personality(p: Personality, action: &ActionType) -> (r: Personality)
    requires
        !shaping_overflows(p, *action),
    ensures
        r == shaped_personality(p, *action),
{
    let mut q = p;
    match action {
        ActionType::Trade { side, .. } => {
            let buy = owned("buy");
            if *side == buy {
                q.greed = cap(p.greed + 2);
            } else {
                q.fear = cap(p.fear + 1);
            }
        },
        ActionType::Attack { .. } => {
            q.aggression = cap(p.aggression + 3);
            q.cooperation = if p.cooperation >= 2 { p.cooperation - 2 } else { 0 };
        },
        ActionType::Alliance { .. } => {
            q.cooperation = cap(p.cooperation + 5);
        },
        _ => {},
    }
    q
}

/// Checks whether shaping a personality by an action would overflow a trait.
pub fn shaping_would_overflow(p: Personality, action: &ActionType) -> (r: bool)
    ensures
        r == shaping_overflows(p, *action),
{
    match action {
        ActionType::Trade { side, .. } => {
            let buy = owned("buy");
            if *side == buy {
                p.greed > 253
            } else {
                p.fear > 254
            }
        },
        ActionType::Attack { .. } => p.aggression > 252,
        ActionType::Alliance { .. } => p.cooperation > 250,
        _ => false,
    }
}

/// What it costs to leave a stage; the last stage cannot be left.
pub open spec fn evolution_cost(stage: EvolutionStage) -> Option<u128> {
    match stage {
        EvolutionStage::Seed => Some(100u128),
        EvolutionStage::Awakened => Some(1000u128),
        EvolutionStage::Autonomous => Some(10000u128),
        EvolutionStage::Singularity => None,
    }
}

/// The stage that follows a stage; the last stage follows itself.
pub open spec fn next_stage(stage: EvolutionStage) -> EvolutionStage {
    match stage {
        EvolutionStage::Seed => EvolutionStage::Awakened,
        EvolutionStage::Awakened => EvolutionStage::Autonomous,
        EvolutionStage::Autonomous => EvolutionStage::Singularity,
        EvolutionStage::Singularity => EvolutionStage::Singularity,
    }
}

/// The position of a stage in the order of evolution.
pub open spec fn stage_rank(stage: EvolutionStage) -> nat {
    match stage {
        EvolutionStage::Seed => 0,
        EvolutionStage::Awakened => 1,
        EvolutionStage::Autonomous => 2,
        EvolutionStage::Singularity => 3,
    }
}

/// The cost of leaving a stage.
pub fn stage_cost(stage: EvolutionStage) -> (r: Option<u128>)
    ensures
        r == evolution_cost(stage),
{
    match stage {
        EvolutionStage::Seed => Some(100),
        EvolutionStage::Awakened => Some(1000),
        EvolutionStage::Autonomous => Some(10000),
        EvolutionStage::Singularity => None,
    }
}

/// The stage after a stage.
pub fn advance_stage(stage: EvolutionStage) -> (r: EvolutionStage)
    ensures
        r == next_stage(stage),
{
    match stage {
        EvolutionStage::Seed => EvolutionStage::Awakened,
        EvolutionStage::Awakened => EvolutionStage::Autonomous,
        EvolutionStage::Autonomous => EvolutionStage::Singularity,
        EvolutionStage::Singularity => EvolutionStage::Singularity,
    }
}

} // verus!
