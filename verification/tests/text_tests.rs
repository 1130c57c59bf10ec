use ai_agent::describe::{describe_action, describe_error, describe_personality, describe_stage};
use ai_agent::digest::inference_key_of;
use ai_agent::identity::{generate_agent_id, generate_agent_wallet, has_prefix_boundary};
use ai_agent::order::bytes_less;
use ai_agent::rules::{
    advance_stage, shape_personality, shaping_would_overflow, stage_cost, validate_personality,
};
use ai_agent::text::{decimal_string, hex_string};
use ai_agent::types::{ActionType, ContractError, EvolutionStage, Personality, StoredKind};

fn personality(g: u8, f: u8, c: u8, a: u8, r: u8) -> Personality {
    Personality { greed: g, fear: f, cooperation: c, aggression: a, risk_tolerance: r }
}

#[test]
fn decimal_rendering() {
    assert_eq!(decimal_string(0), "0");
    assert_eq!(decimal_string(7), "7");
    assert_eq!(decimal_string(10), "10");
    assert_eq!(decimal_string(1234567890), "1234567890");
    assert_eq!(decimal_string(u128::MAX), "340282366920938463463374607431768211455");
}

#[test]
fn hex_rendering() {
    assert_eq!(hex_string(&[]), "");
    assert_eq!(hex_string(&[0x0f, 0xa0, 0x00, 0xff]), "0fa000ff");
}

#[test]
fn inference_key_is_lower_hex_sha256() {
    assert_eq!(
        inference_key_of("abc"),
        "ba7816bf8f01cfea414140de5dae2223b00361a396177a9cb410ff61f20015ad"
    );
    assert_eq!(
        inference_key_of(""),
        "e3b0c44298fc1c149afbf4c8996fb92427ae41e4649b934ca495991b7852b855"
    );
}

#[test]
fn agent_id_uses_height_and_first_eight_bytes() {
    let creator = String::from("inj1qwertyuiopasdf");
    assert_eq!(generate_agent_id(&creator, 42), "AI-42-inj1qwer");
    let exact = String::from("abcdefgh");
    assert_eq!(generate_agent_id(&exact, 0), "AI-0-abcdefgh");
    // two-byte characters: four of them make the eight bytes
    let wide = String::from("ééééxyz");
    assert_eq!(generate_agent_id(&wide, 7), "AI-7-éééé");
}

#[test]
fn agent_wallet_is_lowercased_id() {
    assert_eq!(generate_agent_wallet("AI-42-inj1QWER"), "inj1ai-42-inj1qwer");
    assert_eq!(generate_agent_wallet("AI-1-ÀBC"), "inj1ai-1-àbc");
    assert_eq!(generate_agent_wallet(""), "inj1");
}

#[test]
fn personality_validation() {
    assert_eq!(validate_personality(&personality(0, 0, 0, 0, 0)), Ok(()));
    assert_eq!(validate_personality(&personality(100, 100, 100, 100, 100)), Ok(()));
    assert_eq!(
        validate_personality(&personality(101, 0, 0, 0, 0)),
        Err(ContractError::InvalidPersonality)
    );
    assert_eq!(
        validate_personality(&personality(0, 0, 0, 0, 255)),
        Err(ContractError::InvalidPersonality)
    );
}

#[test]
fn actions_shape_personality() {
    let p = personality(50, 50, 50, 50, 50);
    let buy = ActionType::Trade { market: "m".into(), side: "buy".into(), amount: 1, price: 1 };
    let sell = ActionType::Trade { market: "m".into(), side: "sell".into(), amount: 1, price: 1 };
    let attack = ActionType::Attack { target: "t".into(), damage: 3 };
    let ally = ActionType::Alliance { partner: "p".into(), terms: "t".into() };
    let vote = ActionType::Governance { proposal_id: 1, vote: true };
    assert_eq!(shape_personality(p, &buy), personality(52, 50, 50, 50, 50));
    assert_eq!(shape_personality(p, &sell), personality(50, 51, 50, 50, 50));
    assert_eq!(shape_personality(p, &attack), personality(50, 50, 48, 53, 50));
    assert_eq!(shape_personality(p, &ally), personality(50, 50, 55, 50, 50));
    assert_eq!(shape_personality(p, &vote), p);
    // raised traits stop at 100, lowered ones at 0
    let edge = personality(99, 100, 1, 98, 0);
    assert_eq!(shape_personality(edge, &buy), personality(100, 100, 1, 98, 0));
    assert_eq!(shape_personality(edge, &sell), personality(99, 100, 1, 98, 0));
    assert_eq!(shape_personality(edge, &attack), personality(99, 100, 0, 100, 0));
    assert_eq!(shape_personality(personality(0, 0, 97, 0, 0), &ally), personality(0, 0, 100, 0, 0));
}

#[test]
fn shaping_overflow_detection() {
    let buy = ActionType::Trade { market: "m".into(), side: "buy".into(), amount: 1, price: 1 };
    assert!(!shaping_would_overflow(personality(253, 0, 0, 0, 0), &buy));
    assert!(shaping_would_overflow(personality(254, 0, 0, 0, 0), &buy));
    let ally = ActionType::Alliance { partner: "p".into(), terms: "t".into() };
    assert!(shaping_would_overflow(personality(0, 0, 251, 0, 0), &ally));
    assert!(!shaping_would_overflow(personality(100, 100, 100, 100, 100), &ally));
}

#[test]
fn traits_stay_in_range_over_many_actions() {
    let actions = vec![
        ActionType::Trade { market: "m".into(), side: "buy".into(), amount: 1, price: 1 },
        ActionType::Trade { market: "m".into(), side: "sell".into(), amount: 1, price: 1 },
        ActionType::Attack { target: "t".into(), damage: 3 },
        ActionType::Alliance { partner: "p".into(), terms: "t".into() },
    ];
    let mut p = personality(95, 99, 3, 98, 100);
    for round in 0..50 {
        let a = &actions[round % actions.len()];
        assert!(!shaping_would_overflow(p, a));
        p = shape_personality(p, a);
        assert_eq!(validate_personality(&p), Ok(()));
    }
}

#[test]
fn evolution_costs_and_order() {
    assert_eq!(stage_cost(EvolutionStage::Seed), Some(100));
    assert_eq!(stage_cost(EvolutionStage::Awakened), Some(1000));
    assert_eq!(stage_cost(EvolutionStage::Autonomous), Some(10000));
    assert_eq!(stage_cost(EvolutionStage::Singularity), None);
    assert_eq!(advance_stage(EvolutionStage::Seed), EvolutionStage::Awakened);
    assert_eq!(advance_stage(EvolutionStage::Awakened), EvolutionStage::Autonomous);
    assert_eq!(advance_stage(EvolutionStage::Autonomous), EvolutionStage::Singularity);
    assert_eq!(advance_stage(EvolutionStage::Singularity), EvolutionStage::Singularity);
}

#[test]
fn renderings_of_values() {
    assert_eq!(
        describe_personality(&personality(1, 2, 3, 4, 5)),
        "Personality { greed: 1, fear: 2, cooperation: 3, aggression: 4, risk_tolerance: 5 }"
    );
    assert_eq!(describe_stage(EvolutionStage::Autonomous), "Autonomous");
    assert_eq!(
        describe_action(&ActionType::Trade {
            market: "INJ/USDT".into(),
            side: "buy".into(),
            amount: 5,
            price: 12
        }),
        "Trade { market: \"INJ/USDT\", side: \"buy\", amount: Uint128(5), price: Uint128(12) }"
    );
    assert_eq!(
        describe_action(&ActionType::Alliance { partner: "bob".into(), terms: "say \"hi\"\n".into() }),
        "Alliance { partner: \"bob\", terms: \"say \\\"hi\\\"\\n\" }"
    );
    assert_eq!(
        describe_action(&ActionType::Attack { target: "x".into(), damage: 9 }),
        "Attack { target: \"x\", damage: 9 }"
    );
    assert_eq!(
        describe_action(&ActionType::Hire { target: "y".into(), fee: 3 }),
        "Hire { target: \"y\", fee: Uint128(3) }"
    );
    assert_eq!(
        describe_action(&ActionType::MintAsset { name: "gem".into(), supply: 1000 }),
        "MintAsset { name: \"gem\", supply: Uint128(1000) }"
    );
    assert_eq!(
        describe_action(&ActionType::Governance { proposal_id: 4, vote: false }),
        "Governance { proposal_id: 4, vote: false }"
    );
    let a = ActionType::Alliance { partner: "bob".into(), terms: "t".into() };
    assert_eq!(describe_action(&a), format!("{:?}", a));
}

#[test]
fn error_messages() {
    assert_eq!(describe_error(&ContractError::InvalidPersonality), "Personality values must be 0-100");
    assert_eq!(describe_error(&ContractError::InsufficientInitialFunds), "Insufficient initial funds");
    assert_eq!(describe_error(&ContractError::NotAuthorizedAgent), "Not authorized as AI agent");
    assert_eq!(
        describe_error(&ContractError::InferenceMismatch),
        "Inference output mismatch with action"
    );
    assert_eq!(describe_error(&ContractError::AlreadyAtSingularity), "Already at singularity");
    assert_eq!(
        describe_error(&ContractError::InsufficientBalance),
        "Insufficient balance for evolution"
    );
    assert_eq!(describe_error(&ContractError::UnauthorizedOracle), "Unauthorized oracle");
    assert_eq!(describe_error(&ContractError::NotFound(StoredKind::Agent)), "AIAgent not found");
    assert_eq!(describe_error(&ContractError::Rejected("too poor".into())), "too poor");
}

#[test]
fn byte_order_of_keys() {
    assert!(bytes_less(b"", b"a"));
    assert!(!bytes_less(b"a", b""));
    assert!(bytes_less(b"ab", b"abc"));
    assert!(bytes_less(b"AI-10", b"AI-9"));
    assert!(!bytes_less(b"abc", b"abc"));
    assert!(bytes_less(b"Z", b"a"));
}

#[test]
fn address_prefix_boundary() {
    assert!(has_prefix_boundary(&"inj1qwertyuiop".to_string()));
    assert!(has_prefix_boundary(&"abcdefgh".to_string()));
    assert!(!has_prefix_boundary(&"short".to_string()));
    assert!(!has_prefix_boundary(&"abcdefgé".to_string()));
    assert!(has_prefix_boundary(&"ééééx".to_string()));
}
