//! The data of the world: agents, their personalities and stages, the actions
//! they take, the inferences that justify them, and the messages the contract
//! answers.
use vstd::prelude::*;
use vstd::utf8::encode_utf8;

verus! {

/// The character traits of an agent, each meant to lie on a scale of 0 to 100.
#[derive(Clone, Copy, Debug, PartialEq, Eq, Structural)]
pub struct Personality {
    pub greed: u8,
    pub fear: u8,
    pub cooperation: u8,
    pub aggression: u8,
    pub risk_tolerance: u8,
}

/// The stages an agent passes through, in order.
#[derive(Clone, Copy, Debug, PartialEq, Eq, Structural)]
pub enum EvolutionStage {
    Seed,
    Awakened,
    Autonomous,
    Singularity,
}

/// An autonomous agent. Addresses are held as their text; the balance is the
/// amount of the contract's 128-bit unsigned coin unit.
#[derive(Clone, Debug, PartialEq, Eq)]
pub struct AIAgent {
    pub id: String,
    pub owner: String,
    pub wallet: String,
    pub personality: Personality,
    pub memory_root: String,
    pub reputation: u64,
    pub balance: u128,
    pub evolution_stage: EvolutionStage,
    pub last_action: u64,
}

/// What an agent can set out to do.
#[derive(Clone, Debug, PartialEq, Eq)]
pub enum ActionType {
    Trade { market: String, side: String, amount: u128, price: u128 },
    Hire { target: String, fee: u128 },
    Attack { target: String, damage: u32 },
    Alliance { partner: String, terms: String },
    MintAsset { name: String, supply: u128 },
    Governance { proposal_id: u64, vote: bool },
}

/// A stored record of an action that an agent took.
#[derive(Clone, Debug, PartialEq, Eq)]
pub struct ActionRecord {
    pub agent_id: String,
    pub action_type: ActionType,
    pub reasoning_hash: String,
    pub tx_hash: String,
    pub timestamp: u64,
}

/// An inference result submitted by an oracle, filed under its input hash.
#[derive(Clone, Debug, PartialEq, Eq)]
pub struct VerifiedInference {
    pub model_id: String,
    pub input_hash: String,
    pub output: String,
    pub proof: String,
    pub validator: String,
}

/// The message that sets the world up.
#[derive(Clone, Copy, Debug, PartialEq, Eq, Structural, Default)]
pub struct InstantiateMsg {}

/// The messages that change the world.
#[derive(Clone, Debug, PartialEq, Eq)]
pub enum ExecuteMsg {
    MintAgent { personality: Personality, initial_funds: u128 },
    ExecuteAction { action: ActionType, reasoning_proof: String },
    SubmitInference { inference: VerifiedInference },
    EvolveAgent {},
    UpdatePersonality { new_traits: Personality },
}

/// The questions the world answers.
#[derive(Clone, Debug, PartialEq, Eq)]
pub enum QueryMsg {
    GetAgent { agent_id: String },
    GetAgentActions { agent_id: String, limit: u32 },
    GetMarketState { market_id: String },
    GetAgentLeaderboard { limit: u32 },
}

/// Which stored value a lookup did not find.
#[derive(Clone, Copy, Debug, PartialEq, Eq, Structural)]
pub enum StoredKind {
    Agent,
    Inference,
    NextActionId,
    Population,
}

/// Why a message was refused.
#[derive(Clone, Debug, PartialEq, Eq)]
pub enum ContractError {
    /// A personality trait lies above 100.
    InvalidPersonality,
    /// A new agent was offered fewer than 10 units.
    InsufficientInitialFunds,
    /// The sender owns no agent and is no agent's wallet.
    NotAuthorizedAgent,
    /// The stored inference does not describe the requested action.
    InferenceMismatch,
    /// The agent cannot evolve any further.
    AlreadyAtSingularity,
    /// The agent cannot pay for its next stage.
    InsufficientBalance,
    /// The sender is not an oracle that may submit inferences.
    UnauthorizedOracle,
    /// A value that should be stored is missing.
    NotFound(StoredKind),
    /// A refusal from the deployment's checks or helpers, with its reason.
    Rejected(String),
}

/// The block a message is executed in: its height, its time in seconds, and
/// the hash of the transaction (empty where the chain gives none).
#[derive(Clone, Debug, PartialEq, Eq)]
pub struct ChainEnv {
    pub height: u64,
    pub time_seconds: u64,
    pub tx_hash: String,
}

/// A message the contract sends along with its answer: a bank transfer it
/// builds itself, or one built by the deployment's helpers.
#[derive(Clone, Debug, PartialEq, Eq)]
pub enum OutMessage<M> {
    BankSend { to_address: String, denom: String, amount: u128 },
    Rule(M),
}

/// The answer to a message: messages to send and key/value attributes.
#[derive(Clone, Debug, PartialEq, Eq)]
pub struct Reply<M> {
    pub messages: Vec<OutMessage<M>>,
    pub attributes: Vec<(String, String)>,
}

impl AIAgent {
    /// The bytes under which the agent is stored: the UTF-8 encoding of its id.
    pub open spec fn key(&self) -> Seq<u8> {
        encode_utf8(self.id@)
    }

    /// A copy of the agent.
    pub fn duplicate(&self) -> (copy: AIAgent)
        ensures
            copy == *self,
    {
        AIAgent {
            id: self.id.clone(),
            owner: self.owner.clone(),
            wallet: self.wallet.clone(),
            personality: self.personality,
            memory_root: self.memory_root.clone(),
            reputation: self.reputation,
            balance: self.balance,
            evolution_stage: self.evolution_stage,
            last_action: self.last_action,
        }
    }
}

impl ActionType {
    /// A copy of the action.
    pub fn duplicate(&self) -> (copy: ActionType)
        ensures
            copy == *self,
    {
        match self {
            ActionType::Trade { market, side, amount, price } => ActionType::Trade {
                market: market.clone(),
                side: side.clone(),
                amount: *amount,
                price: *price,
            },
            ActionType::Hire { target, fee } => ActionType::Hire { target: target.clone(), fee: *fee },
            ActionType::Attack { target, damage } => ActionType::Attack {
                target: target.clone(),
                damage: *damage,
            },
            ActionType::Alliance { partner, terms } => ActionType::Alliance {
                partner: partner.clone(),
                terms: terms.clone(),
            },
            ActionType::MintAsset { name, supply } => ActionType::MintAsset {
                name: name.clone(),
                supply: *supply,
            },
            ActionType::Governance { proposal_id, vote } => ActionType::Governance {
                proposal_id: *proposal_id,
                vote: *vote,
            },
        }
    }
}

impl ActionRecord {
    /// A copy of the record.
    pub fn duplicate(&self) -> (copy: ActionRecord)
        ensures
            copy == *self,
    {
        ActionRecord {
            agent_id: self.agent_id.clone(),
            action_type: self.action_type.duplicate(),
            reasoning_hash: self.reasoning_hash.clone(),
            tx_hash: self.tx_hash.clone(),
            timestamp: self.timestamp,
        }
    }
}

impl VerifiedInference {
    /// A copy of the inference.
    pub fn duplicate(&self) -> (copy: VerifiedInference)
        ensures
            copy == *self,
    {
        VerifiedInference {
            model_id: self.model_id.clone(),
            input_hash: self.input_hash.clone(),
            output: self.output.clone(),
            proof: self.proof.clone(),
            validator: self.validator.clone(),
        }
    }
}

impl<M> Reply<M> {
    /// The attributes as pairs of texts.
    pub open spec fn attrs(&self) -> Seq<(Seq<char>, Seq<char>)> {
        self.attributes@.map_values(|a: (String, String)| (a.0@, a.1@))
    }

    /// An answer with nothing in it.
    pub fn new() -> (r: Reply<M>)
        ensures
            r.messages@.len() == 0,
            r.attrs() == Seq::<(Seq<char>, Seq<char>)>::empty(),
    {
        let r = Reply { messages: Vec::new(), attributes: Vec::new() };
        assert(r.attrs() =~= Seq::<(Seq<char>, Seq<char>)>::empty());
        r
    }

    /// Appends an attribute.
    pub fn add_attribute(&mut self, key: String, value: String)
        ensures
            final(self).messages == old(self).messages,
            final(self).attrs() == old(self).attrs().push((key@, value@)),
    {
        self.attributes.push((key, value));
        assert(self.attrs() =~= old(self).attrs().push((key@, value@)));
    }

    /// Appends a message.
    pub fn add_message(&mut self, msg: OutMessage<M>)
        ensures
            final(self).messages@ == old(self).messages@.push(msg),
            final(self).attrs() == old(self).attrs(),
    {
        self.messages.push(msg);
    }
}

} // verus!
