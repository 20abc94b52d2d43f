//! Strategies and the payoff table.

use vstd::prelude::*;

verus! {

/// Health delta when a Greedy agent resolves a contact with a Greedy opponent.
pub const GREEDGREED_HEALTH_GAIN: i64 = -1;

/// Health delta when a Greedy agent resolves a contact with a Cooperative opponent.
pub const GREEDCOOP_HEALTH_GAIN: i64 = 3;

/// Health delta when a Cooperative agent resolves a contact with a Greedy opponent.
pub const COOPGREED_HEALTH_GAIN: i64 = -2;

/// Health delta when a Cooperative agent resolves a contact with a Cooperative opponent.
pub const COOPCOOP_HEALTH_GAIN: i64 = 2;

/// The personality (strategy) of an agent, fixed for its whole lifetime.
/// It selects the row (as the resolving side) or column (as the opponent)
/// of the payoff table.
#[derive(Clone, Copy, Debug, PartialEq, Eq, Structural)]
pub enum PersonalityType {
    Greedy,
    Cooperative,
}

/// The payoff table as a total function over the 2x2 strategy product:
/// the health delta the resolving agent receives from one contact, keyed
/// by its own strategy and the opponent's.
pub open spec fn spec_payoff(own: PersonalityType, opponent: PersonalityType) -> int {
    match (own, opponent) {
        (PersonalityType::Greedy, PersonalityType::Greedy) => GREEDGREED_HEALTH_GAIN as int,
        (PersonalityType::Greedy, PersonalityType::Cooperative) => GREEDCOOP_HEALTH_GAIN as int,
        (PersonalityType::Cooperative, PersonalityType::Greedy) => COOPGREED_HEALTH_GAIN as int,
        (PersonalityType::Cooperative, PersonalityType::Cooperative) => COOPCOOP_HEALTH_GAIN as int,
    }
}

/// Looks up the payoff table: the signed health delta for the resolving
/// agent, given its own strategy and the opponent's. Pure, no error cases.
pub fn payoff(own: PersonalityType, opponent: PersonalityType) -> (delta: i64)
    ensures
        delta == spec_payoff(own, opponent),
{
    match (own, opponent) {
        (PersonalityType::Greedy, PersonalityType::Greedy) => GREEDGREED_HEALTH_GAIN,
        (PersonalityType::Greedy, PersonalityType::Cooperative) => GREEDCOOP_HEALTH_GAIN,
        (PersonalityType::Cooperative, PersonalityType::Greedy) => COOPGREED_HEALTH_GAIN,
        (PersonalityType::Cooperative, PersonalityType::Cooperative) => COOPCOOP_HEALTH_GAIN,
    }
}

/// The payoff table takes exactly the fixed values it is specified with,
/// for every one of the four strategy pairs; being a function of the two
/// strategies alone, repeated lookups always agree.
pub proof fn lemma_payoff_table()
    ensures
        spec_payoff(PersonalityType::Cooperative, PersonalityType::Cooperative) == 2,
        spec_payoff(PersonalityType::Cooperative, PersonalityType::Greedy) == -2,
        spec_payoff(PersonalityType::Greedy, PersonalityType::Cooperative) == 3,
        spec_payoff(PersonalityType::Greedy, PersonalityType::Greedy) == -1,
{
}

} // verus!
