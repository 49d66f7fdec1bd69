use conway::cell::{Aggregate, CellState, Variant};
use conway::rules::RuleEngine;

fn agg(alive_count: u8, team_vote: CellState) -> Aggregate {
    Aggregate { alive_count, team_vote }
}

#[test]
fn classic_birth_on_exactly_three() {
    let engine = RuleEngine::new(Variant::Classic);
    for n in 0..=8u8 {
        let want = if n == 3 { CellState::Alive } else { CellState::Empty };
        assert_eq!(engine.next(CellState::Empty, agg(n, CellState::Alive)), want);
    }
}

#[test]
fn classic_survival_on_two_or_three() {
    let engine = RuleEngine::new(Variant::Classic);
    for n in 0..=8u8 {
        let want = if n == 2 || n == 3 { CellState::Alive } else { CellState::Empty };
        assert_eq!(engine.next(CellState::Alive, agg(n, CellState::Alive)), want);
    }
}

#[test]
fn classic_ignores_the_vote() {
    let engine = RuleEngine::new(Variant::Classic);
    assert_eq!(engine.next(CellState::Empty, agg(3, CellState::Team(2))), CellState::Alive);
    assert_eq!(engine.next(CellState::Alive, agg(2, CellState::Neutral)), CellState::Alive);
    assert_eq!(engine.next(CellState::Alive, agg(2, CellState::Empty)), CellState::Alive);
}

#[test]
fn team_birth_takes_the_vote() {
    let engine = RuleEngine::new(Variant::Team);
    assert_eq!(engine.next(CellState::Empty, agg(3, CellState::Team(1))), CellState::Team(1));
    assert_eq!(engine.next(CellState::Empty, agg(3, CellState::Team(2))), CellState::Team(2));
    assert_eq!(engine.next(CellState::Empty, agg(3, CellState::Neutral)), CellState::Neutral);
    assert_eq!(engine.next(CellState::Empty, agg(2, CellState::Team(1))), CellState::Empty);
}

#[test]
fn team_survivor_changes_owner_to_the_vote() {
    let engine = RuleEngine::new(Variant::Team);
    assert_eq!(engine.next(CellState::Team(1), agg(2, CellState::Team(2))), CellState::Team(2));
    assert_eq!(engine.next(CellState::Team(1), agg(3, CellState::Neutral)), CellState::Neutral);
    assert_eq!(engine.next(CellState::Neutral, agg(2, CellState::Team(1))), CellState::Team(1));
}

#[test]
fn team_dies_of_loneliness_and_crowding() {
    let engine = RuleEngine::new(Variant::Team);
    for n in [0u8, 1, 4, 5, 6, 7, 8] {
        assert_eq!(engine.next(CellState::Team(1), agg(n, CellState::Team(1))), CellState::Empty);
        assert_eq!(engine.next(CellState::Empty, agg(n, CellState::Team(1))), CellState::Empty);
    }
}

#[test]
fn rule_engine_keeps_its_variant() {
    assert_eq!(RuleEngine::new(Variant::Classic).variant, Variant::Classic);
    assert_eq!(RuleEngine::new(Variant::Team).variant, Variant::Team);
}
