use prisoner_dilemma_simulator::bugster::Bugsters;
use prisoner_dilemma_simulator::game::Action;
use prisoner_dilemma_simulator::game::ContactInfo;
use prisoner_dilemma_simulator::game::Game;
use prisoner_dilemma_simulator::sizing::scale_milli;
use prisoner_dilemma_simulator::strategy::payoff;
use prisoner_dilemma_simulator::strategy::PersonalityType;

fn contact(other: u64, x: i64, y: i64) -> ContactInfo {
    ContactInfo { other, active: true, other_x: x, other_y: y }
}

#[test]
fn payoff_table_exact_values() {
    assert_eq!(payoff(PersonalityType::Cooperative, PersonalityType::Cooperative), 2);
    assert_eq!(payoff(PersonalityType::Cooperative, PersonalityType::Greedy), -2);
    assert_eq!(payoff(PersonalityType::Greedy, PersonalityType::Cooperative), 3);
    assert_eq!(payoff(PersonalityType::Greedy, PersonalityType::Greedy), -1);
}

#[test]
fn payoff_stable_across_repeated_calls() {
    for _ in 0..10 {
        assert_eq!(payoff(PersonalityType::Greedy, PersonalityType::Cooperative), 3);
        assert_eq!(payoff(PersonalityType::Cooperative, PersonalityType::Greedy), -2);
    }
}

#[test]
fn scale_at_base_health_is_base_size() {
    assert_eq!(scale_milli(10), 500);
}

#[test]
fn scale_exact_values() {
    // 0.1 * sqrt(d) + 0.5 in thousandths, rounded down.
    assert_eq!(scale_milli(11), 600);
    assert_eq!(scale_milli(14), 700);
    assert_eq!(scale_milli(110), 1500);
    assert_eq!(scale_milli(9), 400);
    assert_eq!(scale_milli(6), 300);
    assert_eq!(scale_milli(-90), -500);
    assert_eq!(scale_milli(0), 184);
    assert_eq!(scale_milli(8), 359);
    assert_eq!(scale_milli(13), 673);
}

#[test]
fn scale_monotonic_over_representative_healths() {
    let samples: [i64; 13] = [-1_000_000, -90, -10, -1, 0, 1, 5, 9, 10, 11, 14, 110, 10_000_010];
    let mut prev = scale_milli(samples[0]);
    for k in 1..samples.len() {
        let cur = scale_milli(samples[k]);
        assert!(prev <= cur);
        prev = cur;
    }
}

#[test]
fn spawn_credits_ledger_and_registers_agent() {
    let mut g = Game::new();
    let (id, actions) = g.add_bugster(PersonalityType::Cooperative, 1000, -2000);
    assert_eq!(id, 0);
    assert_eq!(g.coop_hp, 10);
    assert_eq!(g.greed_hp, 0);
    assert_eq!(g.agent_count(), 1);
    assert_eq!(g.query_agent(id), Some((PersonalityType::Cooperative, 10)));
    assert_eq!(actions.len(), 2);
    assert_eq!(
        actions[0],
        Action::Register {
            id: 0,
            personality: PersonalityType::Cooperative,
            x: 1000,
            y: -2000,
            scale: 500,
        }
    );
    assert_eq!(
        actions[1],
        Action::NotifyTotal { personality: PersonalityType::Cooperative, total: 10 }
    );
}

#[test]
fn game_start_spawns_requested_population() {
    let mut g = Game::new();
    let actions = g.game_start(3, 2);
    assert_eq!(g.agent_count(), 5);
    assert_eq!(g.coop_hp, 30);
    assert_eq!(g.greed_hp, 20);
    assert_eq!(actions.len(), 10);
    let mut coop_seen: i64 = 0;
    let mut greed_seen: i64 = 0;
    for k in 0..5 {
        match actions[2 * k] {
            Action::Register { id, personality, x, y, scale } => {
                assert_eq!(id, k as u64);
                if k < 3 {
                    assert_eq!(personality, PersonalityType::Cooperative);
                } else {
                    assert_eq!(personality, PersonalityType::Greedy);
                }
                assert!(-8000 <= x && x <= 8000);
                assert!(-3500 <= y && y <= 3500);
                assert_eq!(scale, 500);
            }
            ref other => panic!("expected a registration, got {:?}", other),
        }
        match actions[2 * k + 1] {
            Action::NotifyTotal { personality, total } => {
                if personality == PersonalityType::Cooperative {
                    coop_seen += 10;
                    assert_eq!(total, coop_seen);
                } else {
                    greed_seen += 10;
                    assert_eq!(total, greed_seen);
                }
            }
            ref other => panic!("expected a total notification, got {:?}", other),
        }
    }
}

#[test]
fn game_start_ignores_nonpositive_counts() {
    let mut g = Game::new();
    let actions = g.game_start(-5, 0);
    assert_eq!(g.agent_count(), 0);
    assert_eq!(g.coop_hp, 0);
    assert_eq!(g.greed_hp, 0);
    assert!(actions.is_empty());
}

#[test]
fn cooperative_resolution_pass_against_greedy() {
    // One Cooperative and one Greedy agent at overlapping positions: the
    // Cooperative side's own pass costs it the table value 2.
    let mut g = Game::new();
    let (a, _) = g.add_bugster(PersonalityType::Cooperative, 0, 0);
    let (b, _) = g.add_bugster(PersonalityType::Greedy, 100, 0);
    let actions = g.resolve_contacts(a, 0, 0, &vec![contact(b, 100, 0)]);
    assert_eq!(g.query_agent(a), Some((PersonalityType::Cooperative, 8)));
    assert_eq!(g.coop_hp, 8);
    assert_eq!(g.greed_hp, 10);
    assert_eq!(actions.len(), 3);
    assert_eq!(
        actions[0],
        Action::NotifyTotal { personality: PersonalityType::Cooperative, total: 8 }
    );
    assert_eq!(actions[1], Action::ApplyImpulse { id: a, x: -600, y: 0 });
    assert_eq!(actions[2], Action::SetSize { id: a, scale: 359 });
}

#[test]
fn greedy_resolution_pass_against_cooperative() {
    // The symmetric, independently scheduled pass of the Greedy agent
    // gains it the table value 3.
    let mut g = Game::new();
    let (a, _) = g.add_bugster(PersonalityType::Cooperative, 0, 0);
    let (b, _) = g.add_bugster(PersonalityType::Greedy, 100, 0);
    let actions = g.resolve_contacts(b, 100, 0, &vec![contact(a, 0, 0)]);
    assert_eq!(g.query_agent(b), Some((PersonalityType::Greedy, 13)));
    assert_eq!(g.greed_hp, 13);
    assert_eq!(g.coop_hp, 10);
    assert_eq!(actions.len(), 3);
    assert_eq!(
        actions[0],
        Action::NotifyTotal { personality: PersonalityType::Greedy, total: 13 }
    );
    assert_eq!(actions[1], Action::ApplyImpulse { id: b, x: 600, y: 0 });
    assert_eq!(actions[2], Action::SetSize { id: b, scale: 673 });
}

#[test]
fn applied_delta_clamps_at_current_health() {
    // Health 1, raw delta -2 (Cooperative self against a Greedy opponent):
    // the applied delta stops at -1 and health lands exactly on zero.
    let mut b = Bugsters::new(1, PersonalityType::Cooperative);
    let applied = b.apply_payoff(&PersonalityType::Greedy);
    assert_eq!(applied, -1);
    assert_eq!(b.healthpoints, 0);
}

#[test]
fn applied_delta_without_clamp_is_the_raw_delta() {
    // Health 2, raw delta -1 (Greedy against Greedy): no clamp needed.
    let mut b = Bugsters::new(2, PersonalityType::Greedy);
    let applied = b.apply_payoff(&PersonalityType::Greedy);
    assert_eq!(applied, -1);
    assert_eq!(b.healthpoints, 1);
}

#[test]
fn applied_delta_never_exceeds_health_before_contact() {
    let healths: [i64; 5] = [0, 1, 2, 5, 10];
    let personalities = [PersonalityType::Cooperative, PersonalityType::Greedy];
    for &h in healths.iter() {
        for &own in personalities.iter() {
            for &opp in personalities.iter() {
                let mut b = Bugsters::new(h, own);
                let applied = b.apply_payoff(&opp);
                assert!(applied >= -h);
                assert!(b.healthpoints >= 0);
            }
        }
    }
}

#[test]
fn depleted_agent_is_removed_and_pass_stops() {
    // Five contacts cost a Cooperative agent 2 each: it dies on the fifth
    // with health exactly zero, is deregistered on the spot, and the pass
    // neither processes the remaining contact nor resizes the dead agent.
    let mut g = Game::new();
    let (a, _) = g.add_bugster(PersonalityType::Cooperative, 0, 0);
    let (b, _) = g.add_bugster(PersonalityType::Greedy, 50, 0);
    let contacts = vec![
        contact(b, 50, 0),
        contact(b, 50, 0),
        contact(b, 50, 0),
        contact(b, 50, 0),
        contact(b, 50, 0),
        contact(b, 50, 0),
    ];
    let actions = g.resolve_contacts(a, 0, 0, &contacts);
    assert_eq!(g.query_agent(a), None);
    assert_eq!(g.agent_count(), 1);
    assert_eq!(g.coop_hp, 0);
    // Four survived contacts (notify + impulse), one fatal (notify +
    // deregister), nothing after it.
    assert_eq!(actions.len(), 10);
    assert_eq!(
        actions[8],
        Action::NotifyTotal { personality: PersonalityType::Cooperative, total: 0 }
    );
    assert_eq!(actions[9], Action::Deregister { id: a });
    for act in actions.iter() {
        assert!(!matches!(act, Action::SetSize { .. }));
    }
}

#[test]
fn removed_agent_never_reappears() {
    let mut g = Game::new();
    let (a, _) = g.add_bugster(PersonalityType::Cooperative, 0, 0);
    let (b, _) = g.add_bugster(PersonalityType::Greedy, 50, 0);
    let contacts = vec![
        contact(b, 50, 0),
        contact(b, 50, 0),
        contact(b, 50, 0),
        contact(b, 50, 0),
        contact(b, 50, 0),
    ];
    g.resolve_contacts(a, 0, 0, &contacts);
    assert_eq!(g.query_agent(a), None);
    // The dead agent receives no further ticks: it is not among the due.
    let (_, due) = g.tick(1000);
    assert_eq!(due, vec![b]);
    // A stale contact handle pointing at the dead agent is skipped as a
    // missing binding: the survivor's health and ledger stay untouched.
    let actions = g.resolve_contacts(b, 50, 0, &vec![contact(a, 0, 0)]);
    assert_eq!(g.query_agent(b), Some((PersonalityType::Greedy, 10)));
    assert_eq!(g.greed_hp, 10);
    assert_eq!(actions.len(), 1);
    assert!(matches!(actions[0], Action::SetSize { .. }));
}

#[test]
fn inactive_contacts_are_filtered_out() {
    let mut g = Game::new();
    let (a, _) = g.add_bugster(PersonalityType::Cooperative, 0, 0);
    let (b, _) = g.add_bugster(PersonalityType::Greedy, 50, 0);
    let idle = ContactInfo { other: b, active: false, other_x: 50, other_y: 0 };
    let actions = g.resolve_contacts(a, 0, 0, &vec![idle]);
    assert_eq!(g.query_agent(a), Some((PersonalityType::Cooperative, 10)));
    assert_eq!(g.coop_hp, 10);
    assert_eq!(actions.len(), 1);
    assert_eq!(actions[0], Action::SetSize { id: a, scale: 500 });
}

#[test]
fn ledger_equals_spawns_plus_applied_deltas() {
    // Replaying the run by hand: two Cooperative spawns and one Greedy
    // spawn, then three resolved contacts with known deltas.
    let mut g = Game::new();
    let (a, _) = g.add_bugster(PersonalityType::Cooperative, 0, 0);
    let (b, _) = g.add_bugster(PersonalityType::Cooperative, 10, 0);
    let (c, _) = g.add_bugster(PersonalityType::Greedy, 20, 0);
    assert_eq!(g.coop_hp, 20);
    assert_eq!(g.greed_hp, 10);
    g.resolve_contacts(a, 0, 0, &vec![contact(b, 10, 0)]); // coop vs coop: +2
    g.resolve_contacts(a, 0, 0, &vec![contact(c, 20, 0)]); // coop vs greedy: -2
    g.resolve_contacts(c, 20, 0, &vec![contact(a, 0, 0)]); // greedy vs coop: +3
    assert_eq!(g.coop_hp, 10 + 10 + 2 - 2);
    assert_eq!(g.greed_hp, 10 + 3);
    assert_eq!(g.query_agent(a), Some((PersonalityType::Cooperative, 10)));
    assert_eq!(g.query_agent(c), Some((PersonalityType::Greedy, 13)));
}

#[test]
fn first_tick_fires_both_timers() {
    let mut g = Game::new();
    let (a, _) = g.add_bugster(PersonalityType::Cooperative, 0, 0);
    let (actions, due) = g.tick(100);
    assert_eq!(due, vec![a]);
    assert_eq!(actions.len(), 1);
    match actions[0] {
        Action::ApplyImpulse { id, x, y } => {
            assert_eq!(id, a);
            assert!(x.abs() <= 15000);
            assert!(y.abs() <= 15000 - x.abs());
        }
        ref other => panic!("expected an impulse, got {:?}", other),
    }
    let iv = g.agents[0].bugster.move_change_interval;
    assert!((3000..5000).contains(&iv));
}

#[test]
fn quiet_tick_fires_nothing() {
    let mut g = Game::new();
    let (_, _) = g.add_bugster(PersonalityType::Cooperative, 0, 0);
    g.tick(100);
    // Both timers were just reset; a short step fires neither.
    let (actions, due) = g.tick(100);
    assert!(actions.is_empty());
    assert!(due.is_empty());
}

#[test]
fn contact_timer_fires_every_half_second() {
    let mut g = Game::new();
    let (a, _) = g.add_bugster(PersonalityType::Cooperative, 0, 0);
    g.tick(100);
    let (_, due) = g.tick(400);
    assert!(due.is_empty());
    let (_, due) = g.tick(99);
    assert!(due.is_empty());
    let (_, due) = g.tick(1);
    assert_eq!(due, vec![a]);
}

#[test]
fn tick_on_empty_simulation_is_quiet() {
    let mut g = Game::new();
    let (actions, due) = g.tick(1000);
    assert!(actions.is_empty());
    assert!(due.is_empty());
}

#[test]
fn remove_is_terminal_and_idempotent() {
    let mut g = Game::new();
    let (a, _) = g.add_bugster(PersonalityType::Greedy, 0, 0);
    assert_eq!(g.greed_hp, 10);
    g.remove(a);
    assert_eq!(g.query_agent(a), None);
    assert_eq!(g.agent_count(), 0);
    // Removal rolls nothing back in the ledger.
    assert_eq!(g.greed_hp, 10);
    g.remove(a);
    assert_eq!(g.agent_count(), 0);
    assert_eq!(g.greed_hp, 10);
}

#[test]
fn raw_ledger_adjustments_move_one_total_only() {
    let mut g = Game::new();
    g.change_coop_hp(7);
    g.change_greed_hp(-3);
    assert_eq!(g.coop_hp, 7);
    assert_eq!(g.greed_hp, -3);
    g.change_coop_hp(-7);
    assert_eq!(g.coop_hp, 0);
    assert_eq!(g.greed_hp, -3);
}

#[test]
fn health_calculation_matches_payoff_table() {
    let mut b = Bugsters::new(10, PersonalityType::Greedy);
    assert_eq!(b.health_calculation(&PersonalityType::Cooperative), 3);
    assert_eq!(b.health_calculation(&PersonalityType::Greedy), -1);
    assert_eq!(b.healthpoints, 10);
    let mut c = Bugsters::new(10, PersonalityType::Cooperative);
    assert_eq!(c.health_calculation(&PersonalityType::Cooperative), 2);
    assert_eq!(c.health_calculation(&PersonalityType::Greedy), -2);
}

#[test]
fn change_size_follows_health() {
    let b = Bugsters::new(10, PersonalityType::Cooperative);
    assert_eq!(b.change_size(), 500);
    let big = Bugsters::new(14, PersonalityType::Cooperative);
    assert_eq!(big.change_size(), 700);
    let small = Bugsters::new(6, PersonalityType::Greedy);
    assert_eq!(small.change_size(), 300);
}

#[test]
fn query_unknown_id_finds_nothing() {
    let g = Game::new();
    assert_eq!(g.query_agent(42), None);
}

#[test]
fn resolving_unknown_id_changes_nothing() {
    let mut g = Game::new();
    let (b, _) = g.add_bugster(PersonalityType::Greedy, 0, 0);
    let actions = g.resolve_contacts(99, 0, 0, &vec![contact(b, 0, 0)]);
    assert!(actions.is_empty());
    assert_eq!(g.agent_count(), 1);
    assert_eq!(g.greed_hp, 10);
}
