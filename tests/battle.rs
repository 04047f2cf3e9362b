use rand::rngs::StdRng;
use rand::SeedableRng;
use text_rpg::battle::{battle, fight, run_battle, standard_enemies, BattleOutcome};
use text_rpg::character::{Character, CharacterClass};
use text_rpg::enemy::Enemy;

#[test]
fn orc_takes_85_damage() {
    let mut orc = Enemy::new("Orc", 80, 10);
    assert!(orc.take_damage(85));
    assert_eq!(orc.health, 0);
}

#[test]
fn enemy_take_damage_subtracts() {
    let mut orc = Enemy::new("Orc", 80, 10);
    assert!(!orc.take_damage(30));
    assert_eq!(orc.health, 50);
}

#[test]
fn enemy_attack_is_fixed() {
    let dragon = Enemy::new("Dragon", 150, 20);
    assert_eq!(dragon.attack(), 20);
    assert_eq!(dragon.attack(), 20);
}

#[test]
fn standard_queue() {
    let q = standard_enemies();
    assert_eq!(q.len(), 2);
    assert_eq!((q[0].name.as_str(), q[0].health, q[0].damage), ("Orc", 80, 10));
    assert_eq!((q[1].name.as_str(), q[1].health, q[1].damage), ("Dragon", 150, 20));
}

#[test]
fn fight_enemy_survives_and_strikes_back() {
    let mut p = Character::new("Aria", CharacterClass::Warrior);
    let mut orc = Enemy::new("Orc", 80, 10);
    assert_eq!(fight(&mut p, &mut orc, 15), Some(10));
    assert_eq!(orc.health, 65);
    assert_eq!(p.health, 110);
}

#[test]
fn fight_defeated_enemy_does_not_strike_back() {
    let mut p = Character::new("Aria", CharacterClass::Warrior);
    let mut orc = Enemy::new("Orc", 12, 10);
    assert_eq!(fight(&mut p, &mut orc, 15), None);
    assert_eq!(orc.health, 0);
    assert_eq!(p.health, 120);
}

#[test]
fn fight_can_defeat_player() {
    let mut p = Character::new("Aria", CharacterClass::Mage);
    p.take_damage(75);
    let mut dragon = Enemy::new("Dragon", 150, 20);
    assert_eq!(fight(&mut p, &mut dragon, 20), Some(20));
    assert_eq!(p.health, 0);
}

#[test]
fn warrior_against_standard_queue() {
    for seed in 0..20u64 {
        let mut rng = StdRng::seed_from_u64(seed);
        let mut p = Character::new("Aria", CharacterClass::Warrior);
        let report = battle(&mut p, &mut rng);
        let mut total: i64 = 230;
        let mut health = 120u32;
        for r in &report.rounds {
            assert!((10..=20).contains(&r.player_damage));
            assert!(health > 0);
            let left = r.enemy_health.saturating_sub(r.player_damage);
            total -= (r.enemy_health - left) as i64;
            match r.enemy_damage {
                None => assert_eq!(left, 0),
                Some(d) => {
                    assert!(left > 0);
                    health = health.saturating_sub(d);
                }
            }
        }
        assert_eq!(health, p.health);
        match report.outcome {
            BattleOutcome::Victory => {
                assert_eq!(total, 0);
                assert!(p.health > 0);
            }
            BattleOutcome::Defeat => {
                assert!(total > 0);
                assert_eq!(p.health, 0);
            }
        }
        assert_eq!(report.rounds[0].enemy_name, "Orc");
        assert_eq!(report.rounds[0].enemy_health, 80);
    }
}

#[test]
fn each_round_lowers_enemy_health() {
    let mut rng = StdRng::seed_from_u64(11);
    let mut p = Character::new("Aria", CharacterClass::Warrior);
    let report = battle(&mut p, &mut rng);
    let totals: Vec<u32> = report
        .rounds
        .iter()
        .map(|r| r.enemy_health + if r.enemy_name == "Orc" { 150 } else { 0 })
        .collect();
    assert!(totals.windows(2).all(|w| w[1] < w[0]));
}

#[test]
fn run_battle_victory_empties_queue() {
    let mut rng = StdRng::seed_from_u64(4);
    let mut p = Character::new("Aria", CharacterClass::Mage);
    let mut q = vec![Enemy::new("Rat", 10, 1), Enemy::new("Bat", 15, 2)];
    let rounds = run_battle(&mut p, &mut q, &mut rng);
    assert!(q.is_empty());
    assert_eq!(rounds.len(), 2);
    assert_eq!(rounds[0].enemy_name, "Rat");
    assert_eq!(rounds[1].enemy_name, "Bat");
    assert!(rounds.iter().all(|r| r.enemy_damage.is_none()));
    assert_eq!(p.health, 80);
}

#[test]
fn run_battle_defeat_leaves_enemies() {
    let mut rng = StdRng::seed_from_u64(4);
    let mut p = Character::new("Aria", CharacterClass::Rogue);
    let mut q = vec![Enemy::new("Golem", 1000, 50), Enemy::new("Bat", 15, 2)];
    let rounds = run_battle(&mut p, &mut q, &mut rng);
    assert_eq!(p.health, 0);
    assert_eq!(rounds.len(), 2);
    assert_eq!(q.len(), 2);
    let dealt: u32 = rounds.iter().map(|r| r.player_damage).sum();
    assert_eq!(q[0].health, 1000 - dealt);
}

#[test]
fn run_battle_with_defeated_player_plays_no_round() {
    let mut rng = StdRng::seed_from_u64(4);
    let mut p = Character::new("Aria", CharacterClass::Rogue);
    p.take_damage(100);
    let mut q = standard_enemies();
    let rounds = run_battle(&mut p, &mut q, &mut rng);
    assert!(rounds.is_empty());
    assert_eq!(q.len(), 2);
}

#[test]
fn run_battle_empty_queue_plays_no_round() {
    let mut rng = StdRng::seed_from_u64(4);
    let mut p = Character::new("Aria", CharacterClass::Rogue);
    let mut q: Vec<Enemy> = Vec::new();
    assert!(run_battle(&mut p, &mut q, &mut rng).is_empty());
    assert_eq!(p.health, 100);
}
