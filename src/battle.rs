//! A battle: the character fights a queue of enemies, front first, until the
//! queue is empty or the character is defeated.
use crate::character::{after_damage, attack_max, attack_min, Character};
use crate::enemy::Enemy;
use rand::rngs::StdRng;
use vstd::prelude::*;

verus! {

/// What happened in one round of a battle.
pub struct Round {
    /// The enemy at the front of the queue, and its health before the round.
    pub enemy_name: String,
    pub enemy_health: u32,
    /// Dealt by the character.
    pub player_damage: u32,
    /// Dealt back by the enemy; `None` when the enemy was defeated.
    pub enemy_damage: Option<u32>,
}

#[derive(Clone, Copy, Debug, PartialEq, Eq, Structural)]
pub enum BattleOutcome {
    /// Every enemy of the queue was defeated.
    Victory,
    /// The character reached zero health first.
    Defeat,
}

pub struct BattleReport {
    pub rounds: Vec<Round>,
    pub outcome: BattleOutcome,
}

/// The character's health and the enemies still in the queue.
pub type Field = (u32, Seq<Enemy>);

/// A battle ends when the queue is empty or the character is defeated.
pub open spec fn battle_over(field: Field) -> bool {
    field.0 == 0 || field.1.len() == 0
}

/// The field after one round in which the character deals `player_damage`
/// to the front enemy. A defeated enemy leaves the queue at once; one that
/// survives strikes back. A battle that is over stays as it is.
pub open spec fn step(field: Field, player_damage: u32) -> Field {
    if battle_over(field) {
        field
    } else {
        let e = field.1[0];
        let left = after_damage(e.health, player_damage);
        if left == 0 {
            (field.0, field.1.drop_first())
        } else {
            (
                after_damage(field.0, e.damage),
                field.1.update(0, Enemy { name: e.name, health: left, damage: e.damage }),
            )
        }
    }
}

/// The field after rounds with the given damages, in order.
pub open spec fn replay(field: Field, damages: Seq<u32>) -> Field
    decreases damages.len(),
{
    if damages.len() == 0 {
        field
    } else {
        step(replay(field, damages.drop_last()), damages.last())
    }
}

/// The damages the character dealt, round by round.
pub open spec fn damages_of(rounds: Seq<Round>) -> Seq<u32> {
    rounds.map_values(|r: Round| r.player_damage)
}

/// `round` is an account of a round played on `field`.
pub open spec fn describes(round: Round, field: Field) -> bool {
    let e = field.1[0];
    &&& round.enemy_name@ == e.name@
    &&& round.enemy_health == e.health
    &&& round.enemy_damage == if after_damage(e.health, round.player_damage) == 0 {
        None::<u32>
    } else {
        Some(e.damage)
    }
}

/// `rounds` is the full account of a battle that began on `start`: each round
/// was played on a field where the battle was still on, and the last one
/// ended it.
pub open spec fn is_battle_log(rounds: Seq<Round>, start: Field) -> bool {
    &&& battle_over(replay(start, damages_of(rounds)))
    &&& forall|i: int|
        0 <= i < rounds.len() ==> {
            let f = #[trigger] replay(start, damages_of(rounds).take(i));
            !battle_over(f) && describes(rounds[i], f)
        }
}

pub open spec fn total_health(enemies: Seq<Enemy>) -> int
    decreases enemies.len(),
{
    if enemies.len() == 0 {
        0
    } else {
        enemies[0].health + total_health(enemies.drop_first())
    }
}

pub open spec fn all_alive(enemies: Seq<Enemy>) -> bool {
    forall|i: int| 0 <= i < enemies.len() ==> #[trigger] enemies[i].health > 0
}

/// A round of a battle that is still on, against a queue of living enemies,
/// with any damage above zero, strictly lowers the enemies' total health, and
/// leaves only living enemies in the queue.
pub proof fn lemma_round_lowers_enemy_health(field: Field, player_damage: u32)
    requires
        !battle_over(field),
        all_alive(field.1),
        player_damage > 0,
    ensures
        total_health(step(field, player_damage).1) < total_health(field.1),
        all_alive(step(field, player_damage).1),
{
    let e = field.1[0];
    let next = step(field, player_damage).1;
    if after_damage(e.health, player_damage) != 0 {
        assert(next.drop_first() =~= field.1.drop_first());
    }
    assert forall|i: int| 0 <= i < next.len() implies #[trigger] next[i].health > 0 by {
        if after_damage(e.health, player_damage) == 0 {
            assert(next[i] == field.1[i + 1]);
        }
    }
}

/// Every round of a battle that is still on either lowers the enemies' total
/// health or, taking out a defeated enemy, shortens the queue without raising
/// it.
proof fn lemma_round_progress(field: Field, player_damage: u32)
    requires
        !battle_over(field),
        player_damage > 0,
    ensures
        ({
            let next = step(field, player_damage).1;
            total_health(next) < total_health(field.1) || (total_health(next) == total_health(
                field.1,
            ) - field.1[0].health && next.len() < field.1.len())
        }),
        total_health(step(field, player_damage).1) <= total_health(field.1),
{
    let e = field.1[0];
    let next = step(field, player_damage).1;
    if after_damage(e.health, player_damage) != 0 {
        assert(next.drop_first() =~= field.1.drop_first());
    }
}

proof fn lemma_total_health_nonneg(enemies: Seq<Enemy>)
    ensures
        total_health(enemies) >= 0,
    decreases enemies.len(),
{
    if enemies.len() > 0 {
        lemma_total_health_nonneg(enemies.drop_first());
    }
}

/// One round against one enemy: the character strikes with `player_damage`;
/// an enemy that survives strikes back, and its damage is returned. An enemy
/// that is defeated does not strike back, and `None` is returned.
pub fn fight(player: &mut Character, enemy: &mut Enemy, player_damage: u32) -> (enemy_damage: Option<u32>)
    ensures
        *final(enemy) == (Enemy {
            name: old(enemy).name,
            health: after_damage(old(enemy).health, player_damage),
            damage: old(enemy).damage,
        }),
        final(enemy).health == 0 ==> enemy_damage is None,
        final(enemy).health > 0 ==> enemy_damage == Some(old(enemy).damage),
        final(player).health == match enemy_damage {
            Some(d) => after_damage(old(player).health, d),
            None => old(player).health,
        },
        final(player).magic_points == old(player).magic_points,
        final(player).same_but_points(*old(player)),
        final(player).inventory@ == old(player).inventory@,
        old(player).wf() ==> final(player).wf(),
{
    enemy.take_damage(player_damage);
    if enemy.health == 0 {
        return None;
    }
    let enemy_damage = enemy.attack();
    player.take_damage(enemy_damage);
    Some(enemy_damage)
}

/// Fights the queue `enemies`, front first, drawing each of the character's
/// attacks from `rng`, until the queue is empty or the character is defeated.
/// Defeated enemies leave the queue; the rounds played are returned in order.
pub fn run_battle(player: &mut Character, enemies: &mut Vec<Enemy>, rng: &mut StdRng) -> (rounds: Vec<Round>)
    ensures
        is_battle_log(rounds@, (old(player).health, old(enemies)@)),
        (final(player).health, final(enemies)@) == replay(
            (old(player).health, old(enemies)@),
            damages_of(rounds@),
        ),
        forall|i: int|
            0 <= i < rounds.len() ==> attack_min(old(player).class) <= #[trigger] rounds@[i].player_damage
                <= attack_max(old(player).class),
        final(player).magic_points == old(player).magic_points,
        final(player).same_but_points(*old(player)),
        final(player).inventory@ == old(player).inventory@,
        old(player).wf() ==> final(player).wf(),
{
    let ghost start: Field = (player.health, enemies@);
    let ghost p0 = *player;
    let mut rounds: Vec<Round> = Vec::new();
    proof {
        lemma_total_health_nonneg(enemies@);
    }
    while enemies.len() > 0 && player.health > 0
        invariant
            (player.health, enemies@) == replay(start, damages_of(rounds@)),
            forall|i: int|
                0 <= i < rounds.len() ==> {
                    let f = #[trigger] replay(start, damages_of(rounds@).take(i));
                    !battle_over(f) && describes(rounds@[i], f)
                },
            forall|i: int|
                0 <= i < rounds.len() ==> attack_min(p0.class) <= #[trigger] rounds@[i].player_damage
                    <= attack_max(p0.class),
            player.magic_points == p0.magic_points,
            player.same_but_points(p0),
            player.inventory@ == p0.inventory@,
            p0.wf() ==> player.wf(),
            total_health(enemies@) >= 0,
        decreases total_health(enemies@), enemies@.len(),
    {
        let ghost field: Field = (player.health, enemies@);
        let ghost before = rounds@;
        let player_damage = player.attack(rng);
        let enemy_name = enemies[0].name.clone();
        let enemy_health = enemies[0].health;
        let enemy_damage = fight(player, &mut enemies[0], player_damage);
        if enemies[0].health == 0 {
            enemies.remove(0);
        }
        let round = Round { enemy_name, enemy_health, player_damage, enemy_damage };
        rounds.push(round);
        proof {
            let d = damages_of(rounds@);
            assert(d.drop_last() =~= damages_of(before));
            assert(d.take(before.len() as int) =~= damages_of(before));
            assert(d.last() == player_damage);
            assert forall|i: int| 0 <= i < before.len() implies d.take(i) =~= damages_of(
                before,
            ).take(i) by {}
            assert forall|i: int| 0 <= i < rounds@.len() implies {
                let f = #[trigger] replay(start, damages_of(rounds@).take(i));
                !battle_over(f) && describes(rounds@[i], f)
            } by {
                if i < before.len() {
                    assert(d.take(i) =~= damages_of(before).take(i));
                    assert(rounds@[i] == before[i]);
                }
            }
            assert forall|i: int| 0 <= i < rounds@.len() implies attack_min(p0.class)
                <= #[trigger] rounds@[i].player_damage <= attack_max(p0.class) by {
                if i < before.len() {
                    assert(rounds@[i] == before[i]);
                }
            }
            if enemy_damage is Some {
                assert(enemies@ =~= field.1.update(0, enemies@[0]));
            } else {
                assert(enemies@ =~= field.1.drop_first());
            }
            lemma_round_progress(field, player_damage);
            lemma_total_health_nonneg(enemies@);
        }
    }
    rounds
}


/// The queue every battle starts with: an Orc (80 health, 10 damage), then a
/// Dragon (150 health, 20 damage).
pub open spec fn is_standard_queue(q: Seq<Enemy>) -> bool {
    &&& q.len() == 2
    &&& q[0].name@ == "Orc"@
    &&& q[0].health == 80
    &&& q[0].damage == 10
    &&& q[1].name@ == "Dragon"@
    &&& q[1].health == 150
    &&& q[1].damage == 20
}

pub fn standard_enemies() -> (r: Vec<Enemy>)
    ensures
        is_standard_queue(r@),
{
    let mut q: Vec<Enemy> = Vec::new();
    q.push(Enemy::new("Orc", 80, 10));
    q.push(Enemy::new("Dragon", 150, 20));
    q
}

/// A battle against the standard queue, the character's attacks drawn from
/// `rng`. It is a victory when every enemy was defeated, and a defeat when the
/// character reached zero health first.
pub fn battle(player: &mut Character, rng: &mut StdRng) -> (report: BattleReport)
    ensures
        exists|q: Seq<Enemy>|
            #[trigger] is_standard_queue(q) && {
                let end = replay((old(player).health, q), damages_of(report.rounds@));
                &&& is_battle_log(report.rounds@, (old(player).health, q))
                &&& final(player).health == end.0
                &&& (report.outcome == BattleOutcome::Victory <==> end.1.len() == 0)
            },
        report.outcome == BattleOutcome::Defeat ==> final(player).health == 0,
        report.outcome == BattleOutcome::Victory ==> final(player).health > 0,
        forall|i: int|
            0 <= i < report.rounds.len() ==> attack_min(old(player).class)
                <= #[trigger] report.rounds@[i].player_damage <= attack_max(old(player).class),
        final(player).magic_points == old(player).magic_points,
        final(player).same_but_points(*old(player)),
        final(player).inventory@ == old(player).inventory@,
        old(player).wf() ==> final(player).wf(),
{
    let mut enemies = standard_enemies();
    let ghost q = enemies@;
    let rounds = run_battle(player, &mut enemies, rng);
    let outcome = if enemies.len() == 0 {
        BattleOutcome::Victory
    } else {
        BattleOutcome::Defeat
    };
    proof {
        let start: Field = (old(player).health, q);
        let d = damages_of(rounds@);
        if enemies@.len() == 0 && rounds@.len() > 0 {
            let i = rounds@.len() - 1;
            assert(d.take(i) =~= d.drop_last());
            let f = replay(start, d.take(i));
            assert(!battle_over(f));
        }
    }
    assert(is_standard_queue(q));
    BattleReport { rounds, outcome }
}

} // verus!
