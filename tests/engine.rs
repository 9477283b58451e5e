use ctsimlib::acquire::{AgentReply, FailureKind};
use ctsimlib::command::Command;
use ctsimlib::physics::Body;
use ctsimlib::resolve::Hit;
use ctsimlib::world::{setup_sim_tanks, Tank, World, FIRE_COOLDOWN, HIT_DAMAGE, MAX_HEALTH};

fn fire() -> Command {
    Command { movement: 0, turn_gun: 0, turn_radar: 0, fire: true }
}

fn duel() -> World {
    let mut w = World::new(100_000, 100_000);
    w.insert_tank(50_000, 50_000);
    w.insert_tank(50_000, 54_000);
    w
}

#[test]
fn new_tank_is_full_and_locked() {
    let t = Tank::spawn(10, 20);
    assert_eq!(t.health, MAX_HEALTH);
    assert_eq!(t.damage_dealt, 0);
    assert_eq!(t.cooldown, 0);
    assert!(t.gun.locked);
    assert!(t.radar.locked);
    assert!(t.is_alive());
}

#[test]
fn setup_places_tanks_in_a_row() {
    let w = setup_sim_tanks(1_000_000, 100_000, 3);
    assert_eq!(w.tank_count(), 3);
    assert_eq!(w.tank(0).x, 1_000);
    assert_eq!(w.tank(1).x, 16_000);
    assert_eq!(w.tank(2).x, 31_000);
    assert_eq!(w.tank(2).y, 0);
}

#[test]
fn fire_on_locked_gun_only_unlocks() {
    let mut w = duel();
    w.apply_commands(&vec![fire(), Command::noop()]);
    assert!(w.bullets.is_empty());
    assert!(!w.tanks[0].gun.locked);
    assert_eq!(w.tanks[0].cooldown, 0);
}

#[test]
fn intent_spawns_one_bullet_at_muzzle() {
    let mut w = duel();
    w.apply_commands(&vec![fire(), Command::noop()]);
    let intent = Command { movement: 2, turn_gun: 0, turn_radar: 0, fire: true };
    w.apply_commands(&vec![intent, Command::noop()]);
    assert_eq!(w.bullets.len(), 1);
    let b = w.bullets[0];
    assert_eq!(b.owner, 0);
    assert_eq!((b.x, b.y), (50_000, 53_000));
    assert_eq!((b.vx, b.vy), (0, 2_000));
    assert_eq!(w.tanks[0].cooldown, FIRE_COOLDOWN);
    assert_eq!((w.tanks[0].vx, w.tanks[0].vy), (0, 200));
}

#[test]
fn cooldown_blocks_fire() {
    let mut w = duel();
    w.apply_commands(&vec![fire(), Command::noop()]);
    w.apply_commands(&vec![fire(), Command::noop()]);
    assert_eq!(w.bullets.len(), 1);
    w.apply_commands(&vec![fire(), Command::noop()]);
    assert_eq!(w.bullets.len(), 1);
    assert_eq!(w.tanks[0].cooldown, FIRE_COOLDOWN - 1);
}

#[test]
fn turned_gun_fires_along_new_heading() {
    let mut w = duel();
    w.apply_commands(&vec![fire(), Command::noop()]);
    let intent = Command { movement: 0, turn_gun: -5, turn_radar: 3, fire: true };
    w.apply_commands(&vec![intent, Command::noop()]);
    assert_eq!(w.tanks[0].gun.heading, 7);
    assert_eq!(w.tanks[0].radar.heading, 1);
    let b = w.bullets[0];
    assert_eq!((b.x, b.y), (50_000 + 71 * 30, 50_000 + 71 * 30));
    assert_eq!((b.vx, b.vy), (71 * 20, 71 * 20));
}

#[test]
fn point_blank_hit() {
    let mut w = duel();
    w.run_tick(&vec![fire(), Command::noop()], 100);
    let report = w.run_tick(&vec![fire(), Command::noop()], 100);
    assert_eq!(report.hits.len(), 1);
    assert_eq!(report.hits[0].target, 1);
    assert_eq!(report.hits[0].attacker, 0);
    assert_eq!(w.tanks[1].health, MAX_HEALTH - HIT_DAMAGE);
    assert_eq!(w.tanks[0].damage_dealt, HIT_DAMAGE as u64);
    assert_eq!(w.tanks[0].health, MAX_HEALTH);
    assert!(w.bullets.is_empty());
    let events = w.drain_events(1);
    assert_eq!(events.len(), 1);
    assert_eq!(events[0].event_type, "hit");
    assert_eq!(events[0].info.entity, 1);
    assert_eq!(events[0].info.transform.x, 50_000);
    assert_eq!(events[0].info.transform.y, 54_000);
    assert!(w.drain_events(0).is_empty());
    assert!(w.drain_events(1).is_empty());
    assert!(report.outcome.is_none());
}

#[test]
fn tick_limit_ends_match_without_winner() {
    let mut w = duel();
    let report = w.run_tick(&vec![Command::noop(), Command::noop()], 1);
    let result = report.outcome.expect("match over at the tick limit");
    assert_eq!(result.winner, None);
    assert_eq!(result.tanks.len(), 2);
    assert!(result.tanks[0].alive && result.tanks[1].alive);
    assert_eq!(w.tick, 1);
}

#[test]
fn silent_agent_is_destroyed_and_match_ends() {
    let mut w = duel();
    let mut ticks: u64 = 0;
    let mut last = None;
    while ticks < 1_000 {
        let replies = vec![AgentReply::Intent(fire()), AgentReply::Timeout];
        let (cmds, fails) = w.collect_commands(&replies);
        assert_eq!(cmds[1], Command::noop());
        if w.tanks[1].is_alive() {
            assert_eq!(fails.len(), 1);
            assert_eq!(fails[0].tank, 1);
            assert_eq!(fails[0].kind, FailureKind::Timeout);
            assert_eq!(w.fanout_targets(), vec![0, 1]);
        }
        let before = w.tanks[1];
        let report = w.run_tick(&cmds, 10_000);
        assert_eq!((w.tanks[1].x, w.tanks[1].y), (before.x, before.y));
        assert!(w.bullets.iter().all(|b| b.owner != 1));
        ticks += 1;
        if report.outcome.is_some() {
            last = report.outcome;
            break;
        }
    }
    let result = last.expect("the match ends");
    assert_eq!(result.winner, Some(0));
    assert!(!result.tanks[1].alive);
    assert_eq!(result.tanks[1].health, 0);
    assert_eq!(result.tanks[0].damage_dealt, (MAX_HEALTH / HIT_DAMAGE * HIT_DAMAGE) as u64);
    assert_eq!(w.fanout_targets(), vec![0]);
}

#[test]
fn damage_is_credited_to_each_attacker() {
    let mut w = World::new(100_000, 100_000);
    w.insert_tank(0, 0);
    w.insert_tank(10_000, 0);
    w.insert_tank(20_000, 0);
    w.next_bullet_id = 6;
    let hits = vec![
        Hit { target: 2, attacker: 0 },
        Hit { target: 2, attacker: 1 },
        Hit { target: 1, attacker: 0 },
        Hit { target: 0, attacker: 2 },
    ];
    w.resolve_hits(&hits);
    assert_eq!(w.tanks[0].damage_dealt, 2 * HIT_DAMAGE as u64);
    assert_eq!(w.tanks[1].damage_dealt, HIT_DAMAGE as u64);
    assert_eq!(w.tanks[2].damage_dealt, HIT_DAMAGE as u64);
    assert_eq!(w.tanks[2].health, MAX_HEALTH - 2 * HIT_DAMAGE);
    assert_eq!(w.tanks[1].health, MAX_HEALTH - HIT_DAMAGE);
    assert_eq!(w.tanks[0].health, MAX_HEALTH - HIT_DAMAGE);
}

#[test]
fn destroyed_tank_is_left_out() {
    let mut w = duel();
    w.tanks[1].health = 0;
    assert_eq!(w.fanout_targets(), vec![0]);
    let before = w.tanks[1];
    let go = Command { movement: 1, turn_gun: 1, turn_radar: 1, fire: true };
    w.apply_commands(&vec![Command::noop(), go]);
    assert_eq!(w.tanks[1], before);
    let contacts = w.step_physics();
    assert!(contacts.bumps.is_empty());
    let seen = w.sense_radars();
    assert_eq!(seen.len(), 1);
    assert_eq!(seen[0].a, Body::Radar(0));
    assert_eq!(seen[0].b, Body::Wall);
    let (cmds, fails) = w.collect_commands(&vec![AgentReply::Timeout, AgentReply::Intent(go)]);
    assert_eq!(cmds[1], Command::noop());
    assert_eq!(fails.len(), 1);
    assert_eq!(fails[0].tank, 0);
}

#[test]
fn drive_speed_follows_magnitude() {
    let mut w = duel();
    let slow = Command { movement: 1, turn_gun: 0, turn_radar: 0, fire: false };
    let fast = Command { movement: -7, turn_gun: 0, turn_radar: 0, fire: false };
    w.apply_commands(&vec![slow, fast]);
    assert_eq!((w.tanks[0].vx, w.tanks[0].vy), (0, 100));
    assert_eq!((w.tanks[1].vx, w.tanks[1].vy), (0, -200));
}
