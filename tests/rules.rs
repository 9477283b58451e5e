use ctsimlib::acquire::{AgentReply, FailureKind};
use ctsimlib::builder::{build_info, get_lang, job_status, succeeded};
use ctsimlib::command::{turn, Command};
use ctsimlib::event::{generate_event, EventSink, TransformSnapshot, VelocitySnapshot};
use ctsimlib::mask::{classify, filter, interacts, membership, CollisionType, ContactKind};
use ctsimlib::outcome::TankStats;
use ctsimlib::physics::{body_category, Body};
use ctsimlib::resolve::{contact_hit, Hit};
use ctsimlib::physics::Contact;
use ctsimlib::world::{direction, Bullet, World, MAX_HEALTH};

#[test]
fn masks_match_categories() {
    assert_eq!(membership(CollisionType::Tank), 1);
    assert_eq!(membership(CollisionType::Wall), 8);
    assert_eq!(filter(CollisionType::Radar), 1 | 4 | 8);
    assert_eq!(filter(CollisionType::Bullet), 1 | 8);
}

#[test]
fn radar_never_meets_radar() {
    assert!(!interacts(CollisionType::Radar, CollisionType::Radar));
    assert!(interacts(CollisionType::Radar, CollisionType::Tank));
    assert!(interacts(CollisionType::Radar, CollisionType::Wall));
    assert!(!interacts(CollisionType::Bullet, CollisionType::Bullet));
    assert!(!interacts(CollisionType::Wall, CollisionType::Wall));
}

#[test]
fn classify_is_symmetric() {
    assert_eq!(classify(CollisionType::Tank, CollisionType::Bullet), ContactKind::Hit);
    assert_eq!(classify(CollisionType::Bullet, CollisionType::Tank), ContactKind::Hit);
    assert_eq!(classify(CollisionType::Wall, CollisionType::Tank), ContactKind::TankWall);
    assert_eq!(classify(CollisionType::Bullet, CollisionType::Wall), ContactKind::BulletWall);
    assert_eq!(classify(CollisionType::Tank, CollisionType::Tank), ContactKind::TankTank);
    assert_eq!(classify(CollisionType::Radar, CollisionType::Tank), ContactKind::Detection);
    assert_eq!(classify(CollisionType::Radar, CollisionType::Radar), ContactKind::Ignored);
}

#[test]
fn contact_hit_reads_owner() {
    let b = Bullet { id: 4, owner: 2, x: 0, y: 0, vx: 0, vy: 0, spawn_tick: 0 };
    let c = Contact { a: Body::Bullet(b), b: Body::Tank(5) };
    assert_eq!(contact_hit(&c), Some(Hit { target: 5, attacker: 2 }));
    let w = Contact { a: Body::Bullet(b), b: Body::Wall };
    assert_eq!(contact_hit(&w), None);
    assert_eq!(body_category(&Body::Radar(1)), CollisionType::Radar);
}

#[test]
fn event_without_velocity_records_rest() {
    let mut sink = EventSink::default();
    let t = TransformSnapshot { x: 3, y: -4, rotation: 2 };
    generate_event(&mut sink, 7, &t, None, &CollisionType::Bullet);
    let v = VelocitySnapshot { linvel_x: 5, linvel_y: 6, angvel: 1 };
    generate_event(&mut sink, 8, &t, Some(&v), &CollisionType::Wall);
    assert_eq!(sink.queue.len(), 2);
    assert_eq!(sink.queue[0].event_type, "hit");
    assert_eq!(sink.queue[0].info.velocity, VelocitySnapshot::zero());
    assert_eq!(sink.queue[0].info.entity, 7);
    assert_eq!(sink.queue[1].info.velocity, v);
    assert_eq!(sink.queue[1].info.collision_type, CollisionType::Wall);
    let drained = sink.drain();
    assert_eq!(drained.len(), 2);
    assert!(sink.queue.is_empty());
}

#[test]
fn turns_wrap_round() {
    assert_eq!(turn(7, 3), 0);
    assert_eq!(turn(0, -1), 7);
    assert_eq!(turn(4, 0), 4);
    assert_eq!(direction(2), (-100, 0));
    assert_eq!(direction(5), (71, -71));
}

#[test]
fn failures_name_their_kind() {
    let mut w = World::new(10_000, 10_000);
    w.insert_tank(0, 0);
    w.insert_tank(100, 0);
    w.insert_tank(200, 0);
    let go = Command { movement: -3, turn_gun: 0, turn_radar: 0, fire: false };
    let replies = vec![AgentReply::Unreachable, AgentReply::Intent(go), AgentReply::Malformed];
    let (cmds, fails) = w.collect_commands(&replies);
    assert_eq!(cmds, vec![Command::noop(), go, Command::noop()]);
    assert_eq!(fails.len(), 2);
    assert_eq!((fails[0].tank, fails[0].kind), (0, FailureKind::Unreachable));
    assert_eq!((fails[1].tank, fails[1].kind), (2, FailureKind::Malformed));
}

#[test]
fn tanks_stop_at_walls() {
    let mut w = World::new(10_000, 10_000);
    w.insert_tank(10_000, 9_950);
    let go = Command { movement: 1, turn_gun: 0, turn_radar: 0, fire: false };
    w.apply_commands(&vec![go]);
    let contacts = w.step_physics();
    assert_eq!(w.tanks[0].y, 10_000);
    assert_eq!(contacts.bumps.len(), 1);
    assert_eq!(contacts.bumps[0].b, Body::Wall);
    assert!(contacts.strikes.is_empty());
}

#[test]
fn overlapping_tanks_bump() {
    let mut w = World::new(10_000, 10_000);
    w.insert_tank(1_000, 1_000);
    w.insert_tank(1_000, 2_000);
    let contacts = w.step_physics();
    assert_eq!(contacts.bumps.len(), 1);
    assert_eq!(contacts.bumps[0].a, Body::Tank(0));
    assert_eq!(contacts.bumps[0].b, Body::Tank(1));
}

#[test]
fn hits_floor_health_and_credit_attacker() {
    let mut w = World::new(10_000, 10_000);
    w.insert_tank(0, 0);
    w.insert_tank(5_000, 0);
    w.tanks[1].health = 5;
    w.bullets.push(Bullet { id: 0, owner: 0, x: 5_000, y: 0, vx: 0, vy: 0, spawn_tick: 0 });
    w.bullets.push(Bullet { id: 1, owner: 0, x: 5_000, y: 100, vx: 0, vy: 0, spawn_tick: 0 });
    w.next_bullet_id = 2;
    let contacts = w.step_physics();
    assert_eq!(contacts.strikes.len(), 2);
    let hits = w.classify_strikes(&contacts);
    assert_eq!(hits.len(), 2);
    w.resolve_hits(&hits);
    assert_eq!(w.tanks[1].health, 0);
    assert!(!w.tanks[1].is_alive());
    assert_eq!(w.tanks[0].damage_dealt, 20);
    assert_eq!(w.alive_count(), 1);
    let result = w.evaluate_outcome(100).expect("one survivor");
    assert_eq!(result.winner, Some(0));
    assert_eq!(result.tanks[0], TankStats { health: MAX_HEALTH, damage_dealt: 20, alive: true });
}

#[test]
fn both_destroyed_means_no_winner() {
    let mut w = World::new(10_000, 10_000);
    w.insert_tank(0, 0);
    w.insert_tank(5_000, 0);
    w.tanks[0].health = 10;
    w.tanks[1].health = 10;
    w.next_bullet_id = 2;
    w.resolve_hits(&vec![Hit { target: 0, attacker: 1 }, Hit { target: 1, attacker: 0 }]);
    let result = w.evaluate_outcome(100).expect("no survivor");
    assert_eq!(result.winner, None);
}

#[test]
fn bullets_leave_at_walls() {
    let mut w = World::new(10_000, 10_000);
    w.insert_tank(0, 0);
    w.bullets.push(Bullet { id: 0, owner: 0, x: 9_000, y: 9_000, vx: 2_000, vy: 0, spawn_tick: 0 });
    w.next_bullet_id = 1;
    let contacts = w.step_physics();
    assert_eq!(contacts.strikes.len(), 1);
    assert_eq!(contacts.strikes[0].b, Body::Wall);
    assert!(w.bullets.is_empty());
    assert!(w.classify_strikes(&contacts).is_empty());
}

#[test]
fn builder_reads_streams() {
    assert_eq!(get_lang("anything"), "dart");
    let ok = build_info("built".to_string(), String::new());
    assert!(ok.successful);
    assert_eq!(ok.log, "built");
    let bad = build_info("partial".to_string(), "boom".to_string());
    assert!(!bad.successful);
    assert_eq!(bad.log, "boom");
    assert!(succeeded(""));
    assert!(!succeeded("warning"));
    assert_eq!(job_status(true), "completed");
    assert_eq!(job_status(false), "failed");
}

#[test]
fn radar_senses_tanks_in_its_beam() {
    let mut w = World::new(100_000, 100_000);
    w.insert_tank(50_000, 50_000);
    w.insert_tank(50_000, 90_000);
    w.insert_tank(50_000, 10_000);
    w.insert_tank(60_000, 52_000);
    let seen = w.sense_radars();
    let from_first: Vec<Body> = seen.iter().filter(|c| c.a == Body::Radar(0)).map(|c| c.b).collect();
    assert_eq!(from_first, vec![Body::Tank(1), Body::Wall]);
    let from_third: Vec<Body> = seen.iter().filter(|c| c.a == Body::Radar(2)).map(|c| c.b).collect();
    assert_eq!(from_third, vec![Body::Tank(0), Body::Tank(1), Body::Wall]);
    assert_eq!(classify(CollisionType::Radar, CollisionType::Tank), ContactKind::Detection);
}

#[test]
fn tanks_driving_into_each_other_bounce() {
    let mut w = World::new(100_000, 100_000);
    w.insert_tank(50_000, 50_000);
    w.insert_tank(50_000, 54_300);
    w.insert_tank(10_000, 10_000);
    let ahead = Command { movement: 2, turn_gun: 0, turn_radar: 0, fire: false };
    let back = Command { movement: -2, turn_gun: 0, turn_radar: 0, fire: false };
    w.apply_commands(&vec![ahead, back, ahead]);
    let contacts = w.step_physics();
    assert_eq!(contacts.bumps.len(), 1);
    assert_eq!(contacts.bumps[0].a, Body::Tank(0));
    assert_eq!(contacts.bumps[0].b, Body::Tank(1));
    assert_eq!((w.tanks[0].x, w.tanks[0].y, w.tanks[0].vy), (50_000, 50_000, 0));
    assert_eq!((w.tanks[1].x, w.tanks[1].y, w.tanks[1].vy), (50_000, 54_300, 0));
    assert_eq!((w.tanks[2].y, w.tanks[2].vy), (10_200, 200));
}
