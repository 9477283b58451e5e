use vstd::prelude::*;
use crate::event::{Event, EventSink};

verus! {

/// Health of a freshly spawned tank, and the most a tank ever has.
pub const MAX_HEALTH: u32 = 100;

/// Health taken from a tank by one bullet hit.
pub const HIT_DAMAGE: u32 = 10;

/// Ticks a gun waits after firing before it may fire again.
pub const FIRE_COOLDOWN: u32 = 20;

/// Number of distinct headings: one every eighth of a turn.
pub const HEADINGS: u32 = 8;

/// Length of a unit heading vector, in world units (one pixel).
pub const UNIT: i64 = 100;

/// Top chassis speed, in pixels per tick.
pub const TANK_SPEED: i64 = 2;

/// Distance from a tank's centre to its muzzle, in pixels.
pub const BARREL_LENGTH: i64 = 30;

/// Bullet speed, in pixels per tick.
pub const MUZZLE_SPEED: i64 = 20;

/// Radius of a tank's chassis, in world units.
pub const TANK_RADIUS: i64 = 2000;

/// Ticks a bullet flies before it is discarded.
pub const BULLET_LIFETIME: u64 = 200;

/// Largest arena side, in world units.
pub const ARENA_LIMIT: i64 = 10_000_000;

/// Most tanks one store holds; it keeps shot numbering far inside
/// `BULLET_ID_LIMIT`.
pub const MAX_TANKS: usize = 0xffff_ffff;

/// Bullet identities are minted below this bound.
pub const BULLET_ID_LIMIT: u64 = 0x1000_0000_0000_0000;

/// A tank's gun: its heading (in the arena's frame, like every heading
/// here), and whether it waits for an explicit fire order to unlock it.
#[derive(Clone, Copy, Debug, PartialEq, Eq, Structural)]
pub struct Gun {
    pub locked: bool,
    pub heading: u32,
}

/// The radar sensor mounted on a tank: its heading, and its lock.
#[derive(Clone, Copy, Debug, PartialEq, Eq, Structural)]
pub struct Radar {
    pub locked: bool,
    pub heading: u32,
}

/// A tank with its gun and radar. Positions are in world units (a hundredth
/// of a pixel); a heading `h` points `h` eighths of a turn counter-clockwise
/// from the positive y axis. A tank is alive while its health is above zero.
#[derive(Clone, Copy, Debug, PartialEq, Eq, Structural)]
pub struct Tank {
    pub x: i64,
    pub y: i64,
    pub heading: u32,
    pub vx: i64,
    pub vy: i64,
    pub gun: Gun,
    pub radar: Radar,
    pub cooldown: u32,
    pub health: u32,
    pub damage_dealt: u64,
}

/// A bullet in flight, owned by the tank (by index) that fired it.
#[derive(Clone, Copy, Debug, PartialEq, Eq, Structural)]
pub struct Bullet {
    pub id: u64,
    pub owner: usize,
    pub x: i64,
    pub y: i64,
    pub vx: i64,
    pub vy: i64,
    pub spawn_tick: u64,
}

pub open spec fn dir_x(h: u32) -> int {
    if h == 0 { 0 }
    else if h == 1 { -71 }
    else if h == 2 { -100 }
    else if h == 3 { -71 }
    else if h == 4 { 0 }
    else if h == 5 { 71 }
    else if h == 6 { 100 }
    else { 71 }
}

pub open spec fn dir_y(h: u32) -> int {
    if h == 0 { 100 }
    else if h == 1 { 71 }
    else if h == 2 { 0 }
    else if h == 3 { -71 }
    else if h == 4 { -100 }
    else if h == 5 { -71 }
    else if h == 6 { 0 }
    else { 71 }
}

/// The unit vector of a heading, scaled to `UNIT`.
pub fn direction(h: u32) -> (r: (i64, i64))
    requires
        h < HEADINGS,
    ensures
        r.0 == dir_x(h),
        r.1 == dir_y(h),
        -UNIT <= r.0 <= UNIT,
        -UNIT <= r.1 <= UNIT,
{
    if h == 0 { (0, 100) }
    else if h == 1 { (-71, 71) }
    else if h == 2 { (-100, 0) }
    else if h == 3 { (-71, -71) }
    else if h == 4 { (0, -100) }
    else if h == 5 { (71, -71) }
    else if h == 6 { (100, 0) }
    else { (71, 71) }
}

impl Tank {
    pub open spec fn alive(&self) -> bool {
        self.health > 0
    }

    /// The tank's own bounds, given the arena it stands in and the bullets
    /// fired so far in the match.
    pub open spec fn wf(&self, w: i64, h: i64, spent: int) -> bool {
        &&& self.health <= MAX_HEALTH
        &&& self.cooldown <= FIRE_COOLDOWN
        &&& self.heading < HEADINGS
        &&& self.gun.heading < HEADINGS
        &&& self.radar.heading < HEADINGS
        &&& 0 <= self.x <= w
        &&& 0 <= self.y <= h
        &&& -TANK_SPEED * UNIT <= self.vx <= TANK_SPEED * UNIT
        &&& -TANK_SPEED * UNIT <= self.vy <= TANK_SPEED * UNIT
        &&& self.damage_dealt <= HIT_DAMAGE * spent
    }

    pub open spec fn spawn_spec(x: i64, y: i64) -> Tank {
        Tank {
            x,
            y,
            heading: 0,
            vx: 0,
            vy: 0,
            gun: Gun { locked: true, heading: 0 },
            radar: Radar { locked: true, heading: 0 },
            cooldown: 0,
            health: MAX_HEALTH,
            damage_dealt: 0,
        }
    }

    /// A new tank at `(x, y)`: full health, gun and radar locked, facing
    /// the positive y axis, at rest.
    pub fn spawn(x: i64, y: i64) -> (r: Tank)
        ensures
            r == Tank::spawn_spec(x, y),
    {
        let gun = create_gun();
        let radar = create_radar();
        create_base_tank(gun, radar, x, y)
    }

    /// Whether the tank is still in play.
    pub fn is_alive(&self) -> (r: bool)
        ensures
            r == self.alive(),
    {
        self.health > 0
    }
}

/// A gun as mounted on a new tank: locked, along the chassis.
pub fn create_gun() -> (r: Gun)
    ensures
        r == (Gun { locked: true, heading: 0 }),
{
    Gun { locked: true, heading: 0 }
}

/// A radar as mounted on a new tank: locked, along the chassis.
pub fn create_radar() -> (r: Radar)
    ensures
        r == (Radar { locked: true, heading: 0 }),
{
    Radar { locked: true, heading: 0 }
}

/// A tank at `(x, y)` carrying `gun` and `radar`: full health, no damage
/// dealt, cooled down, at rest and facing the positive y axis.
pub fn create_base_tank(gun: Gun, radar: Radar, x: i64, y: i64) -> (r: Tank)
    ensures
        r == (Tank {
            x,
            y,
            heading: 0,
            vx: 0,
            vy: 0,
            gun,
            radar,
            cooldown: 0,
            health: MAX_HEALTH,
            damage_dealt: 0,
        }),
{
    Tank { x, y, heading: 0, vx: 0, vy: 0, gun, radar, cooldown: 0, health: MAX_HEALTH, damage_dealt: 0 }
}

/// Where the tank with index `i` starts: 150 pixels apart along the x
/// axis, 10 pixels from the origin.
pub open spec fn start_x(i: int) -> int {
    (150 * i + 10) * UNIT
}

impl Bullet {
    pub open spec fn wf(&self, n_tanks: nat, tick: u64) -> bool {
        &&& self.owner < n_tanks
        &&& self.spawn_tick <= tick
        &&& -ARENA_LIMIT <= self.x <= 2 * ARENA_LIMIT
        &&& -ARENA_LIMIT <= self.y <= 2 * ARENA_LIMIT
        &&& -MUZZLE_SPEED * UNIT <= self.vx <= MUZZLE_SPEED * UNIT
        &&& -MUZZLE_SPEED * UNIT <= self.vy <= MUZZLE_SPEED * UNIT
    }
}

/// The store of one match: the arena, every tank (alive or destroyed) by
/// index, the bullets in flight, and one event sink per tank.
pub struct World {
    pub width: i64,
    pub height: i64,
    pub tick: u64,
    pub next_bullet_id: u64,
    pub tanks: Vec<Tank>,
    pub bullets: Vec<Bullet>,
    pub sinks: Vec<EventSink>,
}

/// Every tank of a well-formed store, alive or destroyed, has health
/// between zero and the maximum.
pub proof fn lemma_health_bounded(w: World)
    requires
        w.wf(),
    ensures
        forall|i: int| 0 <= i < w.tanks@.len() ==> 0 <= #[trigger] w.tanks@[i].health <= MAX_HEALTH,
{
    assert forall|i: int| 0 <= i < w.tanks@.len() implies 0 <= #[trigger] w.tanks@[i].health <= MAX_HEALTH by {
        assert(w.tanks@[i].wf(w.width, w.height, w.spent()));
    }
}

/// A match of `count` fresh tanks in a row along the x axis, at tick
/// zero.
pub fn setup_sim_tanks(width: i64, height: i64, count: usize) -> (r: World)
    requires
        0 < width <= ARENA_LIMIT,
        0 < height <= ARENA_LIMIT,
        start_x(count as int) <= width,
    ensures
        r.wf(),
        r.width == width,
        r.height == height,
        r.tick == 0,
        r.bullets@.len() == 0,
        r.tanks@.len() == count,
        forall|i: int| 0 <= i < count ==> #[trigger] r.tanks@[i] == Tank::spawn_spec(start_x(i) as i64, 0),
        r.sinks@.len() == count,
        forall|i: int| 0 <= i < count ==> (#[trigger] r.sinks@[i]).queue@.len() == 0,
{
    assert(count <= 666);
    let mut w = World::new(width, height);
    let mut i: usize = 0;
    while i < count
        invariant
            w.wf(),
            0 <= i <= count <= MAX_TANKS,
            w.width == width,
            w.height == height,
            w.tick == 0,
            w.bullets@.len() == 0,
            w.tanks@.len() == i,
            start_x(count as int) <= width,
            forall|k: int| 0 <= k < i ==> #[trigger] w.tanks@[k] == Tank::spawn_spec(start_x(k) as i64, 0),
            w.sinks@.len() == i,
            forall|k: int| 0 <= k < i ==> (#[trigger] w.sinks@[k]).queue@.len() == 0,
        decreases count - i,
    {
        let x = (150 * (i as i64) + 10) * UNIT;
        w.insert_tank(x, 0);
        i = i + 1;
    }
    w
}

impl World {
    /// Bullets fired so far that are no longer in flight.
    pub open spec fn spent(&self) -> int {
        self.next_bullet_id - self.bullets@.len()
    }

    pub open spec fn wf(&self) -> bool {
        &&& 0 < self.width <= ARENA_LIMIT
        &&& 0 < self.height <= ARENA_LIMIT
        &&& self.tanks@.len() <= MAX_TANKS
        &&& self.sinks@.len() == self.tanks@.len()
        &&& self.next_bullet_id <= BULLET_ID_LIMIT
        &&& self.bullets@.len() <= self.next_bullet_id
        &&& forall|i: int|
            0 <= i < self.tanks@.len() ==> #[trigger] self.tanks@[i].wf(
                self.width,
                self.height,
                self.spent(),
            )
        &&& forall|j: int|
            0 <= j < self.bullets@.len() ==> #[trigger] self.bullets@[j].wf(
                self.tanks@.len(),
                self.tick,
            )
    }

    /// An empty arena of the given size, at tick zero.
    pub fn new(width: i64, height: i64) -> (r: World)
        requires
            0 < width <= ARENA_LIMIT,
            0 < height <= ARENA_LIMIT,
        ensures
            r.wf(),
            r.width == width,
            r.height == height,
            r.tick == 0,
            r.next_bullet_id == 0,
            r.tanks@.len() == 0,
            r.bullets@.len() == 0,
    {
        World {
            width,
            height,
            tick: 0,
            next_bullet_id: 0,
            tanks: Vec::new(),
            bullets: Vec::new(),
            sinks: Vec::new(),
        }
    }

    /// Adds a fresh tank at `(x, y)` and returns its index.
    pub fn insert_tank(&mut self, x: i64, y: i64) -> (r: usize)
        requires
            old(self).wf(),
            old(self).tanks@.len() < MAX_TANKS,
            0 <= x <= old(self).width,
            0 <= y <= old(self).height,
        ensures
            final(self).wf(),
            r == old(self).tanks@.len(),
            final(self).tanks@ == old(self).tanks@.push(Tank::spawn_spec(x, y)),
            final(self).sinks@.len() == old(self).sinks@.len() + 1,
            final(self).sinks@[r as int].queue@.len() == 0,
            forall|k: int| 0 <= k < r ==> #[trigger] final(self).sinks@[k] == old(self).sinks@[k],
            final(self).bullets@ == old(self).bullets@,
            final(self).tick == old(self).tick,
            final(self).next_bullet_id == old(self).next_bullet_id,
            final(self).width == old(self).width,
            final(self).height == old(self).height,
    {
        let r = self.tanks.len();
        let t = Tank::spawn(x, y);
        self.tanks.push(t);
        self.sinks.push(EventSink::default());
        proof {
            assert forall|j: int| 0 <= j < self.bullets@.len() implies #[trigger] self.bullets@[j].wf(
                self.tanks@.len(),
                self.tick,
            ) by {
                assert(old(self).bullets@[j].wf(old(self).tanks@.len(), old(self).tick));
            }
            assert forall|i: int| 0 <= i < self.tanks@.len() implies #[trigger] self.tanks@[i].wf(
                self.width,
                self.height,
                self.spent(),
            ) by {
                if i < r {
                    assert(old(self).tanks@[i].wf(old(self).width, old(self).height, old(self).spent()));
                }
            }
        }
        r
    }

    /// Hands out the events queued for tank `i` this tick, oldest first,
    /// and empties its sink.
    pub fn drain_events(&mut self, i: usize) -> (r: Vec<Event>)
        requires
            old(self).wf(),
            i < old(self).tanks@.len(),
        ensures
            final(self).wf(),
            r@ == old(self).sinks@[i as int].queue@,
            final(self).sinks@[i as int].queue@.len() == 0,
            final(self).sinks@.len() == old(self).sinks@.len(),
            forall|k: int| 0 <= k < old(self).sinks@.len() && k != i ==> #[trigger] final(self).sinks@[k] == old(self).sinks@[k],
            final(self).tanks@ == old(self).tanks@,
            final(self).bullets@ == old(self).bullets@,
            final(self).tick == old(self).tick,
            final(self).next_bullet_id == old(self).next_bullet_id,
            final(self).width == old(self).width,
            final(self).height == old(self).height,
    {
        let ghost w0 = *self;
        let r = self.sinks[i].drain();
        proof {
            assert forall|k: int| 0 <= k < self.tanks@.len() implies #[trigger] self.tanks@[k].wf(
                self.width,
                self.height,
                self.spent(),
            ) by {
                assert(w0.tanks@[k].wf(w0.width, w0.height, w0.spent()));
            }
            assert forall|j: int| 0 <= j < self.bullets@.len() implies #[trigger] self.bullets@[j].wf(
                self.tanks@.len(),
                self.tick,
            ) by {
                assert(w0.bullets@[j].wf(w0.tanks@.len(), w0.tick));
            }
        }
        r
    }

    /// The number of tanks, alive or destroyed.
    pub fn tank_count(&self) -> (r: usize)
        ensures
            r == self.tanks@.len(),
    {
        self.tanks.len()
    }

    /// The tank at index `i`.
    pub fn tank(&self, i: usize) -> (r: &Tank)
        requires
            i < self.tanks@.len(),
        ensures
            *r == self.tanks@[i as int],
    {
        &self.tanks[i]
    }
}

} // verus!
