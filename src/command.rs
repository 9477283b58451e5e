use vstd::prelude::*;
use crate::world::{
    dir_x, dir_y, direction, Bullet, Gun, Radar, Tank, World, BARREL_LENGTH, BULLET_ID_LIMIT, FIRE_COOLDOWN,
    HEADINGS, MAX_TANKS, MUZZLE_SPEED, TANK_SPEED, UNIT,
};

verus! {

/// One agent's intent for a tick: the drive speed in pixels per tick,
/// forward (positive) or back (negative), capped at `TANK_SPEED`; turn the
/// gun and the radar (positive is counter-clockwise); and whether to fire.
#[derive(Clone, Copy, Debug, PartialEq, Eq, Structural)]
pub struct Command {
    pub movement: i64,
    pub turn_gun: i64,
    pub turn_radar: i64,
    pub fire: bool,
}

impl Command {
    pub open spec fn noop_spec() -> Command {
        Command { movement: 0, turn_gun: 0, turn_radar: 0, fire: false }
    }

    /// The command of a tank whose agent gave none: stand still, hold fire.
    pub fn noop() -> (r: Command)
        ensures
            r == Command::noop_spec(),
    {
        Command { movement: 0, turn_gun: 0, turn_radar: 0, fire: false }
    }
}

/// The drive speed that a movement intent gets, capped at `TANK_SPEED`
/// either way.
pub open spec fn throttle(m: i64) -> int {
    if m > TANK_SPEED {
        TANK_SPEED as int
    } else if m < -TANK_SPEED {
        -TANK_SPEED
    } else {
        m as int
    }
}

/// The sign of a turn intent: a gun or radar turns at most one step a tick.
pub open spec fn step_of(d: i64) -> int {
    if d > 0 {
        1
    } else if d < 0 {
        -1
    } else {
        0
    }
}

/// `h` moved one eighth of a turn in the direction of `d`, wrapping round.
pub open spec fn turned(h: u32, d: i64) -> u32 {
    if d > 0 {
        if h + 1 >= HEADINGS { 0 } else { (h + 1) as u32 }
    } else if d < 0 {
        if h == 0 { (HEADINGS - 1) as u32 } else { (h - 1) as u32 }
    } else {
        h
    }
}

/// Whether the command makes the tank shoot: it is alive, asks to fire, its
/// gun is unlocked and cooled down, and the store has room for the volley.
pub open spec fn fires(t: Tank, c: Command, room: bool) -> bool {
    t.alive() && c.fire && !t.gun.locked && t.cooldown == 0 && room
}

/// The tank after its command is applied. A destroyed tank is left as it
/// is. A fire order on a locked gun unlocks it without shooting. The
/// cooldown is reset by a shot and otherwise counts down to zero.
pub open spec fn commanded(t: Tank, c: Command, room: bool) -> Tank {
    if !t.alive() {
        t
    } else {
        Tank {
            vx: (throttle(c.movement) * dir_x(t.heading)) as i64,
            vy: (throttle(c.movement) * dir_y(t.heading)) as i64,
            gun: Gun {
                locked: t.gun.locked && !c.fire,
                heading: turned(t.gun.heading, c.turn_gun),
            },
            radar: Radar { locked: t.radar.locked, heading: turned(t.radar.heading, c.turn_radar) },
            cooldown: if fires(t, c, room) {
                FIRE_COOLDOWN
            } else if t.cooldown > 0 {
                (t.cooldown - 1) as u32
            } else {
                0
            },
            ..t
        }
    }
}

/// The bullet a shot puts at the muzzle: the barrel's length out from the
/// tank's centre along the (turned) gun, flying at muzzle speed along it.
pub open spec fn muzzle_bullet(t: Tank, c: Command, owner: usize, id: u64, tick: u64) -> Bullet {
    let g = turned(t.gun.heading, c.turn_gun);
    Bullet {
        id,
        owner,
        x: (t.x + dir_x(g) * BARREL_LENGTH) as i64,
        y: (t.y + dir_y(g) * BARREL_LENGTH) as i64,
        vx: (dir_x(g) * MUZZLE_SPEED) as i64,
        vy: (dir_y(g) * MUZZLE_SPEED) as i64,
        spawn_tick: tick,
    }
}

/// The bullets shot by the first `n` tanks, in tank order, numbered from
/// `first_id`.
pub open spec fn spawned(
    tanks: Seq<Tank>,
    cmds: Seq<Command>,
    n: int,
    room: bool,
    tick: u64,
    first_id: u64,
) -> Seq<Bullet>
    decreases n,
{
    if n <= 0 {
        seq![]
    } else {
        let prev = spawned(tanks, cmds, n - 1, room, tick, first_id);
        if fires(tanks[n - 1], cmds[n - 1], room) {
            prev.push(
                muzzle_bullet(tanks[n - 1], cmds[n - 1], (n - 1) as usize, (first_id + prev.len()) as u64, tick),
            )
        } else {
            prev
        }
    }
}

/// Whether the store can mint an identity for a shot of every tank.
pub open spec fn volley_room(w: World) -> bool {
    w.next_bullet_id + w.tanks@.len() <= BULLET_ID_LIMIT
}

pub proof fn lemma_spawned_len(tanks: Seq<Tank>, cmds: Seq<Command>, n: int, room: bool, tick: u64, first_id: u64)
    requires
        0 <= n <= MAX_TANKS,
    ensures
        spawned(tanks, cmds, n, room, tick, first_id).len() <= n,
    decreases n,
{
    if n > 0 {
        lemma_spawned_len(tanks, cmds, n - 1, room, tick, first_id);
    }
}

proof fn lemma_spawned_no_room(tanks: Seq<Tank>, cmds: Seq<Command>, n: int, tick: u64, first_id: u64)
    requires
        0 <= n,
    ensures
        spawned(tanks, cmds, n, false, tick, first_id).len() == 0,
    decreases n,
{
    if n > 0 {
        lemma_spawned_no_room(tanks, cmds, n - 1, tick, first_id);
    }
}

/// A tank whose gun is still cooling down puts no bullet in flight this
/// tick, whatever its command.
pub proof fn lemma_cooldown_blocks_fire(
    tanks: Seq<Tank>,
    cmds: Seq<Command>,
    n: int,
    room: bool,
    tick: u64,
    first_id: u64,
    i: int,
)
    requires
        0 <= i < n <= tanks.len(),
        n <= MAX_TANKS,
        tanks[i].cooldown > 0,
    ensures
        forall|k: int|
            0 <= k < spawned(tanks, cmds, n, room, tick, first_id).len() ==> #[trigger] spawned(
                tanks,
                cmds,
                n,
                room,
                tick,
                first_id,
            )[k].owner != i,
    decreases n,
{
    let prev = spawned(tanks, cmds, n - 1, room, tick, first_id);
    let s = spawned(tanks, cmds, n, room, tick, first_id);
    if n - 1 > i {
        lemma_cooldown_blocks_fire(tanks, cmds, n - 1, room, tick, first_id, i);
    } else {
        lemma_spawned_owner_below(tanks, cmds, n - 1, room, tick, first_id);
    }
    assert forall|k: int| 0 <= k < s.len() implies #[trigger] s[k].owner != i by {
        if k < prev.len() {
            assert(s[k] == prev[k]);
        }
    }
}

pub proof fn lemma_spawned_owner_below(tanks: Seq<Tank>, cmds: Seq<Command>, n: int, room: bool, tick: u64, first_id: u64)
    requires
        0 <= n <= MAX_TANKS,
    ensures
        forall|k: int|
            0 <= k < spawned(tanks, cmds, n, room, tick, first_id).len() ==> #[trigger] spawned(
                tanks,
                cmds,
                n,
                room,
                tick,
                first_id,
            )[k].owner < n,
    decreases n,
{
    if n > 0 {
        lemma_spawned_owner_below(tanks, cmds, n - 1, room, tick, first_id);
        let prev = spawned(tanks, cmds, n - 1, room, tick, first_id);
        let s = spawned(tanks, cmds, n, room, tick, first_id);
        assert forall|k: int| 0 <= k < s.len() implies #[trigger] s[k].owner < n by {
            if k < prev.len() {
                assert(s[k] == prev[k]);
            }
        }
    }
}

/// A live tank with a cooled, unlocked gun that is ordered to fire, when
/// the store has room, puts exactly one bullet in flight: at its muzzle,
/// flying along its gun, numbered after the shots of the tanks before it.
pub proof fn lemma_fire_spawns_one(
    tanks: Seq<Tank>,
    cmds: Seq<Command>,
    n: int,
    tick: u64,
    first_id: u64,
    i: int,
)
    requires
        0 <= i < n <= tanks.len(),
        n <= MAX_TANKS,
        n <= cmds.len(),
        tanks[i].alive(),
        tanks[i].cooldown == 0,
        !tanks[i].gun.locked,
        cmds[i].fire,
    ensures
        ({
            let s = spawned(tanks, cmds, n, true, tick, first_id);
            let k = spawned(tanks, cmds, i, true, tick, first_id).len() as int;
            &&& 0 <= k < s.len()
            &&& s[k] == muzzle_bullet(tanks[i], cmds[i], i as usize, (first_id + k) as u64, tick)
            &&& forall|m: int| 0 <= m < s.len() && m != k ==> #[trigger] s[m].owner != i
        }),
    decreases n,
{
    let k = spawned(tanks, cmds, i, true, tick, first_id).len() as int;
    lemma_spawned_owner_below(tanks, cmds, i, true, tick, first_id);
    if n - 1 > i {
        lemma_fire_spawns_one(tanks, cmds, n - 1, tick, first_id, i);
        lemma_spawned_prefix(tanks, cmds, n - 1, true, tick, first_id);
    } else {
        lemma_spawned_prefix(tanks, cmds, i, true, tick, first_id);
    }
}

/// When only tank `i` shoots, the tick's new bullets are exactly its one
/// muzzle bullet, numbered `first_id`.
pub proof fn lemma_lone_shot(
    tanks: Seq<Tank>,
    cmds: Seq<Command>,
    n: int,
    tick: u64,
    first_id: u64,
    i: int,
)
    requires
        0 <= i < n <= tanks.len(),
        n <= cmds.len(),
        n <= MAX_TANKS,
        fires(tanks[i], cmds[i], true),
        forall|j: int| 0 <= j < n && j != i ==> !fires(#[trigger] tanks[j], cmds[j], true),
    ensures
        spawned(tanks, cmds, n, true, tick, first_id) == seq![
            muzzle_bullet(tanks[i], cmds[i], i as usize, first_id, tick),
        ],
    decreases n,
{
    if n - 1 > i {
        lemma_lone_shot(tanks, cmds, n - 1, tick, first_id, i);
        assert(!fires(tanks[n - 1], cmds[n - 1], true));
    } else {
        lemma_no_shot_before(tanks, cmds, i, tick, first_id, i);
        assert(spawned(tanks, cmds, i + 1, true, tick, first_id) =~= seq![
            muzzle_bullet(tanks[i], cmds[i], i as usize, first_id, tick),
        ]);
    }
}

proof fn lemma_no_shot_before(tanks: Seq<Tank>, cmds: Seq<Command>, k: int, tick: u64, first_id: u64, i: int)
    requires
        0 <= k <= i < tanks.len(),
        i < cmds.len(),
        forall|j: int| 0 <= j < i ==> !fires(#[trigger] tanks[j], cmds[j], true),
    ensures
        spawned(tanks, cmds, k, true, tick, first_id).len() == 0,
    decreases k,
{
    if k > 0 {
        lemma_no_shot_before(tanks, cmds, k - 1, tick, first_id, i);
        assert(!fires(tanks[k - 1], cmds[k - 1], true));
    }
}

proof fn lemma_spawned_prefix(tanks: Seq<Tank>, cmds: Seq<Command>, n: int, room: bool, tick: u64, first_id: u64)
    requires
        0 <= n <= MAX_TANKS,
    ensures
        spawned(tanks, cmds, n + 1, room, tick, first_id).len() >= spawned(tanks, cmds, n, room, tick, first_id).len(),
        forall|k: int|
            0 <= k < spawned(tanks, cmds, n, room, tick, first_id).len() ==> spawned(
                tanks,
                cmds,
                n + 1,
                room,
                tick,
                first_id,
            )[k] == #[trigger] spawned(tanks, cmds, n, room, tick, first_id)[k],
        spawned(tanks, cmds, n + 1, room, tick, first_id).len() > spawned(tanks, cmds, n, room, tick, first_id).len()
            ==> spawned(tanks, cmds, n + 1, room, tick, first_id).last().owner == n,
{
}

proof fn lemma_commanded_wf(t: Tank, c: Command, room: bool, w: i64, h: i64, spent: int)
    requires
        t.wf(w, h, spent),
    ensures
        commanded(t, c, room).wf(w, h, spent),
{
    if t.alive() {
        assert(-UNIT <= dir_x(t.heading) <= UNIT && -UNIT <= dir_y(t.heading) <= UNIT);
        lemma_scaled(throttle(c.movement), dir_x(t.heading));
        lemma_scaled(throttle(c.movement), dir_y(t.heading));
    }
}

proof fn lemma_scaled(m: int, d: int)
    requires
        -TANK_SPEED <= m <= TANK_SPEED,
        -UNIT <= d <= UNIT,
    ensures
        -TANK_SPEED * UNIT <= m * d <= TANK_SPEED * UNIT,
{
    assert(-TANK_SPEED * UNIT <= m * d <= TANK_SPEED * UNIT) by (nonlinear_arith)
        requires
            -TANK_SPEED <= m <= TANK_SPEED,
            -UNIT <= d <= UNIT,
    ;
}

/// One step of a turn: `h` moved an eighth of a turn in the direction of `d`.
pub fn turn(h: u32, d: i64) -> (r: u32)
    requires
        h < HEADINGS,
    ensures
        r == turned(h, d),
        r < HEADINGS,
{
    if d > 0 {
        if h + 1 >= HEADINGS { 0 } else { h + 1 }
    } else if d < 0 {
        if h == 0 { HEADINGS - 1 } else { h - 1 }
    } else {
        h
    }
}

/// The chassis velocity that a movement intent asks for, along `heading`.
fn drive(movement: i64, heading: u32) -> (r: (i64, i64))
    requires
        heading < HEADINGS,
    ensures
        r.0 == throttle(movement) * dir_x(heading),
        r.1 == throttle(movement) * dir_y(heading),
{
    let (dx, dy) = direction(heading);
    let m = if movement > TANK_SPEED {
        TANK_SPEED
    } else if movement < -TANK_SPEED {
        -TANK_SPEED
    } else {
        movement
    };
    proof {
        lemma_scaled(m as int, dx as int);
        lemma_scaled(m as int, dy as int);
    }
    (m * dx, m * dy)
}

impl World {
    /// Applies each tank's command, in tank order: drive intent, gun turn,
    /// radar turn, then the shot. Commands of destroyed tanks are dropped.
    /// Shots are numbered in tank order and appended to the bullets in
    /// flight.
    pub fn apply_commands(&mut self, commands: &Vec<Command>)
        requires
            old(self).wf(),
            commands@.len() == old(self).tanks@.len(),
        ensures
            final(self).wf(),
            final(self).tanks@.len() == old(self).tanks@.len(),
            forall|i: int|
                0 <= i < old(self).tanks@.len() ==> #[trigger] final(self).tanks@[i] == commanded(
                    old(self).tanks@[i],
                    commands@[i],
                    volley_room(*old(self)),
                ),
            final(self).bullets@ == old(self).bullets@ + spawned(
                old(self).tanks@,
                commands@,
                old(self).tanks@.len() as int,
                volley_room(*old(self)),
                old(self).tick,
                old(self).next_bullet_id,
            ),
            final(self).next_bullet_id == old(self).next_bullet_id + spawned(
                old(self).tanks@,
                commands@,
                old(self).tanks@.len() as int,
                volley_room(*old(self)),
                old(self).tick,
                old(self).next_bullet_id,
            ).len(),
            final(self).tick == old(self).tick,
            final(self).width == old(self).width,
            final(self).height == old(self).height,
            final(self).sinks@ == old(self).sinks@,
    {
        let n = self.tanks.len();
        let room = self.next_bullet_id <= BULLET_ID_LIMIT - n as u64;
        assert(room == volley_room(*self));
        let ghost w0 = *self;
        let mut i: usize = 0;
        while i < n
            invariant
                w0.wf(),
                n == w0.tanks@.len(),
                commands@.len() == n,
                0 <= i <= n,
                room == volley_room(w0),
                self.tanks@.len() == n,
                self.width == w0.width,
                self.height == w0.height,
                self.tick == w0.tick,
                self.sinks@ == w0.sinks@,
                forall|k: int| 0 <= k < i ==> #[trigger] self.tanks@[k] == commanded(w0.tanks@[k], commands@[k], room),
                forall|k: int| i <= k < n ==> #[trigger] self.tanks@[k] == w0.tanks@[k],
                self.bullets@ == w0.bullets@ + spawned(w0.tanks@, commands@, i as int, room, w0.tick, w0.next_bullet_id),
                self.next_bullet_id == w0.next_bullet_id + spawned(w0.tanks@, commands@, i as int, room, w0.tick, w0.next_bullet_id).len(),
                forall|j: int| 0 <= j < self.bullets@.len() ==> #[trigger] self.bullets@[j].wf(n as nat, w0.tick),
            decreases n - i,
        {
            proof {
                lemma_spawned_len(w0.tanks@, commands@, i as int, room, w0.tick, w0.next_bullet_id);
            }
            let t = self.tanks[i];
            let c = commands[i];
            if t.health > 0 {
                assert(w0.tanks@[i as int].wf(w0.width, w0.height, w0.spent()));
                let (vx, vy) = drive(c.movement, t.heading);
                let gun_heading = turn(t.gun.heading, c.turn_gun);
                let radar_heading = turn(t.radar.heading, c.turn_radar);
                let shoot = c.fire && !t.gun.locked && t.cooldown == 0 && room;
                if shoot {
                    let (gx, gy) = direction(gun_heading);
                    let b = Bullet {
                        id: self.next_bullet_id,
                        owner: i,
                        x: t.x + gx * BARREL_LENGTH,
                        y: t.y + gy * BARREL_LENGTH,
                        vx: gx * MUZZLE_SPEED,
                        vy: gy * MUZZLE_SPEED,
                        spawn_tick: self.tick,
                    };
                    self.bullets.push(b);
                    self.next_bullet_id = self.next_bullet_id + 1;
                }
                let cooldown = if shoot {
                    FIRE_COOLDOWN
                } else if t.cooldown > 0 {
                    t.cooldown - 1
                } else {
                    0
                };
                let nt = Tank {
                    vx,
                    vy,
                    gun: Gun { locked: t.gun.locked && !c.fire, heading: gun_heading },
                    radar: Radar { locked: t.radar.locked, heading: radar_heading },
                    cooldown,
                    ..t
                };
                self.tanks[i] = nt;
            }
            i = i + 1;
        }
        proof {
            lemma_spawned_len(w0.tanks@, commands@, n as int, room, w0.tick, w0.next_bullet_id);
            assert(self.spent() == w0.spent());
            if !room {
                lemma_spawned_no_room(w0.tanks@, commands@, n as int, w0.tick, w0.next_bullet_id);
            }
            assert forall|k: int| 0 <= k < n implies #[trigger] self.tanks@[k].wf(
                self.width,
                self.height,
                self.spent(),
            ) by {
                assert(w0.tanks@[k].wf(w0.width, w0.height, w0.spent()));
                lemma_commanded_wf(w0.tanks@[k], commands@[k], room, w0.width, w0.height, w0.spent());
            }
        }
    }
}

} // verus!
