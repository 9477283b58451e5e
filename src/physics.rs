use vstd::prelude::*;
use crate::mask::CollisionType;
use crate::world::{dir_x, dir_y, direction, Bullet, Tank, World, ARENA_LIMIT, BULLET_LIFETIME, HEADINGS, TANK_RADIUS, UNIT};

verus! {

/// A body taking part in a contact.
#[derive(Clone, Copy, Debug, PartialEq, Eq, Structural)]
pub enum Body {
    /// The chassis of the tank with this index.
    Tank(usize),
    /// The radar of the tank with this index.
    Radar(usize),
    /// A bullet, as it was when it touched.
    Bullet(Bullet),
    /// The arena wall.
    Wall,
}

/// Two bodies that touched during a tick.
#[derive(Clone, Copy, Debug, PartialEq, Eq, Structural)]
pub struct Contact {
    pub a: Body,
    pub b: Body,
}

/// The contacts of one physics step: those of tanks among themselves and
/// with the walls, and those that spent a bullet.
pub struct StepContacts {
    pub bumps: Vec<Contact>,
    pub strikes: Vec<Contact>,
}

pub open spec fn category(b: Body) -> CollisionType {
    match b {
        Body::Tank(_) => CollisionType::Tank,
        Body::Radar(_) => CollisionType::Radar,
        Body::Bullet(_) => CollisionType::Bullet,
        Body::Wall => CollisionType::Wall,
    }
}

/// The category of a body.
pub fn body_category(b: &Body) -> (r: CollisionType)
    ensures
        r == category(*b),
{
    match b {
        Body::Tank(_) => CollisionType::Tank,
        Body::Radar(_) => CollisionType::Radar,
        Body::Bullet(_) => CollisionType::Bullet,
        Body::Wall => CollisionType::Wall,
    }
}

pub open spec fn clamp(v: int, hi: int) -> int {
    if v < 0 {
        0
    } else if v > hi {
        hi
    } else {
        v
    }
}

/// A tank after one step: a live tank moves by its velocity and stops at
/// the walls; a destroyed tank stays where it is.
pub open spec fn moved(t: Tank, w: i64, h: i64) -> Tank {
    if t.alive() {
        Tank { x: clamp(t.x + t.vx, w as int) as i64, y: clamp(t.y + t.vy, h as int) as i64, ..t }
    } else {
        t
    }
}

/// Every tank after its move, before tanks that ran into each other are
/// stopped.
pub open spec fn moved_all(ts: Seq<Tank>, w: i64, h: i64) -> Seq<Tank> {
    Seq::new(ts.len(), |i: int| moved(ts[i], w, h))
}

/// Whether tank `i` overlaps some other live tank.
pub open spec fn touches_other(ts: Seq<Tank>, i: int) -> bool {
    exists|j: int| 0 <= j < ts.len() && j != i && tanks_touch(ts[i], #[trigger] ts[j])
}

/// Tank `i` after the step: a tank whose move ends overlapping another
/// live tank bounces, losing its move and its velocity; any other tank
/// keeps its move.
pub open spec fn settled(ts: Seq<Tank>, w: i64, h: i64, i: int) -> Tank {
    if touches_other(moved_all(ts, w, h), i) {
        Tank { vx: 0, vy: 0, ..ts[i] }
    } else {
        moved(ts[i], w, h)
    }
}

pub open spec fn settled_all(ts: Seq<Tank>, w: i64, h: i64) -> Seq<Tank> {
    Seq::new(ts.len(), |i: int| settled(ts, w, h, i))
}

/// Whether a live tank's step ran into a wall.
pub open spec fn hits_wall(t: Tank, w: i64, h: i64) -> bool {
    t.alive() && (t.x + t.vx < 0 || t.x + t.vx > w || t.y + t.vy < 0 || t.y + t.vy > h)
}

pub open spec fn dist2(ax: int, ay: int, bx: int, by: int) -> int {
    (ax - bx) * (ax - bx) + (ay - by) * (ay - by)
}

/// Whether two live tanks overlap.
pub open spec fn tanks_touch(a: Tank, b: Tank) -> bool {
    a.alive() && b.alive() && dist2(a.x as int, a.y as int, b.x as int, b.y as int) < 4 * TANK_RADIUS * TANK_RADIUS
}

/// Whether a bullet is inside the chassis of a live tank that did not fire it.
pub open spec fn bullet_in_tank(b: Bullet, t: Tank, ti: int) -> bool {
    t.alive() && b.owner != ti && dist2(b.x as int, b.y as int, t.x as int, t.y as int) <= TANK_RADIUS * TANK_RADIUS
}

pub open spec fn inside(b: Bullet, w: i64, h: i64) -> bool {
    0 <= b.x <= w && 0 <= b.y <= h
}

pub open spec fn flown(b: Bullet) -> Bullet {
    Bullet { x: (b.x + b.vx) as i64, y: (b.y + b.vy) as i64, ..b }
}

/// Half the width of a radar's beam where it ends, in pixels.
pub const RADAR_HALF_WIDTH: i64 = 25;

/// Whether tank `t` stands in the beam of `r`'s radar: a triangle with its
/// apex at `r`, pointing along the radar, `reach` world units long and
/// `RADAR_HALF_WIDTH` pixels either side at its far end.
pub open spec fn sees(r: Tank, t: Tank, reach: int) -> bool {
    let dx = t.x - r.x;
    let dy = t.y - r.y;
    let along = dir_x(r.radar.heading) * dx + dir_y(r.radar.heading) * dy;
    let across = dir_x(r.radar.heading) * dy - dir_y(r.radar.heading) * dx;
    &&& r.alive()
    &&& t.alive()
    &&& 0 <= along <= reach * UNIT
    &&& (if across < 0 { -across } else { across }) * reach <= RADAR_HALF_WIDTH * UNIT * along
}

/// The detections of radar `a` of the tanks before `q`, in order.
pub open spec fn radar_row(tanks: Seq<Tank>, a: int, q: int, reach: int) -> Seq<Contact>
    decreases q,
{
    if q <= 0 {
        seq![]
    } else if q - 1 != a && sees(tanks[a], tanks[q - 1], reach) {
        radar_row(tanks, a, q - 1, reach).push(Contact { a: Body::Radar(a as usize), b: Body::Tank((q - 1) as usize) })
    } else {
        radar_row(tanks, a, q - 1, reach)
    }
}

/// A live radar's beam is longer than the arena, so it always reaches the
/// wall.
pub open spec fn wall_seen(tanks: Seq<Tank>, a: int) -> Seq<Contact> {
    if tanks[a].alive() {
        seq![Contact { a: Body::Radar(a as usize), b: Body::Wall }]
    } else {
        seq![]
    }
}

/// The detections of the radars of the tanks before `p`, in order: for
/// each radar, the tanks in its beam, then the wall.
pub open spec fn radar_contacts(tanks: Seq<Tank>, p: int, reach: int) -> Seq<Contact>
    decreases p,
{
    if p <= 0 {
        seq![]
    } else {
        radar_contacts(tanks, p - 1, reach) + radar_row(tanks, p - 1, tanks.len() as int, reach) + wall_seen(
            tanks,
            p - 1,
        )
    }
}

/// Whether `t` stands in the beam of `r`'s radar.
fn radar_sees(r: &Tank, t: &Tank, reach: i64) -> (b: bool)
    requires
        r.radar.heading < HEADINGS,
        0 <= r.x <= ARENA_LIMIT,
        0 <= r.y <= ARENA_LIMIT,
        0 <= t.x <= ARENA_LIMIT,
        0 <= t.y <= ARENA_LIMIT,
        0 < reach <= 2 * ARENA_LIMIT,
    ensures
        b == sees(*r, *t, reach as int),
{
    if r.health == 0 || t.health == 0 {
        return false;
    }
    let (ux, uy) = direction(r.radar.heading);
    let dx = t.x - r.x;
    let dy = t.y - r.y;
    assert(-100 * ARENA_LIMIT <= ux * dx <= 100 * ARENA_LIMIT) by (nonlinear_arith)
        requires -100 <= ux <= 100, -ARENA_LIMIT <= dx <= ARENA_LIMIT;
    assert(-100 * ARENA_LIMIT <= uy * dy <= 100 * ARENA_LIMIT) by (nonlinear_arith)
        requires -100 <= uy <= 100, -ARENA_LIMIT <= dy <= ARENA_LIMIT;
    assert(-100 * ARENA_LIMIT <= ux * dy <= 100 * ARENA_LIMIT) by (nonlinear_arith)
        requires -100 <= ux <= 100, -ARENA_LIMIT <= dy <= ARENA_LIMIT;
    assert(-100 * ARENA_LIMIT <= uy * dx <= 100 * ARENA_LIMIT) by (nonlinear_arith)
        requires -100 <= uy <= 100, -ARENA_LIMIT <= dx <= ARENA_LIMIT;
    let along = ux * dx + uy * dy;
    let across = ux * dy - uy * dx;
    if along < 0 || along > reach * UNIT {
        return false;
    }
    let width = if across < 0 { -across } else { across };
    assert(0 <= width * reach <= 400 * ARENA_LIMIT * ARENA_LIMIT) by (nonlinear_arith)
        requires 0 <= width <= 200 * ARENA_LIMIT, 0 < reach <= 2 * ARENA_LIMIT;
    assert(0 <= RADAR_HALF_WIDTH * UNIT * along <= 2500 * 200 * ARENA_LIMIT) by (nonlinear_arith)
        requires 0 <= along <= 200 * ARENA_LIMIT;
    width * reach <= RADAR_HALF_WIDTH * UNIT * along
}

/// The wall bumps of the first `n` tanks, in order, from their positions
/// before the step.
pub open spec fn wall_bumps(tanks: Seq<Tank>, w: i64, h: i64, n: int) -> Seq<Contact>
    decreases n,
{
    if n <= 0 {
        seq![]
    } else if hits_wall(tanks[n - 1], w, h) {
        wall_bumps(tanks, w, h, n - 1).push(Contact { a: Body::Tank((n - 1) as usize), b: Body::Wall })
    } else {
        wall_bumps(tanks, w, h, n - 1)
    }
}

/// The bumps of tank `a` with the tanks after it and before `q`, in order.
pub open spec fn row_bumps(tanks: Seq<Tank>, a: int, q: int) -> Seq<Contact>
    decreases q - a,
{
    if q <= a + 1 {
        seq![]
    } else if tanks_touch(tanks[a], tanks[q - 1]) {
        row_bumps(tanks, a, q - 1).push(Contact { a: Body::Tank(a as usize), b: Body::Tank((q - 1) as usize) })
    } else {
        row_bumps(tanks, a, q - 1)
    }
}

/// The bumps between pairs of tanks whose first index is below `p`, in
/// order.
pub open spec fn pair_bumps(tanks: Seq<Tank>, p: int) -> Seq<Contact>
    decreases p,
{
    if p <= 0 {
        seq![]
    } else {
        pair_bumps(tanks, p - 1) + row_bumps(tanks, p - 1, tanks.len() as int)
    }
}

/// The index of the first tank among the first `n` that the bullet is
/// inside of, or -1.
pub open spec fn first_target(b: Bullet, tanks: Seq<Tank>, n: int) -> int
    decreases n,
{
    if n <= 0 {
        -1
    } else {
        let p = first_target(b, tanks, n - 1);
        if p >= 0 {
            p
        } else if bullet_in_tank(b, tanks[n - 1], n - 1) {
            n - 1
        } else {
            -1
        }
    }
}

/// What a bullet strikes in its step, if anything: the first tank it ends
/// up inside of, else the wall if it left the arena.
pub open spec fn strike_of(b: Bullet, tanks: Seq<Tank>, w: i64, h: i64) -> Option<Contact> {
    let f = flown(b);
    let t = first_target(f, tanks, tanks.len() as int);
    if t >= 0 {
        Some(Contact { a: Body::Tank(t as usize), b: Body::Bullet(f) })
    } else if !inside(f, w, h) {
        Some(Contact { a: Body::Bullet(f), b: Body::Wall })
    } else {
        None
    }
}

/// The strikes of a list of bullets, in order.
pub open spec fn strikes_of(bs: Seq<Bullet>, tanks: Seq<Tank>, w: i64, h: i64) -> Seq<Contact>
    decreases bs.len(),
{
    if bs.len() == 0 {
        seq![]
    } else {
        match strike_of(bs.last(), tanks, w, h) {
            Some(c) => strikes_of(bs.drop_last(), tanks, w, h).push(c),
            None => strikes_of(bs.drop_last(), tanks, w, h),
        }
    }
}

/// The bullets still in flight after a step: those that struck nothing
/// and have not flown their lifetime, moved on, in order.
pub open spec fn survivors_of(bs: Seq<Bullet>, tanks: Seq<Tank>, w: i64, h: i64, tick: u64) -> Seq<Bullet>
    decreases bs.len(),
{
    if bs.len() == 0 {
        seq![]
    } else if strike_of(bs.last(), tanks, w, h) is None && tick - bs.last().spawn_tick < BULLET_LIFETIME {
        survivors_of(bs.drop_last(), tanks, w, h, tick).push(flown(bs.last()))
    } else {
        survivors_of(bs.drop_last(), tanks, w, h, tick)
    }
}

/// Squared distance between two points of the arena's neighbourhood.
fn distance2(ax: i64, ay: i64, bx: i64, by: i64) -> (r: i64)
    requires
        -2 * ARENA_LIMIT <= ax <= 3 * ARENA_LIMIT,
        -2 * ARENA_LIMIT <= ay <= 3 * ARENA_LIMIT,
        -2 * ARENA_LIMIT <= bx <= 3 * ARENA_LIMIT,
        -2 * ARENA_LIMIT <= by <= 3 * ARENA_LIMIT,
    ensures
        r == dist2(ax as int, ay as int, bx as int, by as int),
{
    let dx = ax - bx;
    let dy = ay - by;
    assert(0 <= dx * dx <= 25 * ARENA_LIMIT * ARENA_LIMIT) by (nonlinear_arith)
        requires
            -5 * ARENA_LIMIT <= dx <= 5 * ARENA_LIMIT,
    ;
    assert(0 <= dy * dy <= 25 * ARENA_LIMIT * ARENA_LIMIT) by (nonlinear_arith)
        requires
            -5 * ARENA_LIMIT <= dy <= 5 * ARENA_LIMIT,
    ;
    dx * dx + dy * dy
}

impl World {
    /// Advances every body by one tick. Live tanks move and stop at the
    /// walls; tanks that reached a wall and pairs of live tanks that ended
    /// up overlapping are reported as bumps, and the overlapping ones bounce
    /// back to where they stood, at rest. Each bullet flies one step; one inside a live tank
    /// other than its owner strikes the first such tank, one outside the
    /// arena strikes the wall, and one that has flown its lifetime is
    /// dropped. A bullet that struck or was dropped leaves the store.
    pub fn step_physics(&mut self) -> (r: StepContacts)
        requires
            old(self).wf(),
        ensures
            final(self).wf(),
            final(self).tanks@.len() == old(self).tanks@.len(),
            final(self).tanks@ == settled_all(old(self).tanks@, old(self).width, old(self).height),
            final(self).tick == old(self).tick,
            final(self).next_bullet_id == old(self).next_bullet_id,
            final(self).width == old(self).width,
            final(self).height == old(self).height,
            final(self).sinks@ == old(self).sinks@,
            r.strikes@.len() + final(self).bullets@.len() <= old(self).bullets@.len(),
            r.bumps@ == wall_bumps(old(self).tanks@, old(self).width, old(self).height, old(self).tanks@.len() as int)
                + pair_bumps(moved_all(old(self).tanks@, old(self).width, old(self).height), old(self).tanks@.len() as int),
            r.strikes@ == strikes_of(old(self).bullets@, final(self).tanks@, old(self).width, old(self).height),
            final(self).bullets@ == survivors_of(
                old(self).bullets@,
                final(self).tanks@,
                old(self).width,
                old(self).height,
                old(self).tick,
            ),
            forall|k: int|
                0 <= k < r.bumps@.len() ==> #[trigger] bump_ok(
                    r.bumps@[k],
                    moved_all(old(self).tanks@, old(self).width, old(self).height),
                    *old(self),
                ),
            forall|k: int| 0 <= k < r.strikes@.len() ==> #[trigger] strike_ok(r.strikes@[k], final(self).tanks@, old(self).width, old(self).height),
            forall|k: int| 0 <= k < final(self).bullets@.len() ==> #[trigger] flying_ok(final(self).bullets@[k], final(self).tanks@, old(self).width, old(self).height, old(self).tick),
    {
        let ghost w0 = *self;
        let n = self.tanks.len();
        let w = self.width;
        let h = self.height;
        let mut bumps: Vec<Contact> = Vec::new();
        let mut before: Vec<Tank> = Vec::new();
        let mut i: usize = 0;
        while i < n
            invariant
                before@ == w0.tanks@.subrange(0, i as int),
                w0.wf(),
                n == w0.tanks@.len(),
                w == w0.width,
                h == w0.height,
                0 <= i <= n,
                self.width == w0.width,
                self.height == w0.height,
                self.tick == w0.tick,
                self.next_bullet_id == w0.next_bullet_id,
                self.sinks@ == w0.sinks@,
                self.bullets@ == w0.bullets@,
                self.tanks@.len() == n,
                forall|k: int| 0 <= k < i ==> #[trigger] self.tanks@[k] == moved(w0.tanks@[k], w, h),
                forall|k: int| i <= k < n ==> #[trigger] self.tanks@[k] == w0.tanks@[k],
                forall|k: int|
                    0 <= k < bumps@.len() ==> (#[trigger] bumps@[k]).a is Tank && (bumps@[k].a->Tank_0 as int) < i as int
                        && bumps@[k].b is Wall && hits_wall(w0.tanks@[bumps@[k].a->Tank_0 as int], w, h),
                bumps@ == wall_bumps(w0.tanks@, w, h, i as int),
            decreases n - i,
        {
            let t = self.tanks[i];
            before.push(t);
            assert(before@ =~= w0.tanks@.subrange(0, i + 1));
            if t.health > 0 {
                assert(w0.tanks@[i as int].wf(w, h, w0.spent()));
                let nx = t.x + t.vx;
                let ny = t.y + t.vy;
                let cx = if nx < 0 { 0 } else if nx > w { w } else { nx };
                let cy = if ny < 0 { 0 } else if ny > h { h } else { ny };
                self.tanks[i] = Tank { x: cx, y: cy, ..t };
                if nx < 0 || nx > w || ny < 0 || ny > h {
                    bumps.push(Contact { a: Body::Tank(i), b: Body::Wall });
                }
            }
            i = i + 1;
        }
        proof {
            assert forall|k: int| 0 <= k < bumps@.len() implies #[trigger] bump_ok(bumps@[k], self.tanks@, w0) by {
                let idx = bumps@[k].a->Tank_0 as int;
                assert(self.tanks@[idx] == moved(w0.tanks@[idx], w, h));
            }
        }
        let mut p: usize = 0;
        while p < n
            invariant
                w0.wf(),
                n == w0.tanks@.len(),
                0 <= p <= n,
                self.width == w0.width,
                self.height == w0.height,
                self.tick == w0.tick,
                self.next_bullet_id == w0.next_bullet_id,
                self.sinks@ == w0.sinks@,
                self.bullets@ == w0.bullets@,
                self.tanks@.len() == n,
                forall|k: int| 0 <= k < n ==> #[trigger] self.tanks@[k] == moved(w0.tanks@[k], w0.width, w0.height),
                forall|k: int| 0 <= k < bumps@.len() ==> #[trigger] bump_ok(bumps@[k], self.tanks@, w0),
                bumps@ == wall_bumps(w0.tanks@, w0.width, w0.height, n as int) + pair_bumps(self.tanks@, p as int),
            decreases n - p,
        {
            let mut q: usize = p + 1;
            assert(bumps@ =~= wall_bumps(w0.tanks@, w0.width, w0.height, n as int) + pair_bumps(self.tanks@, p as int)
                + row_bumps(self.tanks@, p as int, q as int));
            while q < n
                invariant
                    w0.wf(),
                    n == w0.tanks@.len(),
                    0 <= p < n,
                    p < q <= n,
                    self.width == w0.width,
                    self.height == w0.height,
                    self.tanks@.len() == n,
                    forall|k: int| 0 <= k < n ==> #[trigger] self.tanks@[k] == moved(w0.tanks@[k], w0.width, w0.height),
                    forall|k: int| 0 <= k < bumps@.len() ==> #[trigger] bump_ok(bumps@[k], self.tanks@, w0),
                    bumps@ == wall_bumps(w0.tanks@, w0.width, w0.height, n as int) + pair_bumps(self.tanks@, p as int)
                        + row_bumps(self.tanks@, p as int, q as int),
                decreases n - q,
            {
                let a = self.tanks[p];
                let b = self.tanks[q];
                proof {
                    lemma_moved_in_arena(w0, p as int);
                    lemma_moved_in_arena(w0, q as int);
                }
                if a.health > 0 && b.health > 0 {
                    let d = distance2(a.x, a.y, b.x, b.y);
                    if d < 4 * TANK_RADIUS * TANK_RADIUS {
                        bumps.push(Contact { a: Body::Tank(p), b: Body::Tank(q) });
                    }
                }
                q = q + 1;
            }
            assert(wall_bumps(w0.tanks@, w0.width, w0.height, n as int) + pair_bumps(self.tanks@, p + 1) =~= wall_bumps(
                w0.tanks@,
                w0.width,
                w0.height,
                n as int,
            ) + pair_bumps(self.tanks@, p as int) + row_bumps(self.tanks@, p as int, n as int));
            p = p + 1;
        }
        assert(before@ =~= w0.tanks@);
        let ghost mv = self.tanks@;
        assert(mv =~= moved_all(w0.tanks@, w0.width, w0.height));
        let mut touching: Vec<bool> = Vec::new();
        let mut a: usize = 0;
        while a < n
            invariant
                w0.wf(),
                n == w0.tanks@.len(),
                0 <= a <= n,
                self.tanks@ == mv,
                mv == moved_all(w0.tanks@, w0.width, w0.height),
                touching@.len() == a,
                forall|k: int| 0 <= k < a ==> #[trigger] touching@[k] == touches_other(mv, k),
            decreases n - a,
        {
            let mut found = false;
            let mut b: usize = 0;
            while b < n
                invariant
                    w0.wf(),
                    n == w0.tanks@.len(),
                    0 <= a < n,
                    0 <= b <= n,
                    self.tanks@ == mv,
                    mv == moved_all(w0.tanks@, w0.width, w0.height),
                    found <==> exists|j: int| 0 <= j < b && j != a && tanks_touch(mv[a as int], #[trigger] mv[j]),
                decreases n - b,
            {
                if b != a {
                    let ta = self.tanks[a];
                    let tb = self.tanks[b];
                    proof {
                        lemma_moved_in_arena(w0, a as int);
                        lemma_moved_in_arena(w0, b as int);
                    }
                    if ta.health > 0 && tb.health > 0 {
                        let d = distance2(ta.x, ta.y, tb.x, tb.y);
                        if d < 4 * TANK_RADIUS * TANK_RADIUS {
                            found = true;
                        }
                    }
                }
                proof {
                    if found {
                        let jw = choose|j: int| 0 <= j < b + 1 && j != a && tanks_touch(mv[a as int], #[trigger] mv[j]);
                        assert(0 <= jw < b + 1 && jw != a && tanks_touch(mv[a as int], mv[jw]));
                    }
                }
                b = b + 1;
            }
            touching.push(found);
            a = a + 1;
        }
        let mut c: usize = 0;
        while c < n
            invariant
                w0.wf(),
                n == w0.tanks@.len(),
                0 <= c <= n,
                before@ == w0.tanks@,
                mv == moved_all(w0.tanks@, w0.width, w0.height),
                touching@.len() == n,
                forall|k: int| 0 <= k < n ==> #[trigger] touching@[k] == touches_other(mv, k),
                self.tanks@.len() == n,
                forall|k: int| 0 <= k < c ==> #[trigger] self.tanks@[k] == settled(w0.tanks@, w0.width, w0.height, k),
                forall|k: int| c <= k < n ==> #[trigger] self.tanks@[k] == mv[k],
                self.width == w0.width,
                self.height == w0.height,
                self.tick == w0.tick,
                self.next_bullet_id == w0.next_bullet_id,
                self.sinks@ == w0.sinks@,
                self.bullets@ == w0.bullets@,
            decreases n - c,
        {
            if touching[c] {
                let t0 = before[c];
                self.tanks[c] = Tank { vx: 0, vy: 0, ..t0 };
            }
            c = c + 1;
        }
        assert(self.tanks@ =~= settled_all(w0.tanks@, w0.width, w0.height));
        let mut old_bullets: Vec<Bullet> = Vec::new();
        std::mem::swap(&mut old_bullets, &mut self.bullets);
        let mut strikes: Vec<Contact> = Vec::new();
        let nb = old_bullets.len();
        let mut j: usize = 0;
        while j < nb
            invariant
                w0.wf(),
                n == w0.tanks@.len(),
                old_bullets@ == w0.bullets@,
                nb == old_bullets@.len(),
                0 <= j <= nb,
                self.width == w0.width,
                self.height == w0.height,
                self.tick == w0.tick,
                self.next_bullet_id == w0.next_bullet_id,
                self.sinks@ == w0.sinks@,
                self.tanks@.len() == n,
                self.tanks@ == settled_all(w0.tanks@, w0.width, w0.height),
                mv == moved_all(w0.tanks@, w0.width, w0.height),
                strikes@.len() + self.bullets@.len() <= j,
                strikes@ == strikes_of(old_bullets@.subrange(0, j as int), self.tanks@, w0.width, w0.height),
                self.bullets@ == survivors_of(old_bullets@.subrange(0, j as int), self.tanks@, w0.width, w0.height, w0.tick),
                forall|k: int| 0 <= k < bumps@.len() ==> #[trigger] bump_ok(bumps@[k], mv, w0),
                bumps@ == wall_bumps(w0.tanks@, w0.width, w0.height, n as int) + pair_bumps(mv, n as int),
                forall|k: int| 0 <= k < strikes@.len() ==> #[trigger] strike_ok(strikes@[k], self.tanks@, w0.width, w0.height),
                forall|k: int| 0 <= k < self.bullets@.len() ==> #[trigger] flying_ok(self.bullets@[k], self.tanks@, w0.width, w0.height, w0.tick),
            decreases nb - j,
        {
            let b0 = old_bullets[j];
            assert(old_bullets@.subrange(0, j + 1).drop_last() =~= old_bullets@.subrange(0, j as int));
            assert(w0.bullets@[j as int].wf(n as nat, w0.tick));
            let b = Bullet { x: b0.x + b0.vx, y: b0.y + b0.vy, ..b0 };
            let mut target: usize = n;
            let mut t: usize = 0;
            while t < n
                invariant
                    w0.wf(),
                    n == w0.tanks@.len(),
                    0 <= t <= n,
                    self.tanks@.len() == n,
                    self.tanks@ == settled_all(w0.tanks@, w0.width, w0.height),
                    -2 * ARENA_LIMIT <= b.x <= 3 * ARENA_LIMIT,
                    -2 * ARENA_LIMIT <= b.y <= 3 * ARENA_LIMIT,
                    target == n || (target < t && bullet_in_tank(b, self.tanks@[target as int], target as int)),
                    target == n <==> first_target(b, self.tanks@, t as int) < 0,
                    target < n ==> target == first_target(b, self.tanks@, t as int),
                    target == n ==> forall|k: int| 0 <= k < t ==> !bullet_in_tank(b, #[trigger] self.tanks@[k], k),
                decreases n - t,
            {
                if target == n {
                    let tk = self.tanks[t];
                    proof {
                        lemma_settled_in_arena(w0, t as int);
                    }
                    if tk.health > 0 && b.owner != t {
                        let d = distance2(b.x, b.y, tk.x, tk.y);
                        if d <= TANK_RADIUS * TANK_RADIUS {
                            target = t;
                        }
                    }
                }
                t = t + 1;
            }
            if target < n {
                strikes.push(Contact { a: Body::Tank(target), b: Body::Bullet(b) });
            } else if b.x < 0 || b.x > self.width || b.y < 0 || b.y > self.height {
                strikes.push(Contact { a: Body::Bullet(b), b: Body::Wall });
            } else if self.tick - b.spawn_tick < BULLET_LIFETIME {
                self.bullets.push(b);
            }
            j = j + 1;
        }
        assert(old_bullets@.subrange(0, nb as int) =~= old_bullets@);
        proof {
            assert forall|k: int| 0 <= k < n implies #[trigger] self.tanks@[k].wf(
                self.width,
                self.height,
                self.spent(),
            ) by {
                lemma_settled_in_arena(w0, k);
            }
            assert forall|k: int| 0 <= k < self.bullets@.len() implies #[trigger] self.bullets@[k].wf(
                n as nat,
                self.tick,
            ) by {
                assert(flying_ok(self.bullets@[k], self.tanks@, w0.width, w0.height, w0.tick));
            }
        }
        StepContacts { bumps, strikes }
    }
}

impl World {
    /// What each live tank's radar senses: one detection for every other
    /// live tank in its beam, then one of the wall, radar by radar in index
    /// order. The beam reaches across the whole arena.
    pub fn sense_radars(&self) -> (r: Vec<Contact>)
        requires
            self.wf(),
        ensures
            r@ == radar_contacts(self.tanks@, self.tanks@.len() as int, self.width + self.height),
    {
        let n = self.tanks.len();
        let reach = self.width + self.height;
        let mut out: Vec<Contact> = Vec::new();
        let mut p: usize = 0;
        while p < n
            invariant
                self.wf(),
                n == self.tanks@.len(),
                reach == self.width + self.height,
                0 <= p <= n,
                out@ == radar_contacts(self.tanks@, p as int, reach as int),
            decreases n - p,
        {
            let mut q: usize = 0;
            assert(out@ =~= radar_contacts(self.tanks@, p as int, reach as int) + radar_row(self.tanks@, p as int, 0, reach as int));
            while q < n
                invariant
                    self.wf(),
                    n == self.tanks@.len(),
                    reach == self.width + self.height,
                    0 <= p < n,
                    0 <= q <= n,
                    out@ == radar_contacts(self.tanks@, p as int, reach as int) + radar_row(self.tanks@, p as int, q as int, reach as int),
                decreases n - q,
            {
                assert(self.tanks@[p as int].wf(self.width, self.height, self.spent()));
                assert(self.tanks@[q as int].wf(self.width, self.height, self.spent()));
                if q != p && radar_sees(&self.tanks[p], &self.tanks[q], reach) {
                    out.push(Contact { a: Body::Radar(p), b: Body::Tank(q) });
                }
                q = q + 1;
            }
            if self.tanks[p].health > 0 {
                out.push(Contact { a: Body::Radar(p), b: Body::Wall });
            }
            assert(out@ =~= radar_contacts(self.tanks@, p + 1, reach as int));
            p = p + 1;
        }
        out
    }
}

proof fn lemma_settled_in_arena(w0: World, i: int)
    requires
        w0.wf(),
        0 <= i < w0.tanks@.len(),
    ensures
        settled(w0.tanks@, w0.width, w0.height, i).wf(w0.width, w0.height, w0.spent()),
        settled(w0.tanks@, w0.width, w0.height, i).alive() == w0.tanks@[i].alive(),
{
    assert(w0.tanks@[i].wf(w0.width, w0.height, w0.spent()));
}

proof fn lemma_moved_in_arena(w0: World, i: int)
    requires
        w0.wf(),
        0 <= i < w0.tanks@.len(),
    ensures
        0 <= moved(w0.tanks@[i], w0.width, w0.height).x <= w0.width,
        0 <= moved(w0.tanks@[i], w0.width, w0.height).y <= w0.height,
        moved(w0.tanks@[i], w0.width, w0.height).alive() == w0.tanks@[i].alive(),
{
    assert(w0.tanks@[i].wf(w0.width, w0.height, w0.spent()));
}

/// A bump is two live tanks that overlap, or a live tank that reached a wall.
pub open spec fn bump_ok(c: Contact, tanks: Seq<Tank>, w0: World) -> bool {
    match (c.a, c.b) {
        (Body::Tank(i), Body::Wall) => i < tanks.len() && tanks[i as int].alive() && hits_wall(
            w0.tanks@[i as int],
            w0.width,
            w0.height,
        ),
        (Body::Tank(i), Body::Tank(j)) => i < j < tanks.len() && tanks_touch(tanks[i as int], tanks[j as int]),
        _ => false,
    }
}

/// A strike is a bullet inside a live tank that did not fire it, or a
/// bullet that left the arena.
pub open spec fn strike_ok(c: Contact, tanks: Seq<Tank>, w: i64, h: i64) -> bool {
    match (c.a, c.b) {
        (Body::Tank(t), Body::Bullet(b)) => t < tanks.len() && b.owner < tanks.len() && bullet_in_tank(
            b,
            tanks[t as int],
            t as int,
        ),
        (Body::Bullet(b), Body::Wall) => !inside(b, w, h),
        _ => false,
    }
}

/// A bullet still flying is inside the arena, within its lifetime, and in
/// no live tank but its owner.
pub open spec fn flying_ok(b: Bullet, tanks: Seq<Tank>, w: i64, h: i64, tick: u64) -> bool {
    &&& inside(b, w, h)
    &&& b.wf(tanks.len(), tick)
    &&& tick - b.spawn_tick < BULLET_LIFETIME
    &&& forall|k: int| 0 <= k < tanks.len() ==> !bullet_in_tank(b, #[trigger] tanks[k], k)
}

} // verus!
