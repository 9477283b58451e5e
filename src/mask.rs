use vstd::prelude::*;

verus! {

/// Bit for bodies that belong to no category.
pub const MASK_NONE: u32 = 0;

/// Bit for tank chassis bodies.
pub const MASK_TANK: u32 = 1;

/// Bit for radar sensor bodies.
pub const MASK_RADAR: u32 = 2;

/// Bit for bullet bodies.
pub const MASK_BULLET: u32 = 4;

/// Bit for the static arena walls.
pub const MASK_WALL: u32 = 8;

/// The category of a body taking part in collision detection.
#[derive(Clone, Copy, Debug, PartialEq, Eq, Structural)]
pub enum CollisionType {
    Tank,
    Radar,
    Bullet,
    Wall,
}

/// The meaning of a contact between two bodies.
#[derive(Clone, Copy, Debug, PartialEq, Eq, Structural)]
pub enum ContactKind {
    /// A bullet struck a tank: the only contact that deals damage.
    Hit,
    /// A tank bounced off a wall.
    TankWall,
    /// A bullet reached a wall and is spent.
    BulletWall,
    /// Two tanks bounced off each other.
    TankTank,
    /// A radar sensed a body; nothing is destroyed.
    Detection,
    /// A pair that the masks do not let interact.
    Ignored,
}

pub open spec fn membership_spec(c: CollisionType) -> u32 {
    match c {
        CollisionType::Tank => MASK_TANK,
        CollisionType::Radar => MASK_RADAR,
        CollisionType::Bullet => MASK_BULLET,
        CollisionType::Wall => MASK_WALL,
    }
}

pub open spec fn filter_spec(c: CollisionType) -> u32 {
    match c {
        CollisionType::Tank => MASK_TANK | MASK_BULLET | MASK_WALL | MASK_RADAR,
        CollisionType::Radar => MASK_TANK | MASK_BULLET | MASK_WALL,
        CollisionType::Bullet => MASK_TANK | MASK_WALL,
        CollisionType::Wall => MASK_TANK | MASK_BULLET | MASK_RADAR,
    }
}

/// Which pairs of categories may touch: a radar never meets another radar,
/// a bullet meets only tanks and walls, and walls never meet walls.
pub open spec fn permitted(a: CollisionType, b: CollisionType) -> bool {
    match (a, b) {
        (CollisionType::Radar, CollisionType::Radar) => false,
        (CollisionType::Wall, CollisionType::Wall) => false,
        (CollisionType::Bullet, CollisionType::Bullet) => false,
        (CollisionType::Bullet, CollisionType::Radar) => false,
        (CollisionType::Radar, CollisionType::Bullet) => false,
        _ => true,
    }
}

pub open spec fn classify_spec(a: CollisionType, b: CollisionType) -> ContactKind {
    if !permitted(a, b) {
        ContactKind::Ignored
    } else {
        match (a, b) {
            (CollisionType::Tank, CollisionType::Bullet) => ContactKind::Hit,
            (CollisionType::Bullet, CollisionType::Tank) => ContactKind::Hit,
            (CollisionType::Tank, CollisionType::Wall) => ContactKind::TankWall,
            (CollisionType::Wall, CollisionType::Tank) => ContactKind::TankWall,
            (CollisionType::Bullet, CollisionType::Wall) => ContactKind::BulletWall,
            (CollisionType::Wall, CollisionType::Bullet) => ContactKind::BulletWall,
            (CollisionType::Tank, CollisionType::Tank) => ContactKind::TankTank,
            _ => ContactKind::Detection,
        }
    }
}

/// The category bit that a body of this kind carries.
pub fn membership(c: CollisionType) -> (r: u32)
    ensures
        r == membership_spec(c),
{
    match c {
        CollisionType::Tank => MASK_TANK,
        CollisionType::Radar => MASK_RADAR,
        CollisionType::Bullet => MASK_BULLET,
        CollisionType::Wall => MASK_WALL,
    }
}

/// The categories that a body of this kind collides with.
pub fn filter(c: CollisionType) -> (r: u32)
    ensures
        r == filter_spec(c),
{
    match c {
        CollisionType::Tank => MASK_TANK | MASK_BULLET | MASK_WALL | MASK_RADAR,
        CollisionType::Radar => MASK_TANK | MASK_BULLET | MASK_WALL,
        CollisionType::Bullet => MASK_TANK | MASK_WALL,
        CollisionType::Wall => MASK_TANK | MASK_BULLET | MASK_RADAR,
    }
}

/// Two bodies interact when each one's filter admits the other's category.
pub fn interacts(a: CollisionType, b: CollisionType) -> (r: bool)
    ensures
        r == permitted(a, b),
{
    let ma = membership(a);
    let mb = membership(b);
    let fa = filter(a);
    let fb = filter(b);
    let r = (ma & fb) != 0 && (mb & fa) != 0;
    assert({
        &&& 1u32 | 4u32 | 8u32 | 2u32 == 15u32
        &&& 1u32 | 4u32 | 8u32 == 13u32
        &&& 1u32 | 8u32 == 9u32
        &&& 1u32 | 4u32 | 2u32 == 7u32
        &&& 1u32 & 15u32 == 1u32
        &&& 1u32 & 13u32 == 1u32
        &&& 1u32 & 9u32 == 1u32
        &&& 1u32 & 7u32 == 1u32
        &&& 2u32 & 15u32 == 2u32
        &&& 2u32 & 13u32 == 0u32
        &&& 2u32 & 9u32 == 0u32
        &&& 2u32 & 7u32 == 2u32
        &&& 4u32 & 15u32 == 4u32
        &&& 4u32 & 13u32 == 4u32
        &&& 4u32 & 9u32 == 0u32
        &&& 4u32 & 7u32 == 4u32
        &&& 8u32 & 15u32 == 8u32
        &&& 8u32 & 13u32 == 8u32
        &&& 8u32 & 9u32 == 8u32
        &&& 8u32 & 7u32 == 0u32
    }) by (bit_vector);
    r
}

/// Classifies a contact from the categories of its two bodies, in either order.
pub fn classify(a: CollisionType, b: CollisionType) -> (r: ContactKind)
    ensures
        r == classify_spec(a, b),
        r == classify_spec(b, a),
{
    if !interacts(a, b) {
        return ContactKind::Ignored;
    }
    match (a, b) {
        (CollisionType::Tank, CollisionType::Bullet) => ContactKind::Hit,
        (CollisionType::Bullet, CollisionType::Tank) => ContactKind::Hit,
        (CollisionType::Tank, CollisionType::Wall) => ContactKind::TankWall,
        (CollisionType::Wall, CollisionType::Tank) => ContactKind::TankWall,
        (CollisionType::Bullet, CollisionType::Wall) => ContactKind::BulletWall,
        (CollisionType::Wall, CollisionType::Bullet) => ContactKind::BulletWall,
        (CollisionType::Tank, CollisionType::Tank) => ContactKind::TankTank,
        _ => ContactKind::Detection,
    }
}

} // verus!
