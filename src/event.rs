use vstd::prelude::*;
use crate::mask::CollisionType;

verus! {

/// Where a body stood when an event was recorded: world units, and its
/// heading in eighths of a turn.
#[derive(Clone, Copy, Debug, PartialEq, Eq, Structural)]
pub struct TransformSnapshot {
    pub x: i64,
    pub y: i64,
    pub rotation: u32,
}

/// How a body moved when an event was recorded: world units per tick, and
/// eighths of a turn per tick.
#[derive(Clone, Copy, Debug, PartialEq, Eq, Structural)]
pub struct VelocitySnapshot {
    pub linvel_x: i64,
    pub linvel_y: i64,
    pub angvel: i64,
}

impl VelocitySnapshot {
    /// A body at rest.
    pub fn zero() -> (r: VelocitySnapshot)
        ensures
            r == (VelocitySnapshot { linvel_x: 0, linvel_y: 0, angvel: 0 }),
    {
        VelocitySnapshot { linvel_x: 0, linvel_y: 0, angvel: 0 }
    }
}

/// What an event says about the collision it records.
#[derive(Clone, Copy, Debug, PartialEq, Eq, Structural)]
pub struct EventInfo {
    pub collision_type: CollisionType,
    pub entity: u64,
    pub transform: TransformSnapshot,
    pub velocity: VelocitySnapshot,
}

/// One combat event, as handed to the match log.
#[derive(Clone, Debug)]
pub struct Event {
    pub event_type: String,
    pub info: EventInfo,
}

/// The events generated for one tank during the current tick, oldest first.
pub struct EventSink {
    pub queue: Vec<Event>,
}

pub open spec fn hit_event_type() -> Seq<char> {
    seq!['h', 'i', 't']
}

/// The record of a hit on `entity`: a body without a velocity counts as
/// one at rest.
pub open spec fn hit_info(
    entity: u64,
    transform: TransformSnapshot,
    velocity: Option<VelocitySnapshot>,
    collision_type: CollisionType,
) -> EventInfo {
    EventInfo {
        collision_type,
        entity,
        transform,
        velocity: match velocity {
            Some(v) => v,
            None => VelocitySnapshot { linvel_x: 0, linvel_y: 0, angvel: 0 },
        },
    }
}

impl EventSink {
    /// An empty sink.
    pub fn default() -> (r: EventSink)
        ensures
            r.queue@.len() == 0,
    {
        EventSink { queue: Vec::new() }
    }

    /// Hands out the queued events, oldest first, and leaves the sink empty.
    pub fn drain(&mut self) -> (r: Vec<Event>)
        ensures
            r@ == old(self).queue@,
            final(self).queue@.len() == 0,
    {
        let mut out: Vec<Event> = Vec::new();
        std::mem::swap(&mut out, &mut self.queue);
        out
    }
}

/// Appends to `event_sink` a hit event about `entity_of_interest`, with a
/// snapshot of where it stood and how it moved.
pub fn generate_event(
    event_sink: &mut EventSink,
    entity_of_interest: u64,
    transform_of_interest: &TransformSnapshot,
    velocity_of_interest: Option<&VelocitySnapshot>,
    collision_type: &CollisionType,
)
    ensures
        final(event_sink).queue@.len() == old(event_sink).queue@.len() + 1,
        final(event_sink).queue@.drop_last() == old(event_sink).queue@,
        final(event_sink).queue@.last().event_type@ == hit_event_type(),
        final(event_sink).queue@.last().info == hit_info(
            entity_of_interest,
            *transform_of_interest,
            match velocity_of_interest {
                Some(v) => Some(*v),
                None => None,
            },
            *collision_type,
        ),
{
    let vel = match velocity_of_interest {
        Some(v) => *v,
        None => VelocitySnapshot::zero(),
    };
    let event_type = "hit".to_owned();
    proof {
        reveal_strlit("hit");
    }
    event_sink.queue.push(
        Event {
            event_type,
            info: EventInfo {
                collision_type: *collision_type,
                entity: entity_of_interest,
                transform: *transform_of_interest,
                velocity: vel,
            },
        },
    );
}

} // verus!
