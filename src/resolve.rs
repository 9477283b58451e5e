use vstd::prelude::*;
use crate::event::{generate_event, hit_event_type, hit_info, EventInfo, EventSink, TransformSnapshot, VelocitySnapshot};
use crate::mask::{classify, classify_spec, CollisionType, ContactKind};
use crate::physics::{body_category, category, Body, Contact, StepContacts};
use crate::world::{Tank, World, BULLET_ID_LIMIT, HIT_DAMAGE, MAX_HEALTH};

verus! {

/// A bullet of `attacker` struck `target`.
#[derive(Clone, Copy, Debug, PartialEq, Eq, Structural)]
pub struct Hit {
    pub target: usize,
    pub attacker: usize,
}

/// The hit that a contact records, if it is one.
pub open spec fn hit_of(c: Contact) -> Option<Hit> {
    if classify_spec(category(c.a), category(c.b)) == ContactKind::Hit {
        match (c.a, c.b) {
            (Body::Tank(t), Body::Bullet(b)) => Some(Hit { target: t, attacker: b.owner }),
            (Body::Bullet(b), Body::Tank(t)) => Some(Hit { target: t, attacker: b.owner }),
            _ => None,
        }
    } else {
        None
    }
}

/// The hits among a list of contacts, in order.
pub open spec fn hits_of(s: Seq<Contact>) -> Seq<Hit>
    decreases s.len(),
{
    if s.len() == 0 {
        seq![]
    } else {
        match hit_of(s.last()) {
            Some(h) => hits_of(s.drop_last()).push(h),
            None => hits_of(s.drop_last()),
        }
    }
}

/// The record of a hit on tank `i`: where it stands, its heading, and how
/// it moves.
pub open spec fn tank_event_info(t: Tank, i: int) -> EventInfo {
    hit_info(
        i as u64,
        TransformSnapshot { x: t.x, y: t.y, rotation: t.heading },
        Some(VelocitySnapshot { linvel_x: t.vx, linvel_y: t.vy, angvel: 0 }),
        CollisionType::Bullet,
    )
}

/// The sink `q` is `q0` followed by hit events about tank `i` only.
pub open spec fn extended_with_hits(q: EventSink, q0: EventSink, t: Tank, i: int) -> bool {
    &&& q0.queue@.len() <= q.queue@.len()
    &&& q.queue@.subrange(0, q0.queue@.len() as int) == q0.queue@
    &&& forall|m: int|
        q0.queue@.len() <= m < q.queue@.len() ==> (#[trigger] q.queue@[m]).info == tank_event_info(t, i)
            && q.queue@[m].event_type@ == hit_event_type()
}

/// How many of the hits struck tank `i`.
pub open spec fn count_target(s: Seq<Hit>, i: int) -> nat
    decreases s.len(),
{
    if s.len() == 0 {
        0
    } else {
        count_target(s.drop_last(), i) + if s.last().target == i { 1nat } else { 0nat }
    }
}

/// How many of the hits were scored by tank `i`.
pub open spec fn count_attacker(s: Seq<Hit>, i: int) -> nat
    decreases s.len(),
{
    if s.len() == 0 {
        0
    } else {
        count_attacker(s.drop_last(), i) + if s.last().attacker == i { 1nat } else { 0nat }
    }
}

/// Health after `damage`, floored at zero.
pub open spec fn damaged(health: u32, damage: int) -> u32 {
    if health >= damage {
        (health - damage) as u32
    } else {
        0
    }
}

pub proof fn lemma_count_attacker_le(s: Seq<Hit>, i: int)
    ensures
        count_attacker(s, i) <= s.len(),
    decreases s.len(),
{
    if s.len() > 0 {
        lemma_count_attacker_le(s.drop_last(), i);
    }
}

pub proof fn lemma_hits_of_le(s: Seq<Contact>)
    ensures
        hits_of(s).len() <= s.len(),
    decreases s.len(),
{
    if s.len() > 0 {
        lemma_hits_of_le(s.drop_last());
    }
}

/// The hit that a contact records, if it is one.
pub fn contact_hit(c: &Contact) -> (r: Option<Hit>)
    ensures
        r == hit_of(*c),
{
    let kind = classify(body_category(&c.a), body_category(&c.b));
    if kind != ContactKind::Hit {
        return None;
    }
    match (c.a, c.b) {
        (Body::Tank(t), Body::Bullet(b)) => Some(Hit { target: t, attacker: b.owner }),
        (Body::Bullet(b), Body::Tank(t)) => Some(Hit { target: t, attacker: b.owner }),
        _ => None,
    }
}

impl World {
    /// Classifies the contacts that spent a bullet. For each hit, in order,
    /// an event about the struck tank, with its position, heading and
    /// velocity, is appended to that tank's sink. Returns the hits.
    pub fn classify_strikes(&mut self, contacts: &StepContacts) -> (r: Vec<Hit>)
        requires
            old(self).wf(),
            forall|k: int|
                0 <= k < contacts.strikes@.len() ==> (#[trigger] hit_of(contacts.strikes@[k])) is Some
                    ==> hit_of(contacts.strikes@[k])->Some_0.target < old(self).tanks@.len()
                    && hit_of(contacts.strikes@[k])->Some_0.attacker < old(self).tanks@.len(),
        ensures
            final(self).wf(),
            r@ == hits_of(contacts.strikes@),
            final(self).tanks@ == old(self).tanks@,
            final(self).bullets@ == old(self).bullets@,
            final(self).tick == old(self).tick,
            final(self).next_bullet_id == old(self).next_bullet_id,
            final(self).width == old(self).width,
            final(self).height == old(self).height,
            final(self).sinks@.len() == old(self).sinks@.len(),
            forall|i: int|
                0 <= i < old(self).sinks@.len() ==> #[trigger] final(self).sinks@[i].queue@.len()
                    == old(self).sinks@[i].queue@.len() + count_target(r@, i),
            forall|i: int|
                0 <= i < old(self).sinks@.len() ==> extended_with_hits(
                    #[trigger] final(self).sinks@[i],
                    old(self).sinks@[i],
                    old(self).tanks@[i],
                    i,
                ),
    {
        let ghost w0 = *self;
        let s = &contacts.strikes;
        let mut hits: Vec<Hit> = Vec::new();
        let mut k: usize = 0;
        assert forall|i: int| 0 <= i < w0.sinks@.len() implies extended_with_hits(
            #[trigger] self.sinks@[i],
            w0.sinks@[i],
            w0.tanks@[i],
            i,
        ) by {
            assert(w0.sinks@[i].queue@.subrange(0, w0.sinks@[i].queue@.len() as int) =~= w0.sinks@[i].queue@);
        }
        while k < s.len()
            invariant
                w0.wf(),
                0 <= k <= s@.len(),
                s@ == contacts.strikes@,
                forall|m: int|
                    0 <= m < s@.len() ==> (#[trigger] hit_of(s@[m])) is Some ==> hit_of(s@[m])->Some_0.target
                        < w0.tanks@.len() && hit_of(s@[m])->Some_0.attacker < w0.tanks@.len(),
                hits@ == hits_of(s@.subrange(0, k as int)),
                self.tanks@ == w0.tanks@,
                self.bullets@ == w0.bullets@,
                self.tick == w0.tick,
                self.next_bullet_id == w0.next_bullet_id,
                self.width == w0.width,
                self.height == w0.height,
                self.sinks@.len() == w0.sinks@.len(),
                forall|i: int|
                    0 <= i < w0.sinks@.len() ==> #[trigger] self.sinks@[i].queue@.len()
                        == w0.sinks@[i].queue@.len() + count_target(hits@, i),
                forall|i: int|
                    0 <= i < w0.sinks@.len() ==> extended_with_hits(
                        #[trigger] self.sinks@[i],
                        w0.sinks@[i],
                        w0.tanks@[i],
                        i,
                    ),
            decreases s@.len() - k,
        {
            let c = s[k];
            assert(s@.subrange(0, k + 1).drop_last() =~= s@.subrange(0, k as int));
            let h = contact_hit(&c);
            match h {
                Some(hit) => {
                    let t: Tank = self.tanks[hit.target];
                    let ghost before = self.sinks;
                    let transform = TransformSnapshot { x: t.x, y: t.y, rotation: t.heading };
                    let velocity = VelocitySnapshot { linvel_x: t.vx, linvel_y: t.vy, angvel: 0 };
                    generate_event(
                        &mut self.sinks[hit.target],
                        hit.target as u64,
                        &transform,
                        Some(&velocity),
                        &CollisionType::Bullet,
                    );
                    hits.push(hit);
                    proof {
                        let ti = hit.target as int;
                        let q = self.sinks@[ti].queue@;
                        let q0 = w0.sinks@[ti].queue@;
                        assert(q.drop_last() == before@[ti].queue@);
                        assert(extended_with_hits(before@[ti], w0.sinks@[ti], w0.tanks@[ti], ti));
                        assert(q.subrange(0, q0.len() as int) =~= before@[ti].queue@.subrange(0, q0.len() as int));
                        assert forall|m: int| q0.len() <= m < q.len() implies (#[trigger] q[m]).info == tank_event_info(
                            w0.tanks@[ti],
                            ti,
                        ) && q[m].event_type@ == hit_event_type() by {
                            if m < q.len() - 1 {
                                assert(q[m] == before@[ti].queue@[m]);
                            }
                        }
                        assert forall|i: int| 0 <= i < w0.sinks@.len() implies extended_with_hits(
                            #[trigger] self.sinks@[i],
                            w0.sinks@[i],
                            w0.tanks@[i],
                            i,
                        ) by {
                            if i != ti {
                                assert(self.sinks@[i] == before@[i]);
                            }
                        }
                        assert(hits@.drop_last() == hits_of(s@.subrange(0, k as int)));
                    }
                },
                None => {},
            }
            k = k + 1;
        }
        assert(s@.subrange(0, s@.len() as int) =~= s@);
        assert(self.spent() == w0.spent());
        assert forall|i: int| 0 <= i < self.tanks@.len() implies #[trigger] self.tanks@[i].wf(
            self.width,
            self.height,
            self.spent(),
        ) by {
            assert(w0.tanks@[i].wf(w0.width, w0.height, w0.spent()));
        }
        assert forall|j: int| 0 <= j < self.bullets@.len() implies #[trigger] self.bullets@[j].wf(
            self.tanks@.len(),
            self.tick,
        ) by {
            assert(w0.bullets@[j].wf(w0.tanks@.len(), w0.tick));
        }
        hits
    }
}

/// A tank after the hits it took and scored: health goes down by the
/// damage of each hit taken, floored at zero, and the damage dealt goes up
/// by the damage of each hit scored.
pub open spec fn after_hits(t: Tank, hits: Seq<Hit>, i: int) -> Tank {
    Tank {
        health: damaged(t.health, HIT_DAMAGE * count_target(hits, i)),
        damage_dealt: (t.damage_dealt + HIT_DAMAGE * count_attacker(hits, i)) as u64,
        ..t
    }
}

impl World {
    /// Applies a tick's hits in order. A tank whose health reaches zero is
    /// destroyed for good: nothing ever raises health again.
    pub fn resolve_hits(&mut self, hits: &Vec<Hit>)
        requires
            old(self).wf(),
            forall|k: int|
                0 <= k < hits@.len() ==> (#[trigger] hits@[k]).target < old(self).tanks@.len()
                    && hits@[k].attacker < old(self).tanks@.len(),
            forall|i: int|
                0 <= i < old(self).tanks@.len() ==> #[trigger] old(self).tanks@[i].damage_dealt + HIT_DAMAGE
                    * hits@.len() <= HIT_DAMAGE * old(self).spent(),
        ensures
            final(self).wf(),
            final(self).tanks@.len() == old(self).tanks@.len(),
            forall|i: int|
                0 <= i < old(self).tanks@.len() ==> #[trigger] final(self).tanks@[i] == after_hits(
                    old(self).tanks@[i],
                    hits@,
                    i,
                ),
            forall|i: int|
                0 <= i < old(self).tanks@.len() ==> #[trigger] final(self).tanks@[i].damage_dealt
                    == old(self).tanks@[i].damage_dealt + HIT_DAMAGE * count_attacker(hits@, i),
            final(self).bullets@ == old(self).bullets@,
            final(self).tick == old(self).tick,
            final(self).next_bullet_id == old(self).next_bullet_id,
            final(self).width == old(self).width,
            final(self).height == old(self).height,
            final(self).sinks@ == old(self).sinks@,
    {
        let ghost w0 = *self;
        let n = self.tanks.len();
        let mut k: usize = 0;
        while k < hits.len()
            invariant
                w0.wf(),
                n == w0.tanks@.len(),
                0 <= k <= hits@.len(),
                forall|m: int|
                    0 <= m < hits@.len() ==> (#[trigger] hits@[m]).target < n && hits@[m].attacker < n,
                forall|i: int|
                    0 <= i < n ==> #[trigger] w0.tanks@[i].damage_dealt + HIT_DAMAGE * hits@.len()
                        <= HIT_DAMAGE * w0.spent(),
                self.tanks@.len() == n,
                forall|i: int|
                    0 <= i < n ==> #[trigger] self.tanks@[i] == after_hits(
                        w0.tanks@[i],
                        hits@.subrange(0, k as int),
                        i,
                    ),
                self.bullets@ == w0.bullets@,
                self.tick == w0.tick,
                self.next_bullet_id == w0.next_bullet_id,
                self.width == w0.width,
                self.height == w0.height,
                self.sinks@ == w0.sinks@,
            decreases hits@.len() - k,
        {
            let hit = hits[k];
            let ghost pre = hits@.subrange(0, k as int);
            let ghost post = hits@.subrange(0, k + 1);
            assert(post.drop_last() =~= pre);
            proof {
                lemma_count_attacker_le(pre, hit.attacker as int);
                assert(self.tanks@[hit.attacker as int] == after_hits(w0.tanks@[hit.attacker as int], pre, hit.attacker as int));
                assert(w0.tanks@[hit.attacker as int].damage_dealt + HIT_DAMAGE * hits@.len() <= HIT_DAMAGE * w0.spent());
                assert(w0.spent() <= BULLET_ID_LIMIT);
            }
            let t = self.tanks[hit.target];
            let health = if t.health >= HIT_DAMAGE { t.health - HIT_DAMAGE } else { 0 };
            self.tanks[hit.target] = Tank { health, ..t };
            let a = self.tanks[hit.attacker];
            self.tanks[hit.attacker] = Tank { damage_dealt: a.damage_dealt + HIT_DAMAGE as u64, ..a };
            k = k + 1;
        }
        proof {
            assert(hits@.subrange(0, hits@.len() as int) =~= hits@);
            assert forall|i: int| 0 <= i < n implies #[trigger] self.tanks@[i].wf(
                self.width,
                self.height,
                self.spent(),
            ) by {
                assert(w0.tanks@[i].wf(w0.width, w0.height, w0.spent()));
                lemma_count_attacker_le(hits@, i);
            }
            assert forall|i: int| 0 <= i < n implies #[trigger] self.tanks@[i].damage_dealt
                == w0.tanks@[i].damage_dealt + HIT_DAMAGE * count_attacker(hits@, i) by {
                lemma_count_attacker_le(hits@, i);
                assert(w0.tanks@[i].damage_dealt + HIT_DAMAGE * hits@.len() <= HIT_DAMAGE * w0.spent());
                assert(w0.spent() <= BULLET_ID_LIMIT);
            }
        }
    }
}

} // verus!
