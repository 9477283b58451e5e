use vstd::prelude::*;
use crate::command::{commanded, lemma_spawned_len, spawned, volley_room, Command};
use crate::outcome::{alive_count, match_over, stats_of, MatchResult};
use crate::physics::{radar_contacts, settled, settled_all, strike_ok, strikes_of, survivors_of, Contact, StepContacts};
use crate::resolve::{after_hits, count_attacker, count_target, extended_with_hits, hit_of, hits_of, lemma_hits_of_le, Hit};
use crate::world::{Bullet, Tank, World, HIT_DAMAGE};

verus! {

/// What one tick produced: the hits, in the order they were applied, what
/// the radars sensed once the bodies moved (for the agents' next request),
/// and the result if the match ended.
pub struct TickReport {
    pub hits: Vec<Hit>,
    pub detections: Vec<Contact>,
    pub outcome: Option<MatchResult>,
}

/// Every tank after its command.
pub open spec fn commanded_tanks(tanks: Seq<Tank>, cmds: Seq<Command>, room: bool) -> Seq<Tank> {
    Seq::new(tanks.len(), |i: int| commanded(tanks[i], cmds[i], room))
}

/// Every tank after its command and its step, before the hits.
pub open spec fn stepped_tanks(tanks: Seq<Tank>, cmds: Seq<Command>, room: bool, w: i64, h: i64) -> Seq<Tank> {
    settled_all(commanded_tanks(tanks, cmds, room), w, h)
}

/// The bullets in flight once the commands of a tick are applied.
pub open spec fn armed_bullets(w: World, cmds: Seq<Command>) -> Seq<Bullet> {
    w.bullets@ + spawned(w.tanks@, cmds, w.tanks@.len() as int, volley_room(w), w.tick, w.next_bullet_id)
}

/// A destroyed tank stays destroyed through every later tick, whatever
/// command it is handed and whatever hits are applied.
pub proof fn lemma_destroyed_stays_destroyed(
    tanks: Seq<Tank>,
    cmds: Seq<Command>,
    room: bool,
    w: i64,
    h: i64,
    hits: Seq<Hit>,
    i: int,
)
    requires
        0 <= i < tanks.len(),
        !tanks[i].alive(),
    ensures
        !after_hits(stepped_tanks(tanks, cmds, room, w, h)[i], hits, i).alive(),
{
    let ct = commanded_tanks(tanks, cmds, room);
    assert(ct[i] == tanks[i]);
    assert(settled_all(ct, w, h)[i] == settled(ct, w, h, i));
}

proof fn lemma_strike_hits(s: Seq<Contact>, tanks: Seq<Tank>, w: i64, h: i64)
    requires
        forall|k: int| 0 <= k < s.len() ==> #[trigger] strike_ok(s[k], tanks, w, h),
    ensures
        forall|k: int|
            0 <= k < s.len() ==> (#[trigger] hit_of(s[k])) is Some ==> hit_of(s[k])->Some_0.target < tanks.len()
                && hit_of(s[k])->Some_0.attacker < tanks.len(),
        forall|k: int|
            0 <= k < hits_of(s).len() ==> {
                let x = #[trigger] hits_of(s)[k];
                &&& x.target < tanks.len()
                &&& x.attacker < tanks.len()
                &&& x.attacker != x.target
                &&& tanks[x.target as int].alive()
            },
    decreases s.len(),
{
    assert forall|k: int| 0 <= k < s.len() && (#[trigger] hit_of(s[k])) is Some implies hit_of(s[k])->Some_0.target
        < tanks.len() && hit_of(s[k])->Some_0.attacker < tanks.len() by {
        lemma_strike_hit(s[k], tanks, w, h);
    }
    if s.len() > 0 {
        let p = s.drop_last();
        assert forall|k: int| 0 <= k < p.len() implies #[trigger] strike_ok(p[k], tanks, w, h) by {
            assert(p[k] == s[k]);
        }
        lemma_strike_hits(p, tanks, w, h);
        lemma_strike_hit(s.last(), tanks, w, h);
        let hp = hits_of(p);
        let hs = hits_of(s);
        assert forall|k: int| 0 <= k < hs.len() implies {
            let x = #[trigger] hs[k];
            &&& x.target < tanks.len()
            &&& x.attacker < tanks.len()
            &&& x.attacker != x.target
            &&& tanks[x.target as int].alive()
        } by {
            if k < hp.len() {
                assert(hs[k] == hp[k]);
            }
        }
    }
}

proof fn lemma_strike_hit(c: Contact, tanks: Seq<Tank>, w: i64, h: i64)
    requires
        strike_ok(c, tanks, w, h),
    ensures
        hit_of(c) is Some ==> {
            let x = hit_of(c)->Some_0;
            &&& x.target < tanks.len()
            &&& x.attacker < tanks.len()
            &&& x.attacker != x.target
            &&& tanks[x.target as int].alive()
        },
{
}

impl World {
    /// Runs one tick on the commands gathered for it: applies them, steps
    /// the bodies, turns the strikes into events and hits, applies the hits,
    /// advances the tick counter and decides whether the match is over.
    pub fn run_tick(&mut self, commands: &Vec<Command>, max_ticks: u64) -> (r: TickReport)
        requires
            old(self).wf(),
            commands@.len() == old(self).tanks@.len(),
            old(self).tick < u64::MAX,
        ensures
            final(self).wf(),
            final(self).tick == old(self).tick + 1,
            final(self).next_bullet_id == old(self).next_bullet_id + spawned(
                old(self).tanks@,
                commands@,
                old(self).tanks@.len() as int,
                volley_room(*old(self)),
                old(self).tick,
                old(self).next_bullet_id,
            ).len(),
            r.hits@.len() <= old(self).bullets@.len() + old(self).tanks@.len(),
            forall|i: int|
                0 <= i < old(self).tanks@.len() ==> #[trigger] final(self).tanks@[i].damage_dealt
                    == old(self).tanks@[i].damage_dealt + HIT_DAMAGE * count_attacker(r.hits@, i),
            final(self).width == old(self).width,
            final(self).height == old(self).height,
            final(self).tanks@.len() == old(self).tanks@.len(),
            forall|i: int|
                0 <= i < old(self).tanks@.len() ==> #[trigger] final(self).tanks@[i] == after_hits(
                    stepped_tanks(old(self).tanks@, commands@, volley_room(*old(self)), old(self).width, old(self).height)[i],
                    r.hits@,
                    i,
                ),
            forall|k: int|
                0 <= k < r.hits@.len() ==> {
                    let x = #[trigger] r.hits@[k];
                    &&& x.target < old(self).tanks@.len()
                    &&& x.attacker < old(self).tanks@.len()
                    &&& x.attacker != x.target
                    &&& stepped_tanks(
                        old(self).tanks@,
                        commands@,
                        volley_room(*old(self)),
                        old(self).width,
                        old(self).height,
                    )[x.target as int].alive()
                },
            r.hits@ == hits_of(
                strikes_of(
                    armed_bullets(*old(self), commands@),
                    stepped_tanks(old(self).tanks@, commands@, volley_room(*old(self)), old(self).width, old(self).height),
                    old(self).width,
                    old(self).height,
                ),
            ),
            final(self).bullets@ == survivors_of(
                armed_bullets(*old(self), commands@),
                stepped_tanks(old(self).tanks@, commands@, volley_room(*old(self)), old(self).width, old(self).height),
                old(self).width,
                old(self).height,
                old(self).tick,
            ),
            r.detections@ == radar_contacts(
                stepped_tanks(old(self).tanks@, commands@, volley_room(*old(self)), old(self).width, old(self).height),
                old(self).tanks@.len() as int,
                old(self).width + old(self).height,
            ),
            final(self).sinks@.len() == old(self).sinks@.len(),
            forall|i: int|
                0 <= i < old(self).sinks@.len() ==> #[trigger] final(self).sinks@[i].queue@.len()
                    == old(self).sinks@[i].queue@.len() + count_target(r.hits@, i),
            forall|i: int|
                0 <= i < old(self).sinks@.len() ==> extended_with_hits(
                    #[trigger] final(self).sinks@[i],
                    old(self).sinks@[i],
                    stepped_tanks(old(self).tanks@, commands@, volley_room(*old(self)), old(self).width, old(self).height)[i],
                    i,
                ),
            r.outcome is Some <==> match_over(*final(self), max_ticks),
            r.outcome is Some ==> r.outcome->Some_0.tanks@.len() == final(self).tanks@.len(),
            r.outcome is Some ==> forall|i: int|
                0 <= i < final(self).tanks@.len() ==> #[trigger] r.outcome->Some_0.tanks@[i] == stats_of(
                    final(self).tanks@[i],
                ),
            r.outcome is Some ==> (r.outcome->Some_0.winner is Some <==> alive_count(final(self).tanks@) == 1),
            r.outcome is Some && r.outcome->Some_0.winner is Some ==> ({
                let w = r.outcome->Some_0.winner->Some_0;
                &&& w < final(self).tanks@.len()
                &&& final(self).tanks@[w as int].alive()
            }),
    {
        let ghost w0 = *self;
        let ghost room = volley_room(w0);
        self.apply_commands(commands);
        let ghost w1 = *self;
        assert(w1.tanks@ =~= commanded_tanks(w0.tanks@, commands@, room));
        let contacts: StepContacts = self.step_physics();
        let ghost w2 = *self;
        assert(w2.tanks@ =~= stepped_tanks(w0.tanks@, commands@, room, w0.width, w0.height));
        let detections = self.sense_radars();
        proof {
            lemma_strike_hits(contacts.strikes@, w2.tanks@, w1.width, w1.height);
        }
        let hits = self.classify_strikes(&contacts);
        proof {
            lemma_hits_of_le(contacts.strikes@);
            assert forall|i: int| 0 <= i < self.tanks@.len() implies #[trigger] self.tanks@[i].damage_dealt
                + HIT_DAMAGE * hits@.len() <= HIT_DAMAGE * self.spent() by {
                assert(w1.tanks@[i].wf(w1.width, w1.height, w1.spent()));
                assert(w2.tanks@[i] == settled(w1.tanks@, w1.width, w1.height, i));
            }
        }
        self.resolve_hits(&hits);
        let ghost w3 = *self;
        proof {
            lemma_spawned_len(w0.tanks@, commands@, w0.tanks@.len() as int, room, w0.tick, w0.next_bullet_id);
            assert forall|i: int| 0 <= i < w0.tanks@.len() implies #[trigger] w3.tanks@[i].damage_dealt
                == w0.tanks@[i].damage_dealt + HIT_DAMAGE * count_attacker(hits@, i) by {
                assert(w1.tanks@[i] == commanded(w0.tanks@[i], commands@[i], room));
                assert(w2.tanks@[i] == settled(w1.tanks@, w1.width, w1.height, i));
            }
        }
        self.tick = self.tick + 1;
        proof {
            assert forall|i: int| 0 <= i < self.tanks@.len() implies #[trigger] self.tanks@[i].wf(
                self.width,
                self.height,
                self.spent(),
            ) by {
                assert(w3.tanks@[i].wf(w3.width, w3.height, w3.spent()));
            }
            assert forall|j: int| 0 <= j < self.bullets@.len() implies #[trigger] self.bullets@[j].wf(
                self.tanks@.len(),
                self.tick,
            ) by {
                assert(w3.bullets@[j].wf(w3.tanks@.len(), w3.tick));
            }
            assert forall|i: int| 0 <= i < w0.tanks@.len() implies #[trigger] self.tanks@[i] == after_hits(
                stepped_tanks(w0.tanks@, commands@, room, w0.width, w0.height)[i],
                hits@,
                i,
            ) by {
                assert(w2.tanks@[i] == stepped_tanks(w0.tanks@, commands@, room, w0.width, w0.height)[i]);
            }
            assert forall|k: int| 0 <= k < hits@.len() implies {
                let x = #[trigger] hits@[k];
                &&& x.target < w0.tanks@.len()
                &&& x.attacker < w0.tanks@.len()
                &&& x.attacker != x.target
                &&& stepped_tanks(w0.tanks@, commands@, room, w0.width, w0.height)[x.target as int].alive()
            } by {
                let x = hits@[k];
                assert(w2.tanks@[x.target as int] == stepped_tanks(w0.tanks@, commands@, room, w0.width, w0.height)[x.target as int]);
            }
        }
        let outcome = self.evaluate_outcome(max_ticks);
        TickReport { hits, detections, outcome }
    }
}

} // verus!
