use vstd::prelude::*;
use crate::world::{Tank, World};

verus! {

/// A tank's standing at the end of a match.
#[derive(Clone, Copy, Debug, PartialEq, Eq, Structural)]
pub struct TankStats {
    pub health: u32,
    pub damage_dealt: u64,
    pub alive: bool,
}

/// The result of a finished match: every tank's standing, by index, and
/// the winner, if exactly one tank survived.
#[derive(Clone, Debug)]
pub struct MatchResult {
    pub tanks: Vec<TankStats>,
    pub winner: Option<usize>,
}

/// How many tanks are alive.
pub open spec fn alive_count(s: Seq<Tank>) -> nat
    decreases s.len(),
{
    if s.len() == 0 {
        0
    } else {
        alive_count(s.drop_last()) + if s.last().alive() { 1nat } else { 0nat }
    }
}

pub open spec fn stats_of(t: Tank) -> TankStats {
    TankStats { health: t.health, damage_dealt: t.damage_dealt, alive: t.alive() }
}

/// Whether the match is over: at most one tank is alive, or the tick
/// limit is reached.
pub open spec fn match_over(w: World, max_ticks: u64) -> bool {
    alive_count(w.tanks@) <= 1 || w.tick >= max_ticks
}

impl World {
    /// The number of live tanks.
    pub fn alive_count(&self) -> (r: usize)
        ensures
            r == alive_count(self.tanks@),
    {
        let mut c: usize = 0;
        let mut i: usize = 0;
        while i < self.tanks.len()
            invariant
                0 <= i <= self.tanks@.len(),
                c == alive_count(self.tanks@.subrange(0, i as int)),
                c <= i,
            decreases self.tanks@.len() - i,
        {
            assert(self.tanks@.subrange(0, i + 1).drop_last() =~= self.tanks@.subrange(0, i as int));
            if self.tanks[i].health > 0 {
                c = c + 1;
            }
            i = i + 1;
        }
        assert(self.tanks@.subrange(0, i as int) =~= self.tanks@);
        c
    }

    /// Decides whether the match is over after this tick. When it is, the
    /// result lists every tank's standing and names the one survivor as the
    /// winner; with no survivor, or with several at the tick limit, there is
    /// no winner.
    pub fn evaluate_outcome(&self, max_ticks: u64) -> (r: Option<MatchResult>)
        requires
            self.wf(),
        ensures
            r is Some <==> match_over(*self, max_ticks),
            r is Some ==> r->Some_0.tanks@.len() == self.tanks@.len(),
            r is Some ==> forall|i: int|
                0 <= i < self.tanks@.len() ==> #[trigger] r->Some_0.tanks@[i] == stats_of(self.tanks@[i]),
            r is Some ==> (r->Some_0.winner is Some <==> alive_count(self.tanks@) == 1),
            r is Some && r->Some_0.winner is Some ==> ({
                let w = r->Some_0.winner->Some_0;
                &&& w < self.tanks@.len()
                &&& self.tanks@[w as int].alive()
            }),
    {
        let alive = self.alive_count();
        if alive > 1 && self.tick < max_ticks {
            return None;
        }
        let mut stats: Vec<TankStats> = Vec::new();
        let mut winner: Option<usize> = None;
        let mut i: usize = 0;
        while i < self.tanks.len()
            invariant
                self.wf(),
                alive == alive_count(self.tanks@),
                0 <= i <= self.tanks@.len(),
                stats@.len() == i,
                forall|k: int| 0 <= k < i ==> #[trigger] stats@[k] == stats_of(self.tanks@[k]),
                winner is Some ==> winner->Some_0 < i && self.tanks@[winner->Some_0 as int].alive(),
                winner is Some ==> alive == 1,
                winner is None && alive == 1 ==> forall|k: int| 0 <= k < i ==> !(#[trigger] self.tanks@[k]).alive(),
            decreases self.tanks@.len() - i,
        {
            let t = self.tanks[i];
            stats.push(TankStats { health: t.health, damage_dealt: t.damage_dealt, alive: t.health > 0 });
            if t.health > 0 && alive == 1 {
                winner = Some(i);
            }
            i = i + 1;
        }
        proof {
            if alive == 1 && winner is None {
                assert(forall|k: int| 0 <= k < self.tanks@.len() ==> !(#[trigger] self.tanks@[k]).alive());
                lemma_no_alive(self.tanks@);
            }
        }
        Some(MatchResult { tanks: stats, winner })
    }
}

proof fn lemma_no_alive(s: Seq<Tank>)
    requires
        forall|k: int| 0 <= k < s.len() ==> !(#[trigger] s[k]).alive(),
    ensures
        alive_count(s) == 0,
    decreases s.len(),
{
    if s.len() > 0 {
        let p = s.drop_last();
        assert forall|k: int| 0 <= k < p.len() implies !(#[trigger] p[k]).alive() by {
            assert(p[k] == s[k]);
        }
        lemma_no_alive(p);
    }
}

} // verus!
