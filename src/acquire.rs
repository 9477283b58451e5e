use vstd::prelude::*;
use crate::command::Command;
use crate::world::{Tank, World};

verus! {

/// What came back from one agent for one tick.
#[derive(Clone, Copy, Debug, PartialEq, Eq, Structural)]
pub enum AgentReply {
    /// A well-formed intent, in time.
    Intent(Command),
    /// No answer before the deadline.
    Timeout,
    /// The transport failed.
    Unreachable,
    /// An answer that is no intent.
    Malformed,
}

/// Why a tank got no command from its agent.
#[derive(Clone, Copy, Debug, PartialEq, Eq, Structural)]
pub enum FailureKind {
    Timeout,
    Unreachable,
    Malformed,
}

/// A failed request, recorded against the tank it was for.
#[derive(Clone, Copy, Debug, PartialEq, Eq, Structural)]
pub struct AgentFailure {
    pub tank: usize,
    pub kind: FailureKind,
}

/// The indices of the live tanks among the first `n`, in order.
pub open spec fn alive_indices(tanks: Seq<Tank>, n: int) -> Seq<usize>
    decreases n,
{
    if n <= 0 {
        seq![]
    } else if tanks[n - 1].alive() {
        alive_indices(tanks, n - 1).push((n - 1) as usize)
    } else {
        alive_indices(tanks, n - 1)
    }
}

/// A destroyed tank is never among the fan-out targets, and every target
/// is a live tank below `n`.
pub proof fn lemma_fanout_skips_destroyed(tanks: Seq<Tank>, n: int)
    requires
        0 <= n <= tanks.len(),
        n <= usize::MAX,
    ensures
        forall|k: int|
            0 <= k < alive_indices(tanks, n).len() ==> {
                let i = #[trigger] alive_indices(tanks, n)[k];
                &&& i < n
                &&& tanks[i as int].alive()
            },
    decreases n,
{
    if n > 0 {
        lemma_fanout_skips_destroyed(tanks, n - 1);
        let p = alive_indices(tanks, n - 1);
        let s = alive_indices(tanks, n);
        assert forall|k: int| 0 <= k < s.len() implies {
            let i = #[trigger] s[k];
            &&& i < n
            &&& tanks[i as int].alive()
        } by {
            if k < p.len() {
                assert(s[k] == p[k]);
            }
        }
    }
}

/// The command a tank acts on: its agent's intent if the tank is alive and
/// the intent came in time, and otherwise the no-op.
pub open spec fn command_for(t: Tank, reply: AgentReply) -> Command {
    match reply {
        AgentReply::Intent(c) => if t.alive() { c } else { Command::noop_spec() },
        _ => Command::noop_spec(),
    }
}

pub open spec fn failure_of(reply: AgentReply) -> Option<FailureKind> {
    match reply {
        AgentReply::Intent(_) => None,
        AgentReply::Timeout => Some(FailureKind::Timeout),
        AgentReply::Unreachable => Some(FailureKind::Unreachable),
        AgentReply::Malformed => Some(FailureKind::Malformed),
    }
}

/// The failures of the requests to the live tanks among the first `n`, in
/// tank order.
pub open spec fn failures_of(tanks: Seq<Tank>, replies: Seq<AgentReply>, n: int) -> Seq<AgentFailure>
    decreases n,
{
    if n <= 0 {
        seq![]
    } else {
        let prev = failures_of(tanks, replies, n - 1);
        match failure_of(replies[n - 1]) {
            Some(k) => if tanks[n - 1].alive() {
                prev.push(AgentFailure { tank: (n - 1) as usize, kind: k })
            } else {
                prev
            },
            None => prev,
        }
    }
}

impl World {
    /// The tanks whose agents are asked for an intent this tick: the live
    /// ones, in index order. A destroyed tank is never asked again.
    pub fn fanout_targets(&self) -> (r: Vec<usize>)
        ensures
            r@ == alive_indices(self.tanks@, self.tanks@.len() as int),
    {
        let mut r: Vec<usize> = Vec::new();
        let mut i: usize = 0;
        while i < self.tanks.len()
            invariant
                0 <= i <= self.tanks@.len(),
                r@ == alive_indices(self.tanks@, i as int),
            decreases self.tanks@.len() - i,
        {
            if self.tanks[i].health > 0 {
                r.push(i);
            }
            i = i + 1;
        }
        r
    }

    /// Joins the replies of a tick, one per tank, into one command per tank
    /// and the list of failed requests. A tank whose agent failed (timed
    /// out, could not be reached, or answered nonsense) gets the no-op, and
    /// the tick goes on.
    pub fn collect_commands(&self, replies: &Vec<AgentReply>) -> (r: (Vec<Command>, Vec<AgentFailure>))
        requires
            replies@.len() == self.tanks@.len(),
        ensures
            r.0@.len() == self.tanks@.len(),
            forall|i: int|
                0 <= i < self.tanks@.len() ==> #[trigger] r.0@[i] == command_for(self.tanks@[i], replies@[i]),
            r.1@ == failures_of(self.tanks@, replies@, self.tanks@.len() as int),
    {
        let mut cmds: Vec<Command> = Vec::new();
        let mut fails: Vec<AgentFailure> = Vec::new();
        let mut i: usize = 0;
        while i < self.tanks.len()
            invariant
                replies@.len() == self.tanks@.len(),
                0 <= i <= self.tanks@.len(),
                cmds@.len() == i,
                forall|k: int| 0 <= k < i ==> #[trigger] cmds@[k] == command_for(self.tanks@[k], replies@[k]),
                fails@ == failures_of(self.tanks@, replies@, i as int),
            decreases self.tanks@.len() - i,
        {
            let alive = self.tanks[i].health > 0;
            match replies[i] {
                AgentReply::Intent(c) => {
                    if alive {
                        cmds.push(c);
                    } else {
                        cmds.push(Command::noop());
                    }
                },
                AgentReply::Timeout => {
                    cmds.push(Command::noop());
                    if alive {
                        fails.push(AgentFailure { tank: i, kind: FailureKind::Timeout });
                    }
                },
                AgentReply::Unreachable => {
                    cmds.push(Command::noop());
                    if alive {
                        fails.push(AgentFailure { tank: i, kind: FailureKind::Unreachable });
                    }
                },
                AgentReply::Malformed => {
                    cmds.push(Command::noop());
                    if alive {
                        fails.push(AgentFailure { tank: i, kind: FailureKind::Malformed });
                    }
                },
            }
            i = i + 1;
        }
        (cmds, fails)
    }
}

} // verus!
