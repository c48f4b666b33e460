//! Changes made to every live entity once per tick: phase timers run,
//! knockbacks push, actors looking for work get a task.
use vstd::prelude::*;
use crate::geometry::{clamp_i64, Vec3i};
use crate::knockback::{advanced, step_displacement};
use crate::lifecycle::health_not_raised;
use crate::world::{knockbacks_ok, lemma_persons_same, links_ok, EntityId, Node, TownsfolkTaskType, World};

verus! {

/// `a + b` where it fits in a `u64`, `u64::MAX` otherwise.
pub open spec fn add_sat(a: u64, b: int) -> u64 {
    if a + b > u64::MAX {
        u64::MAX
    } else {
        (a + b) as u64
    }
}

/// Component-wise sum, clamped to the range of `i64`.
pub open spec fn moved(a: Vec3i, d: Vec3i) -> Vec3i {
    Vec3i {
        x: clamp_i64(a.x + d.x) as i64,
        y: clamp_i64(a.y + d.y) as i64,
        z: clamp_i64(a.z + d.z) as i64,
    }
}

/// An entity after a tick of `dt` microseconds.
pub open spec fn ticked(n: Node, dt: u32) -> Node {
    if !n.alive {
        n
    } else {
        Node {
            phase: match n.phase {
                Some(p) => Some(add_sat(p, dt as int)),
                None => None,
            },
            bob: match n.bob {
                Some(b) => Some(add_sat(b, dt as int)),
                None => None,
            },
            knockback: match n.knockback {
                Some(k) => Some(advanced(k, dt as int)),
                None => None,
            },
            translation: match n.knockback {
                Some(k) => moved(n.translation, step_displacement(k, dt as int)),
                None => n.translation,
            },
            ..n
        }
    }
}

/// An entity after tasks are handed out.
pub open spec fn scheduled(n: Node) -> Node {
    if n.alive && n.looking_for_work {
        Node { looking_for_work: false, task: Some(TownsfolkTaskType::Idle), ..n }
    } else {
        n
    }
}

fn tick_node(n: Node, dt: u32) -> (r: Node)
    requires
        n.knockback is Some ==> n.knockback.unwrap().wf(),
    ensures
        r == ticked(n, dt),
        r.knockback is Some ==> r.knockback.unwrap().wf(),
{
    if !n.alive {
        return n;
    }
    let mut r = n;
    r.phase = match n.phase {
        Some(p) => Some(p.saturating_add(dt as u64)),
        None => None,
    };
    r.bob = match n.bob {
        Some(b) => Some(b.saturating_add(dt as u64)),
        None => None,
    };
    match n.knockback {
        Some(k) => {
            let mut k2 = k;
            let d = k2.advance(dt);
            r.knockback = Some(k2);
            r.translation = n.translation.saturating_add(d);
        },
        None => {},
    }
    r
}

impl World {
    /// Advances every live entity by `dt` microseconds: phase timers and
    /// bobbing phases run (stopping at `u64::MAX`), and each knockback runs
    /// its timer and moves its entity by the step's displacement.
    pub fn tick(&mut self, dt: u32)
        requires
            old(self).wf(),
        ensures
            final(self).wf(),
            health_not_raised(old(self).nodes@, final(self).nodes@),
            final(self).names@ == old(self).names@,
            final(self).nodes@ == Seq::new(
                old(self).nodes@.len(),
                |i: int| ticked(old(self).nodes@[i], dt),
            ),
    {
        let ghost o = self.nodes@;
        let mut i: usize = 0;
        while i < self.nodes.len()
            invariant
                self.names@ == old(self).names@,
                self.nodes@.len() == o.len(),
                o == old(self).nodes@,
                knockbacks_ok(o),
                links_ok(o),
                i <= o.len(),
                forall|j: int| 0 <= j < i ==> #[trigger] self.nodes@[j] == ticked(o[j], dt),
                forall|j: int| i <= j < o.len() ==> #[trigger] self.nodes@[j] == o[j],
            decreases o.len() - i,
        {
            let n = self.nodes[i];
            assert(o[i as int].knockback == n.knockback);
            let t = tick_node(n, dt);
            self.nodes.set(i, t);
            i = i + 1;
        }
        proof {
            let s = self.nodes@;
            assert(s =~= Seq::new(o.len(), |i: int| ticked(o[i], dt)));
            lemma_persons_same(o, s);
            assert forall|i: int| 0 <= i < s.len() implies match #[trigger] s[i].parent {
                Some(p) => p < i && (s[i].alive ==> s[p as int].alive),
                None => true,
            } by {
                assert(s[i].parent == o[i].parent);
                match o[i].parent {
                    Some(p) => {
                        assert(s[p as int].alive == o[p as int].alive);
                    },
                    None => {},
                }
            }
            assert forall|i: int| 0 <= i < s.len() implies match #[trigger] s[i].knockback {
                Some(k) => k.wf(),
                None => true,
            } by {
                match o[i].knockback {
                    Some(k) => {
                        assert(k.wf());
                    },
                    None => {},
                }
            }
            assert forall|i: int| 0 <= i < o.len() implies #[trigger] s[i].health == o[i].health by {
                assert(s[i] == ticked(o[i], dt));
            }
        }
    }

    /// Gives every live actor that looks for work the idle task.
    pub fn schedule_tasks(&mut self)
        requires
            old(self).wf(),
        ensures
            final(self).wf(),
            health_not_raised(old(self).nodes@, final(self).nodes@),
            final(self).names@ == old(self).names@,
            final(self).nodes@ == Seq::new(
                old(self).nodes@.len(),
                |i: int| scheduled(old(self).nodes@[i]),
            ),
    {
        let ghost o = self.nodes@;
        let mut i: usize = 0;
        while i < self.nodes.len()
            invariant
                self.names@ == old(self).names@,
                self.nodes@.len() == o.len(),
                o == old(self).nodes@,
                i <= o.len(),
                forall|j: int| 0 <= j < i ==> #[trigger] self.nodes@[j] == scheduled(o[j]),
                forall|j: int| i <= j < o.len() ==> #[trigger] self.nodes@[j] == o[j],
            decreases o.len() - i,
        {
            let n = self.nodes[i];
            if n.alive && n.looking_for_work {
                let mut m = n;
                m.looking_for_work = false;
                m.task = Some(TownsfolkTaskType::Idle);
                self.nodes.set(i, m);
            }
            i = i + 1;
        }
        proof {
            let s = self.nodes@;
            assert(s =~= Seq::new(o.len(), |i: int| scheduled(o[i])));
            lemma_persons_same(o, s);
            assert forall|i: int| 0 <= i < s.len() implies match #[trigger] s[i].parent {
                Some(p) => p < i && (s[i].alive ==> s[p as int].alive),
                None => true,
            } by {
                assert(s[i].parent == o[i].parent);
                match o[i].parent {
                    Some(p) => {
                        assert(s[p as int].alive == o[p as int].alive);
                    },
                    None => {},
                }
            }
            assert forall|i: int| 0 <= i < s.len() implies match #[trigger] s[i].knockback {
                Some(k) => k.wf(),
                None => true,
            } by {
                assert(s[i].knockback == o[i].knockback);
            }
            assert forall|i: int| 0 <= i < o.len() implies #[trigger] s[i].health == o[i].health by {
                assert(s[i] == scheduled(o[i]));
            }
        }
    }

    /// Moves a live entity by `delta` nanometres (each component clamped
    /// to the range of `i64`); does nothing when `id` is gone.
    pub fn translate(&mut self, id: EntityId, delta: Vec3i)
        requires
            old(self).wf(),
        ensures
            final(self).wf(),
            health_not_raised(old(self).nodes@, final(self).nodes@),
            final(self).names@ == old(self).names@,
            !old(self).alive(id as int) ==> final(self).nodes@ == old(self).nodes@,
            old(self).alive(id as int) ==> final(self).nodes@ == old(self).nodes@.update(
                id as int,
                Node {
                    translation: moved(old(self).nodes@[id as int].translation, delta),
                    ..old(self).nodes@[id as int]
                },
            ),
    {
        if !self.is_alive(id) {
            return ;
        }
        let ghost o = self.nodes@;
        let mut n = self.nodes[id];
        n.translation = n.translation.saturating_add(delta);
        self.nodes.set(id, n);
        proof {
            let s = self.nodes@;
            lemma_persons_same(o, s);
            assert forall|i: int| 0 <= i < s.len() implies match #[trigger] s[i].parent {
                Some(p) => p < i && (s[i].alive ==> s[p as int].alive),
                None => true,
            } by {
                assert(s[i].parent == o[i].parent);
                match o[i].parent {
                    Some(p) => {
                        assert(s[p as int].alive == o[p as int].alive);
                    },
                    None => {},
                }
            }
            assert forall|i: int| 0 <= i < s.len() implies match #[trigger] s[i].knockback {
                Some(k) => k.wf(),
                None => true,
            } by {
                assert(s[i].knockback == o[i].knockback);
            }
        }
    }
}

} // verus!
