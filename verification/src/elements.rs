//! The comet-trail particle buffer: a fixed-capacity FIFO of colored
//! particles with integer positions, advanced once per tick and read back
//! as a decaying per-LED color stream.

use vstd::prelude::*;
use vstd::arithmetic::div_mod::lemma_fundamental_div_mod;
use vstd::arithmetic::div_mod::lemma_mod_bound;
use vstd::arithmetic::mul::lemma_mul_inequality;

use crate::color::Rgb;
use crate::color::brightness;
use crate::color::scaled_channel;
use crate::queue::ParticleQueue;
use crate::queue::QUEUE_CAPACITY;
use crate::queue::queue_model;

verus! {

/// A single comet particle: its color and its distance along the strip.
#[derive(Clone, Copy, PartialEq, Eq, Structural, Debug)]
pub struct Particle {
    pub color: Rgb,
    pub position: u16,
}

/// The particle encoded by one queue item.
pub open spec fn particle_of(item: (u8, u8, u8, u16)) -> Particle {
    Particle { color: Rgb { r: item.0, g: item.1, b: item.2 }, position: item.3 }
}

/// Positions strictly decrease from the front (oldest) to the back
/// (newest) of the queue.
pub open spec fn positions_decreasing(s: Seq<Particle>) -> bool {
    forall|i: int, j: int|
        #![trigger s[i], s[j]]
        0 <= i < j < s.len() ==> s[i].position > s[j].position
}

/// Every position is at most `limit`.
pub open spec fn positions_bounded(s: Seq<Particle>, limit: int) -> bool {
    forall|i: int| #![trigger s[i]] 0 <= i < s.len() ==> s[i].position <= limit
}

/// Every particle advanced by one position.
pub open spec fn stepped(s: Seq<Particle>) -> Seq<Particle> {
    s.map_values(|p: Particle| Particle { color: p.color, position: (p.position + 1) as u16 })
}

/// The queue with its leading run of particles beyond `limit` removed.
pub open spec fn culled(s: Seq<Particle>, limit: int) -> Seq<Particle>
    decreases s.len(),
{
    if s.len() > 0 && s[0].position > limit {
        culled(s.subrange(1, s.len() as int), limit)
    } else {
        s
    }
}

/// The effect of one `add` call on the particle sequence: a no-op while
/// the newest particle is still at position 0, an append while a slot is
/// free, and otherwise no change.
pub open spec fn added(s: Seq<Particle>, color: Rgb) -> Seq<Particle> {
    if s.len() > 0 && s.last().position == 0 {
        s
    } else if s.len() < QUEUE_CAPACITY {
        s.push(Particle { color, position: 0 })
    } else {
        s
    }
}

/// Positions strictly increase from the newest particle to the oldest,
/// the order in which a readback iterator scans them.
pub open spec fn positions_increasing(s: Seq<Particle>) -> bool {
    forall|i: int, j: int|
        #![trigger s[i], s[j]]
        0 <= i < j < s.len() ==> s[i].position < s[j].position
}

/// The index of the first particle at or past strip position `pos` in a
/// newest-first sequence, or `s.len()` when every particle is behind it.
pub open spec fn first_visible(s: Seq<Particle>, pos: u16) -> int
    decreases s.len(),
{
    if s.len() == 0 {
        0
    } else if s[0].position >= pos {
        0
    } else {
        1 + first_visible(s.subrange(1, s.len() as int), pos)
    }
}

/// The brightness multiplier emitted `distance` positions behind a
/// particle's head: it falls off linearly in steps of `step` and reaches
/// zero at `trail_length`.
pub open spec fn trail_multiplier(distance: int, trail_length: u16, step: u16) -> u16 {
    if distance < trail_length {
        ((trail_length - distance) * step) as u16
    } else {
        0
    }
}

/// `color` dimmed to `multiplier / 256` of its brightness.
pub open spec fn faded(color: Rgb, multiplier: u16) -> Rgb {
    Rgb {
        r: scaled_channel(color.r, multiplier) as u8,
        g: scaled_channel(color.g, multiplier) as u8,
        b: scaled_channel(color.b, multiplier) as u8,
    }
}

/// The color shown at strip position `pos`: the trail of the nearest
/// particle at or ahead of `pos` in the newest-first sequence `s`, or
/// black when no particle covers that position.
pub open spec fn trail_color(s: Seq<Particle>, pos: u16, trail_length: u16, step: u16) -> Rgb {
    let j = first_visible(s, pos);
    if j < s.len() {
        faded(s[j].color, trail_multiplier(s[j].position - pos, trail_length, step))
    } else {
        Rgb { r: 0, g: 0, b: 0 }
    }
}

/// `first_visible` returns the index whose earlier entries are all behind
/// `pos` and whose own entry, if any, is at or past `pos`.
pub proof fn lemma_first_visible_at(s: Seq<Particle>, pos: u16, i: int)
    requires
        0 <= i <= s.len(),
        forall|k: int| #![trigger s[k]] 0 <= k < i ==> s[k].position < pos,
        i < s.len() ==> s[i].position >= pos,
    ensures
        first_visible(s, pos) == i,
    decreases s.len(),
{
    if s.len() == 0 {
    } else if s[0].position >= pos {
        if i > 0 {
            assert(s[0].position < pos);
        }
    } else {
        let sub = s.subrange(1, s.len() as int);
        assert(i >= 1);
        assert forall|k: int| 0 <= k < i - 1 implies (#[trigger] sub[k]).position < pos by {
            assert(sub[k] == s[k + 1]);
        }
        if i - 1 < sub.len() {
            assert(sub[i - 1] == s[i]);
        }
        lemma_first_visible_at(sub, pos, i - 1);
    }
}

/// The fixed-capacity comet-trail buffer. `length` is the number of
/// visible LED positions; a particle survives until its position exceeds
/// `length + trail_length`.
pub struct Elements {
    queue: ParticleQueue,
    length: u16,
    trail_length: u16,
}

impl Elements {
    /// The particles currently held, oldest first.
    pub closed spec fn particles(&self) -> Seq<Particle> {
        queue_model(self.queue).map_values(|item: (u8, u8, u8, u16)| particle_of(item))
    }

    /// The number of visible LED positions.
    pub closed spec fn strip_length(&self) -> u16 {
        self.length
    }

    /// How many positions a trail fades over.
    pub closed spec fn trail_len(&self) -> u16 {
        self.trail_length
    }

    /// The largest position at which a particle survives a tick.
    pub open spec fn limit(&self) -> int {
        self.strip_length() + self.trail_len()
    }

    /// The configured lengths leave room to advance any surviving
    /// particle without overflowing its 16-bit position.
    pub open spec fn config_ok(&self) -> bool {
        self.strip_length() + self.trail_len() <= 65534
    }

    /// Well-formedness: the queue holds at most its capacity, positions
    /// strictly decrease towards the newest particle, and no surviving
    /// particle lies beyond the visibility limit.
    pub open spec fn wf(&self) -> bool {
        &&& self.config_ok()
        &&& self.particles().len() <= QUEUE_CAPACITY
        &&& positions_decreasing(self.particles())
        &&& positions_bounded(self.particles(), self.limit())
    }

    /// Creates an empty buffer for a strip of `length` LEDs whose trails
    /// fade over `trail_length` positions.
    pub fn new(length: u16, trail_length: u16) -> (e: Elements)
        requires
            length + trail_length <= 65534,
        ensures
            e.wf(),
            e.particles() == Seq::<Particle>::empty(),
            e.strip_length() == length,
            e.trail_len() == trail_length,
    {
        let e = Elements { queue: ParticleQueue::new(), length, trail_length };
        proof {
            assert(e.particles() =~= Seq::<Particle>::empty());
        }
        e
    }

    /// Enqueues a new particle of the given color at position 0.
    ///
    /// The call is a silent no-op while the most recently added particle
    /// is still at position 0, so that repeated adds within one tick
    /// leave a single particle; with every slot taken it reports `Err`.
    pub fn add(&mut self, color: Rgb) -> (r: Result<(), ()>)
        requires
            old(self).wf(),
        ensures
            final(self).wf(),
            final(self).strip_length() == old(self).strip_length(),
            final(self).trail_len() == old(self).trail_len(),
            final(self).particles() == added(old(self).particles(), color),
            r == Err::<(), ()>(()) <==> (old(self).particles().len() == QUEUE_CAPACITY
                && old(self).particles().last().position != 0),
    {
        let back = self.queue.peek_back();
        let should_add = match back {
            Some(item) => item.3 != 0,
            None => true,
        };
        if should_add {
            let r = self.queue.enqueue((color.r, color.g, color.b, 0));
            proof {
                let s = old(self).particles();
                if s.len() < QUEUE_CAPACITY {
                    assert(self.particles() =~= s.push(Particle { color, position: 0 }));
                    assert(added(s, color) == s.push(Particle { color, position: 0 }));
                    assert forall|i: int, j: int| 0 <= i < j < self.particles().len()
                        implies (#[trigger] self.particles()[i]).position
                            > (#[trigger] self.particles()[j]).position
                    by {
                        if j + 1 == self.particles().len() && s.len() > 0 {
                            assert(s[i] == self.particles()[i]);
                            if i + 1 < s.len() {
                                assert(s[i].position > s[(s.len() - 1) as int].position);
                            }
                        }
                    }
                } else {
                    assert(self.particles() =~= s);
                }
            }
            r
        } else {
            proof {
                assert(self.particles() =~= added(old(self).particles(), color));
            }
            Ok(())
        }
    }

    /// Removes, from the oldest end, every particle whose position has
    /// moved past the visibility limit.
    pub fn cull(&mut self)
        requires
            old(self).config_ok(),
            positions_decreasing(old(self).particles()),
            old(self).particles().len() <= QUEUE_CAPACITY,
        ensures
            final(self).wf(),
            final(self).strip_length() == old(self).strip_length(),
            final(self).trail_len() == old(self).trail_len(),
            final(self).particles() == culled(old(self).particles(), old(self).limit()),
    {
        let ghost s0 = self.particles();
        let ghost lim0 = old(self).limit();
        let limit = self.length + self.trail_length;
        loop
            invariant
                self.length == old(self).length,
                self.trail_length == old(self).trail_length,
                limit as int == lim0,
                positions_decreasing(self.particles()),
                self.particles().len() <= QUEUE_CAPACITY,
                culled(self.particles(), lim0) == culled(s0, lim0),
            ensures
                self.length == old(self).length,
                self.trail_length == old(self).trail_length,
                positions_decreasing(self.particles()),
                self.particles().len() <= QUEUE_CAPACITY,
                culled(self.particles(), lim0) == culled(s0, lim0),
                self.particles().len() > 0 ==> self.particles()[0].position <= lim0,
            decreases self.particles().len(),
        {
            let front = self.queue.peek();
            match front {
                Some(item) => {
                    if item.3 > limit {
                        let ghost before = self.particles();
                        let _ = self.queue.dequeue();
                        proof {
                            assert(self.particles() =~= before.subrange(
                                1,
                                before.len() as int,
                            ));
                        }
                    } else {
                        break;
                    }
                }
                None => {
                    break;
                }
            }
        }
        proof {
            let s = self.particles();
            assert(culled(s, lim0) == s);
            assert forall|i: int| 0 <= i < s.len() implies (#[trigger] s[i]).position <= lim0 by {
                if i > 0 {
                    assert(s[0].position > s[i].position);
                }
            }
        }
    }

    /// Advances every particle by one position, then culls the particles
    /// that are no longer visible.
    pub fn step(&mut self)
        requires
            old(self).wf(),
        ensures
            final(self).wf(),
            final(self).strip_length() == old(self).strip_length(),
            final(self).trail_len() == old(self).trail_len(),
            final(self).particles() == culled(stepped(old(self).particles()), old(self).limit()),
    {
        let ghost s0 = self.particles();
        let ghost lim0 = old(self).limit();
        let n = self.queue.len();
        let mut i: usize = 0;
        while i < n
            invariant
                i <= n,
                n == s0.len(),
                n <= QUEUE_CAPACITY,
                self.length == old(self).length,
                self.trail_length == old(self).trail_length,
                positions_bounded(s0, lim0),
                lim0 <= 65534,
                self.particles().len() == n,
                self.particles() == s0.subrange(i as int, n as int) + stepped(
                    s0.subrange(0, i as int),
                ),
            decreases n - i,
        {
            let ghost before = self.particles();
            let item = self.queue.dequeue();
            if let Some(t) = item {
                proof {
                    let mid = before.subrange(1, before.len() as int);
                    assert forall|k: int| 0 <= k < mid.len() implies #[trigger] self.particles()[k]
                        == mid[k] by {
                        assert(mid[k] == before[k + 1]);
                    }
                    assert(self.particles() =~= mid);
                    assert(particle_of(t) == before[0]);
                    assert(before[0] == s0[i as int]);
                }
                let ghost dropped = self.particles();
                let _ = self.queue.enqueue((t.0, t.1, t.2, t.3 + 1));
                proof {
                    let next = s0.subrange(i as int + 1, n as int) + stepped(
                        s0.subrange(0, i as int + 1),
                    );
                    assert(self.particles() =~= dropped.push(
                        Particle { color: particle_of(t).color, position: (t.3 + 1) as u16 },
                    ));
                    assert forall|k: int| 0 <= k < next.len() implies #[trigger] self.particles()[k]
                        == next[k] by {
                        if k < n - i - 1 {
                            assert(next[k] == s0.subrange(i as int + 1, n as int)[k]);
                            assert(dropped[k] == before[k + 1]);
                            assert(before[k + 1] == s0.subrange(i as int, n as int)[k + 1]);
                        } else if k < next.len() - 1 {
                            assert(next[k] == stepped(s0.subrange(0, i as int + 1))[k - (n - i
                                - 1)]);
                            assert(dropped[k] == before[k + 1]);
                            assert(before[k + 1] == stepped(s0.subrange(0, i as int))[k + 1 - (n
                                - i)]);
                        } else {
                            assert(next[k] == stepped(s0.subrange(0, i as int + 1))[i as int]);
                        }
                    }
                    assert(self.particles() =~= next);
                }
            }
            i += 1;
        }
        proof {
            assert(self.particles() =~= stepped(s0));
            let s = self.particles();
            assert forall|i2: int, j2: int| 0 <= i2 < j2 < s.len() implies (#[trigger] s[i2]).position
                > (#[trigger] s[j2]).position by {
                assert(s0[i2].position > s0[j2].position);
            }
        }
        self.cull();
        proof {
            assert(stepped(s0).subrange(0, stepped(s0).len() as int) =~= stepped(s0));
        }
    }

    /// The number of particles currently held.
    pub fn len(&self) -> (n: usize)
        ensures
            n == self.particles().len(),
    {
        self.queue.len()
    }

    /// Starts a readback of the strip: one color per LED position,
    /// newest particles taking precedence.
    pub fn iter(&self) -> (it: ElementIter)
        requires
            self.wf(),
            self.trail_len() >= 1,
        ensures
            it.wf(),
            it.items() == self.particles().reverse(),
            it.spec_idx() == 0,
            it.spec_pos() == 0,
            it.strip_length() == self.strip_length(),
            it.trail_len() == self.trail_len(),
            it.spec_step() == 255 as int / self.trail_len() as int,
    {
        let ghost s = self.particles();
        let raw = self.queue.to_vec();
        let mut items: Vec<Particle> = Vec::new();
        let mut i: usize = raw.len();
        while i > 0
            invariant
                i <= raw.len(),
                raw@.map_values(|item: (u8, u8, u8, u16)| particle_of(item)) == s,
                items@.len() == raw@.len() - i,
                forall|k: int|
                    #![trigger items@[k]]
                    0 <= k < items@.len() ==> items@[k] == s[s.len() - 1 - k],
            decreases i,
        {
            i = i - 1;
            let t = raw[i];
            items.push(Particle { color: Rgb { r: t.0, g: t.1, b: t.2 }, position: t.3 });
            proof {
                assert(particle_of(raw@[i as int]) == s[i as int]);
            }
        }
        let step = 255 / self.trail_length;
        proof {
            assert(items@ =~= s.reverse());
            assert forall|a: int, b: int| 0 <= a < b < items@.len() implies (
            #[trigger] items@[a]).position < (#[trigger] items@[b]).position by {
                assert(s[s.len() - 1 - b].position > s[s.len() - 1 - a].position);
            }
        }
        ElementIter {
            items,
            idx: 0,
            pos: 0,
            length: self.length,
            trail_length: self.trail_length,
            step,
        }
    }
}

/// A readback of the strip in progress: emits the color of each LED
/// position in order, scanning the particles from newest to oldest.
pub struct ElementIter {
    items: Vec<Particle>,
    idx: usize,
    pos: u16,
    length: u16,
    trail_length: u16,
    step: u16,
}

impl ElementIter {
    /// The particles being scanned, newest first.
    pub closed spec fn items(&self) -> Seq<Particle> {
        self.items@
    }

    /// How many particles the scan has passed.
    pub closed spec fn spec_idx(&self) -> int {
        self.idx as int
    }

    /// The next strip position to emit.
    pub closed spec fn spec_pos(&self) -> u16 {
        self.pos
    }

    /// The number of LED positions emitted in total.
    pub closed spec fn strip_length(&self) -> u16 {
        self.length
    }

    /// How many positions a trail fades over.
    pub closed spec fn trail_len(&self) -> u16 {
        self.trail_length
    }

    /// The per-position brightness falloff, `255 / trail_length`.
    pub closed spec fn spec_step(&self) -> u16 {
        self.step
    }

    /// Well-formedness: the scan position and particle cursor stay in
    /// lockstep, so that the cursor always rests on the first particle at
    /// or just behind the strip position.
    pub open spec fn wf(&self) -> bool {
        &&& self.trail_len() >= 1
        &&& self.spec_step() == 255 as int / self.trail_len() as int
        &&& positions_increasing(self.items())
        &&& 0 <= self.spec_idx() <= self.items().len()
        &&& self.spec_pos() <= self.strip_length()
        &&& forall|k: int|
            #![trigger self.items()[k]]
            0 <= k < self.spec_idx() ==> self.items()[k].position < self.spec_pos()
        &&& self.spec_idx() < self.items().len() ==> self.items()[self.spec_idx()].position + 1
            >= self.spec_pos()
    }

    /// Emits the color of the next LED position, or `None` once every
    /// one of the strip's `length` positions has been emitted.
    pub fn next(&mut self) -> (r: Option<Rgb>)
        requires
            old(self).wf(),
        ensures
            final(self).wf(),
            final(self).items() == old(self).items(),
            final(self).strip_length() == old(self).strip_length(),
            final(self).trail_len() == old(self).trail_len(),
            final(self).spec_step() == old(self).spec_step(),
            old(self).spec_pos() >= old(self).strip_length() ==> r == Option::<Rgb>::None
                && *final(self) == *old(self),
            old(self).spec_pos() < old(self).strip_length() ==> {
                &&& r == Some(
                    trail_color(
                        old(self).items(),
                        old(self).spec_pos(),
                        old(self).trail_len(),
                        old(self).spec_step(),
                    ),
                )
                &&& final(self).spec_pos() == old(self).spec_pos() + 1
            },
    {
        if self.pos >= self.length {
            return None;
        }
        let pos = self.pos;
        self.pos = pos + 1;
        if self.idx < self.items.len() && self.items[self.idx].position < pos {
            self.idx = self.idx + 1;
        }
        proof {
            lemma_first_visible_at(self.items@, pos, self.idx as int);
        }
        if self.idx < self.items.len() {
            let p = self.items[self.idx];
            let distance = p.position - pos;
            let multiplier: u16 = if distance >= self.trail_length {
                0
            } else {
                proof {
                    let tl = self.trail_length as int;
                    let st = self.step as int;
                    lemma_fundamental_div_mod(255, tl);
                    lemma_mod_bound(255, tl);
                    lemma_mul_inequality(tl - distance, tl, st);
                }
                (self.trail_length - distance) * self.step
            };
            Some(brightness(p.color, multiplier))
        } else {
            Some(Rgb::black())
        }
    }
}

/// The buffer after `n` ticks: each tick advances every particle and
/// culls those beyond `limit`.
pub open spec fn steps_n(s: Seq<Particle>, limit: int, n: nat) -> Seq<Particle>
    decreases n,
{
    if n == 0 {
        s
    } else {
        culled(stepped(steps_n(s, limit, (n - 1) as nat)), limit)
    }
}

/// Adding twice in immediate succession, with no tick in between,
/// enqueues exactly one particle: the second call is a no-op because the
/// newest particle still sits at position 0.
pub proof fn lemma_add_debounce(s: Seq<Particle>, c1: Rgb, c2: Rgb)
    requires
        s.len() < QUEUE_CAPACITY,
        s.len() > 0 ==> s.last().position != 0,
    ensures
        added(s, c1).len() == s.len() + 1,
        added(added(s, c1), c2) == added(s, c1),
{
    let s1 = added(s, c1);
    assert(s1 == s.push(Particle { color: c1, position: 0 }));
    assert(s1.last() == Particle { color: c1, position: 0 });
}

/// After `k` ticks, a lone particle added at position 0 sits at position
/// `k`, until the tick after it passes `limit` removes it.
proof fn lemma_lone_particle_steps(color: Rgb, limit: int, k: nat)
    requires
        0 <= limit <= 65534,
        k <= limit + 1,
    ensures
        k <= limit ==> steps_n(seq![Particle { color, position: 0 }], limit, k) == seq![
            Particle { color, position: k as u16 },
        ],
        k == limit + 1 ==> steps_n(seq![Particle { color, position: 0 }], limit, k)
            == Seq::<Particle>::empty(),
    decreases k,
{
    if k > 0 {
        lemma_lone_particle_steps(color, limit, (k - 1) as nat);
        let prev = seq![Particle { color, position: (k - 1) as u16 }];
        let moved = seq![Particle { color, position: k as u16 }];
        assert(stepped(prev) =~= moved);
        if k <= limit {
            assert(culled(moved, limit) == moved);
        } else {
            assert(moved.subrange(1, 1) =~= Seq::<Particle>::empty());
            assert(culled(Seq::<Particle>::empty(), limit) == Seq::<Particle>::empty());
            assert(culled(moved, limit) == Seq::<Particle>::empty());
        }
    }
}

/// A single particle added to an empty buffer is gone after
/// `length + trail_length + 1` ticks.
pub proof fn lemma_single_add_expires(color: Rgb, length: u16, trail_length: u16)
    requires
        length + trail_length <= 65534,
    ensures
        steps_n(
            added(Seq::<Particle>::empty(), color),
            length + trail_length,
            (length + trail_length + 1) as nat,
        ) == Seq::<Particle>::empty(),
{
    assert(added(Seq::<Particle>::empty(), color) =~= seq![Particle { color, position: 0 }]);
    lemma_lone_particle_steps(color, length + trail_length, (length + trail_length + 1) as nat);
}

/// The readback of a single particle: black everywhere past its head,
/// black from `trail_length` positions behind it, and a linearly fading
/// tail in between, at full multiplier right at the head.
pub proof fn lemma_lone_particle_trail(p: Particle, pos: u16, trail_length: u16, step: u16)
    requires
        trail_length >= 1,
        step == 255 as int / trail_length as int,
    ensures
        pos > p.position ==> trail_color(seq![p], pos, trail_length, step) == (Rgb {
            r: 0,
            g: 0,
            b: 0,
        }),
        pos <= p.position && p.position - pos >= trail_length ==> trail_color(
            seq![p],
            pos,
            trail_length,
            step,
        ) == (Rgb { r: 0, g: 0, b: 0 }),
        pos <= p.position && p.position - pos < trail_length ==> trail_color(
            seq![p],
            pos,
            trail_length,
            step,
        ) == faded(p.color, ((trail_length - (p.position - pos)) * step) as u16),
        pos == p.position ==> trail_color(seq![p], pos, trail_length, step) == faded(
            p.color,
            (trail_length * step) as u16,
        ),
    decreases trail_length,
{
    let s = seq![p];
    if pos > p.position {
        assert(s.subrange(1, 1) =~= Seq::<Particle>::empty());
        assert(first_visible(Seq::<Particle>::empty(), pos) == 0);
        assert(first_visible(s, pos) == 1);
    } else {
        assert(first_visible(s, pos) == 0);
        if p.position - pos >= trail_length {
            assert(trail_multiplier(p.position - pos, trail_length, step) == 0);
            assert(faded(p.color, 0) == (Rgb { r: 0, g: 0, b: 0 }));
        }
    }
}

} // verus!
