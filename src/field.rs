//! The starfield: a fixed collection of stars and the one random source they
//! share, advanced and projected once per frame.
use vstd::prelude::*;
use crate::source::Source;
use crate::star::{Star, Segment, WIDTH_FIXED, spawned, recycled, advanced, passes, segment_of};

verus! {

/// Number of stars in a field made for the screen.
pub const STARS: usize = 600;

/// The state a star is left in after a frame in which it moved `speed` closer
/// without passing the viewer: advanced, and its new depth recorded as the
/// previous one.
pub open spec fn rested(s: Star, speed: int) -> Star {
    Star { pz: (s.z - speed) as i64, ..advanced(s, speed) }
}

/// Star `a` after one frame at `speed`: recycled with the offsets drawn as
/// `rx` and `ry` where it passes the viewer, otherwise moved closer.
pub open spec fn stepped(a: Star, speed: int, rx: u32, ry: u32) -> Star {
    if passes(a, speed) { recycled(rx, ry) } else { rested(a, speed) }
}

/// The streak drawn for star `a` in that frame.
pub open spec fn streak(a: Star, speed: int, rx: u32, ry: u32) -> Segment {
    if passes(a, speed) { segment_of(recycled(rx, ry)) } else { segment_of(advanced(a, speed)) }
}

/// How many values star `a` draws in a frame at `speed`: two when it is
/// recycled, none otherwise.
pub open spec fn draws_taken(a: Star, speed: int) -> nat {
    if passes(a, speed) { 2 } else { 0 }
}

/// How many values the first `n` stars draw in a frame at `speed`.
pub open spec fn used(stars: Seq<Star>, speed: int, n: int) -> nat
    decreases n,
{
    if n <= 0 { 0 } else { used(stars, speed, n - 1) + draws_taken(stars[n - 1], speed) }
}

/// Star `i` after a frame at `speed` in which the stars, visited in index
/// order, drew the values `draws`.
pub open spec fn frame_star(stars: Seq<Star>, speed: int, draws: Seq<u32>, i: int) -> Star {
    let u = used(stars, speed, i) as int;
    stepped(stars[i], speed, draws[u], draws[u + 1])
}

/// The streak drawn for star `i` in that frame.
pub open spec fn frame_streak(stars: Seq<Star>, speed: int, draws: Seq<u32>, i: int) -> Segment {
    let u = used(stars, speed, i) as int;
    streak(stars[i], speed, draws[u], draws[u + 1])
}

/// The per-frame speed actually applied: the input, floored at zero.
pub open spec fn clamped(speed: int) -> int {
    if speed < 0 { 0 } else { speed }
}

/// A fixed population of stars sharing one random source.
pub struct Starfield {
    pub rng: Source,
    pub stars: Vec<Star>,
}

impl Starfield {
    /// Every star well formed.
    pub open spec fn wf(&self) -> bool {
        forall|i: int| 0 <= i < self.stars@.len() ==> (#[trigger] self.stars@[i]).wf()
    }

    /// A field of `count` stars, the source seeded with `seed`. Star `i` is
    /// placed by draws `3i`, `3i + 1` and `3i + 2`: depth, `x`, `y`.
    pub fn new(seed: u64, count: usize) -> (r: Starfield)
        ensures
            r.wf(),
            r.stars@.len() == count,
            r.rng.drawn().len() == 3 * count,
            forall|i: int| 0 <= i < count ==> #[trigger] r.stars@[i] == spawned(
                r.rng.drawn()[3 * i],
                r.rng.drawn()[3 * i + 1],
                r.rng.drawn()[3 * i + 2],
            ),
    {
        let mut rng = Source::new(seed);
        let mut stars: Vec<Star> = Vec::with_capacity(count);
        let mut k: usize = 0;
        while k < count
            invariant
                k <= count,
                stars@.len() == k,
                rng.drawn().len() == 3 * k,
                forall|i: int| 0 <= i < k ==> (#[trigger] stars@[i]).wf(),
                forall|i: int| 0 <= i < k ==> #[trigger] stars@[i] == spawned(
                    rng.drawn()[3 * i],
                    rng.drawn()[3 * i + 1],
                    rng.drawn()[3 * i + 2],
                ),
            decreases count - k,
        {
            let ghost before = rng.drawn();
            let s = Star::new(&mut rng);
            proof {
                assert forall|i: int| 0 <= i < 3 * k implies #[trigger] rng.drawn()[i] == before[i] by {
                    assert(rng.drawn().take(3 * k as int)[i] == before[i]);
                }
            }
            stars.push(s);
            k = k + 1;
        }
        Starfield { rng, stars }
    }

    /// Advances star `i` by `speed`, recycling it with the next two draws where
    /// it passes the viewer, and returns the streak to draw for it; no other
    /// star changes, and without a recycle nothing is drawn.
    pub fn update_star(&mut self, i: usize, speed: i64) -> (r: Segment)
        requires
            old(self).wf(),
            i < old(self).stars@.len(),
            speed >= 0,
        ensures
            final(self).wf(),
            final(self).stars@.len() == old(self).stars@.len(),
            forall|j: int| 0 <= j < old(self).stars@.len() && j != i ==>
                #[trigger] final(self).stars@[j] == old(self).stars@[j],
            ({
                let a = old(self).stars@[i as int];
                let k = old(self).rng.drawn().len() as int;
                let d = final(self).rng.drawn();
                &&& d.len() == k + draws_taken(a, speed as int)
                &&& d.take(k) == old(self).rng.drawn()
                &&& final(self).stars@[i as int] == stepped(a, speed as int, d[k], d[k + 1])
                &&& r == streak(a, speed as int, d[k], d[k + 1])
                &&& !passes(a, speed as int) ==> final(self).rng == old(self).rng
            }),
    {
        let mut s = self.stars[i];
        s.update(&mut self.rng, speed);
        let seg = s.show();
        self.stars.set(i, s);
        seg
    }

    /// One frame: every star, in index order, is advanced by `speed` floored at
    /// zero and then projected, the recycled ones drawing two values each in
    /// that order. Returns the streaks in the same order, one per star; the
    /// number of stars never changes.
    pub fn update(&mut self, speed: i64) -> (r: Vec<Segment>)
        requires
            old(self).wf(),
        ensures
            final(self).wf(),
            final(self).stars@.len() == old(self).stars@.len(),
            r@.len() == old(self).stars@.len(),
            ({
                let olds = old(self).stars@;
                let s = clamped(speed as int);
                let k = old(self).rng.drawn().len() as int;
                let d = final(self).rng.drawn();
                &&& d.len() == k + used(olds, s, olds.len() as int)
                &&& d.take(k) == old(self).rng.drawn()
                &&& forall|i: int| 0 <= i < olds.len() ==>
                    #[trigger] final(self).stars@[i] == frame_star(olds, s, d.skip(k), i)
                &&& forall|i: int| 0 <= i < olds.len() ==>
                    #[trigger] r@[i] == frame_streak(olds, s, d.skip(k), i)
                &&& (forall|i: int| 0 <= i < olds.len() ==> !passes(#[trigger] olds[i], s))
                    ==> final(self).rng == old(self).rng
            }),
    {
        let s: i64 = if speed < 0 { 0 } else { speed };
        let n: usize = self.stars.len();
        let ghost olds = self.stars@;
        let ghost k = self.rng.drawn().len() as int;
        let mut out: Vec<Segment> = Vec::with_capacity(n);
        let mut i: usize = 0;
        while i < n
            invariant
                self.wf(),
                olds == old(self).stars@,
                k == old(self).rng.drawn().len(),
                n == olds.len(),
                self.stars@.len() == n,
                i <= n,
                out@.len() == i,
                s == clamped(speed as int),
                s >= 0,
                self.rng.drawn().len() == k + used(olds, s as int, i as int),
                self.rng.drawn().take(k) == old(self).rng.drawn(),
                forall|j: int| i <= j < n ==> #[trigger] self.stars@[j] == olds[j],
                forall|j: int| 0 <= j < i ==>
                    #[trigger] self.stars@[j] == frame_star(olds, s as int, self.rng.drawn().skip(k), j),
                forall|j: int| 0 <= j < i ==>
                    #[trigger] out@[j] == frame_streak(olds, s as int, self.rng.drawn().skip(k), j),
                (forall|j: int| 0 <= j < i ==> !passes(#[trigger] olds[j], s as int))
                    ==> self.rng == old(self).rng,
            decreases n - i,
        {
            let ghost before = self.rng.drawn();
            let ghost prev_rng = self.rng;
            let seg = self.update_star(i, s);
            proof {
                let after = self.rng.drawn();
                let b = before.len() as int;
                assert forall|m: int| 0 <= m < b implies #[trigger] after[m] == before[m] by {
                    assert(after.take(b)[m] == before[m]);
                }
                assert(after.take(k) =~= before.take(k));
                assert forall|j: int| 0 <= j < i implies
                    frame_star(olds, s as int, after.skip(k), j) == frame_star(olds, s as int, before.skip(k), j)
                    && frame_streak(olds, s as int, after.skip(k), j) == frame_streak(olds, s as int, before.skip(k), j) by {
                    lemma_used_monotone(olds, s as int, j + 1, i as int);
                    let u = used(olds, s as int, j) as int;
                    if passes(olds[j], s as int) {
                        assert(after.skip(k)[u] == before.skip(k)[u]);
                        assert(after.skip(k)[u + 1] == before.skip(k)[u + 1]);
                    }
                }
                if passes(olds[i as int], s as int) {
                    assert(after.skip(k)[used(olds, s as int, i as int) as int] == after[b]);
                    assert(after.skip(k)[used(olds, s as int, i as int) + 1int] == after[b + 1]);
                }
            }
            out.push(seg);
            i = i + 1;
        }
        out
    }
}

/// More stars never draw fewer values.
pub proof fn lemma_used_monotone(stars: Seq<Star>, speed: int, j: int, i: int)
    requires
        j <= i,
    ensures
        used(stars, speed, j) <= used(stars, speed, i),
    decreases i - j,
{
    if j < i {
        lemma_used_monotone(stars, speed, j, i - 1);
    }
}

/// After a frame every star is drawable: its depth is at least one whole
/// unit, so projecting it never divides by zero, and it starts the next frame
/// as a point.
pub proof fn lemma_depth_guard(a: Star, speed: int, rx: u32, ry: u32)
    requires
        a.wf(),
        speed >= 0,
    ensures
        stepped(a, speed, rx, ry).drawable(),
        stepped(a, speed, rx, ry).pz == stepped(a, speed, rx, ry).z,
{
}

/// A star whose move takes it below one unit of depth ends the frame at the
/// far plane, as a point rather than a streak.
pub proof fn lemma_recycle_at_far_plane(a: Star, speed: int, rx: u32, ry: u32)
    requires
        passes(a, speed),
    ensures
        stepped(a, speed, rx, ry).z == WIDTH_FIXED,
        stepped(a, speed, rx, ry).pz == stepped(a, speed, rx, ry).z,
{
}

/// A frame is fixed by the stars before it, the speed, and the values drawn:
/// two runs over the same stars at the same speed whose sources hand out the
/// same values for the draws the frame takes end with the same stars and the
/// same streaks.
pub proof fn lemma_frames_determined(stars: Seq<Star>, speed: int, d1: Seq<u32>, d2: Seq<u32>)
    requires
        d1.len() >= used(stars, speed, stars.len() as int),
        d2.len() >= used(stars, speed, stars.len() as int),
        d1.take(used(stars, speed, stars.len() as int) as int)
            == d2.take(used(stars, speed, stars.len() as int) as int),
    ensures
        forall|i: int| 0 <= i < stars.len() ==>
            #[trigger] frame_star(stars, speed, d1, i) == frame_star(stars, speed, d2, i),
        forall|i: int| 0 <= i < stars.len() ==>
            #[trigger] frame_streak(stars, speed, d1, i) == frame_streak(stars, speed, d2, i),
{
    let total = used(stars, speed, stars.len() as int) as int;
    assert forall|i: int| 0 <= i < stars.len() implies
        frame_star(stars, speed, d1, i) == frame_star(stars, speed, d2, i)
        && frame_streak(stars, speed, d1, i) == frame_streak(stars, speed, d2, i) by {
        lemma_used_monotone(stars, speed, i + 1, stars.len() as int);
        let u = used(stars, speed, i) as int;
        assert(used(stars, speed, i + 1) == u + draws_taken(stars[i], speed));
        if passes(stars[i], speed) {
            assert(d1.take(total)[u] == d2.take(total)[u]);
            assert(d1.take(total)[u + 1] == d2.take(total)[u + 1]);
        }
    }
}

} // verus!
