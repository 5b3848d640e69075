//! A single star: its position, its depth, and its projection onto the screen.
use vstd::prelude::*;
use crate::fixed::{SCALE, abs, quot, map_spec, random_spec, random, quotient};
use crate::source::Source;

verus! {

/// Screen width in pixels.
pub const WIDTH: i64 = 400;

/// Screen height in pixels.
pub const HEIGHT: i64 = 240;

/// Screen width in fixed-point units: the depth a star is recycled to.
pub const WIDTH_FIXED: i64 = WIDTH * SCALE;

/// Screen height in fixed-point units.
pub const HEIGHT_FIXED: i64 = HEIGHT * SCALE;

/// Depth below which a star has passed the viewer: one whole unit.
pub const NEAR: i64 = SCALE;

/// A point on its way toward the viewer. `x` and `y` are offsets from the
/// screen's centre, `z` its depth, `pz` its depth at the end of the last frame.
#[derive(Clone, Copy, Debug, PartialEq, Eq, Structural)]
pub struct Star {
    pub x: i64,
    pub y: i64,
    pub z: i64,
    pub pz: i64,
}

/// One streak to draw: a line from the star's previous screen position to its
/// current one, with the given thickness, all in pixels.
#[derive(Clone, Copy, Debug, PartialEq, Eq, Structural)]
pub struct Segment {
    pub from_x: i32,
    pub from_y: i32,
    pub to_x: i32,
    pub to_y: i32,
    pub thickness: i32,
}

/// Screen coordinate, in pixels, of the offset `v` seen at `depth` on an axis
/// `extent` pixels long: `map(v / depth + 0.5, 0, 1, 0, extent)`, each step in
/// fixed point, the pixel rounded toward zero.
pub open spec fn project(v: int, depth: int, extent: int) -> int {
    quot(
        map_spec(quot(v * SCALE, depth) + SCALE / 2, 0, SCALE as int, 0, extent * SCALE),
        SCALE as int,
    )
}

/// Stroke thickness, in pixels, of a star at depth `z`: `map(z, 0, W, 4, 0)`,
/// rounded toward zero.
pub open spec fn radius(z: int) -> int {
    quot(map_spec(z, 0, WIDTH_FIXED as int, 4 * SCALE, 0), SCALE as int)
}

/// The streak drawn for a star: from its position at depth `pz` to its
/// position at depth `z`.
pub open spec fn segment_of(s: Star) -> Segment {
    Segment {
        from_x: project(s.x as int, s.pz as int, WIDTH as int) as i32,
        from_y: project(s.y as int, s.pz as int, HEIGHT as int) as i32,
        to_x: project(s.x as int, s.z as int, WIDTH as int) as i32,
        to_y: project(s.y as int, s.z as int, HEIGHT as int) as i32,
        thickness: radius(s.z as int) as i32,
    }
}

/// The star placed by three draws, taken in the order depth, `x`, `y`.
pub open spec fn spawned(rz: u32, rx: u32, ry: u32) -> Star {
    Star {
        x: random_spec(rx, -WIDTH_FIXED, WIDTH_FIXED as int) as i64,
        y: random_spec(ry, -HEIGHT_FIXED, HEIGHT_FIXED as int) as i64,
        z: random_spec(rz, 0, WIDTH_FIXED as int) as i64,
        pz: random_spec(rz, 0, WIDTH_FIXED as int) as i64,
    }
}

/// The star recycled at the far plane, its offsets taken from two draws.
pub open spec fn recycled(rx: u32, ry: u32) -> Star {
    Star {
        x: random_spec(rx, -WIDTH_FIXED, WIDTH_FIXED as int) as i64,
        y: random_spec(ry, -HEIGHT_FIXED, HEIGHT_FIXED as int) as i64,
        z: WIDTH_FIXED,
        pz: WIDTH_FIXED,
    }
}

/// Whether a star moved by `speed` from state `s` passes the viewer.
pub open spec fn passes(s: Star, speed: int) -> bool {
    s.z - speed < NEAR
}

/// The star `s` moved `speed` closer, before any recycling.
pub open spec fn advanced(s: Star, speed: int) -> Star {
    Star { z: (s.z - speed) as i64, ..s }
}

impl Star {
    /// Offsets within the screen's signed ranges, depth within `[0, W]`, and the
    /// previous depth no closer than the current one.
    pub open spec fn wf(self) -> bool {
        &&& -WIDTH_FIXED <= self.x < WIDTH_FIXED
        &&& -HEIGHT_FIXED <= self.y < HEIGHT_FIXED
        &&& 0 <= self.z <= self.pz <= WIDTH_FIXED
    }

    /// A star ready to be drawn: depth at least one whole unit.
    pub open spec fn drawable(self) -> bool {
        self.wf() && self.z >= NEAR
    }

    /// The star placed by the draws `rz`, `rx`, `ry`: depth in `[0, W)`, `x` in
    /// `[-W, W)`, `y` in `[-H, H)`, and no streak yet.
    pub fn from_draws(rz: u32, rx: u32, ry: u32) -> (r: Star)
        ensures
            r == spawned(rz, rx, ry),
            r.wf(),
            r.pz == r.z,
            r.z < WIDTH_FIXED,
    {
        let z = random(rz, 0, WIDTH_FIXED);
        Star {
            x: random(rx, -WIDTH_FIXED, WIDTH_FIXED),
            y: random(ry, -HEIGHT_FIXED, HEIGHT_FIXED),
            z,
            pz: z,
        }
    }

    /// A star at a random place, from the next three draws of `src`: depth,
    /// then `x`, then `y`.
    pub fn new(src: &mut Source) -> (r: Star)
        ensures
            final(src).drawn().len() == old(src).drawn().len() + 3,
            final(src).drawn().take(old(src).drawn().len() as int) == old(src).drawn(),
            r == spawned(
                final(src).drawn()[old(src).drawn().len() as int],
                final(src).drawn()[old(src).drawn().len() + 1int],
                final(src).drawn()[old(src).drawn().len() + 2int],
            ),
            r.wf(),
            r.pz == r.z,
            r.z < WIDTH_FIXED,
    {
        let rz = src.draw();
        let rx = src.draw();
        let ry = src.draw();
        assert(src.drawn().take(old(src).drawn().len() as int) =~= old(src).drawn());
        Star::from_draws(rz, rx, ry)
    }

    /// Puts the star back at the far plane, its offsets taken from `rx` and
    /// `ry`, as a point rather than a streak.
    pub fn recycle(&mut self, rx: u32, ry: u32)
        ensures
            *final(self) == recycled(rx, ry),
            final(self).drawable(),
            final(self).z == WIDTH_FIXED,
            final(self).pz == final(self).z,
    {
        self.z = WIDTH_FIXED;
        self.x = random(rx, -WIDTH_FIXED, WIDTH_FIXED);
        self.y = random(ry, -HEIGHT_FIXED, HEIGHT_FIXED);
        self.pz = self.z;
    }

    /// Moves the star `speed` closer. Where that takes it below one unit of
    /// depth it is recycled with the next two draws of `src`, for `x` then `y`;
    /// otherwise nothing is drawn and `src` is left as it was.
    pub fn update(&mut self, src: &mut Source, speed: i64)
        requires
            old(self).wf(),
            speed >= 0,
        ensures
            !passes(*old(self), speed as int) ==> {
                &&& *final(self) == advanced(*old(self), speed as int)
                &&& *final(src) == *old(src)
            },
            passes(*old(self), speed as int) ==> {
                let k = old(src).drawn().len() as int;
                &&& final(src).drawn().len() == k + 2
                &&& final(src).drawn().take(k) == old(src).drawn()
                &&& *final(self) == recycled(final(src).drawn()[k], final(src).drawn()[k + 1])
            },
            final(self).drawable(),
    {
        self.z = self.z - speed;
        if self.z < NEAR {
            let rx = src.draw();
            let ry = src.draw();
            assert(src.drawn().take(old(src).drawn().len() as int) =~= old(src).drawn());
            self.recycle(rx, ry);
        }
    }

    /// The streak for this frame, from the star's position at its previous
    /// depth to its position at its current depth; the current depth becomes
    /// the previous one.
    pub fn show(&mut self) -> (r: Segment)
        requires
            old(self).drawable(),
        ensures
            r == segment_of(*old(self)),
            *final(self) == (Star { pz: old(self).z, ..*old(self) }),
    {
        let to_x = screen(self.x, self.z, WIDTH);
        let to_y = screen(self.y, self.z, HEIGHT);
        let thickness = stroke(self.z);
        let from_x = screen(self.x, self.pz, WIDTH);
        let from_y = screen(self.y, self.pz, HEIGHT);
        self.pz = self.z;
        Segment { from_x, from_y, to_x, to_y, thickness }
    }
}

/// Depth reached from `z` after moving by each of `speeds` in turn, with no
/// recycle on the way.
pub open spec fn depth_after(z: int, speeds: Seq<int>) -> int
    decreases speeds.len(),
{
    if speeds.len() == 0 {
        z
    } else {
        depth_after(z, speeds.drop_last()) - speeds.last()
    }
}

/// With speeds that are never negative, a star never moves away from the
/// viewer between recycles: its depth after the first `j` moves is no greater
/// than after the first `i`, for `i <= j`.
pub proof fn lemma_no_backward_travel(z: int, speeds: Seq<int>, i: int, j: int)
    requires
        0 <= i <= j <= speeds.len(),
        forall|k: int| 0 <= k < speeds.len() ==> #[trigger] speeds[k] >= 0,
    ensures
        depth_after(z, speeds.take(j)) <= depth_after(z, speeds.take(i)),
    decreases j - i,
{
    if i < j {
        lemma_no_backward_travel(z, speeds, i, j - 1);
        assert(speeds.take(j).drop_last() =~= speeds.take(j - 1));
        assert(speeds.take(j).last() == speeds[j - 1]);
    }
}

/// One update that does not recycle moves the star exactly `speed` closer, and
/// never away from the viewer.
pub proof fn lemma_advance_closer(s: Star, speed: int)
    requires
        s.wf(),
        speed >= 0,
        !passes(s, speed),
    ensures
        advanced(s, speed).z == depth_after(s.z as int, seq![speed]),
        advanced(s, speed).z <= s.z,
{
    assert(seq![speed].drop_last() =~= Seq::<int>::empty());
    assert(depth_after(s.z as int, Seq::<int>::empty()) == s.z);
    assert(seq![speed].last() == speed);
}

/// Frames a star starting at depth `z0` survives at a constant `speed`
/// before the one in which it passes the viewer and is recycled.
pub open spec fn frames_to_recycle(z0: int, speed: int) -> int {
    if z0 < NEAR { 1 } else { (z0 - NEAR) / speed + 1 }
}

/// At a constant positive speed a star starting at depth `z0` keeps at least
/// one unit of depth after each of frames `1` to `frames_to_recycle - 1`, and
/// passes the viewer in frame `frames_to_recycle`, its first recycle.
pub proof fn lemma_first_recycle(z0: int, speed: int)
    requires
        0 <= z0,
        speed > 0,
    ensures
        frames_to_recycle(z0, speed) >= 1,
        z0 - frames_to_recycle(z0, speed) * speed < NEAR,
        forall|j: int| 1 <= j < frames_to_recycle(z0, speed) ==> z0 - #[trigger] (j * speed) >= NEAR,
{
    if z0 >= NEAR {
        let q = (z0 - NEAR) / speed;
        let r = (z0 - NEAR) % speed;
        vstd::arithmetic::div_mod::lemma_fundamental_div_mod(z0 - NEAR, speed);
        assert(0 <= r < speed);
        assert(q >= 0) by {
            vstd::arithmetic::div_mod::lemma_div_pos_is_pos(z0 - NEAR, speed);
        }
        assert(z0 - (q + 1) * speed < NEAR) by (nonlinear_arith)
            requires
                z0 - NEAR == speed * q + r,
                r < speed,
        ;
        assert forall|j: int| 1 <= j < q + 1 implies z0 - #[trigger] (j * speed) >= NEAR by {
            assert(z0 - j * speed >= NEAR) by (nonlinear_arith)
                requires
                    z0 - NEAR == speed * q + r,
                    0 <= r,
                    j <= q,
                    speed > 0,
            ;
        }
    }
}

/// The pixel at which offset `v`, seen at `depth`, lands on an axis `extent`
/// pixels long.
fn screen(v: i64, depth: i64, extent: i64) -> (r: i32)
    requires
        -WIDTH_FIXED <= v <= WIDTH_FIXED,
        NEAR <= depth,
        extent == WIDTH || extent == HEIGHT,
    ensures
        r == project(v as int, depth as int, extent as int),
{
    proof {
        assert(-4000000000000 <= v * SCALE <= 4000000000000) by (nonlinear_arith)
            requires
                -WIDTH_FIXED <= v <= WIDTH_FIXED,
        ;
        lemma_ratio_bound(v as int, depth as int);
    }
    let ratio: i128 = quotient(v as i128 * SCALE as i128, depth as i128);
    let sx: i64 = crate::fixed::map(ratio as i64 + SCALE / 2, 0, SCALE, 0, extent * SCALE);
    proof {
        lemma_pixel_bound(ratio as int + SCALE / 2, extent as int);
    }
    quotient(sx as i128, SCALE as i128) as i32
}

/// The stroke thickness, in pixels, of a star at depth `z`.
fn stroke(z: i64) -> (r: i32)
    requires
        0 <= z <= WIDTH_FIXED,
    ensures
        r == radius(z as int),
        0 <= r <= 4,
{
    let rf: i64 = crate::fixed::map(z, 0, WIDTH_FIXED, 4 * SCALE, 0);
    proof {
        lemma_stroke_bound(z as int);
    }
    quotient(rf as i128, SCALE as i128) as i32
}

proof fn lemma_ratio_bound(v: int, depth: int)
    requires
        -WIDTH_FIXED <= v <= WIDTH_FIXED,
        NEAR <= depth,
    ensures
        -WIDTH_FIXED <= quot(v * SCALE, depth) <= WIDTH_FIXED,
{
    let a = abs(v);
    assert(abs(v * SCALE) == a * SCALE) by (nonlinear_arith)
        requires
            a == abs(v),
    ;
    assert((a * SCALE) / depth <= a) by (nonlinear_arith)
        requires
            0 <= a,
            SCALE <= depth,
    {
        vstd::arithmetic::div_mod::lemma_div_is_ordered_by_denominator(a * SCALE, SCALE as int, depth);
        vstd::arithmetic::div_mod::lemma_div_by_multiple(a, SCALE as int);
    }
}

proof fn lemma_stroke_bound(z: int)
    requires
        0 <= z <= WIDTH_FIXED,
    ensures
        0 <= map_spec(z, 0, WIDTH_FIXED as int, 4 * SCALE, 0) <= 4 * SCALE,
        0 <= quot(map_spec(z, 0, WIDTH_FIXED as int, 4 * SCALE, 0), SCALE as int) <= 4,
{
    let n = (0 - 4 * SCALE) * (z - 0);
    assert(n == -(4 * SCALE * z)) by (nonlinear_arith)
        requires
            n == (0 - 4 * SCALE) * (z - 0),
    ;
    assert(0 <= 4 * SCALE * z) by (nonlinear_arith)
        requires
            0 <= z,
    ;
    assert((4 * SCALE * z) / (WIDTH_FIXED as int) <= 4 * SCALE) by (nonlinear_arith)
        requires
            0 <= z <= WIDTH_FIXED,
    {
        vstd::arithmetic::div_mod::lemma_div_is_ordered(4 * SCALE * z, 4 * SCALE * WIDTH_FIXED, WIDTH_FIXED as int);
        vstd::arithmetic::div_mod::lemma_div_by_multiple(4 * SCALE as int, WIDTH_FIXED as int);
    }
    let m = map_spec(z, 0, WIDTH_FIXED as int, 4 * SCALE, 0);
    assert(0 <= m <= 4 * SCALE);
    vstd::arithmetic::div_mod::lemma_div_is_ordered(m, 4 * SCALE, SCALE as int);
    vstd::arithmetic::div_mod::lemma_div_pos_is_pos(m, SCALE as int);
}

proof fn lemma_pixel_bound(u: int, extent: int)
    requires
        -WIDTH_FIXED <= u <= WIDTH_FIXED + SCALE,
        extent == WIDTH || extent == HEIGHT,
    ensures
        abs((extent * SCALE) * u) < i128::MAX,
        map_spec(u, 0, SCALE as int, 0, extent * SCALE) == extent * u,
        -200000 <= quot(extent * u, SCALE as int) <= 200000,
{
    let p = extent * u;
    assert(-16040000000 <= p <= 16040000000) by (nonlinear_arith)
        requires
            p == extent * u,
            -WIDTH_FIXED <= u <= WIDTH_FIXED + SCALE,
            0 < extent <= WIDTH,
    ;
    assert((extent * SCALE) * u == p * SCALE) by (nonlinear_arith)
        requires
            p == extent * u,
    ;
    assert(abs(p * SCALE) == abs(p) * SCALE) by (nonlinear_arith);
    vstd::arithmetic::div_mod::lemma_div_by_multiple(abs(p), SCALE as int);
    assert(abs(p) / (SCALE as int) <= 200000) by {
        vstd::arithmetic::div_mod::lemma_div_is_ordered(abs(p), 20000000000, SCALE as int);
    }
}

} // verus!
