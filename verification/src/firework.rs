use vstd::prelude::*;
use crate::explosion::{
    generate_primary, generate_secondary, primary_per_ray, primary_ray_count, primary_total,
    secondary_color, secondary_per_ray, secondary_ray_particle, secondary_symbol, secondary_total,
};
use crate::fixed::abs_i;
use crate::particle::{brightness_after, Particle};
use crate::rng::Rng;
use crate::types::{ColorType, Config, PaletteColor};

verus! {

/// One glyph to place on the grid for the current frame.
#[derive(Clone, Copy, PartialEq, Eq, Structural, Debug)]
pub struct RenderOp {
    pub x: u16,
    pub y: u16,
    pub symbol: char,
    pub color: PaletteColor,
}

/// One launch-to-extinguish firework: it ascends from the bottom of the
/// grid, explodes at its target row, and then ages its particle burst
/// until nothing is left.
pub struct Firework {
    pub x: u16,
    pub y: u16,
    pub explosion_x: u16,
    pub explosion_y: u16,
    pub size: u16,
    pub primary_color: PaletteColor,
    pub secondary_color: PaletteColor,
    pub tertiary_color: PaletteColor,
    pub exploded: bool,
    pub particles: Vec<Particle>,
    pub age: u16,
    pub max_age: u16,
    pub trail: Vec<(u16, u16)>,
    pub explosion_stage: u8,
    pub max_explosion_stages: u8,
}

/// The palette table: twelve fixed (primary, secondary, tertiary)
/// triples of bright colours.
pub open spec fn scheme_colors(s: int) -> (PaletteColor, PaletteColor, PaletteColor) {
    if s == 0 {
        (PaletteColor::Red, PaletteColor::Yellow, PaletteColor::Magenta)
    } else if s == 1 {
        (PaletteColor::Red, PaletteColor::White, PaletteColor::Red)
    } else if s == 2 {
        (PaletteColor::Green, PaletteColor::Cyan, PaletteColor::Yellow)
    } else if s == 3 {
        (PaletteColor::Green, PaletteColor::Yellow, PaletteColor::Green)
    } else if s == 4 {
        (PaletteColor::Blue, PaletteColor::Cyan, PaletteColor::White)
    } else if s == 5 {
        (PaletteColor::Blue, PaletteColor::Magenta, PaletteColor::Cyan)
    } else if s == 6 {
        (PaletteColor::Yellow, PaletteColor::White, PaletteColor::Green)
    } else if s == 7 {
        (PaletteColor::Yellow, PaletteColor::Red, PaletteColor::Cyan)
    } else if s == 8 {
        (PaletteColor::Magenta, PaletteColor::Red, PaletteColor::Blue)
    } else if s == 9 {
        (PaletteColor::Magenta, PaletteColor::White, PaletteColor::Yellow)
    } else if s == 10 {
        (PaletteColor::Cyan, PaletteColor::Blue, PaletteColor::White)
    } else {
        (PaletteColor::Yellow, PaletteColor::Magenta, PaletteColor::Cyan)
    }
}

fn palette_scheme(s: i64) -> (r: (PaletteColor, PaletteColor, PaletteColor))
    requires
        0 <= s < 12,
    ensures
        r == scheme_colors(s as int),
{
    if s == 0 {
        (PaletteColor::Red, PaletteColor::Yellow, PaletteColor::Magenta)
    } else if s == 1 {
        (PaletteColor::Red, PaletteColor::White, PaletteColor::Red)
    } else if s == 2 {
        (PaletteColor::Green, PaletteColor::Cyan, PaletteColor::Yellow)
    } else if s == 3 {
        (PaletteColor::Green, PaletteColor::Yellow, PaletteColor::Green)
    } else if s == 4 {
        (PaletteColor::Blue, PaletteColor::Cyan, PaletteColor::White)
    } else if s == 5 {
        (PaletteColor::Blue, PaletteColor::Magenta, PaletteColor::Cyan)
    } else if s == 6 {
        (PaletteColor::Yellow, PaletteColor::White, PaletteColor::Green)
    } else if s == 7 {
        (PaletteColor::Yellow, PaletteColor::Red, PaletteColor::Cyan)
    } else if s == 8 {
        (PaletteColor::Magenta, PaletteColor::Red, PaletteColor::Blue)
    } else if s == 9 {
        (PaletteColor::Magenta, PaletteColor::White, PaletteColor::Yellow)
    } else if s == 10 {
        (PaletteColor::Cyan, PaletteColor::Blue, PaletteColor::White)
    } else {
        (PaletteColor::Yellow, PaletteColor::Magenta, PaletteColor::Cyan)
    }
}

/// Horizontal spawn margin: `size * 10`, capped at a quarter of the grid.
pub open spec fn spawn_margin(size: int, width: int) -> int {
    if size * 10 < width / 4 {
        size * 10
    } else {
        width / 4
    }
}

/// Vertical explosion margin: `size * 5`, capped at a quarter of the grid.
pub open spec fn vertical_margin(size: int, height: int) -> int {
    if size * 5 < height / 4 {
        size * 5
    } else {
        height / 4
    }
}

/// The ascent trail after one step at `pos`: the oldest entry is evicted
/// once the trail holds five positions.
pub open spec fn trail_after(t: Seq<(u16, u16)>, pos: (u16, u16)) -> Seq<(u16, u16)> {
    if t.len() >= 5 {
        t.remove(0).push(pos)
    } else {
        t.push(pos)
    }
}

/// The one-tick particle pass distributes over concatenation: advancing
/// and pruning a burst appended to older particles is the pass on each,
/// in order.
pub proof fn lemma_prune_advanced_concat(a: Seq<Particle>, b: Seq<Particle>)
    ensures
        prune_advanced(a + b) == prune_advanced(a) + prune_advanced(b),
    decreases b.len(),
{
    if b.len() == 0 {
        assert(a + b =~= a);
        assert(prune_advanced(a) + prune_advanced(b) =~= prune_advanced(a));
    } else {
        lemma_prune_advanced_concat(a, b.drop_last());
        assert((a + b).drop_last() =~= a + b.drop_last());
        assert((a + b).last() == b.last());
        let q = advanced_particle(b.last());
        if q.age < q.max_age {
            assert(prune_advanced(a) + prune_advanced(b.drop_last()).push(q) =~= (prune_advanced(
                a,
            ) + prune_advanced(b.drop_last())).push(q));
        }
    }
}

/// A particle with at least two ticks of life left survives the pass;
/// a whole burst of such particles keeps its count, each element the
/// one-tick image of the particle at its index.
pub proof fn lemma_prune_keeps_young(ps: Seq<Particle>)
    requires
        forall|k: int| 0 <= k < ps.len() ==> (#[trigger] ps[k]).age + 1 < ps[k].max_age,
    ensures
        prune_advanced(ps).len() == ps.len(),
        forall|j: int|
            0 <= j < ps.len() ==> #[trigger] prune_advanced(ps)[j] == advanced_particle(ps[j]),
    decreases ps.len(),
{
    if ps.len() > 0 {
        lemma_prune_keeps_young(ps.drop_last());
        assert forall|j: int|
            0 <= j < ps.len() implies #[trigger] prune_advanced(ps)[j] == advanced_particle(
            ps[j],
        ) by {
            if j < ps.len() - 1 {
                assert(ps.drop_last()[j] == ps[j]);
            }
        }
    }
}

/// The trail stays bounded: one ascent step on a trail of at most five
/// positions yields a trail of at most five positions, so an ascending
/// firework never shows more than five trail glyphs.
pub proof fn lemma_trail_bounded(t: Seq<(u16, u16)>, pos: (u16, u16))
    requires
        t.len() <= 5,
    ensures
        trail_after(t, pos).len() <= 5,
{
}

/// A particle position fit to centre a secondary burst: still bright,
/// and within the band in which every particle of the new burst stays
/// in its well-formedness range.
pub open spec fn eligible_center(p: Particle) -> bool {
    &&& p.brightness > 500
    &&& -100_000_000 <= p.x <= 100_000_000
    &&& -100_000_000 <= p.y <= 100_000_000
}

/// Whether `c` is the position of some eligible particle of `ps`.
pub open spec fn center_from(ps: Seq<Particle>, c: (i64, i64)) -> bool {
    exists|k: int|
        0 <= k < ps.len() && eligible_center(#[trigger] ps[k]) && ps[k].x == c.0 && ps[k].y == c.1
}

/// Collect the positions of all eligible particles and pick one of them
/// uniformly; nothing is picked when no particle qualifies.
fn pick_bright_center(particles: &Vec<Particle>, rng: &mut Rng) -> (r: Option<(i64, i64)>)
    ensures
        r is Some ==> center_from(particles@, r->Some_0),
        r is None ==> forall|k: int|
            0 <= k < particles@.len() ==> !eligible_center(#[trigger] particles@[k]),
{
    let mut cands: Vec<(i64, i64)> = Vec::new();
    let mut i: usize = 0;
    while i < particles.len()
        invariant
            i <= particles@.len(),
            forall|k: int|
                0 <= k < cands@.len() ==> center_from(particles@, #[trigger] cands@[k]),
            cands@.len() == 0 ==> forall|k: int|
                0 <= k < i ==> !eligible_center(#[trigger] particles@[k]),
        decreases particles@.len() - i,
    {
        let p = particles[i];
        if p.brightness > 500 && p.x >= -100_000_000 && p.x <= 100_000_000 && p.y >= -100_000_000
            && p.y <= 100_000_000 {
            cands.push((p.x, p.y));
            proof {
                assert(eligible_center(particles@[i as int]));
                assert(center_from(particles@, (p.x, p.y)));
            }
        }
        i = i + 1;
    }
    if cands.len() == 0 {
        None
    } else {
        let idx = rng.range_usize(0, cands.len());
        Some(cands[idx])
    }
}

/// Colour handle that a colour class resolves to in a firework's palette.
pub open spec fn palette_of(fw: Firework, ct: ColorType) -> PaletteColor {
    match ct {
        ColorType::Primary => fw.primary_color,
        ColorType::Secondary => fw.secondary_color,
        ColorType::Tertiary => fw.tertiary_color,
    }
}

/// Whether an exploded particle lands on an addressable cell of the
/// grid: strictly right of the first column, strictly below the first
/// row, and above the bottom row.
pub open spec fn particle_visible(p: Particle, height: int) -> bool {
    &&& p.x >= 1000
    &&& p.y >= 1000
    &&& p.y / 1000 < height
    &&& p.x / 1000 <= 65535
}

/// The glyph placement of a visible particle.
pub open spec fn particle_op(fw: Firework, p: Particle) -> RenderOp {
    RenderOp {
        x: (p.x / 1000) as u16,
        y: (p.y / 1000) as u16,
        symbol: p.symbol,
        color: palette_of(fw, p.color_type),
    }
}

/// The placements of every visible particle, in collection order.
pub open spec fn particle_ops(fw: Firework, ps: Seq<Particle>, height: int) -> Seq<RenderOp>
    decreases ps.len(),
{
    if ps.len() == 0 {
        Seq::empty()
    } else if particle_visible(ps.last(), height) {
        particle_ops(fw, ps.drop_last(), height).push(particle_op(fw, ps.last()))
    } else {
        particle_ops(fw, ps.drop_last(), height)
    }
}

/// Colour of the i-th trail glyph: the two oldest entries use the
/// tertiary colour, the rest the secondary one.
pub open spec fn trail_color(fw: Firework, i: int) -> PaletteColor {
    if i <= 1 {
        fw.tertiary_color
    } else {
        fw.secondary_color
    }
}

/// The value of a particle after one kinematics tick, at the
/// specification level; it mirrors the contract of `Particle::update`.
pub open spec fn advanced_particle(p: Particle) -> Particle {
    Particle {
        x: (p.x + p.vx) as i64,
        y: (p.y + p.vy) as i64,
        vx: crate::fixed::scaled(p.vx as int, 94, 100) as i64,
        vy: (p.vy + 8) as i64,
        age: (p.age + 1) as u16,
        brightness: brightness_after(p.age as int, p.max_age as int) as i64,
        ..p
    }
}

/// One explosion-phase particle pass at the specification level:
/// every particle advanced one tick, the expired ones dropped, order
/// kept.
pub open spec fn prune_advanced(ps: Seq<Particle>) -> Seq<Particle>
    decreases ps.len(),
{
    if ps.len() == 0 {
        Seq::empty()
    } else {
        let rest = prune_advanced(ps.drop_last());
        let q = advanced_particle(ps.last());
        if q.age < q.max_age {
            rest.push(q)
        } else {
            rest
        }
    }
}

/// Advance every live particle by one tick and keep only those that
/// have not yet expired, as one pass.
#[verifier::loop_isolation(false)]
fn advance_and_prune(ps: &Vec<Particle>) -> (out: Vec<Particle>)
    requires
        forall|k: int|
            0 <= k < ps@.len() ==> (#[trigger] ps@[k]).wf() && ps@[k].age < ps@[k].max_age,
    ensures
        out@ == prune_advanced(ps@),
        out@.len() <= ps@.len(),
        ps@.len() == 0 ==> out@.len() == 0,
        forall|k: int|
            0 <= k < out@.len() ==> (#[trigger] out@[k]).wf() && out@[k].age < out@[k].max_age,
{
    let mut out: Vec<Particle> = Vec::new();
    let mut i: usize = 0;
    while i < ps.len()
        invariant
            i <= ps@.len(),
            out@.len() <= i,
            out@ == prune_advanced(ps@.subrange(0, i as int)),
            forall|k: int|
                0 <= k < out@.len() ==> (#[trigger] out@[k]).wf() && out@[k].age
                    < out@[k].max_age,
        decreases ps@.len() - i,
    {
        let mut p = ps[i];
        p.update();
        proof {
            assert(p == advanced_particle(ps@[i as int]));
        }
        if p.age < p.max_age {
            out.push(p);
        }
        proof {
            let sub = ps@.subrange(0, i as int + 1);
            assert(sub.drop_last() =~= ps@.subrange(0, i as int));
            assert(sub.last() == ps@[i as int]);
        }
        i = i + 1;
    }
    proof {
        assert(ps@.subrange(0, ps@.len() as int) =~= ps@);
    }
    out
}

/// Whether there is some still-bright particle whose position can
/// centre a secondary burst.
pub open spec fn has_eligible_center(ps: Seq<Particle>) -> bool {
    exists|k: int| 0 <= k < ps.len() && eligible_center(#[trigger] ps[k])
}

/// The tail of the particle collection after a tick on which the
/// secondary burst fired: past the survivors of the old burst stand the
/// new particles, each the one-tick image of a burst particle centred
/// on the position of some still-bright old particle — age one,
/// brightness recomputed to full, the short lifespans and the glyph and
/// colour cycles of a secondary burst, and at most one speed step away
/// from the centre.
pub open spec fn secondary_tail_from(pre_ps: Seq<Particle>, post_ps: Seq<Particle>, size: int) -> bool {
    let plen = prune_advanced(pre_ps).len() as int;
    let per_ray = secondary_per_ray(size);
    exists|c: (i64, i64)|
        #![trigger center_from(pre_ps, c)]
        center_from(pre_ps, c) && forall|k: int|
            plen <= k < post_ps.len() ==> {
                let q = #[trigger] post_ps[k];
                &&& q.age == 1
                &&& q.brightness == 1000
                &&& 5 <= q.max_age <= 14
                &&& q.symbol == secondary_symbol((k - plen) % per_ray)
                &&& q.color_type == secondary_color((k - plen) % per_ray)
                &&& abs_i(q.x - c.0) <= 600
                &&& abs_i(q.y - c.1) <= 240
            }
}

/// Whether the secondary-explosion trigger cannot fire on this tick:
/// the stage budget is spent, too many particles still live, or the
/// explosion is too young.
pub open spec fn no_secondary_trigger(fw: Firework) -> bool {
    ||| fw.explosion_stage as int + 1 >= fw.max_explosion_stages as int
    ||| fw.particles@.len() >= fw.size as int
    ||| fw.age as int + 1 <= 15 * (fw.explosion_stage as int + 1)
}

impl Firework {
    /// Well-formedness of a firework at rest between ticks: a bounded
    /// trail, a stage strictly under its budget, well-formed live
    /// particles, and no particles or age before the explosion.
    pub open spec fn wf(self) -> bool {
        &&& self.trail@.len() <= 5
        &&& (self.explosion_stage as int) < (self.max_explosion_stages as int)
        &&& 1 <= self.max_explosion_stages <= 2
        &&& 1 <= self.size <= 1000
        &&& 1 <= self.max_age <= 60000
        &&& forall|k: int|
            0 <= k < self.particles@.len() ==> (#[trigger] self.particles@[k]).wf()
                && self.particles@[k].age < self.particles@[k].max_age
        &&& !self.exploded ==> self.particles@.len() == 0 && self.age == 0
    }

    /// A firework is spent once it has exploded and either every
    /// particle has expired or the explosion phase has aged out.
    pub open spec fn done_spec(self) -> bool {
        self.exploded && (self.particles@.len() == 0 || self.age >= self.max_age)
    }

    pub fn is_done(&self) -> (r: bool)
        ensures
            r == self.done_spec(),
    {
        self.exploded && (self.particles.len() == 0 || self.age >= self.max_age)
    }

    /// Spawn a firework: a random size within the configured band, a
    /// launch column kept a margin away from the grid edges, an explosion
    /// row in the upper half above its own margin, a palette triple from
    /// the table (the tertiary colour collapsing onto the secondary for
    /// three fireworks of every ten), and a stage budget of one or two.
    pub fn new(config: &Config, rng: &mut Rng) -> (fw: Firework)
        requires
            config.wf(),
        ensures
            fw.wf(),
            !fw.exploded,
            fw.age == 0,
            fw.explosion_stage == 0,
            fw.particles@.len() == 0,
            fw.trail@.len() == 0,
            fw.y == config.height,
            fw.explosion_x == fw.x,
            config.min_firework_size <= fw.size <= config.max_firework_size,
            spawn_margin(fw.size as int, config.width as int) <= fw.x
                < config.width - spawn_margin(fw.size as int, config.width as int),
            vertical_margin(fw.size as int, config.height as int) <= fw.explosion_y
                < config.height / 2,
            25 <= fw.max_age < 45,
            1 <= fw.max_explosion_stages <= 2,
            exists|s: int|
                0 <= s < 12 && fw.primary_color == #[trigger] scheme_colors(s).0
                    && fw.secondary_color == scheme_colors(s).1 && (fw.tertiary_color
                    == scheme_colors(s).2 || fw.tertiary_color == scheme_colors(s).1),
    {
        let size: u16 = rng.range_i64(
            config.min_firework_size as i64,
            config.max_firework_size as i64 + 1,
        ) as u16;
        let horizontal_margin: u16 = size * 10;
        let vertical_margin_raw: u16 = size * 5;
        let quarter_w: u16 = config.width / 4;
        let quarter_h: u16 = config.height / 4;
        let safe_h: u16 = if horizontal_margin < quarter_w {
            horizontal_margin
        } else {
            quarter_w
        };
        let safe_v: u16 = if vertical_margin_raw < quarter_h {
            vertical_margin_raw
        } else {
            quarter_h
        };
        let x: u16 = rng.range_i64(safe_h as i64, (config.width - safe_h) as i64) as u16;
        let explosion_y: u16 = rng.range_i64(safe_v as i64, (config.height / 2) as i64) as u16;
        let scheme: i64 = rng.range_i64(0, 12);
        let triple = palette_scheme(scheme);
        let use_tertiary: bool = rng.ratio(7, 10);
        let tertiary: PaletteColor = if use_tertiary {
            triple.2
        } else {
            triple.1
        };
        let max_explosion_stages: u8 = rng.range_i64(1, 3) as u8;
        let max_age: u16 = rng.range_i64(25, 45) as u16;
        Firework {
            x,
            y: config.height,
            explosion_x: x,
            explosion_y,
            size,
            primary_color: triple.0,
            secondary_color: triple.1,
            tertiary_color: tertiary,
            exploded: false,
            particles: Vec::new(),
            age: 0,
            max_age,
            trail: Vec::new(),
            explosion_stage: 0,
            max_explosion_stages,
        }
    }

    /// One tick of the lifecycle state machine.
    ///
    /// While ascending the firework records its position on the bounded
    /// trail and climbs one row; on reaching the target row it explodes
    /// into the primary burst. Once exploded it ages, fires at most one
    /// secondary burst while its stage budget and trigger condition
    /// allow, advances every particle, and drops the expired ones.
    /// A firework never reverts to ascending, and a spent one stays
    /// spent.
    #[verifier::loop_isolation(false)]
    pub fn update(&mut self, rng: &mut Rng)
        requires
            old(self).wf(),
            old(self).age < 60000,
        ensures
            final(self).wf(),
            final(self).x == old(self).x,
            final(self).explosion_x == old(self).explosion_x,
            final(self).explosion_y == old(self).explosion_y,
            final(self).size == old(self).size,
            final(self).max_age == old(self).max_age,
            final(self).max_explosion_stages == old(self).max_explosion_stages,
            final(self).primary_color == old(self).primary_color,
            final(self).secondary_color == old(self).secondary_color,
            final(self).tertiary_color == old(self).tertiary_color,
            old(self).exploded ==> final(self).exploded,
            old(self).done_spec() ==> final(self).done_spec(),
            (!old(self).exploded && old(self).y > old(self).explosion_y) ==> {
                &&& !final(self).exploded
                &&& final(self).y == old(self).y - 1
                &&& final(self).age == 0
                &&& final(self).particles@.len() == 0
                &&& final(self).explosion_stage == old(self).explosion_stage
                &&& final(self).trail@ == trail_after(
                    old(self).trail@,
                    (old(self).x, old(self).y),
                )
            },
            (!old(self).exploded && old(self).y <= old(self).explosion_y) ==> {
                &&& final(self).exploded
                &&& final(self).y == old(self).y
                &&& final(self).age == 0
                &&& final(self).trail@ == old(self).trail@
                &&& final(self).explosion_stage == old(self).explosion_stage
                &&& final(self).particles@.len() == primary_total(old(self).size as int)
                &&& forall|k: int|
                    0 <= k < final(self).particles@.len()
                        ==> (#[trigger] final(self).particles@[k]).age == 0
                        && final(self).particles@[k].x == old(self).explosion_x * 1000
                        && final(self).particles@[k].y == old(self).explosion_y * 1000
                        && final(self).particles@[k].brightness == 1000
            },
            old(self).exploded ==> {
                &&& final(self).age == old(self).age + 1
                &&& final(self).y == old(self).y
                &&& final(self).trail@ == old(self).trail@
                &&& final(self).explosion_stage >= old(self).explosion_stage
                &&& final(self).explosion_stage <= old(self).explosion_stage + 1
                &&& (old(self).explosion_stage as int + 1 >= old(self).max_explosion_stages as int
                    ==> final(self).explosion_stage == old(self).explosion_stage
                    && final(self).particles@.len() <= old(self).particles@.len())
                &&& (old(self).particles@.len() == 0 ==> final(self).particles@.len() == 0)
                &&& ((no_secondary_trigger(*old(self)) || !has_eligible_center(
                    old(self).particles@,
                )) ==> final(self).particles@ == prune_advanced(old(self).particles@))
                &&& (no_secondary_trigger(*old(self))
                    ==> final(self).explosion_stage == old(self).explosion_stage)
                &&& (!no_secondary_trigger(*old(self)) ==> final(self).explosion_stage as int
                    == old(self).explosion_stage as int + 1)
                &&& ((!no_secondary_trigger(*old(self)) && has_eligible_center(
                    old(self).particles@,
                )) ==> final(self).particles@.len() == prune_advanced(old(self).particles@).len()
                    + secondary_total(old(self).size as int)
                    && final(self).particles@.subrange(
                    0,
                    prune_advanced(old(self).particles@).len() as int,
                ) == prune_advanced(old(self).particles@)
                    && secondary_tail_from(
                    old(self).particles@,
                    final(self).particles@,
                    old(self).size as int,
                ))
            },
    {
        if !self.exploded {
            if self.y > self.explosion_y {
                if self.trail.len() >= 5 {
                    self.trail.remove(0);
                }
                self.trail.push((self.x, self.y));
                self.y = self.y - 1;
            } else {
                self.exploded = true;
                let burst = generate_primary(self.explosion_x, self.explosion_y, self.size, rng);
                self.particles = burst;
                proof {
                    assert forall|k: int| 0 <= k < self.particles@.len() implies (
                    #[trigger] self.particles@[k]).wf() && self.particles@[k].age
                        < self.particles@[k].max_age by {
                        let ray_len = primary_ray_count(self.size as int) * primary_per_ray(
                            self.size as int,
                        );
                        if k < ray_len {
                            assert(self.particles@[k].wf());
                        } else {
                            assert(self.particles@[k].wf());
                        }
                    }
                }
            }
        } else {
            self.age = self.age + 1;
            if (self.explosion_stage as u16) + 1 < (self.max_explosion_stages as u16)
                && self.particles.len() < self.size as usize && self.age > 15 * (
            (self.explosion_stage as u16) + 1) {
                self.explosion_stage = self.explosion_stage + 1;
                let center = pick_bright_center(&self.particles, rng);
                if let Some(cpos) = center {
                    let ghost base = self.particles@;
                    let mut extra = generate_secondary(cpos.0, cpos.1, self.size, rng);
                    let ghost extra_seq = extra@;
                    self.particles.append(&mut extra);
                    proof {
                        lemma_prune_advanced_concat(base, extra_seq);
                        lemma_prune_keeps_young(extra_seq);
                        let combined = prune_advanced(base + extra_seq);
                        let plen = prune_advanced(base).len() as int;
                        assert(combined.subrange(0, plen) =~= prune_advanced(base));
                        let per_ray = secondary_per_ray(self.size as int);
                        assert forall|k: int| plen <= k < combined.len() implies {
                            let q = #[trigger] combined[k];
                            &&& q.age == 1
                            &&& q.brightness == 1000
                            &&& 5 <= q.max_age <= 14
                            &&& q.symbol == secondary_symbol((k - plen) % per_ray)
                            &&& q.color_type == secondary_color((k - plen) % per_ray)
                            &&& abs_i(q.x - cpos.0) <= 600
                            &&& abs_i(q.y - cpos.1) <= 240
                        } by {
                            let j = k - plen;
                            assert(combined[k] == prune_advanced(extra_seq)[j]);
                            assert(prune_advanced(extra_seq)[j] == advanced_particle(
                                extra_seq[j],
                            ));
                            assert(secondary_ray_particle(
                                extra_seq[j],
                                j,
                                per_ray,
                                cpos.0 as int,
                                cpos.1 as int,
                            ));
                            vstd::arithmetic::div_mod::lemma_div_of0(
                                extra_seq[j].max_age as int,
                            );
                        }
                        assert(center_from(base, (cpos.0, cpos.1)));
                        assert(secondary_tail_from(base, combined, self.size as int));
                    }
                }
            }
            let pruned = advance_and_prune(&self.particles);
            self.particles = pruned;
        }
    }

    /// Render instructions for the current frame: an ascending firework
    /// is a rocket glyph in the primary colour plus its trail dots; an
    /// exploded one is the glyph of every particle that falls on an
    /// addressable cell, in its resolved palette colour.
    #[verifier::loop_isolation(false)]
    pub fn draw(&self, config: &Config) -> (ops: Vec<RenderOp>)
        ensures
            !self.exploded ==> {
                &&& ops@.len() == 1 + self.trail@.len()
                &&& ops@[0] == (RenderOp {
                    x: self.x,
                    y: self.y,
                    symbol: '↑',
                    color: self.primary_color,
                })
                &&& forall|i: int|
                    0 <= i < self.trail@.len() ==> #[trigger] ops@[1 + i] == (RenderOp {
                        x: self.trail@[i].0,
                        y: self.trail@[i].1,
                        symbol: '.',
                        color: trail_color(*self, i),
                    })
            },
            self.exploded ==> ops@ == particle_ops(*self, self.particles@, config.height as int),
    {
        let mut ops: Vec<RenderOp> = Vec::new();
        if !self.exploded {
            ops.push(
                RenderOp { x: self.x, y: self.y, symbol: '↑', color: self.primary_color },
            );
            let mut i: usize = 0;
            while i < self.trail.len()
                invariant
                    i <= self.trail@.len(),
                    ops@.len() == 1 + i,
                    ops@[0] == (RenderOp {
                        x: self.x,
                        y: self.y,
                        symbol: '↑',
                        color: self.primary_color,
                    }),
                    forall|k: int|
                        0 <= k < i ==> #[trigger] ops@[1 + k] == (RenderOp {
                            x: self.trail@[k].0,
                            y: self.trail@[k].1,
                            symbol: '.',
                            color: trail_color(*self, k),
                        }),
                decreases self.trail@.len() - i,
            {
                let pos = self.trail[i];
                let color = if i <= 1 {
                    self.tertiary_color
                } else {
                    self.secondary_color
                };
                ops.push(RenderOp { x: pos.0, y: pos.1, symbol: '.', color });
                i = i + 1;
            }
        } else {
            let mut i: usize = 0;
            while i < self.particles.len()
                invariant
                    i <= self.particles@.len(),
                    ops@ == particle_ops(
                        *self,
                        self.particles@.subrange(0, i as int),
                        config.height as int,
                    ),
                decreases self.particles@.len() - i,
            {
                let p = self.particles[i];
                if p.x >= 1000 && p.y >= 1000 && p.y / 1000 < config.height as i64 && p.x / 1000
                    <= 65535 {
                    let color = match p.color_type {
                        ColorType::Primary => self.primary_color,
                        ColorType::Secondary => self.secondary_color,
                        ColorType::Tertiary => self.tertiary_color,
                    };
                    ops.push(
                        RenderOp {
                            x: (p.x / 1000) as u16,
                            y: (p.y / 1000) as u16,
                            symbol: p.symbol,
                            color,
                        },
                    );
                }
                proof {
                    let sub = self.particles@.subrange(0, i as int + 1);
                    assert(sub.drop_last() =~= self.particles@.subrange(0, i as int));
                    assert(sub.last() == self.particles@[i as int]);
                }
                i = i + 1;
            }
            proof {
                assert(self.particles@.subrange(0, self.particles@.len() as int)
                    =~= self.particles@);
            }
        }
        ops
    }
}

} // verus!
