use vstd::prelude::*;
use vstd::arithmetic::div_mod::{
    lemma_div_multiples_vanish, lemma_div_multiples_vanish_fancy, lemma_div_pos_is_pos,
    lemma_mod_multiples_vanish, lemma_multiply_divide_lt, lemma_small_mod,
};
use crate::fixed::{
    abs_i, cos_mil, is_distance_factor, pow07_mil, scale_toward_zero, scaled, sin_mil,
    sin_mil_spec, TWO_PI_MIL,
};
use crate::particle::Particle;
use crate::rng::Rng;
use crate::types::ColorType;

verus! {

// A primary explosion seeds particles along `8 + size` radial rays and
// then adds an unstructured fill population; a secondary explosion uses
// six rays and no fill. The vertical velocity of every particle is scaled
// by 0.4 to compensate for character cells being taller than wide.

/// Number of radial rays of a primary explosion.
pub open spec fn primary_ray_count(size: int) -> int {
    8 + size
}

/// Particles seeded along each primary ray.
pub open spec fn primary_per_ray(size: int) -> int {
    size * 50 / (8 + size) / 2
}

/// Unstructured fill particles of a primary explosion.
pub open spec fn primary_fill_count(size: int) -> int {
    size * 50 / 3
}

/// Total particle yield of a primary explosion.
pub open spec fn primary_total(size: int) -> int {
    primary_ray_count(size) * primary_per_ray(size) + primary_fill_count(size)
}

/// Glyph of the i-th particle along a primary ray, cycling through four
/// line-like glyphs.
pub open spec fn primary_symbol(i: int) -> char {
    if i % 4 == 0 {
        '─'
    } else if i % 4 == 1 {
        '·'
    } else if i % 4 == 2 {
        '•'
    } else {
        '∙'
    }
}

/// Colour class of the i-th particle along a primary ray: of every ten,
/// six primary, three secondary, one tertiary.
pub open spec fn primary_color(i: int) -> ColorType {
    if i % 10 <= 5 {
        ColorType::Primary
    } else if i % 10 <= 8 {
        ColorType::Secondary
    } else {
        ColorType::Tertiary
    }
}

/// The velocity and reach of one ray particle of a burst: its direction
/// is some angle within the jitter band around the ray's base angle, its
/// speed grows from `speed_base` with the distance factor of `r_mil`,
/// its vertical component is scaled by 0.4 to keep the burst visually
/// round, and its recorded reach is the speed scaled by
/// `dist_num / dist_den`.
pub open spec fn burst_velocity(
    p: Particle,
    base: int,
    band: int,
    r_mil: int,
    speed_base: int,
    dist_num: int,
    dist_den: int,
) -> bool {
    exists|ang: int, f: int|
        #![trigger sin_mil_spec(ang), is_distance_factor(f, r_mil)]
        {
            let speed = speed_base + f * speed_base / 1000;
            &&& base - band <= ang < base + band
            &&& is_distance_factor(f, r_mil)
            &&& p.vx == scaled(sin_mil_spec(ang + 1571), speed, 1000)
            &&& p.vy == scaled(scaled(sin_mil_spec(ang), speed, 1000), 400, 1000)
            &&& p.distance == speed * dist_num / dist_den
        }
}

/// The velocity of a fill particle: a fully random direction, a speed
/// drawn from `[300, 900)` thousandths, the same 0.4 vertical scale,
/// and the speed itself as the recorded reach.
pub open spec fn fill_velocity(p: Particle) -> bool {
    exists|ang: int, sp: int|
        #![trigger scaled(sin_mil_spec(ang), sp, 1000)]
        {
            &&& 0 <= ang < 6282
            &&& 300 <= sp < 900
            &&& p.vx == scaled(sin_mil_spec(ang + 1571), sp, 1000)
            &&& p.vy == scaled(scaled(sin_mil_spec(ang), sp, 1000), 400, 1000)
            &&& p.distance == sp
        }
}

/// What holds of the ray particle at flat index `k` of a primary
/// explosion centred at cell `(cx, cy)`.
pub open spec fn primary_ray_particle(
    p: Particle,
    k: int,
    per_ray: int,
    line_count: int,
    cx: int,
    cy: int,
) -> bool {
    &&& p.x == cx * 1000
    &&& p.y == cy * 1000
    &&& p.age == 0
    &&& p.brightness == 1000
    &&& 10 <= p.max_age <= 24
    &&& -1200 <= p.vx <= 1200
    &&& -480 <= p.vy <= 480
    &&& p.symbol == primary_symbol(k % per_ray)
    &&& p.color_type == primary_color(k % per_ray)
    &&& burst_velocity(
        p,
        (k / per_ray) * 6282 / line_count,
        50,
        (k % per_ray) * 1000 / per_ray,
        600,
        4,
        5,
    )
}

/// What holds of every fill particle of a primary explosion centred at
/// cell `(cx, cy)`; its colour class and lifespan are drawn at random.
pub open spec fn primary_fill_particle(p: Particle, cx: int, cy: int) -> bool {
    &&& p.x == cx * 1000
    &&& p.y == cy * 1000
    &&& p.age == 0
    &&& p.brightness == 1000
    &&& 10 <= p.max_age <= 19
    &&& -900 <= p.vx <= 900
    &&& -360 <= p.vy <= 360
    &&& p.symbol == '✦'
    &&& fill_velocity(p)
}

/// The per-ray count is always at least two, so index arithmetic along a
/// ray is well defined.
pub proof fn lemma_primary_per_ray_pos(size: int)
    requires
        1 <= size <= 1000,
    ensures
        2 <= primary_per_ray(size) <= 25,
{
    let pc = size * 50;
    let lc = 8 + size;
    assert(5 * lc <= pc && pc <= 50 * lc) by (nonlinear_arith)
        requires 1 <= size <= 1000 && pc == size * 50 && lc == 8 + size,
    ;
    assert(pc / lc >= 5 && pc / lc <= 50) by (nonlinear_arith)
        requires 5 * lc <= pc <= 50 * lc && lc > 0,
    ;
}

/// A primary burst is never empty: at least nine rays of at least two
/// particles each.
pub proof fn lemma_primary_total_pos(size: int)
    requires
        1 <= size <= 1000,
    ensures
        primary_total(size) >= 18,
{
    lemma_primary_per_ray_pos(size);
    assert((8 + size) * primary_per_ray(size) >= 18) by (nonlinear_arith)
        requires 2 <= primary_per_ray(size) && 1 <= size,
    ;
    assert(size * 50 >= 0) by (nonlinear_arith)
        requires size >= 1,
    ;
    lemma_div_pos_is_pos(size * 50, 3);
}

/// A secondary burst is never empty either: six rays of at least three
/// particles each.
pub proof fn lemma_secondary_total_pos(size: int)
    requires
        1 <= size <= 1000,
    ensures
        secondary_total(size) >= 18,
{
    assert(size * 20 / 6 >= 3) by (nonlinear_arith)
        requires 1 <= size,
    ;
}

/// Generate the primary burst of an explosion at cell `(cx, cy)`:
/// `8 + size` evenly spaced rays, each with particles whose distance
/// factor along the ray drives speed and lifespan, then a random fill.
pub fn generate_primary(cx: u16, cy: u16, size: u16, rng: &mut Rng) -> (out: Vec<Particle>)
    requires
        1 <= size <= 1000,
    ensures
        out@.len() == primary_total(size as int),
        forall|k: int|
            0 <= k < primary_ray_count(size as int) * primary_per_ray(size as int)
                ==> primary_ray_particle(
                #[trigger] out@[k],
                k,
                primary_per_ray(size as int),
                primary_ray_count(size as int),
                cx as int,
                cy as int,
            ) && out@[k].wf(),
        forall|k: int|
            primary_ray_count(size as int) * primary_per_ray(size as int) <= k < out@.len()
                ==> primary_fill_particle(#[trigger] out@[k], cx as int, cy as int) && out@[k].wf(),
{
    proof {
        lemma_primary_per_ray_pos(size as int);
    }
    let size_us: usize = size as usize;
    let particle_count: usize = size_us * 50;
    let line_count: usize = 8 + size_us;
    let per_ray: usize = particle_count / line_count / 2;
    let mut out: Vec<Particle> = Vec::new();
    let mut rr: usize = 0;
    while rr < line_count
        invariant
            1 <= size <= 1000,
            size_us == size as usize,
            particle_count == size_us * 50,
            line_count == 8 + size_us,
            per_ray == primary_per_ray(size as int),
            2 <= per_ray <= 25,
            rr <= line_count,
            out@.len() == rr * per_ray,
            forall|k: int|
                0 <= k < out@.len() ==> primary_ray_particle(
                    #[trigger] out@[k],
                    k,
                    per_ray as int,
                    line_count as int,
                    cx as int,
                    cy as int,
                ) && out@[k].wf(),
        decreases line_count - rr,
    {
        let main_angle: i64 = (rr as i64) * TWO_PI_MIL / (line_count as i64);
        proof {
            lemma_div_pos_is_pos((rr as i64) * TWO_PI_MIL, line_count as int);
            assert((rr as int) * 6282 < (line_count as int) * 6282) by (nonlinear_arith)
                requires rr < line_count,
            ;
            lemma_multiply_divide_lt((rr as i64) * TWO_PI_MIL, line_count as int, 6282);
        }
        let mut i: usize = 0;
        while i < per_ray
            invariant
                1 <= size <= 1000,
                per_ray == primary_per_ray(size as int),
                2 <= per_ray <= 25,
                i <= per_ray,
                rr < line_count,
                0 <= main_angle < 6282,
                main_angle == (rr as int) * 6282 / (line_count as int),
                out@.len() == rr * per_ray + i,
                line_count == 8 + size as int,
                forall|k: int|
                    0 <= k < out@.len() ==> primary_ray_particle(
                        #[trigger] out@[k],
                        k,
                        per_ray as int,
                        line_count as int,
                        cx as int,
                        cy as int,
                    ) && out@[k].wf(),
            decreases per_ray - i,
        {
            proof {
                assert((i as int) * 1000 < (per_ray as int) * 1000) by (nonlinear_arith)
                    requires i < per_ray,
                ;
                assert((i as int) * 1000 >= 0) by (nonlinear_arith)
                    requires i >= 0,
                ;
                lemma_div_pos_is_pos((i as int) * 1000, per_ray as int);
                lemma_multiply_divide_lt((i as int) * 1000, per_ray as int, 1000);
            }
            let r_mil: i64 = (i as i64) * 1000 / (per_ray as i64);
            let f: i64 = pow07_mil(r_mil);
            let speed: i64 = 600 + f * 600 / 1000;
            proof {
                lemma_div_pos_is_pos(f * 600, 1000);
                lemma_multiply_divide_lt(f * 600, 1000, 600);
            }
            let jitter: i64 = rng.range_i64(-50, 50);
            let angle: i64 = main_angle + jitter;
            let c: i64 = cos_mil(angle);
            let s: i64 = sin_mil(angle);
            let vx: i64 = scale_toward_zero(c, speed, 1000);
            let vy_full: i64 = scale_toward_zero(s, speed, 1000);
            let vy: i64 = scale_toward_zero(vy_full, 400, 1000);
            let dist: i64 = speed * 4 / 5;
            proof {
                lemma_div_pos_is_pos(f * 15, 1000);
                lemma_multiply_divide_lt(f * 15, 1000, 15);
            }
            let life: i64 = 10 + f * 15 / 1000;
            let m4: usize = i % 4;
            let symbol: char = if m4 == 0 {
                '─'
            } else if m4 == 1 {
                '·'
            } else if m4 == 2 {
                '•'
            } else {
                '∙'
            };
            let m10: usize = i % 10;
            let color_type: ColorType = if m10 <= 5 {
                ColorType::Primary
            } else if m10 <= 8 {
                ColorType::Secondary
            } else {
                ColorType::Tertiary
            };
            let p = Particle {
                x: (cx as i64) * 1000,
                y: (cy as i64) * 1000,
                vx,
                vy,
                age: 0,
                max_age: life as u16,
                brightness: 1000,
                symbol,
                color_type,
                distance: dist,
            };
            out.push(p);
            proof {
                let kk = rr * per_ray + i;
                lemma_mod_multiples_vanish(rr as int, i as int, per_ray as int);
                assert((per_ray as int) * (rr as int) + i == kk) by (nonlinear_arith)
                    requires kk == (rr as int) * (per_ray as int) + i,
                ;
                lemma_small_mod(i as nat, per_ray as nat);
                assert(kk % (per_ray as int) == i as int);
                lemma_div_multiples_vanish_fancy(rr as int, i as int, per_ray as int);
                assert(kk / (per_ray as int) == rr as int);
                assert(abs_i(p.vy as int) * 1000 <= abs_i(vy_full as int) * 400);
                assert(abs_i(p.vy as int) <= 480);
                assert(is_distance_factor(f as int, r_mil as int));
                let wang = angle as int;
                let wfac = f as int;
                let wbase = (rr as int) * 6282 / (line_count as int);
                let wspeed = 600 + wfac * 600 / 1000;
                assert(wbase == main_angle as int);
                assert(wspeed == speed as int);
                assert(wbase - 50 <= wang < wbase + 50);
                assert(p.vx == scaled(sin_mil_spec(wang + 1571), wspeed, 1000));
                assert(p.vy == scaled(scaled(sin_mil_spec(wang), wspeed, 1000), 400, 1000));
                assert(p.distance == wspeed * 4 / 5);
                assert(burst_velocity(p, wbase, 50, r_mil as int, 600, 4, 5));
            }
            i = i + 1;
        }
        proof {
            assert((rr as int) * (per_ray as int) + (per_ray as int) == ((rr as int) + 1) * (
            per_ray as int)) by (nonlinear_arith);
        }
        rr = rr + 1;
    }
    proof {
        assert(out@.len() == primary_ray_count(size as int) * primary_per_ray(size as int))
            by (nonlinear_arith)
            requires
                out@.len() == (line_count as int) * (per_ray as int)
                    && line_count == 8 + size as int
                    && per_ray == primary_per_ray(size as int),
        ;
    }
    let fill_count: usize = particle_count / 3;
    let ray_len: usize = out.len();
    let mut j: usize = 0;
    while j < fill_count
        invariant
            1 <= size <= 1000,
            ray_len == primary_ray_count(size as int) * primary_per_ray(size as int),
            fill_count == primary_fill_count(size as int),
            j <= fill_count,
            out@.len() == ray_len + j,
            forall|k: int|
                0 <= k < ray_len ==> primary_ray_particle(
                    #[trigger] out@[k],
                    k,
                    primary_per_ray(size as int),
                    primary_ray_count(size as int),
                    cx as int,
                    cy as int,
                ) && out@[k].wf(),
            forall|k: int|
                ray_len <= k < out@.len() ==> primary_fill_particle(
                    #[trigger] out@[k],
                    cx as int,
                    cy as int,
                ) && out@[k].wf(),
        decreases fill_count - j,
    {
        let angle: i64 = rng.range_i64(0, TWO_PI_MIL);
        let speed: i64 = rng.range_i64(300, 900);
        let c: i64 = cos_mil(angle);
        let s: i64 = sin_mil(angle);
        let vx: i64 = scale_toward_zero(c, speed, 1000);
        let vy_full: i64 = scale_toward_zero(s, speed, 1000);
        let vy: i64 = scale_toward_zero(vy_full, 400, 1000);
        let bucket: i64 = rng.range_i64(0, 10);
        let color_type: ColorType = if bucket <= 5 {
            ColorType::Primary
        } else if bucket <= 8 {
            ColorType::Secondary
        } else {
            ColorType::Tertiary
        };
        let life: i64 = rng.range_i64(10, 20);
        let p = Particle {
            x: (cx as i64) * 1000,
            y: (cy as i64) * 1000,
            vx,
            vy,
            age: 0,
            max_age: life as u16,
            brightness: 1000,
            symbol: '✦',
            color_type,
            distance: speed,
        };
        out.push(p);
        proof {
            assert(abs_i(p.vy as int) * 1000 <= abs_i(vy_full as int) * 400);
            assert(abs_i(p.vy as int) <= 360);
            assert(p.vy == scaled(
                scaled(sin_mil_spec(angle as int), speed as int, 1000),
                400,
                1000,
            ));
            assert(fill_velocity(p));
        }
        j = j + 1;
    }
    out
}

/// Particles seeded along each of the six rays of a secondary explosion.
pub open spec fn secondary_per_ray(size: int) -> int {
    size * 20 / 6
}

/// Total particle yield of a secondary explosion.
pub open spec fn secondary_total(size: int) -> int {
    6 * secondary_per_ray(size)
}

/// Glyph of the j-th particle along a secondary ray.
pub open spec fn secondary_symbol(j: int) -> char {
    if j % 3 == 0 {
        '∙'
    } else if j % 3 == 1 {
        '·'
    } else {
        '.'
    }
}

/// Colour class of the j-th particle along a secondary ray: of every
/// ten, four secondary, four primary, two tertiary.
pub open spec fn secondary_color(j: int) -> ColorType {
    if j % 10 <= 3 {
        ColorType::Secondary
    } else if j % 10 <= 7 {
        ColorType::Primary
    } else {
        ColorType::Tertiary
    }
}

/// What holds of the particle at flat index `k` of a secondary explosion
/// centred at the fixed-point position `(cx_mil, cy_mil)`.
pub open spec fn secondary_ray_particle(
    p: Particle,
    k: int,
    per_ray: int,
    cx_mil: int,
    cy_mil: int,
) -> bool {
    &&& p.x == cx_mil
    &&& p.y == cy_mil
    &&& p.age == 0
    &&& p.brightness == 1000
    &&& 5 <= p.max_age <= 14
    &&& -600 <= p.vx <= 600
    &&& -240 <= p.vy <= 240
    &&& p.symbol == secondary_symbol(k % per_ray)
    &&& p.color_type == secondary_color(k % per_ray)
    &&& burst_velocity(p, (k / per_ray) * 6282 / 6, 100, (k % per_ray) * 1000 / per_ray, 300, 1, 1)
}

/// Generate a secondary burst at a fixed-point position, normally the
/// current position of a still-bright particle of the primary burst: six
/// rays, slower particles, shorter lifespans, no fill.
pub fn generate_secondary(cx_mil: i64, cy_mil: i64, size: u16, rng: &mut Rng) -> (out: Vec<
    Particle,
>)
    requires
        1 <= size <= 1000,
        -100_000_000 <= cx_mil <= 100_000_000,
        -100_000_000 <= cy_mil <= 100_000_000,
    ensures
        out@.len() == secondary_total(size as int),
        forall|k: int|
            0 <= k < out@.len() ==> secondary_ray_particle(
                #[trigger] out@[k],
                k,
                secondary_per_ray(size as int),
                cx_mil as int,
                cy_mil as int,
            ) && out@[k].wf(),
{
    let size_us: usize = size as usize;
    let total: usize = size_us * 20;
    let per_ray: usize = total / 6;
    proof {
        assert(3 <= (size as int) * 20 / 6 <= 3333) by (nonlinear_arith)
            requires 1 <= size <= 1000,
        ;
    }
    let mut out: Vec<Particle> = Vec::new();
    let mut rr: usize = 0;
    while rr < 6
        invariant
            1 <= size <= 1000,
            per_ray == secondary_per_ray(size as int),
            3 <= per_ray <= 3333,
            -100_000_000 <= cx_mil <= 100_000_000,
            -100_000_000 <= cy_mil <= 100_000_000,
            rr <= 6,
            out@.len() == rr * per_ray,
            forall|k: int|
                0 <= k < out@.len() ==> secondary_ray_particle(
                    #[trigger] out@[k],
                    k,
                    per_ray as int,
                    cx_mil as int,
                    cy_mil as int,
                ) && out@[k].wf(),
        decreases 6 - rr,
    {
        let main_angle: i64 = (rr as i64) * TWO_PI_MIL / 6;
        let mut j: usize = 0;
        while j < per_ray
            invariant
                1 <= size <= 1000,
                per_ray == secondary_per_ray(size as int),
                3 <= per_ray <= 3333,
                -100_000_000 <= cx_mil <= 100_000_000,
                -100_000_000 <= cy_mil <= 100_000_000,
                rr < 6,
                0 <= main_angle <= 6282,
                main_angle == (rr as int) * 6282 / 6,
                j <= per_ray,
                out@.len() == rr * per_ray + j,
                forall|k: int|
                    0 <= k < out@.len() ==> secondary_ray_particle(
                        #[trigger] out@[k],
                        k,
                        per_ray as int,
                        cx_mil as int,
                        cy_mil as int,
                    ) && out@[k].wf(),
            decreases per_ray - j,
        {
            proof {
                assert((j as int) * 1000 < (per_ray as int) * 1000) by (nonlinear_arith)
                    requires j < per_ray,
                ;
                assert((j as int) * 1000 >= 0) by (nonlinear_arith)
                    requires j >= 0,
                ;
                lemma_div_pos_is_pos((j as int) * 1000, per_ray as int);
                lemma_multiply_divide_lt((j as int) * 1000, per_ray as int, 1000);
            }
            let r_mil: i64 = (j as i64) * 1000 / (per_ray as i64);
            let f: i64 = pow07_mil(r_mil);
            let speed: i64 = 300 + f * 300 / 1000;
            proof {
                lemma_div_pos_is_pos(f * 300, 1000);
                lemma_multiply_divide_lt(f * 300, 1000, 300);
            }
            let jitter: i64 = rng.range_i64(-100, 100);
            let angle: i64 = main_angle + jitter;
            let c: i64 = cos_mil(angle);
            let s: i64 = sin_mil(angle);
            let vx: i64 = scale_toward_zero(c, speed, 1000);
            let vy_full: i64 = scale_toward_zero(s, speed, 1000);
            let vy: i64 = scale_toward_zero(vy_full, 400, 1000);
            proof {
                lemma_div_pos_is_pos(f * 10, 1000);
                lemma_multiply_divide_lt(f * 10, 1000, 10);
            }
            let life: i64 = 5 + f * 10 / 1000;
            let m3: usize = j % 3;
            let symbol: char = if m3 == 0 {
                '∙'
            } else if m3 == 1 {
                '·'
            } else {
                '.'
            };
            let m10: usize = j % 10;
            let color_type: ColorType = if m10 <= 3 {
                ColorType::Secondary
            } else if m10 <= 7 {
                ColorType::Primary
            } else {
                ColorType::Tertiary
            };
            let p = Particle {
                x: cx_mil,
                y: cy_mil,
                vx,
                vy,
                age: 0,
                max_age: life as u16,
                brightness: 1000,
                symbol,
                color_type,
                distance: speed,
            };
            out.push(p);
            proof {
                let kk = rr * per_ray + j;
                lemma_mod_multiples_vanish(rr as int, j as int, per_ray as int);
                assert((per_ray as int) * (rr as int) + j == kk) by (nonlinear_arith)
                    requires kk == (rr as int) * (per_ray as int) + j,
                ;
                lemma_small_mod(j as nat, per_ray as nat);
                assert(kk % (per_ray as int) == j as int);
                lemma_div_multiples_vanish_fancy(rr as int, j as int, per_ray as int);
                assert(kk / (per_ray as int) == rr as int);
                assert(abs_i(p.vy as int) * 1000 <= abs_i(vy_full as int) * 400);
                assert(abs_i(p.vy as int) <= 240);
                assert(is_distance_factor(f as int, r_mil as int));
                lemma_div_multiples_vanish(speed as int, 1);
                assert((speed as int) * 1 == 1 * (speed as int));
                let wang = angle as int;
                let wfac = f as int;
                let wbase = (rr as int) * 6282 / 6;
                assert({
                    let wspeed = 300 + wfac * 300 / 1000;
                    &&& wbase - 100 <= wang < wbase + 100
                    &&& is_distance_factor(wfac, r_mil as int)
                    &&& p.vx == scaled(sin_mil_spec(wang + 1571), wspeed, 1000)
                    &&& p.vy == scaled(scaled(sin_mil_spec(wang), wspeed, 1000), 400, 1000)
                    &&& p.distance == wspeed * 1 / 1
                });
                assert(burst_velocity(p, wbase, 100, r_mil as int, 300, 1, 1));
            }
            j = j + 1;
        }
        proof {
            assert((rr as int) * (per_ray as int) + (per_ray as int) == ((rr as int) + 1) * (
            per_ray as int)) by (nonlinear_arith);
        }
        rr = rr + 1;
    }
    out
}

} // verus!
