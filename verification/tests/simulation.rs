use fireworks::driver::{advance_all, should_spawn};
use fireworks::explosion::{generate_primary, generate_secondary};
use fireworks::firework::Firework;
use fireworks::fixed::{cos_mil, pow07_mil, sin_mil};
use fireworks::particle::Particle;
use fireworks::rng::Rng;
use fireworks::types::{ColorType, Config, PaletteColor};

fn plain_particle(x: i64, y: i64, age: u16, max_age: u16, brightness: i64) -> Particle {
    Particle {
        x,
        y,
        vx: 0,
        vy: 0,
        age,
        max_age,
        brightness,
        symbol: '.',
        color_type: ColorType::Primary,
        distance: 0,
    }
}

fn plain_firework(config: &Config) -> Firework {
    Firework {
        x: 80,
        y: config.height,
        explosion_x: 80,
        explosion_y: 20,
        size: 5,
        primary_color: PaletteColor::Red,
        secondary_color: PaletteColor::Yellow,
        tertiary_color: PaletteColor::Magenta,
        exploded: false,
        particles: Vec::new(),
        age: 0,
        max_age: 30,
        trail: Vec::new(),
        explosion_stage: 0,
        max_explosion_stages: 2,
    }
}

#[test]
fn config_defaults() {
    let c = Config::new();
    assert_eq!(c.width, 160);
    assert_eq!(c.height, 60);
    assert_eq!(c.max_fireworks, 7);
    assert_eq!(c.min_firework_size, 5);
    assert_eq!(c.max_firework_size, 15);
}

#[test]
fn particle_update_applies_gravity() {
    // A stationary particle is still never a no-op: age grows and
    // gravity pulls, 0.008 cells/tick in thousandths.
    let mut p = plain_particle(5000, 6000, 0, 10, 1000);
    p.update();
    assert_eq!(p.age, 1);
    assert_eq!(p.vy, 8);
    assert_eq!(p.vx, 0);
    assert_eq!(p.x, 5000);
    assert_eq!(p.y, 6000);
    assert_eq!(p.brightness, 1000);
}

#[test]
fn particle_kinematics_step() {
    let mut p = plain_particle(5000, 6000, 0, 10, 1000);
    p.vx = 1000;
    p.vy = -400;
    p.update();
    assert_eq!(p.x, 6000);
    assert_eq!(p.y, 5600);
    assert_eq!(p.vy, -392);
    assert_eq!(p.vx, 940);
    p.update();
    assert_eq!(p.x, 6940);
    assert_eq!(p.vx, 883);
    assert_eq!(p.brightness, 980);
}

#[test]
fn particle_brightness_decays() {
    let mut p = plain_particle(0, 0, 0, 10, 1000);
    let mut last = 1000;
    for step in 0..10 {
        p.update();
        assert_eq!(p.age as i64, step + 1);
        assert!(p.brightness >= 0 && p.brightness <= 1000);
        assert!(p.brightness <= last);
        last = p.brightness;
    }
    assert_eq!(p.brightness, 0);
}

#[test]
fn primary_count_and_rays() {
    let mut rng = Rng::new();
    // size 5: 13 rays of (5*50/13)/2 = 9 particles, plus 250/3 = 83 fill.
    let out = generate_primary(50, 10, 5, &mut rng);
    assert_eq!(out.len(), 13 * 9 + 83);
    // size 3: 11 rays of (150/11)/2 = 6, plus 50 fill.
    let out3 = generate_primary(50, 10, 3, &mut rng);
    assert_eq!(out3.len(), 11 * 6 + 50);
}

#[test]
fn primary_ray_particles_follow_the_cycles() {
    let mut rng = Rng::new();
    let out = generate_primary(50, 10, 5, &mut rng);
    let per_ray = 9;
    let ray_total = 13 * per_ray;
    let symbols = ['─', '·', '•', '∙'];
    for k in 0..ray_total {
        let p = &out[k];
        assert_eq!(p.x, 50_000);
        assert_eq!(p.y, 10_000);
        assert_eq!(p.age, 0);
        assert_eq!(p.brightness, 1000);
        assert!(p.max_age >= 10 && p.max_age < 25);
        let i = k % per_ray;
        assert_eq!(p.symbol, symbols[i % 4]);
        let expected = match i % 10 {
            0..=5 => ColorType::Primary,
            6..=8 => ColorType::Secondary,
            _ => ColorType::Tertiary,
        };
        assert_eq!(p.color_type, expected);
    }
    // The index buckets give six primary and three secondary of every
    // nine ray particles here: the 60/30/10 split of the bucket rule.
    let primary = out[..ray_total]
        .iter()
        .filter(|p| p.color_type == ColorType::Primary)
        .count();
    let secondary = out[..ray_total]
        .iter()
        .filter(|p| p.color_type == ColorType::Secondary)
        .count();
    assert_eq!(primary, 13 * 6);
    assert_eq!(secondary, 13 * 3);
}

#[test]
fn primary_fill_particles() {
    let mut rng = Rng::new();
    let out = generate_primary(50, 10, 5, &mut rng);
    let ray_total = 13 * 9;
    for p in &out[ray_total..] {
        assert_eq!(p.symbol, '✦');
        assert!(p.max_age >= 10 && p.max_age <= 19);
        assert_eq!(p.x, 50_000);
        assert_eq!(p.y, 10_000);
        assert!(p.vx >= -900 && p.vx <= 900);
        assert!(p.vy >= -360 && p.vy <= 360);
    }
}

#[test]
fn secondary_generator_shape() {
    let mut rng = Rng::new();
    let out = generate_secondary(50_000, 10_000, 5, &mut rng);
    // size 5: six rays of (5*20)/6 = 16 particles, no fill.
    assert_eq!(out.len(), 6 * 16);
    let symbols = ['∙', '·', '.'];
    for (k, p) in out.iter().enumerate() {
        assert_eq!(p.x, 50_000);
        assert_eq!(p.y, 10_000);
        assert!(p.max_age >= 5 && p.max_age < 15);
        let j = k % 16;
        assert_eq!(p.symbol, symbols[j % 3]);
        let expected = match j % 10 {
            0..=3 => ColorType::Secondary,
            4..=7 => ColorType::Primary,
            _ => ColorType::Tertiary,
        };
        assert_eq!(p.color_type, expected);
    }
}

#[test]
fn spawn_respects_margins() {
    // A firework in a 160-wide grid keeps margin = min(size*10, 40) on
    // both sides, and its explosion target is its launch column.
    let config = Config::new();
    let mut rng = Rng::new();
    for _ in 0..50 {
        let fw = Firework::new(&config, &mut rng);
        assert_eq!(fw.explosion_x, fw.x);
        assert!(fw.size >= 5 && fw.size <= 15);
        let margin = (fw.size * 10).min(40);
        assert!(fw.x >= margin && fw.x <= 160 - margin);
        let v_margin = (fw.size * 5).min(15);
        assert!(fw.explosion_y >= v_margin && fw.explosion_y < 30);
        assert!(fw.max_age >= 25 && fw.max_age < 45);
        assert!(fw.max_explosion_stages == 1 || fw.max_explosion_stages == 2);
        assert!(!fw.exploded);
        assert_eq!(fw.y, 60);
        assert_eq!(fw.age, 0);
        assert_eq!(fw.explosion_stage, 0);
        assert!(fw.particles.is_empty());
        assert!(fw.trail.is_empty());
    }
}

#[test]
fn ascent_keeps_trail_bounded() {
    let config = Config::new();
    let mut rng = Rng::new();
    let mut fw = plain_firework(&config);
    let mut last_y = fw.y;
    while !fw.exploded {
        fw.update(&mut rng);
        if !fw.exploded {
            assert_eq!(fw.y, last_y - 1);
            assert!(fw.trail.len() <= 5);
            assert_eq!(fw.age, 0);
            last_y = fw.y;
        }
    }
    assert_eq!(fw.y, fw.explosion_y);
    assert_eq!(fw.particles.len(), 13 * 9 + 83);
}

#[test]
fn exploded_never_reverts() {
    let config = Config::new();
    let mut rng = Rng::new();
    let mut fw = plain_firework(&config);
    for _ in 0..100 {
        fw.update(&mut rng);
        if fw.exploded {
            break;
        }
    }
    assert!(fw.exploded);
    for _ in 0..10 {
        fw.update(&mut rng);
        assert!(fw.exploded);
    }
}

#[test]
fn single_stage_never_fires_secondary() {
    let config = Config::new();
    let mut rng = Rng::new();
    let mut fw = plain_firework(&config);
    fw.exploded = true;
    fw.max_explosion_stages = 1;
    fw.age = 20;
    fw.particles = vec![
        plain_particle(50_000, 10_000, 16, 20, 1000),
        plain_particle(50_000, 10_000, 16, 20, 1000),
        plain_particle(50_000, 10_000, 16, 20, 1000),
    ];
    fw.update(&mut rng);
    assert_eq!(fw.explosion_stage, 0);
    assert_eq!(fw.particles.len(), 3);
}

#[test]
fn two_stage_fires_secondary_once() {
    let config = Config::new();
    let mut rng = Rng::new();
    let mut fw = plain_firework(&config);
    fw.exploded = true;
    fw.max_explosion_stages = 2;
    fw.age = 16;
    fw.particles = vec![
        plain_particle(50_000, 10_000, 10, 20, 1000),
        plain_particle(50_000, 10_000, 10, 20, 1000),
    ];
    fw.update(&mut rng);
    assert_eq!(fw.explosion_stage, 1);
    // Two survivors plus six rays of 16 new particles.
    assert_eq!(fw.particles.len(), 2 + 6 * 16);
    // The budget is spent: a further update can never fire again.
    fw.age = 40;
    fw.particles.truncate(2);
    fw.update(&mut rng);
    assert_eq!(fw.explosion_stage, 1);
}

#[test]
fn done_is_a_trap() {
    let config = Config::new();
    let mut rng = Rng::new();
    let mut fw = plain_firework(&config);
    fw.exploded = true;
    fw.particles = Vec::new();
    fw.age = 5;
    assert!(fw.is_done());
    fw.update(&mut rng);
    assert!(fw.is_done());
    assert!(fw.particles.is_empty());

    let mut fw2 = plain_firework(&config);
    fw2.exploded = true;
    fw2.age = 30;
    fw2.particles = vec![plain_particle(50_000, 10_000, 0, 20, 1000)];
    assert!(fw2.is_done());
    fw2.update(&mut rng);
    assert!(fw2.is_done());
}

#[test]
fn driver_prunes_spent_fireworks() {
    let config = Config::new();
    let mut rng = Rng::new();
    let mut done = plain_firework(&config);
    done.exploded = true;
    done.particles = Vec::new();
    let fresh = plain_firework(&config);
    let mut all = vec![done, fresh];
    advance_all(&mut all, &mut rng);
    assert_eq!(all.len(), 1);
    assert!(!all[0].is_done());
    assert!(!all[0].exploded);
    assert_eq!(all[0].y, 59);
}

#[test]
fn driver_keeps_survivors_in_order() {
    let config = Config::new();
    let mut rng = Rng::new();
    let mut a = plain_firework(&config);
    a.x = 30;
    a.explosion_x = 30;
    let mut b = plain_firework(&config);
    b.exploded = true;
    b.particles = Vec::new();
    let mut c = plain_firework(&config);
    c.x = 90;
    c.explosion_x = 90;
    let mut all = vec![a, b, c];
    advance_all(&mut all, &mut rng);
    assert_eq!(all.len(), 2);
    assert_eq!(all[0].x, 30);
    assert_eq!(all[1].x, 90);
    assert_eq!(all[0].y, 59);
    assert_eq!(all[1].y, 59);
}

#[test]
fn spawn_decision() {
    assert!(should_spawn(3, 7, 200, 150));
    assert!(!should_spawn(7, 7, 200, 150));
    assert!(!should_spawn(3, 7, 150, 150));
}

#[test]
fn draw_ascending_rocket_and_trail() {
    let config = Config::new();
    let mut rng = Rng::new();
    let mut fw = plain_firework(&config);
    for _ in 0..7 {
        fw.update(&mut rng);
    }
    assert!(!fw.exploded);
    assert_eq!(fw.trail.len(), 5);
    let ops = fw.draw(&config);
    assert_eq!(ops.len(), 6);
    assert_eq!(ops[0].x, fw.x);
    assert_eq!(ops[0].y, fw.y);
    assert_eq!(ops[0].symbol, '↑');
    assert_eq!(ops[0].color, PaletteColor::Red);
    for (i, op) in ops[1..].iter().enumerate() {
        assert_eq!(op.symbol, '.');
        assert_eq!((op.x, op.y), fw.trail[i]);
        let expected = if i <= 1 {
            PaletteColor::Magenta
        } else {
            PaletteColor::Yellow
        };
        assert_eq!(op.color, expected);
    }
}

#[test]
fn draw_exploded_skips_off_grid_particles() {
    let config = Config::new();
    let mut fw = plain_firework(&config);
    fw.exploded = true;
    let mut visible = plain_particle(5_500, 7_200, 0, 20, 1000);
    visible.symbol = '•';
    visible.color_type = ColorType::Secondary;
    let too_low = plain_particle(5_000, 60_000, 0, 20, 1000);
    let too_left = plain_particle(900, 7_000, 0, 20, 1000);
    fw.particles = vec![too_low, visible, too_left];
    let ops = fw.draw(&config);
    assert_eq!(ops.len(), 1);
    assert_eq!(ops[0].x, 5);
    assert_eq!(ops[0].y, 7);
    assert_eq!(ops[0].symbol, '•');
    assert_eq!(ops[0].color, PaletteColor::Yellow);
}

#[test]
fn fixed_point_trig_and_power() {
    assert_eq!(sin_mil(0), 0);
    // The half-wave approximation at a quarter turn:
    // 16000u / (5*3141^2 - 4u) with u = 1571 * 1570.
    assert_eq!(sin_mil(1571), 999);
    assert_eq!(cos_mil(0), 999);
    assert_eq!(cos_mil(1571).abs() <= 10, true);
    assert!(sin_mil(4712) < -990);
    assert_eq!(pow07_mil(0), 0);
    assert_eq!(pow07_mil(1000), 1000);
    // 0.5^0.7 is about 0.6156.
    let half = pow07_mil(500);
    assert!(half >= 610 && half <= 620);
    // The distance factor is monotone and stays in [0, 1000].
    let mut last = 0;
    for r in 0..=1000 {
        let f = pow07_mil(r);
        assert!(f >= last && f <= 1000);
        last = f;
    }
}
