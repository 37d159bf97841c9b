use particles::particle::{Particle, Rgba, Vec2, CHANNEL_FULL, UNIT};
use particles::world::World;

fn still(x: i64, alpha: u32) -> Particle {
    Particle {
        height: 4 * UNIT,
        width: 4 * UNIT,
        position: Vec2 { x, y: 0 },
        acceleration: Vec2 { x: 0, y: 0 },
        velocity: Vec2 { x: 0, y: 0 },
        color: Rgba { r: CHANNEL_FULL, g: CHANNEL_FULL, b: CHANNEL_FULL, a: alpha },
    }
}

fn world_of(alphas: &[u32]) -> World {
    let mut w = World::new(1280 * UNIT, 960 * UNIT);
    for (i, a) in alphas.iter().enumerate() {
        w.particles.push(still(i as i64, *a));
    }
    w
}

fn xs(w: &World) -> Vec<i64> {
    w.particles.iter().map(|p| p.position.x).collect()
}

#[test]
fn new_world_is_empty() {
    let w = World::new(1280 * UNIT, 960 * UNIT);
    assert_eq!(w.particles.len(), 0);
    assert_eq!(w.current_turn, 0);
    assert_eq!(w.width, 1280 * UNIT);
    assert_eq!(w.height, 960 * UNIT);
}

#[test]
fn removal_takes_first_expired_not_head() {
    let mut w = world_of(&[990_000, 500_000, 10_000, 990_000, 30_000]);
    w.remove_particles(-1);
    assert_eq!(xs(&w), vec![0, 1, 3, 4]);
}

#[test]
fn removal_takes_head_when_none_expired() {
    let mut w = world_of(&[990_000, 20_000, 500_000]);
    w.remove_particles(-1);
    assert_eq!(xs(&w), vec![1, 2]);
}

#[test]
fn removals_rescan_each_time() {
    // first the expired one at index 1, then the first expired of the rest
    // (old index 3), then the head
    let mut w = world_of(&[990_000, 19_999, 990_000, 0, 990_000]);
    w.remove_particles(3);
    assert_eq!(xs(&w), vec![2, 4]);
}

#[test]
fn eviction_index_reports_choice() {
    let w = world_of(&[990_000, 990_000, 10_000]);
    assert_eq!(w.eviction_index(), 2);
    let w = world_of(&[990_000, 990_000]);
    assert_eq!(w.eviction_index(), 0);
}

#[test]
fn single_expired_particle_is_removed() {
    let mut w = world_of(&[10_000]);
    w.apply_churn(-1);
    assert_eq!(w.particles.len(), 0);
}

#[test]
fn over_removal_from_empty_is_noop() {
    let mut w = world_of(&[]);
    w.apply_churn(-2);
    assert_eq!(w.particles.len(), 0);
    w.update_with(-2);
    assert_eq!(w.particles.len(), 0);
    assert_eq!(w.current_turn, 1);
}

#[test]
fn over_removal_clamps_at_zero() {
    let mut w = world_of(&[990_000, 990_000]);
    w.update_with(-3);
    assert_eq!(w.particles.len(), 0);
}

#[test]
fn growth_appends_spawns_on_bottom_edge() {
    let mut w = World::new(1280 * UNIT, 960 * UNIT);
    w.add_particles(1000);
    assert_eq!(w.particles.len(), 1000);
    let before: Vec<Particle> = w.particles.clone();
    w.apply_churn(3);
    assert_eq!(w.particles.len(), 1003);
    assert_eq!(&w.particles[..1000], &before[..]);
    for p in &w.particles[1000..] {
        assert_eq!(p.position.y, 960 * UNIT);
        assert_eq!(p.color.a, 990_000);
    }
}

#[test]
fn spawns_lie_in_their_ranges() {
    let mut w = World::new(1280 * UNIT, 960 * UNIT);
    w.add_particles(-200);
    assert_eq!(w.particles.len(), 200);
    let mut distinct_x = false;
    for p in &w.particles {
        assert!(0 <= p.position.x && p.position.x <= 1280 * UNIT);
        assert_eq!(p.velocity.x, 0);
        assert!(-2 * UNIT <= p.velocity.y && p.velocity.y < 0);
        assert_eq!(p.acceleration.x, 0);
        assert!(0 <= p.acceleration.y && p.acceleration.y < 150_000);
        assert_eq!((p.width, p.height), (4 * UNIT, 4 * UNIT));
        assert_eq!(p.color, Rgba { r: CHANNEL_FULL, g: CHANNEL_FULL, b: CHANNEL_FULL, a: 990_000 });
        if p.position.x != w.particles[0].position.x {
            distinct_x = true;
        }
    }
    assert!(distinct_x);
}

#[test]
fn spawn_in_zero_width_world() {
    let w = World::new(0, 5 * UNIT);
    let p = Particle::new(&w);
    assert_eq!(p.position, Vec2 { x: 0, y: 5 * UNIT });
}

#[test]
fn zero_churn_changes_nothing() {
    let mut w = world_of(&[990_000, 10_000]);
    w.apply_churn(0);
    assert_eq!(xs(&w), vec![0, 1]);
}

#[test]
fn update_with_sets_length_and_advances() {
    for delta in -3..=3 {
        let mut w = world_of(&[990_000, 990_000]);
        w.update_with(delta);
        let expected = if 2 + delta < 0 { 0 } else { (2 + delta) as usize };
        assert_eq!(w.particles.len(), expected);
        assert_eq!(w.current_turn, 1);
        for p in &w.particles {
            assert!(p.color.a < 990_000);
        }
    }
}

#[test]
fn update_keeps_survivors_in_order_and_steps_them() {
    let mut w = world_of(&[990_000, 10_000, 990_000]);
    w.particles[0].velocity = Vec2 { x: UNIT, y: -UNIT };
    w.update_with(-1);
    assert_eq!(w.particles.len(), 2);
    assert_eq!(w.particles[0].position, Vec2 { x: UNIT, y: -UNIT });
    assert_eq!(w.particles[0].color.a, 985_050);
    assert_eq!(w.particles[1].position.x, 2);
}

#[test]
fn random_update_moves_length_by_at_most_three() {
    let mut w = World::new(1280 * UNIT, 960 * UNIT);
    w.add_particles(10);
    for turn in 1..=50u64 {
        let before = w.particles.len() as i64;
        w.update();
        let after = w.particles.len() as i64;
        assert!((after - before).abs() <= 3);
        assert!(after >= before - 3 && after >= 0);
        assert_eq!(w.current_turn, turn);
    }
}

#[test]
fn advance_steps_every_particle() {
    let mut w = world_of(&[990_000, 500_000]);
    w.particles[1].acceleration = Vec2 { x: 10, y: -20 };
    w.advance();
    assert_eq!(w.particles[0].color.a, 985_050);
    assert_eq!(w.particles[1].color.a, 497_500);
    assert_eq!(w.particles[1].velocity, Vec2 { x: 10, y: -20 });
    assert_eq!(w.particles[1].position, Vec2 { x: 11, y: -20 });
    assert_eq!(w.particles[1].acceleration, Vec2 { x: 7, y: -14 });
    assert_eq!(w.current_turn, 0);
}
