use terminal_fireworks::frame::{new_frame, TermColour, Tile};
use terminal_fireworks::geometry::{isqrt, scale_to_length, Vec2};
use terminal_fireworks::particle::{emission_multiplier, particle_emission, particle_icon_for};
use terminal_fireworks::smoke::{composite_smoke, presented_colour_is_blinked_out};
use terminal_fireworks::state::{
    get_tile_pos, random_vec2_in_circle, simulation_colour_to_crossterm_colour, ContainedParticle,
    Particle, SimulationColour, SmokeTile, State, SMOKE_MAX_DENSITY,
};
use terminal_fireworks::{NUM_COLUMNS, NUM_ROWS};

fn quiet_state(particles: Vec<Particle>) -> State {
    let mut state = State::new();
    state.particles = particles;
    state.new_firework_timer = 10_000_000;
    state.new_firework_timer_length = 10_000_000;
    state
}

fn still_particle(x: i64, y: i64, lifetime: u32, charges: Option<Vec<ContainedParticle>>) -> Particle {
    Particle {
        position: Vec2 { x, y },
        velocity: Vec2 { x: 0, y: 0 },
        base_smoke_emission: 4_000_000,
        time_remaining: lifetime as i64,
        colour: SimulationColour::Red,
        timer_length: lifetime,
        contained_particles: charges,
    }
}

fn charge(speed: u32) -> ContainedParticle {
    ContainedParticle {
        colour: SimulationColour::Cyan,
        base_smoke_emission: 5_000_000,
        contained_particles: None,
        explosion_speed: speed,
        timer_length: 1_500_000,
    }
}

#[test]
fn decay_thins_and_floors_at_zero() {
    let mut tile = SmokeTile::new();
    tile.colour_densities[0] = 800_000;
    tile.colour_densities[3] = 200_000;
    tile.decay(1_000_000);
    assert_eq!(tile.colour_densities[0], 300_000);
    assert_eq!(tile.colour_densities[3], 0);
    assert_eq!(tile.colour_densities[5], 0);
}

#[test]
fn absorb_adds_and_caps() {
    let mut tile = SmokeTile::new();
    tile.colour_densities[2] = 7_500_000;
    tile.absorb(SimulationColour::Red, 1_000_000);
    assert_eq!(tile.colour_densities[2], SMOKE_MAX_DENSITY);
    tile.absorb(SimulationColour::Green, 500);
    assert_eq!(tile.colour_densities[4], 500);
    assert_eq!(tile.colour_densities[1], 0);
}

#[test]
fn total_density_sums_colours() {
    let mut tile = SmokeTile::new();
    tile.colour_densities[1] = 100;
    tile.colour_densities[7] = 23;
    assert_eq!(tile.total_density(), 123);
}

#[test]
fn weighted_choice_walks_colours_in_order() {
    let mut tile = SmokeTile::new();
    tile.colour_densities[1] = 100;
    tile.colour_densities[3] = 50;
    assert_eq!(tile.choose_weighted_colour(0), Some(SimulationColour::White));
    assert_eq!(tile.choose_weighted_colour(99), Some(SimulationColour::White));
    assert_eq!(tile.choose_weighted_colour(100), Some(SimulationColour::Yellow));
    assert_eq!(tile.choose_weighted_colour(149), Some(SimulationColour::Yellow));
    assert_eq!(tile.choose_weighted_colour(150), None);
}

#[test]
fn densest_colour_takes_first_of_equals() {
    let mut tile = SmokeTile::new();
    tile.colour_densities[1] = 5;
    tile.colour_densities[2] = 7;
    tile.colour_densities[6] = 7;
    assert_eq!(tile.densest_colour(), SimulationColour::Red);
    assert_eq!(SmokeTile::new().densest_colour(), SimulationColour::Grey);
}

#[test]
fn blink_depends_on_density() {
    assert!(!presented_colour_is_blinked_out(0, 0));
    assert!(!presented_colour_is_blinked_out(0, 249_999));
    assert!(presented_colour_is_blinked_out(100_000, 100_000));
    assert!(!presented_colour_is_blinked_out(100_000, 150_000));
    assert!(!presented_colour_is_blinked_out(250_000, 0));
}

#[test]
fn empty_cell_composites_to_black() {
    let tile = SmokeTile::new();
    for blink_draw in [0u64, 1, 124_999, 249_999] {
        assert_eq!(composite_smoke(&tile, 0, blink_draw), TermColour::Black);
    }
}

#[test]
fn dense_cell_composites_to_dark_shade() {
    let mut tile = SmokeTile::new();
    tile.colour_densities[2] = 300_000;
    assert_eq!(composite_smoke(&tile, 0, 0), TermColour::DarkRed);
    assert_eq!(composite_smoke(&tile, 299_999, 249_999), TermColour::DarkRed);
}

#[test]
fn thin_cell_can_blink_out() {
    let mut tile = SmokeTile::new();
    tile.colour_densities[4] = 100_000;
    assert_eq!(composite_smoke(&tile, 0, 0), TermColour::Black);
    assert_eq!(composite_smoke(&tile, 0, 200_000), TermColour::DarkGreen);
}

#[test]
fn colour_shades() {
    assert_eq!(simulation_colour_to_crossterm_colour(SimulationColour::Grey, true), TermColour::Black);
    assert_eq!(simulation_colour_to_crossterm_colour(SimulationColour::Grey, false), TermColour::DarkGrey);
    assert_eq!(simulation_colour_to_crossterm_colour(SimulationColour::White, true), TermColour::Grey);
    assert_eq!(simulation_colour_to_crossterm_colour(SimulationColour::Magenta, false), TermColour::Magenta);
    assert_eq!(simulation_colour_to_crossterm_colour(SimulationColour::Blue, true), TermColour::DarkBlue);
}

#[test]
fn colour_index_round_trip() {
    for i in 0..8usize {
        assert_eq!(SimulationColour::from_index(i).index(), i);
    }
    assert_eq!(SimulationColour::from_index(5), SimulationColour::Cyan);
}

#[test]
fn tile_pos_boundaries() {
    let last = Vec2 { x: (NUM_COLUMNS as i64 - 1) * 1024, y: (NUM_ROWS as i64 - 1) * 1024 };
    assert_eq!(get_tile_pos(last), Some((NUM_COLUMNS - 1, NUM_ROWS - 1)));
    assert_eq!(get_tile_pos(Vec2 { x: NUM_COLUMNS as i64 * 1024, y: 0 }), None);
    assert_eq!(get_tile_pos(Vec2 { x: 0, y: NUM_ROWS as i64 * 1024 }), None);
    assert_eq!(get_tile_pos(Vec2 { x: -1, y: 5 * 1024 + 1023 }), Some((0, 5)));
    assert_eq!(get_tile_pos(Vec2 { x: -1024, y: 0 }), None);
}

#[test]
fn off_grid_particle_leaves_no_smoke() {
    let mut state = quiet_state(vec![still_particle(NUM_COLUMNS as i64 * 1024, 0, 5_000_000, None)]);
    state.update(100_000);
    for column in state.smoke_tiles.iter() {
        for tile in column.iter() {
            assert_eq!(tile.total_density(), 0);
        }
    }
    assert_eq!(state.particles.len(), 1);
}

#[test]
fn particle_icons_follow_heading() {
    assert_eq!(particle_icon_for(Vec2 { x: 0, y: 0 }), '\u{2219}');
    assert_eq!(particle_icon_for(Vec2 { x: 10_000, y: 10_000 }), '\u{2219}');
    assert_eq!(particle_icon_for(Vec2 { x: 20_000, y: 0 }), '-');
    assert_eq!(particle_icon_for(Vec2 { x: -20_000, y: 3_000 }), '-');
    assert_eq!(particle_icon_for(Vec2 { x: 0, y: 20_000 }), '|');
    assert_eq!(particle_icon_for(Vec2 { x: 3_000, y: -20_000 }), '|');
    assert_eq!(particle_icon_for(Vec2 { x: 20_000, y: 20_000 }), '\\');
    assert_eq!(particle_icon_for(Vec2 { x: -20_000, y: -20_000 }), '\\');
    assert_eq!(particle_icon_for(Vec2 { x: -20_000, y: 20_000 }), '/');
    assert_eq!(particle_icon_for(Vec2 { x: 20_000, y: 5_000 }), '-');
}

#[test]
fn emission_multiplier_tapers() {
    assert_eq!(emission_multiplier(2_000_000, 2_000_000), 1000);
    assert_eq!(emission_multiplier(1_000_000, 2_000_000), 757);
    assert_eq!(emission_multiplier(0, 2_000_000), 0);
    assert_eq!(emission_multiplier(-5, 2_000_000), 0);
    assert_eq!(emission_multiplier(5, 0), 0);
}

#[test]
fn particle_emission_scales_with_time() {
    assert_eq!(particle_emission(4_000_000, 1000, 1_000_000), 4_000_000);
    assert_eq!(particle_emission(4_000_000, 500, 1_000_000), 2_000_000);
    assert_eq!(particle_emission(4_000_000, 1000, 10_000_000), SMOKE_MAX_DENSITY);
}

#[test]
fn update_emits_smoke_into_cell() {
    let mut state = quiet_state(vec![still_particle(10 * 1024, 20 * 1024, 2_000_000, None)]);
    state.update(100_000);
    assert_eq!(state.smoke_tiles[10][20].colour_densities[2], 400_000);
    assert_eq!(state.smoke_tiles[10][20].total_density(), 400_000);
}

#[test]
fn isqrt_rounds_down() {
    assert_eq!(isqrt(0), 0);
    assert_eq!(isqrt(24), 4);
    assert_eq!(isqrt(25), 5);
    assert_eq!(isqrt(1 << 60), 1 << 30);
}

#[test]
fn scale_to_length_keeps_direction() {
    assert_eq!(scale_to_length(Vec2 { x: 3, y: 4 }, 1000), Vec2 { x: 600, y: 800 });
    assert_eq!(scale_to_length(Vec2 { x: -3, y: 4 }, 1000), Vec2 { x: -600, y: 800 });
    assert_eq!(scale_to_length(Vec2 { x: 0, y: 0 }, 1000), Vec2 { x: 0, y: 0 });
}

#[test]
fn random_point_stays_in_circle() {
    for _ in 0..200 {
        let v = random_vec2_in_circle(1000);
        assert!(v.x * v.x + v.y * v.y <= 1000 * 1000);
    }
}

#[test]
fn lifetime_counts_down_by_dt() {
    let mut state = quiet_state(vec![still_particle(0, 0, 3_000_000, None)]);
    state.update(1_000_000);
    assert_eq!(state.particles.len(), 1);
    assert_eq!(state.particles[0].time_remaining, 2_000_000);
    assert_eq!(state.particles[0].timer_length, 3_000_000);
}

#[test]
fn expired_particle_without_charges_is_removed() {
    let mut state = quiet_state(vec![still_particle(50 * 1024, 50 * 1024, 2_000_000, None)]);
    state.update(2_000_000);
    assert_eq!(state.particles.len(), 0);
}

#[test]
fn expired_particle_releases_each_charge() {
    let charges = vec![charge(10_000), charge(20_000), charge(5_000)];
    let mut state = quiet_state(vec![still_particle(100 * 1024, 50 * 1024, 2_000_000, Some(charges))]);
    state.update(2_000_000);
    assert_eq!(state.particles.len(), 3);
    let expected_position = Vec2 { x: 100 * 1024, y: 50 * 1024 + 2 * 16384 };
    let speeds = [10_000.0f64, 20_000.0, 5_000.0];
    for (p, speed) in state.particles.iter().zip(speeds.iter()) {
        assert_eq!(p.position, expected_position);
        let magnitude = ((p.velocity.x as f64).powi(2) + (p.velocity.y as f64).powi(2)).sqrt();
        assert!((magnitude - speed).abs() <= speed * 0.01 + 2.0, "{} vs {}", magnitude, speed);
        assert_eq!(p.colour, SimulationColour::Cyan);
        assert_eq!(p.time_remaining, 1_500_000);
        assert!(p.contained_particles.is_none());
    }
}

#[test]
fn spawn_firework_builds_a_rocket() {
    for _ in 0..20 {
        let mut state = State::new();
        state.spawn_firework();
        assert_eq!(state.particles.len(), 1);
        let rocket = &state.particles[0];
        let glitter = rocket.contained_particles.as_ref().unwrap();
        assert!(1 + glitter.len() >= 65 && 1 + glitter.len() <= 257);
        assert_eq!(rocket.position.y, NUM_ROWS as i64 * 1024);
        assert!(rocket.position.x >= 96 * 1024 && rocket.position.x < 144 * 1024);
        assert_eq!(rocket.colour, SimulationColour::White);
        assert_eq!(rocket.time_remaining, rocket.timer_length as i64);
        assert!(rocket.velocity.y < 0);
        for c in glitter.iter() {
            assert!(c.explosion_speed < 32768);
            assert!(c.contained_particles.is_none());
        }
    }
}

#[test]
fn launch_timer_fires_and_resets() {
    let mut state = State::new();
    state.update(1000);
    assert!(state.particles.len() >= 1 && state.particles.len() <= 3);
    assert_eq!(state.new_firework_timer, 5_000_000);
    assert_eq!(state.time, 1000);
    state.update(1000);
    assert_eq!(state.new_firework_timer, 4_999_000);
}

#[test]
fn clock_saturates() {
    let mut state = quiet_state(Vec::new());
    state.time = u64::MAX - 5;
    state.update(10);
    assert_eq!(state.time, u64::MAX);
}

#[test]
fn draw_puts_particle_over_black_smoke() {
    let state = quiet_state(vec![still_particle(10 * 1024, 10 * 1024, 1_000_000, None)]);
    let mut frame = new_frame();
    state.draw(&mut frame);
    assert_eq!(frame[10][10].icon, '\u{2219}');
    assert_eq!(frame[10][10].foreground_colour, TermColour::Red);
    assert_eq!(frame[10][10].background_colour, TermColour::Black);
    assert_eq!(frame[11][10], Tile { icon: ' ', background_colour: TermColour::Black, foreground_colour: TermColour::White });
}
