use pong_wars::ball::{limited_speed, Ball, Side, JITTER, MAX_SPEED, MIN_SPEED, START_SPEED};
use pong_wars::game::{PongWars, MIN_CANVAS};
use pong_wars::text::score_text;

fn speed_ok(v: i64) -> bool {
    (MIN_SPEED <= v && v <= MAX_SPEED) || (-MAX_SPEED <= v && v <= -MIN_SPEED)
}

fn inside(b: &Ball, width: u32, height: u32) -> bool {
    let lo = 12_500_000i64;
    let hi_x = width as i64 * 1_000_000 - lo;
    let hi_y = height as i64 * 1_000_000 - lo;
    lo <= b.x && b.x <= hi_x && lo <= b.y && b.y <= hi_y
}

#[test]
fn grid_follows_canvas_size() {
    let game = PongWars::new(500, 500);
    assert_eq!(game.num_squares_x(), 20);
    assert_eq!(game.num_squares_y(), 20);
    let game = PongWars::new(510, 499);
    assert_eq!(game.num_squares_x(), 20);
    assert_eq!(game.num_squares_y(), 19);
    assert_eq!(game.score(), (190, 190));
}

#[test]
fn initial_split_of_ten_columns() {
    let game = PongWars::new(250, 100);
    assert_eq!(game.num_squares_x(), 10);
    for i in 0..10 {
        for j in 0..4 {
            let expected = if i < 5 { Side::Day } else { Side::Night };
            assert_eq!(game.square(i, j), expected);
        }
    }
}

#[test]
fn initial_balls() {
    let game = PongWars::new(500, 400);
    assert_eq!(game.ball_count(), 2);
    let a = game.ball(0);
    assert_eq!((a.x, a.y, a.dx, a.dy), (125_000_000, 200_000_000, START_SPEED, -START_SPEED));
    assert_eq!((a.capture, a.render), (Side::Day, Side::Night));
    let b = game.ball(1);
    assert_eq!((b.x, b.y, b.dx, b.dy), (375_000_000, 200_000_000, -START_SPEED, START_SPEED));
    assert_eq!((b.capture, b.render), (Side::Night, Side::Day));
}

#[test]
fn scenario_five_hundred_square_canvas() {
    let mut game = PongWars::new(500, 500);
    assert_eq!(game.num_squares_x() * game.num_squares_y(), 400);
    assert_eq!(game.score_line(), "day 200 | night 200");
    game.step_with(&vec![(0, 0), (0, 0)]);
    // Both balls start on their own side, so nothing flips on the first frame.
    assert_eq!(game.square(5, 10), Side::Day);
    assert_eq!(game.square(15, 10), Side::Night);
    assert_eq!(game.score_line(), "day 200 | night 200");
    let a = game.ball(0);
    assert_eq!((a.x, a.y, a.dx, a.dy), (137_500_000, 237_500_000, START_SPEED, -START_SPEED));
    let b = game.ball(1);
    assert_eq!((b.x, b.y, b.dx, b.dy), (362_500_000, 262_500_000, -START_SPEED, START_SPEED));
}

#[test]
fn ball_at_right_edge_turns_back() {
    let mut b = Ball {
        x: 487_500_000,
        y: 250_000_000,
        dx: START_SPEED,
        dy: START_SPEED,
        capture: Side::Day,
        render: Side::Night,
    };
    b.bounce_off_walls(500, 500);
    assert_eq!(b.dx, -START_SPEED);
    assert_eq!(b.dy, START_SPEED);
    b.advance();
    assert_eq!(b.x, 475_000_000);
    assert_eq!(b.y, 262_500_000);
}

#[test]
fn ball_near_top_left_turns_back_on_both_axes() {
    let mut b = Ball {
        x: 20_000_000,
        y: 13_000_000,
        dx: -MAX_SPEED,
        dy: -MIN_SPEED,
        capture: Side::Night,
        render: Side::Day,
    };
    b.bounce_off_walls(100, 100);
    assert_eq!((b.dx, b.dy), (MAX_SPEED, MIN_SPEED));
}

#[test]
fn capture_flips_cell_and_velocity() {
    let mut game = PongWars::new(100, 100);
    assert_eq!(game.score(), (8, 8));
    game.step_with(&vec![(0, 0), (0, 0)]);
    assert_eq!(game.score(), (8, 8));
    game.step_with(&vec![(0, 0), (0, 0)]);
    assert_eq!(game.square(2, 1), Side::Day);
    assert_eq!(game.score(), (9, 7));
    assert_eq!(game.score_line(), "day 9 | night 7");
    let a = game.ball(0);
    assert_eq!((a.x, a.y, a.dx, a.dy), (25_000_000, 25_000_000, -START_SPEED, -START_SPEED));
}

#[test]
fn single_collision_check() {
    let mut game = PongWars::new(100, 100);
    game.step_with(&vec![(0, 0), (0, 0)]);
    game.check_square_collision(0);
    assert_eq!(game.square(2, 1), Side::Day);
    assert_eq!(game.ball(0).dx, -START_SPEED);
    assert_eq!(game.ball(0).dy, -START_SPEED);
    game.check_boundary_collision(0);
    game.update_ball(0);
    assert_eq!((game.ball(0).x, game.ball(0).y), (25_000_000, 25_000_000));
    game.nudge_ball(0, JITTER, -JITTER);
    assert_eq!(game.ball(0).dx, -START_SPEED + JITTER);
    assert_eq!(game.ball(0).dy, -START_SPEED - JITTER);
}

#[test]
fn speed_limits() {
    assert_eq!(limited_speed(30_000_000), MAX_SPEED);
    assert_eq!(limited_speed(-30_000_000), -MAX_SPEED);
    assert_eq!(limited_speed(10_000_000), 10_000_000);
    assert_eq!(limited_speed(-10_000_000), -10_000_000);
    assert_eq!(limited_speed(1), MIN_SPEED);
    assert_eq!(limited_speed(-3), -MIN_SPEED);
    assert_eq!(limited_speed(0), -MIN_SPEED);
    assert_eq!(limited_speed(4_999_999), MIN_SPEED);
    assert_eq!(limited_speed(25_000_001), MAX_SPEED);
}

#[test]
fn nudge_keeps_speed_in_limits() {
    let mut b = Ball {
        x: 50_000_000,
        y: 50_000_000,
        dx: MAX_SPEED,
        dy: -MIN_SPEED,
        capture: Side::Day,
        render: Side::Night,
    };
    b.nudge(JITTER, JITTER);
    assert_eq!((b.dx, b.dy), (MAX_SPEED, -MIN_SPEED));
    b.nudge(-JITTER, -JITTER);
    assert_eq!((b.dx, b.dy), (MAX_SPEED - JITTER, -MIN_SPEED - JITTER));
}

#[test]
fn random_steps_keep_invariants() {
    let mut game = PongWars::new(500, 500);
    for _ in 0..2000 {
        game.step();
        let (day, night) = game.score();
        assert_eq!(day + night, 400);
        for i in 0..game.ball_count() {
            let b = game.ball(i);
            assert!(speed_ok(b.dx) && speed_ok(b.dy));
            assert!(inside(&b, 500, 500));
        }
    }
}

#[test]
fn randomness_stays_within_jitter() {
    let mut game = PongWars::new(300, 200);
    for _ in 0..200 {
        let before = game.ball(1);
        game.add_randomness(1);
        let after = game.ball(1);
        assert!((after.dx - before.dx).abs() <= JITTER);
        assert!((after.dy - before.dy).abs() <= JITTER);
        assert_eq!((after.x, after.y), (before.x, before.y));
    }
}

#[test]
fn score_line_is_stable() {
    let mut game = PongWars::new(500, 500);
    for _ in 0..50 {
        game.step();
    }
    let first = game.score_line();
    let second = game.score_line();
    assert_eq!(first, second);
    let (day, night) = game.score();
    assert_eq!(first, format!("day {} | night {}", day, night));
}

#[test]
fn score_text_formats_numbers() {
    assert_eq!(score_text(0, 12345), "day 0 | night 12345");
    assert_eq!(score_text(400, 0), "day 400 | night 0");
}

#[test]
fn small_canvases_build_a_game() {
    let game = PongWars::new(1, 1);
    assert_eq!((game.num_squares_x(), game.num_squares_y()), (0, 0));
    assert_eq!(game.score_line(), "day 0 | night 0");
    assert!(!game.runnable());

    let game = PongWars::new(60, 40);
    assert_eq!((game.num_squares_x(), game.num_squares_y()), (2, 1));
    assert_eq!(game.square(0, 0), Side::Day);
    assert_eq!(game.square(1, 0), Side::Night);
    assert_eq!(game.score(), (1, 1));
    let a = game.ball(0);
    assert_eq!((a.x, a.y, a.dx, a.dy), (15_000_000, 20_000_000, START_SPEED, -START_SPEED));
    assert!(inside(&a, 60, 40));
    assert!(!game.runnable());

    let game = PongWars::new(75, 30);
    assert_eq!(game.score(), (1, 2));
}

#[test]
fn runnable_needs_room_to_turn() {
    assert!(PongWars::new(500, 500).runnable());
    assert!(PongWars::new(MIN_CANVAS, MIN_CANVAS).runnable());
    assert!(!PongWars::new(MIN_CANVAS - 1, 500).runnable());
    assert!(!PongWars::new(500, MIN_CANVAS - 1).runnable());
    let mut game = PongWars::new(MIN_CANVAS, MIN_CANVAS);
    for _ in 0..500 {
        game.step();
        assert!(game.runnable());
    }
}
