use snake::{Direction, Food, Game, GameState, Grid, Input, Point, Snake};

fn pt(x: i32, y: i32) -> Point {
    Point { x, y }
}

#[test]
fn point_add_sums_components() {
    assert_eq!(pt(2, -3).add(pt(-5, 7)), pt(-3, 4));
}

#[test]
fn grid_bounds_are_half_open() {
    let g = Grid { width: 3, height: 4 };
    assert!(!g.ofb(&pt(0, 0)));
    assert!(!g.ofb(&pt(2, 3)));
    assert!(g.ofb(&pt(3, 0)));
    assert!(g.ofb(&pt(0, 4)));
    assert!(g.ofb(&pt(-1, 0)));
    assert!(g.ofb(&pt(0, -1)));
}

#[test]
fn direction_offsets_and_opposites() {
    assert_eq!(Direction::Up.offset(), pt(0, -1));
    assert_eq!(Direction::Down.offset(), pt(0, 1));
    assert_eq!(Direction::Left.offset(), pt(-1, 0));
    assert_eq!(Direction::Right.offset(), pt(1, 0));
    for d in [Direction::Up, Direction::Down, Direction::Left, Direction::Right] {
        assert_eq!(d.opposite().opposite(), d);
        assert_ne!(d.opposite(), d);
    }
    assert_eq!(Direction::Up.opposite(), Direction::Down);
    assert_eq!(Direction::Left.opposite(), Direction::Right);
}

#[test]
fn reversal_guard() {
    let mut s = Snake::new(Direction::Right);
    s.set_dir(Direction::Left);
    assert_eq!(s.dir(), Direction::Right);
    s.set_dir(Direction::Up);
    assert_eq!(s.dir(), Direction::Up);
    s.set_dir(Direction::Down);
    assert_eq!(s.dir(), Direction::Up);
}

#[test]
fn new_snake_is_empty() {
    let s = Snake::new(Direction::Down);
    assert!(s.body.is_empty());
    assert_eq!(s.growth(), 0);
    assert!(s.head().is_none());
}

#[test]
fn step_without_growth_keeps_length() {
    let mut s = Snake::new(Direction::Right);
    s.body = vec![pt(2, 2), pt(1, 2), pt(0, 2)];
    s.step();
    assert_eq!(s.body, vec![pt(3, 2), pt(2, 2), pt(1, 2)]);
    assert_eq!(s.growth(), 0);
    assert_eq!(s.head(), Some(&pt(3, 2)));
}

#[test]
fn step_with_growth_adds_one_segment() {
    let mut s = Snake::new(Direction::Down);
    s.body = vec![pt(2, 2), pt(1, 2)];
    s.add_growth(1);
    assert_eq!(s.growth(), 1);
    s.step();
    assert_eq!(s.body, vec![pt(2, 3), pt(2, 2), pt(1, 2)]);
    assert_eq!(s.growth(), 0);
    s.step();
    assert_eq!(s.body, vec![pt(2, 4), pt(2, 3), pt(2, 2)]);
}

#[test]
fn in_self_checks_every_segment() {
    let mut s = Snake::new(Direction::Right);
    s.body = vec![pt(1, 1), pt(1, 2), pt(1, 3)];
    assert!(s.in_self(&pt(1, 1)));
    assert!(s.in_self(&pt(1, 3)));
    assert!(!s.in_self(&pt(2, 2)));
}

#[test]
fn food_reset_stays_on_the_field() {
    let mut f = Food::new(Grid { width: 4, height: 2 });
    assert_eq!(f.position, pt(0, 0));
    let mut seen_nonzero = false;
    for _ in 0..500 {
        let p = f.reset();
        assert_eq!(p, f.position);
        assert!(0 <= p.x && p.x < 4);
        assert!(0 <= p.y && p.y < 2);
        if p.x != 0 || p.y != 0 {
            seen_nonzero = true;
        }
    }
    assert!(seen_nonzero);
}

#[test]
fn food_reset_on_single_cell() {
    let mut f = Food::new(Grid { width: 1, height: 1 });
    assert_eq!(f.reset(), pt(0, 0));
}

#[test]
fn new_game_places_food_off_the_snake() {
    for w in 3..9 {
        for h in 3..9 {
            for _ in 0..10 {
                let g = Game::new(w, h);
                assert_eq!(g.snake.body, vec![pt(w / 2, h / 2)]);
                assert!(!g.snake.in_self(&g.food.position));
                assert!(!g.grid.ofb(&g.food.position));
                assert!(g.is_ongoing());
                assert_eq!(g.score(), 1);
            }
        }
    }
}

#[test]
fn new_game_on_two_cells() {
    for _ in 0..20 {
        let g = Game::new(2, 1);
        assert_eq!(g.snake.body, vec![pt(1, 0)]);
        assert_eq!(g.food.position, pt(0, 0));
    }
}

#[test]
fn new_game_on_one_cell_keeps_food_on_field() {
    let g = Game::new(1, 1);
    assert_eq!(g.food.position, pt(0, 0));
    assert!(g.is_ongoing());
}

#[test]
fn scenario_single_tick() {
    let mut g = Game::new(10, 10);
    assert_eq!(g.snake.head(), Some(&pt(5, 5)));
    g.update(vec![]);
    assert_eq!(g.snake.head(), Some(&pt(6, 5)));
    assert!(g.is_ongoing());
    assert_eq!(g.state, GameState::Ongoing);
    assert_eq!(g.score(), 1);
}

#[test]
fn scenario_wall() {
    let mut g = Game::new(3, 3);
    assert_eq!(g.snake.head(), Some(&pt(1, 1)));
    g.update(vec![]);
    assert_eq!(g.snake.head(), Some(&pt(2, 1)));
    assert!(g.is_ongoing());
    g.update(vec![]);
    assert_eq!(g.snake.head(), Some(&pt(3, 1)));
    assert_eq!(g.state, GameState::Defeat);
    assert!(!g.is_ongoing());
}

#[test]
fn scenario_eating() {
    let mut g = Game::new(10, 10);
    g.food.position = pt(6, 5);
    g.update(vec![]);
    assert!(g.is_ongoing());
    assert_eq!(g.snake.growth(), 1);
    assert!(!g.snake.in_self(&g.food.position));
    assert!(!g.grid.ofb(&g.food.position));
    assert_eq!(g.score(), 1);
    g.food.position = pt(0, 0);
    g.update(vec![]);
    assert_eq!(g.score(), 2);
    assert_eq!(g.snake.body, vec![pt(7, 5), pt(6, 5)]);
    assert!(g.is_ongoing());
}

#[test]
fn scenario_quit() {
    let mut g = Game::new(10, 10);
    g.food.position = pt(0, 0);
    g.update(vec![Input::KeyUp, Input::Quit, Input::KeyLeft]);
    assert_eq!(g.state, GameState::Defeat);
    assert!(!g.is_ongoing());
}

#[test]
fn last_accepted_input_sets_heading() {
    let mut g = Game::new(10, 10);
    g.food.position = pt(0, 0);
    g.update(vec![Input::KeyUp, Input::KeyDown, Input::Other]);
    assert_eq!(g.snake.dir(), Direction::Up);
    assert_eq!(g.snake.head(), Some(&pt(5, 4)));
    g.update(vec![Input::KeyLeft, Input::KeyRight]);
    assert_eq!(g.snake.dir(), Direction::Left);
    assert_eq!(g.snake.head(), Some(&pt(4, 4)));
}

#[test]
fn eating_wins_over_other_checks() {
    // the snake turns into its own former tail cell, where the food lies
    let mut g = Game::new(10, 10);
    g.snake.body = vec![pt(5, 5), pt(5, 6), pt(6, 6), pt(6, 5), pt(6, 4)];
    g.food.position = pt(5, 4);
    g.update(vec![Input::KeyUp]);
    assert!(g.is_ongoing());
    assert_eq!(g.snake.growth(), 1);
    assert_eq!(g.snake.head(), Some(&pt(5, 4)));
    assert!(!g.snake.in_self(&g.food.position));
}

#[test]
fn body_collision_is_defeat() {
    let mut g = Game::new(10, 10);
    g.snake.body = vec![pt(5, 5), pt(5, 4), pt(6, 4), pt(6, 5), pt(6, 6)];
    g.food.position = pt(0, 0);
    g.update(vec![]);
    assert_eq!(g.snake.head(), Some(&pt(6, 5)));
    assert_eq!(g.state, GameState::Defeat);
}

#[test]
fn moving_into_vacated_tail_is_allowed() {
    let mut g = Game::new(10, 10);
    g.snake.body = vec![pt(5, 5), pt(5, 4), pt(6, 4), pt(6, 5)];
    g.food.position = pt(0, 0);
    g.update(vec![]);
    assert_eq!(g.snake.body, vec![pt(6, 5), pt(5, 5), pt(5, 4), pt(6, 4)]);
    assert!(g.is_ongoing());
}

#[test]
fn finished_game_ignores_updates() {
    let mut g = Game::new(3, 3);
    g.update(vec![Input::Quit]);
    assert_eq!(g.state, GameState::Defeat);
    let body = g.snake.body.clone();
    let food = g.food.position;
    g.update(vec![Input::KeyDown]);
    assert_eq!(g.snake.body, body);
    assert_eq!(g.food.position, food);
    assert_eq!(g.snake.dir(), Direction::Right);
    assert_eq!(g.state, GameState::Defeat);
}

#[test]
fn text_of_small_board() {
    let mut g = Game::new(3, 3);
    g.food.position = pt(0, 0);
    let expected = "# # # # # \n# o     # \n#   *   # \n#       # \n# # # # # \n";
    assert_eq!(g.to_text(), expected);
}

#[test]
fn text_of_wide_board() {
    let mut g = Game::new(4, 2);
    g.food.position = pt(3, 0);
    let expected = "# # # # # # \n#       o # \n#     *   # \n# # # # # # \n";
    assert_eq!(g.to_text(), expected);
}
