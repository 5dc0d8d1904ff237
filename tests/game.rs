use snake::game::{dir_for_key, State, Status, INITIAL_LEN, KEY_QUIT, KEY_RESTART};
use snake::grid::{cells_distinct, update_pos, Dir, Point, GRID_HEIGHT, GRID_WIDTH};

fn pt(x: i32, y: i32) -> Point {
    Point { x, y }
}

const FAR: Point = Point { x: 60, y: 40 };

fn crashed_game() -> State {
    let mut s = State::with_food(FAR);
    s.update_with(31, FAR);
    assert!(!s.key_down_with(108, FAR));
    s.update_with(31, FAR);
    assert!(!s.key_down_with(105, FAR));
    s.update_with(31, FAR);
    s
}

#[test]
fn wraps_past_right_edge() {
    assert_eq!(update_pos(pt(69, 5), Dir::Right), pt(0, 5));
}

#[test]
fn wraps_past_other_edges() {
    assert_eq!(update_pos(pt(0, 5), Dir::Left), pt(69, 5));
    assert_eq!(update_pos(pt(3, 0), Dir::Up), pt(3, 49));
    assert_eq!(update_pos(pt(3, 49), Dir::Down), pt(3, 0));
}

#[test]
fn moves_inside_board() {
    assert_eq!(update_pos(pt(10, 10), Dir::Right), pt(11, 10));
    assert_eq!(update_pos(pt(10, 10), Dir::Left), pt(9, 10));
    assert_eq!(update_pos(pt(10, 10), Dir::Up), pt(10, 9));
    assert_eq!(update_pos(pt(10, 10), Dir::Down), pt(10, 11));
}

#[test]
fn new_game_layout() {
    let s = State::with_food(FAR);
    assert_eq!(s.snake().len(), INITIAL_LEN);
    assert_eq!(s.snake()[0], pt(0, 0));
    assert_eq!(s.snake()[29], pt(0, 29));
    assert_eq!(s.score(), 0);
    assert_eq!(s.status(), Status::Ongoing);
    assert_eq!(s.dir(), Dir::Right);
    assert_eq!(s.lock_dir(), Dir::Left);
    assert_eq!(s.food(), FAR);
}

#[test]
fn moves_only_past_threshold() {
    let mut s = State::with_food(FAR);
    s.update_with(30, FAR);
    assert_eq!(s.snake()[0], pt(0, 0));
    s.update_with(1, FAR);
    assert_eq!(s.snake()[0], pt(1, 0));
    assert_eq!(s.snake()[1], pt(0, 0));
    assert_eq!(s.snake()[29], pt(0, 28));
    assert_eq!(s.snake().len(), INITIAL_LEN);
}

#[test]
fn eating_grows_and_scores() {
    let mut s = State::with_food(pt(1, 0));
    s.update_with(31, pt(7, 8));
    assert_eq!(s.snake().len(), INITIAL_LEN + 1);
    assert_eq!(s.snake()[0], pt(2, 0));
    assert_eq!(s.snake()[1], pt(1, 0));
    assert_eq!(s.score(), 10);
    assert_eq!(s.food(), pt(7, 8));
    assert_eq!(s.status(), Status::Ongoing);
}

#[test]
fn length_changes_by_at_most_one() {
    let mut s = State::with_food(pt(3, 0));
    let mut prev = s.snake().len();
    for _ in 0..20 {
        s.update_with(31, pt(8, 0));
        let len = s.snake().len();
        assert!(len >= prev && len <= prev + 1);
        prev = len;
    }
    assert_eq!(prev, INITIAL_LEN + 2);
    assert_eq!(s.score(), 20);
}

#[test]
fn self_collision_ends_game() {
    let s = crashed_game();
    assert_eq!(s.status(), Status::Over);
    assert!(s.is_over());
    assert_eq!(s.snake()[0], pt(0, 1));
}

#[test]
fn over_game_ignores_updates() {
    let mut s = crashed_game();
    let snake = s.snake().clone();
    let score = s.score();
    for _ in 0..5 {
        s.update_with(100, pt(1, 1));
        s.update(100);
    }
    assert!(!s.key_down_with(106, FAR));
    assert_eq!(s.snake(), &snake);
    assert_eq!(s.score(), score);
    assert_eq!(s.status(), Status::Over);
}

#[test]
fn reversal_is_refused() {
    let mut s = State::with_food(FAR);
    assert!(!s.key_down_with(105, FAR));
    assert_eq!(s.dir(), Dir::Right);
    assert!(!s.key_down_with(103, FAR));
    assert_eq!(s.dir(), Dir::Up);
    assert_eq!(s.lock_dir(), Dir::Down);
    assert!(!s.key_down_with(108, FAR));
    assert_eq!(s.dir(), Dir::Up);
}

#[test]
fn quit_key_in_both_states() {
    let mut s = State::with_food(FAR);
    assert!(s.key_down_with(KEY_QUIT, FAR));
    let mut t = crashed_game();
    assert!(t.key_down_with(KEY_QUIT, FAR));
    assert!(t.is_over());
}

#[test]
fn restart_resets_game() {
    let mut s = crashed_game();
    assert!(!s.key_down_with(KEY_RESTART, pt(5, 6)));
    assert_eq!(s.score(), 0);
    assert_eq!(s.status(), Status::Ongoing);
    assert_eq!(s.snake().len(), INITIAL_LEN);
    assert_eq!(s.snake()[0], pt(0, 0));
    assert_eq!(s.dir(), Dir::Right);
    assert_eq!(s.food(), pt(5, 6));
}

#[test]
fn restart_key_ignored_while_ongoing() {
    let mut s = State::with_food(FAR);
    s.update_with(31, FAR);
    s.key_down_with(KEY_RESTART, pt(5, 6));
    assert_eq!(s.snake()[0], pt(1, 0));
    assert_eq!(s.food(), FAR);
}

#[test]
fn random_food_on_board() {
    for _ in 0..200 {
        let s = State::new();
        let f = s.food();
        assert!(f.x >= 0 && f.x < GRID_WIDTH && f.y >= 0 && f.y < GRID_HEIGHT);
    }
    let mut s = State::default();
    s.restart();
    assert_eq!(s.score(), 0);
    assert!(!s.key_down(KEY_RESTART));
}

#[test]
fn distinct_cells() {
    assert!(cells_distinct(&vec![]));
    assert!(cells_distinct(&vec![pt(0, 0), pt(0, 1), pt(1, 0), pt(69, 49)]));
    assert!(!cells_distinct(&vec![pt(0, 0), pt(0, 1), pt(0, 0)]));
}

#[test]
fn steering_keys() {
    assert_eq!(dir_for_key(103), Some(Dir::Up));
    assert_eq!(dir_for_key(105), Some(Dir::Left));
    assert_eq!(dir_for_key(106), Some(Dir::Right));
    assert_eq!(dir_for_key(108), Some(Dir::Down));
    assert_eq!(dir_for_key(KEY_RESTART), None);
}
