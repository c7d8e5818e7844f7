use robots::{
    get_highscore, input, input_with, Field, Game, Object, Point, Status, Verdict, KEY_RAND,
};

fn snapshot(f: &Field) -> (Point, usize, usize, Point, Vec<Point>, Vec<Point>, Vec<Vec<Object>>) {
    (
        f.pos,
        f.width,
        f.height,
        f.player_pos,
        f.robots_pos.clone(),
        f.scraps_pos.clone(),
        f.field.clone(),
    )
}

fn count_cells(f: &Field, o: Object) -> usize {
    let mut n = 0;
    for y in 0..f.height {
        for x in 0..f.width {
            if f.field[y][x] == o {
                n += 1;
            }
        }
    }
    n
}

#[test]
fn new_places_player_in_the_middle() {
    let field = Field::new(Point::new(3, 4), 7, 5, 6);
    assert_eq!(field.player_pos, Point::new(3, 2));
    assert_eq!(field.pos, Point::new(3, 4));
    assert_eq!(field.field[2][3], Object::Player);
    assert_eq!(field.robots_pos.len(), 6);
    assert_eq!(field.scraps_pos.len(), 0);
}

#[test]
fn new_puts_robots_on_distinct_free_cells() {
    for _ in 0..20 {
        let field = Field::new(Point::new(0, 0), 4, 3, 11);
        assert_eq!(field.robots_pos.len(), 11);
        for (i, a) in field.robots_pos.iter().enumerate() {
            assert_ne!(*a, field.player_pos);
            assert!(a.x < 4 && a.y < 3);
            for b in field.robots_pos.iter().skip(i + 1) {
                assert_ne!(a, b);
            }
        }
        assert_eq!(count_cells(&field, Object::Robot), 11);
        assert_eq!(count_cells(&field, Object::Player), 1);
        assert_eq!(count_cells(&field, Object::Scrap), 0);
        assert_eq!(count_cells(&field, Object::Null), 0);
    }
}

#[test]
fn new_with_too_many_robots_fills_every_free_cell() {
    let field = Field::new(Point::new(0, 0), 2, 1, 5);
    assert_eq!(field.player_pos, Point::new(1, 0));
    assert_eq!(field.robots_pos, vec![Point::new(0, 0)]);

    let single = Field::new(Point::new(0, 0), 1, 1, 3);
    assert_eq!(single.player_pos, Point::new(0, 0));
    assert_eq!(single.robots_pos.len(), 0);
    assert_eq!(single.field[0][0], Object::Player);
}

#[test]
fn with_draws_picks_cells_in_row_order() {
    let field = Field::with_draws(Point::new(0, 0), 3, 3, &vec![0, 9, 100]);
    assert_eq!(field.player_pos, Point::new(1, 1));
    assert_eq!(
        field.robots_pos,
        vec![Point::new(0, 0), Point::new(0, 1), Point::new(1, 2)]
    );
    assert_eq!(field.field[0][0], Object::Robot);
    assert_eq!(field.field[1][0], Object::Robot);
    assert_eq!(field.field[2][1], Object::Robot);
    assert_eq!(field.field[1][1], Object::Player);
    assert_eq!(count_cells(&field, Object::Robot), 3);
}

#[test]
fn with_draws_stops_when_cells_run_out() {
    let field = Field::with_draws(Point::new(0, 0), 2, 1, &vec![5, 5, 5]);
    assert_eq!(field.robots_pos, vec![Point::new(0, 0)]);
}

#[test]
fn staying_in_place_is_accepted_and_changes_nothing() {
    let mut field = Field::new(Point::new(0, 0), 10, 8, 12);
    let before = snapshot(&field);
    let here = field.player_pos;
    assert!(field.player_move(here));
    assert_eq!(snapshot(&field), before);
}

#[test]
fn rejected_move_changes_nothing() {
    let mut field = Field::with_draws(Point::new(0, 0), 3, 3, &vec![0]);
    let before = snapshot(&field);
    assert!(!field.player_move(Point::new(0, 0)));
    assert_eq!(snapshot(&field), before);
    assert!(!field.player_move(Point::new(3, 1)));
    assert_eq!(snapshot(&field), before);
    assert!(!field.player_move(Point::new(1, 7)));
    assert_eq!(snapshot(&field), before);
}

#[test]
fn accepted_move_updates_the_grid() {
    let mut field = Field::new(Point::new(0, 0), 5, 5, 0);
    assert!(field.player_move(Point::new(0, 4)));
    assert_eq!(field.player_pos, Point::new(0, 4));
    assert_eq!(field.field[4][0], Object::Player);
    assert_eq!(field.field[2][2], Object::Null);
}

#[test]
fn lone_robot_reaches_a_still_player() {
    let mut field = Field::new(Point::new(0, 0), 20, 20, 0);
    assert!(field.player_move(Point::new(5, 5)));
    field.robots_pos.push(Point::new(10, 5));
    for x in [9, 8, 7, 6] {
        assert_eq!(field.robots_move(false), Some(0));
        assert_eq!(field.robots_pos, vec![Point::new(x, 5)]);
    }
    assert_eq!(field.robots_move(false), None);
    assert_eq!(field.robots_pos, vec![Point::new(5, 5)]);
}

#[test]
fn lone_robot_moves_diagonally_first() {
    let mut field = Field::new(Point::new(0, 0), 20, 20, 0);
    assert!(field.player_move(Point::new(3, 5)));
    field.robots_pos.push(Point::new(0, 0));
    let path = [(1, 1), (2, 2), (3, 3), (3, 4)];
    for (x, y) in path {
        assert_eq!(field.robots_move(false), Some(0));
        assert_eq!(field.robots_pos, vec![Point::new(x, y)]);
        assert_eq!(field.field[y][x], Object::Robot);
    }
    assert_eq!(field.robots_move(false), None);
}

#[test]
fn frozen_robots_do_not_move() {
    let mut field = Field::new(Point::new(0, 0), 20, 20, 0);
    field.robots_pos.push(Point::new(2, 3));
    assert_eq!(field.robots_move(true), Some(0));
    assert_eq!(field.robots_pos, vec![Point::new(2, 3)]);
}

#[test]
fn frozen_turn_still_merges_robots() {
    let mut field = Field::new(Point::new(0, 0), 20, 20, 0);
    field.robots_pos.push(Point::new(2, 3));
    field.robots_pos.push(Point::new(2, 3));
    field.robots_pos.push(Point::new(4, 4));
    assert_eq!(field.robots_move(true), Some(2));
    assert_eq!(field.robots_pos, vec![Point::new(4, 4)]);
    assert_eq!(field.scraps_pos, vec![Point::new(2, 3)]);
}

#[test]
fn two_robots_merging_score_two() {
    let mut field = Field::new(Point::new(0, 0), 20, 20, 0);
    assert!(field.player_move(Point::new(11, 0)));
    field.robots_pos.push(Point::new(10, 10));
    field.robots_pos.push(Point::new(12, 10));
    assert_eq!(field.robots_move(false), Some(2));
    assert!(field.robots_pos.is_empty());
    assert_eq!(field.scraps_pos, vec![Point::new(11, 9)]);
    assert_eq!(field.field[9][11], Object::Scrap);
    assert_eq!(count_cells(&field, Object::Scrap), 1);
}

#[test]
fn three_robots_on_one_cell_leave_one_heap() {
    let mut field = Field::new(Point::new(0, 0), 20, 20, 0);
    assert!(field.player_move(Point::new(5, 0)));
    field.robots_pos.push(Point::new(4, 6));
    field.robots_pos.push(Point::new(5, 6));
    field.robots_pos.push(Point::new(6, 6));
    field.robots_pos.push(Point::new(15, 15));
    assert_eq!(field.robots_move(false), Some(3));
    assert_eq!(field.robots_pos, vec![Point::new(14, 14)]);
    assert_eq!(field.scraps_pos, vec![Point::new(5, 5)]);
}

#[test]
fn heap_destroys_a_robot_and_stays() {
    let mut field = Field::new(Point::new(0, 0), 20, 20, 0);
    assert!(field.player_move(Point::new(0, 5)));
    field.scraps_pos.push(Point::new(5, 5));
    field.robots_pos.push(Point::new(6, 5));
    field.robots_pos.push(Point::new(10, 10));
    assert_eq!(field.robots_move(false), Some(1));
    assert_eq!(field.robots_pos, vec![Point::new(9, 9)]);
    assert_eq!(field.scraps_pos, vec![Point::new(5, 5)]);
    assert_eq!(field.robots_move(false), Some(0));
    assert_eq!(field.robots_pos, vec![Point::new(8, 8)]);
    assert_eq!(field.scraps_pos, vec![Point::new(5, 5)]);
    assert_eq!(field.field[5][5], Object::Scrap);
}

#[test]
fn merging_on_the_player_loses() {
    let mut field = Field::new(Point::new(0, 0), 20, 20, 0);
    assert!(field.player_move(Point::new(5, 5)));
    field.robots_pos.push(Point::new(4, 5));
    field.robots_pos.push(Point::new(6, 5));
    assert_eq!(field.robots_move(false), None);
    assert!(field.robots_pos.is_empty());
    assert_eq!(field.scraps_pos, vec![Point::new(5, 5)]);
}

#[test]
fn player_cannot_walk_onto_a_heap() {
    let mut field = Field::new(Point::new(0, 0), 20, 20, 0);
    assert!(field.player_move(Point::new(11, 0)));
    field.robots_pos.push(Point::new(10, 2));
    field.robots_pos.push(Point::new(12, 2));
    assert_eq!(field.robots_move(false), Some(2));
    assert!(!field.player_move(Point::new(11, 1)));
    assert_eq!(field.player_pos, Point::new(11, 0));
}

#[test]
fn picture_frames_the_grid() {
    let field = Field::new(Point::new(0, 0), 3, 2, 0);
    let lines = field.picture();
    let text: Vec<String> = lines.iter().map(|l| l.iter().collect()).collect();
    assert_eq!(text, vec![" --- ", "|   |", "| @ |", " --- "]);
}

#[test]
fn picture_shows_robots_and_heaps() {
    let mut field = Field::new(Point::new(0, 0), 20, 20, 0);
    assert!(field.player_move(Point::new(0, 2)));
    field.robots_pos.push(Point::new(3, 1));
    field.robots_pos.push(Point::new(3, 3));
    field.robots_pos.push(Point::new(6, 0));
    assert_eq!(field.robots_move(false), Some(2));
    let lines = field.picture();
    assert_eq!(lines.len(), 22);
    assert_eq!(lines[3][1], '@');
    assert_eq!(lines[2][6], '+');
    assert_eq!(lines[3][3], '*');
    assert_eq!(lines[3][0], '|');
    assert_eq!(lines[3][21], '|');
    assert_eq!(Object::Null.symbol(), ' ');
}

#[test]
fn random_jump_lands_inside() {
    let field = Field::new(Point::new(0, 0), 50, 20, 0);
    for _ in 0..50 {
        let mut x = 49;
        let mut y = 19;
        assert_eq!(input(KEY_RAND, &field, &mut x, &mut y), Status::Normal);
        assert!(x < 50 && y < 20);
    }
}

#[test]
fn jump_with_given_draws() {
    let field = Field::new(Point::new(0, 0), 50, 20, 0);
    let mut x = 7;
    let mut y = 7;
    assert_eq!(input_with(KEY_RAND, &field, &mut x, &mut y, 53, 47), Status::Normal);
    assert_eq!((x, y), (3, 7));
    assert_eq!(input_with(1, &field, &mut x, &mut y, 53, 47), Status::Unknown);
    assert_eq!((x, y), (3, 7));
}

#[test]
fn settle_reports_the_outcome() {
    let mut game = Game::new();
    assert_eq!(game.settle(Some(1), 2), Verdict::Continue);
    assert_eq!(game.score, 1);
    assert_eq!(game.settle(Some(3), 0), Verdict::Won);
    assert_eq!(game.score, 4);
    game.next_level();
    assert_eq!(game.score, 14);
    assert_eq!(game.level, 2);
    assert_eq!(game.settle(None, 0), Verdict::Lost);
    assert_eq!(game.score, 14);
    assert_eq!(game.settle(None, 3), Verdict::Lost);
    assert_eq!(game.score, 14);
}

#[test]
fn score_is_capped() {
    let mut game = Game::new();
    game.score = u64::MAX - 1;
    assert_eq!(game.settle(Some(5), 1), Verdict::Continue);
    assert_eq!(game.score, u64::MAX);
}

#[test]
fn robots_grow_with_the_level() {
    let mut game = Game::new();
    assert_eq!(game.robots_num(), 5);
    game.level = 3;
    assert_eq!(game.robots_num(), 15);
    game.level = 8;
    assert_eq!(game.robots_num(), 40);
    game.level = 9;
    assert_eq!(game.robots_num(), 40);
    game.level = u32::MAX;
    assert_eq!(game.robots_num(), 40);
}

#[test]
fn highscore_of_a_record() {
    assert_eq!(get_highscore(""), Some(0));
    assert_eq!(get_highscore("7"), Some(7));
    assert_eq!(get_highscore("10\n30\n20"), Some(30));
    assert_eq!(get_highscore("+5\n3"), Some(5));
    assert_eq!(get_highscore("18446744073709551615"), Some(u64::MAX));
}

#[test]
fn highscore_of_a_bad_record() {
    assert_eq!(get_highscore("10\nabc"), None);
    assert_eq!(get_highscore("10\n\n20"), None);
    assert_eq!(get_highscore("10\n"), None);
    assert_eq!(get_highscore("+"), None);
    assert_eq!(get_highscore("-1"), None);
    assert_eq!(get_highscore("18446744073709551616"), None);
    assert_eq!(get_highscore("99999999999999999999x"), None);
}
