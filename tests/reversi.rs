use reversi::board::{get_another_color, init_field, DiscColor, Masu};
use reversi::capture::{auto_reverse, capture_run, check_putable, get_reversable_masu};
use reversi::input::{input, Key};
use reversi::render::{cell_background, masu_glyph, turn_message, Background};

fn press(
    key: Key,
    field: &mut [[Masu; 8]; 8],
    cursor: &mut (usize, usize),
    end: &mut bool,
    color: &mut DiscColor,
) {
    input(key, field, cursor, end, color);
}

#[test]
fn input_test() {
    let mut field = [[Masu::Empty; 8]; 8];
    init_field(&mut field);
    let mut cursor = (0, 0);
    let mut end = false;
    let mut color = DiscColor::White;
    press(Key::Right, &mut field, &mut cursor, &mut end, &mut color);
    assert!(cursor.0 == 1);
    assert!(cursor.1 == 0);
    press(Key::Right, &mut field, &mut cursor, &mut end, &mut color);
    assert!(cursor.0 == 2);
    assert!(cursor.1 == 0);
    press(Key::Down, &mut field, &mut cursor, &mut end, &mut color);
    assert!(cursor.0 == 2);
    assert!(cursor.1 == 1);
    press(Key::Down, &mut field, &mut cursor, &mut end, &mut color);
    assert!(cursor.0 == 2);
    assert!(cursor.1 == 2);
    press(Key::Down, &mut field, &mut cursor, &mut end, &mut color);
    assert!(cursor.0 == 2);
    assert!(cursor.1 == 3);
    press(Key::Confirm, &mut field, &mut cursor, &mut end, &mut color);
    assert!(field[3][2] == Masu::Putted(DiscColor::White));
    assert!(field[3][3] == Masu::Putted(DiscColor::White));
    press(Key::Up, &mut field, &mut cursor, &mut end, &mut color);
    assert!(cursor.0 == 2);
    assert!(cursor.1 == 2);
    press(Key::Confirm, &mut field, &mut cursor, &mut end, &mut color);
    assert!(field[2][2] == Masu::Putted(DiscColor::Black));
    assert!(field[3][3] == Masu::Putted(DiscColor::Black));
    press(Key::Left, &mut field, &mut cursor, &mut end, &mut color);
    assert!(cursor.0 == 1);
    assert!(cursor.1 == 2);
    press(Key::Quit, &mut field, &mut cursor, &mut end, &mut color);
    assert!(end);
}

#[test]
fn init_field_test() {
    let mut field = [[Masu::Empty; 8]; 8];
    init_field(&mut field);
    assert!(field[3][3] == Masu::Putted(DiscColor::Black));
    assert!(field[4][4] == Masu::Putted(DiscColor::Black));
    assert!(field[3][4] == Masu::Putted(DiscColor::White));
    assert!(field[4][3] == Masu::Putted(DiscColor::White));
}

#[test]
fn auto_reverse_test() {
    let mut field = [[Masu::Empty; 8]; 8];
    init_field(&mut field);
    field[4][5] = Masu::Putted(DiscColor::White);
    auto_reverse(&mut field, (5, 4), DiscColor::White);
    assert!(field[4][4] == Masu::Putted(DiscColor::White));

    init_field(&mut field);
    field[3][5] = Masu::Putted(DiscColor::White);
    field[3][6] = Masu::Putted(DiscColor::White);
    field[3][7] = Masu::Putted(DiscColor::Black);
    auto_reverse(&mut field, (7, 3), DiscColor::Black);
    assert!(field[3][5] == Masu::Putted(DiscColor::Black));
    assert!(field[3][6] == Masu::Putted(DiscColor::Black));
    assert!(field[3][7] == Masu::Putted(DiscColor::Black));
}

#[test]
fn check_putable_test() {
    let mut field = [[Masu::Empty; 8]; 8];
    init_field(&mut field);
    let color = DiscColor::Black;
    assert!(!check_putable(&field, &(0, 0), color));
    assert!(check_putable(&field, &(4, 2), color));
}

#[test]
fn get_reversable_masu_test() {
    let mut field = [[Masu::Empty; 8]; 8];
    init_field(&mut field);
    let color = DiscColor::White;
    let point = (2, 3);
    let mut reversable_masu = Vec::<(usize, usize)>::new();
    reversable_masu.push((3, 3));
    assert!(get_reversable_masu(&field, &point, color) == reversable_masu);
}

#[test]
fn get_another_color_test() {
    assert!(get_another_color(DiscColor::White) == DiscColor::Black);
    assert!(get_another_color(DiscColor::Black) == DiscColor::White);
}

#[test]
fn initial_board_has_only_the_four_centre_discs() {
    let mut field = [[Masu::Putted(DiscColor::White); 8]; 8];
    init_field(&mut field);
    let mut discs = 0;
    for y in 0..8 {
        for x in 0..8 {
            let centre = (x == 3 || x == 4) && (y == 3 || y == 4);
            if !centre {
                assert!(field[y][x] == Masu::Empty);
            } else {
                discs += 1;
            }
        }
    }
    assert_eq!(discs, 4);
    assert!(field[3][3] == field[4][4]);
    assert!(field[3][4] == field[4][3]);
    assert!(field[3][3] != field[3][4]);
}

#[test]
fn cursor_stays_put_at_each_edge() {
    let mut field = [[Masu::Empty; 8]; 8];
    init_field(&mut field);
    let mut end = false;
    let mut color = DiscColor::White;
    for y in 0..8 {
        let mut cursor = (0, y);
        press(Key::Left, &mut field, &mut cursor, &mut end, &mut color);
        assert_eq!(cursor, (0, y));
        let mut cursor = (7, y);
        press(Key::Right, &mut field, &mut cursor, &mut end, &mut color);
        assert_eq!(cursor, (7, y));
    }
    for x in 0..8 {
        let mut cursor = (x, 0);
        press(Key::Up, &mut field, &mut cursor, &mut end, &mut color);
        assert_eq!(cursor, (x, 0));
        let mut cursor = (x, 7);
        press(Key::Down, &mut field, &mut cursor, &mut end, &mut color);
        assert_eq!(cursor, (x, 7));
    }
    assert!(!end);
    assert!(color == DiscColor::White);
}

#[test]
fn interior_moves_change_one_coordinate() {
    let mut field = [[Masu::Empty; 8]; 8];
    let mut end = false;
    let mut color = DiscColor::Black;
    let mut cursor = (4, 4);
    press(Key::Up, &mut field, &mut cursor, &mut end, &mut color);
    assert_eq!(cursor, (4, 3));
    press(Key::Left, &mut field, &mut cursor, &mut end, &mut color);
    assert_eq!(cursor, (3, 3));
    press(Key::Down, &mut field, &mut cursor, &mut end, &mut color);
    assert_eq!(cursor, (3, 4));
    press(Key::Right, &mut field, &mut cursor, &mut end, &mut color);
    assert_eq!(cursor, (4, 4));
}

#[test]
fn occupied_cell_is_never_placeable() {
    let mut field = [[Masu::Empty; 8]; 8];
    init_field(&mut field);
    for color in [DiscColor::Black, DiscColor::White] {
        for p in [(3, 3), (4, 4), (3, 4), (4, 3)] {
            assert!(!check_putable(&field, &p, color));
        }
    }
    // An occupied cell that would otherwise capture.
    field[2][4] = Masu::Putted(DiscColor::White);
    assert!(!check_putable(&field, &(4, 2), DiscColor::Black));
}

#[test]
fn capture_stops_at_nearest_terminator() {
    let mut field = [[Masu::Empty; 8]; 8];
    field[4][0] = Masu::Putted(DiscColor::White);
    field[4][1] = Masu::Putted(DiscColor::Black);
    field[4][2] = Masu::Putted(DiscColor::White);
    field[4][3] = Masu::Putted(DiscColor::Black);
    field[4][4] = Masu::Putted(DiscColor::Black);
    field[4][5] = Masu::Putted(DiscColor::White);
    auto_reverse(&mut field, (5, 4), DiscColor::White);
    assert!(field[4][4] == Masu::Putted(DiscColor::White));
    assert!(field[4][3] == Masu::Putted(DiscColor::White));
    assert!(field[4][2] == Masu::Putted(DiscColor::White));
    assert!(field[4][1] == Masu::Putted(DiscColor::Black));
    assert!(field[4][0] == Masu::Putted(DiscColor::White));
    assert_eq!(get_reversable_masu(&field, &(5, 4), DiscColor::White), Vec::new());
}

#[test]
fn gap_or_edge_blocks_capture() {
    let mut field = [[Masu::Empty; 8]; 8];
    field[0][2] = Masu::Putted(DiscColor::Black);
    field[0][3] = Masu::Putted(DiscColor::White);
    // Empty neighbour to the right of (0,0), then an opposing run with a terminator.
    assert_eq!(capture_run(&field, &(0, 0), DiscColor::White, 1, 0), 0);
    // Off the board to the left.
    assert_eq!(capture_run(&field, &(0, 0), DiscColor::White, -1, 0), 0);
    assert_eq!(capture_run(&field, &(1, 0), DiscColor::White, 1, 0), 1);
    // A run that reaches the edge without a terminator.
    field[0][4] = Masu::Putted(DiscColor::Black);
    field[0][5] = Masu::Putted(DiscColor::Black);
    field[0][6] = Masu::Putted(DiscColor::Black);
    field[0][7] = Masu::Putted(DiscColor::Black);
    assert_eq!(capture_run(&field, &(3, 0), DiscColor::White, 1, 0), 0);
    assert!(!check_putable(&field, &(0, 0), DiscColor::White));
}

#[test]
fn resolver_gives_the_same_answer_twice() {
    let mut field = [[Masu::Empty; 8]; 8];
    init_field(&mut field);
    field[2][2] = Masu::Putted(DiscColor::Black);
    let first = get_reversable_masu(&field, &(5, 5), DiscColor::White);
    let second = get_reversable_masu(&field, &(5, 5), DiscColor::White);
    assert_eq!(first, second);
    let first = get_reversable_masu(&field, &(2, 3), DiscColor::White);
    let second = get_reversable_masu(&field, &(2, 3), DiscColor::White);
    assert_eq!(first, second);
    assert_eq!(first, vec![(3, 3)]);
}

#[test]
fn flips_in_several_directions_come_in_direction_order() {
    let mut field = [[Masu::Empty; 8]; 8];
    field[3][3] = Masu::Putted(DiscColor::Black);
    field[3][2] = Masu::Putted(DiscColor::Black);
    field[3][1] = Masu::Putted(DiscColor::White);
    field[4][4] = Masu::Putted(DiscColor::Black);
    field[5][5] = Masu::Putted(DiscColor::White);
    field[2][3] = Masu::Putted(DiscColor::Black);
    field[1][3] = Masu::Putted(DiscColor::White);
    let flips = get_reversable_masu(&field, &(3, 4), DiscColor::White);
    assert_eq!(flips, vec![(3, 3), (3, 2)]);
    let flips = get_reversable_masu(&field, &(4, 3), DiscColor::White);
    assert_eq!(flips, vec![(3, 3), (2, 3)]);
}

#[test]
fn toggling_twice_is_identity() {
    for c in [DiscColor::Black, DiscColor::White] {
        assert!(get_another_color(get_another_color(c)) == c);
        assert!(get_another_color(c) != c);
    }
}

#[test]
fn seeded_game_white_opening_at_2_3() {
    let mut field = [[Masu::Empty; 8]; 8];
    init_field(&mut field);
    let mut cursor = (0, 0);
    let mut end = false;
    let mut color = DiscColor::White;
    for key in [Key::Right, Key::Right, Key::Down, Key::Down, Key::Down] {
        press(key, &mut field, &mut cursor, &mut end, &mut color);
    }
    assert_eq!(cursor, (2, 3));
    press(Key::Confirm, &mut field, &mut cursor, &mut end, &mut color);
    assert!(field[3][2] == Masu::Putted(DiscColor::White));
    assert!(field[3][3] == Masu::Putted(DiscColor::White));
    assert!(field[4][4] == Masu::Putted(DiscColor::Black));
    assert!(field[3][4] == Masu::Putted(DiscColor::White));
    assert!(field[4][3] == Masu::Putted(DiscColor::White));
    assert!(color == DiscColor::Black);
    assert!(!end);
}

#[test]
fn illegal_confirm_changes_nothing() {
    let mut field = [[Masu::Empty; 8]; 8];
    init_field(&mut field);
    let before = field;
    let mut cursor = (0, 0);
    let mut end = false;
    let mut color = DiscColor::White;
    press(Key::Confirm, &mut field, &mut cursor, &mut end, &mut color);
    assert!(field == before);
    assert!(color == DiscColor::White);
    let mut cursor = (3, 3);
    press(Key::Confirm, &mut field, &mut cursor, &mut end, &mut color);
    assert!(field == before);
    assert!(color == DiscColor::White);
}

#[test]
fn pass_and_other_keys() {
    let mut field = [[Masu::Empty; 8]; 8];
    init_field(&mut field);
    let before = field;
    let mut cursor = (5, 6);
    let mut end = false;
    let mut color = DiscColor::White;
    press(Key::Pass, &mut field, &mut cursor, &mut end, &mut color);
    assert!(color == DiscColor::Black);
    press(Key::Pass, &mut field, &mut cursor, &mut end, &mut color);
    assert!(color == DiscColor::White);
    press(Key::Other, &mut field, &mut cursor, &mut end, &mut color);
    assert!(color == DiscColor::White);
    assert_eq!(cursor, (5, 6));
    assert!(field == before);
    assert!(!end);
}

#[test]
fn backgrounds_follow_cursor_and_checkerboard() {
    let cursor = (2, 5);
    assert_eq!(cell_background(2, 5, &cursor), Background::Cursor);
    assert_eq!(cell_background(0, 0, &cursor), Background::Dark);
    assert_eq!(cell_background(1, 0, &cursor), Background::Light);
    assert_eq!(cell_background(3, 5, &cursor), Background::Dark);
    assert_eq!(cell_background(7, 6, &cursor), Background::Light);
}

#[test]
fn glyphs_and_turn_messages() {
    assert_eq!(masu_glyph(Masu::Empty), "  ");
    assert_eq!(masu_glyph(Masu::Putted(DiscColor::Black)), "\u{26ab}");
    assert_eq!(masu_glyph(Masu::Putted(DiscColor::White)), "\u{26aa}");
    assert_eq!(turn_message(DiscColor::Black), "\u{9ed2}\u{306e}\u{30bf}\u{30fc}\u{30f3}\u{3067}\u{3059}");
    assert_eq!(turn_message(DiscColor::White), "\u{767d}\u{306e}\u{30bf}\u{30fc}\u{30f3}\u{3067}\u{3059}");
}
