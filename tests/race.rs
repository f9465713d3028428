use schnail::board::{get_scale, Board};
use schnail::color::Color;
use schnail::dice::{dice_count, roll_dice};
use schnail::display::{
    body_string, compute_offset, decimal_string, Display, Placement, DICE_LABEL, DICE_ROW,
};
use schnail::GameError;

const ALL: [Color; 6] = [
    Color::Red,
    Color::Yellow,
    Color::Green,
    Color::Pink,
    Color::Blue,
    Color::Orange,
];

fn board(goal: i32) -> Board {
    Board::new(goal).expect("a positive goal is accepted")
}

fn place(y: i64, x: i64, text: &str, pair: u64) -> Placement {
    Placement { y, x, text: text.to_string(), pair }
}

#[test]
fn new_board_starts_everyone_at_zero_without_winners() {
    for goal in [1, 2, 8, 10, 100, i32::MAX] {
        let b = board(goal);
        assert_eq!(b.goal(), goal);
        for c in ALL {
            assert_eq!(b.progress(c), 0);
        }
        assert!(b.winners().is_empty());
    }
}

#[test]
fn new_board_rejects_goals_that_are_not_positive() {
    assert_eq!(Board::new(0).err(), Some(GameError::InvalidGoal));
    assert_eq!(Board::new(-3).err(), Some(GameError::InvalidGoal));
    assert_eq!(Board::new(i32::MIN).err(), Some(GameError::InvalidGoal));
}

#[test]
fn advancing_one_color_goal_times_makes_it_the_only_winner() {
    for goal in [1, 3, 8] {
        for c in ALL {
            let mut b = board(goal);
            for step in 0..goal {
                assert!(b.winners().is_empty(), "no winner after {} steps", step);
                b.advance(c);
            }
            assert_eq!(b.winners(), vec![c]);
            for other in ALL {
                if other != c {
                    assert_eq!(b.progress(other), 0);
                }
            }
        }
    }
}

#[test]
fn advance_moves_exactly_one_step_and_may_pass_the_goal() {
    let mut b = board(2);
    b.advance(Color::Pink);
    assert_eq!(b.progress(Color::Pink), 1);
    b.advance(Color::Pink);
    b.advance(Color::Pink);
    assert_eq!(b.progress(Color::Pink), 3);
    assert_eq!(b.winners(), vec![Color::Pink]);
}

#[test]
fn two_colors_reaching_the_goal_in_one_round_both_win() {
    let mut b = board(3);
    let first = vec![Color::Blue, Color::Green, Color::Blue, Color::Green];
    assert!(b.play_round(&first).is_empty());
    let second = vec![Color::Blue, Color::Red, Color::Green];
    assert_eq!(b.play_round(&second), vec![Color::Green, Color::Blue]);

    let mut b = board(3);
    let round = vec![Color::Orange, Color::Yellow, Color::Orange, Color::Yellow, Color::Yellow, Color::Orange];
    assert_eq!(b.play_round(&round), vec![Color::Yellow, Color::Orange]);
}

#[test]
fn scale_grows_with_the_number_of_digits_of_the_goal() {
    assert_eq!(get_scale(8), 2);
    assert_eq!(get_scale(10), 3);
    assert_eq!(get_scale(99), 3);
    assert_eq!(get_scale(100), 4);
    assert_eq!(get_scale(1), 2);
    assert_eq!(get_scale(999_999_999), 10);
    assert_eq!(get_scale(1_000_000_000), 11);
    assert_eq!(get_scale(i32::MAX), 11);
    assert_eq!(board(100).scale(), 4);
}

#[test]
fn offset_centres_the_board_with_truncating_division() {
    assert_eq!(compute_offset(24, 80, 6, 16), (9, 32));
    assert_eq!(compute_offset(25, 81, 6, 16), (9, 32));
    assert_eq!(compute_offset(3, 5, 6, 16), (-1, -5));
    assert_eq!(compute_offset(6, 16, 6, 16), (0, 0));

    for (h, w) in [(24, 80), (7, 9), (0, 0), (50, 200)] {
        for goal in [2, 8, 10, 100] {
            let d = Display::new(board(goal), h, w);
            let width = goal as i64 * get_scale(goal) as i64;
            assert_eq!(d.hw_offset(), ((h as i64 - 6) / 2, (w as i64 - width) / 2));
            assert_eq!(d.hw_offset(), d.hw_offset());
        }
    }
    assert_eq!(Display::new(board(8), 24, 80).hw_offset(), (9, 32));
    assert_eq!(Display::new(board(100), 24, 80).hw_offset(), (9, -160));
}

#[test]
fn position_adds_the_offset() {
    let d = Display::new(board(8), 24, 80);
    assert_eq!(d.position(0, 0), (9, 32));
    assert_eq!(d.position(6, 16), (15, 48));
    assert_eq!(d.position(-9, -32), (0, 0));
}

#[test]
fn single_die_race_to_eight_with_only_red() {
    let mut b = board(8);
    for round in 1..=8 {
        let winners = b.play_round(&vec![Color::Red]);
        if round < 8 {
            assert!(winners.is_empty());
        } else {
            assert_eq!(winners, vec![Color::Red]);
        }
    }
    assert_eq!(b.winners(), vec![Color::Red]);
    for c in ALL {
        if c != Color::Red {
            assert_eq!(b.progress(c), 0);
        }
    }
}

#[test]
fn two_dice_race_to_four_with_only_green() {
    let mut b = board(4);
    assert!(b.play_round(&vec![Color::Green, Color::Green]).is_empty());
    assert_eq!(b.play_round(&vec![Color::Green, Color::Green]), vec![Color::Green]);
    assert_eq!(b.progress(Color::Green), 4);
}

#[test]
fn dice_count_must_be_positive() {
    assert_eq!(dice_count(2), Ok(2));
    assert_eq!(dice_count(1), Ok(1));
    assert_eq!(dice_count(0), Err(GameError::InvalidDiceCount));
    assert_eq!(dice_count(-1), Err(GameError::InvalidDiceCount));
}

#[test]
fn rolled_dice_are_colours() {
    assert!(roll_dice(0).is_empty());
    let dice = roll_dice(200);
    assert_eq!(dice.len(), 200);
    for c in &dice {
        assert!(ALL.contains(c));
    }
    let mut seen = [false; 6];
    for _ in 0..600 {
        seen[Color::random().index()] = true;
    }
    assert!(seen.iter().filter(|s| **s).count() > 1);
}

#[test]
fn colors_convert_to_and_from_their_rank() {
    for (i, c) in ALL.iter().enumerate() {
        assert_eq!(c.index(), i);
        assert_eq!(u64::from(*c), i as u64);
        assert_eq!(Color::try_from(i as i32), Ok(*c));
        assert_eq!(Color::from_index(i), *c);
    }
    assert_eq!(Color::try_from(6), Err(()));
    assert_eq!(Color::try_from(-1), Err(()));
    assert_eq!(Color::all(), ALL.to_vec());
}

#[test]
fn numbers_and_bodies_render_as_text() {
    assert_eq!(decimal_string(0), "0");
    assert_eq!(decimal_string(7), "7");
    assert_eq!(decimal_string(10), "10");
    assert_eq!(decimal_string(120), "120");
    assert_eq!(decimal_string(u64::MAX), u64::MAX.to_string());
    assert_eq!(body_string(0), "");
    assert_eq!(body_string(3), "@@@");
}

#[test]
fn draw_places_fences_snails_and_labels() {
    let mut b = board(2);
    b.advance(Color::Yellow);
    b.advance(Color::Orange);
    b.advance(Color::Orange);
    let d = Display::new(b, 24, 80);
    // scale 2, board 4 columns wide: offset (9, 38)
    let ops = d.draw();
    let mut expected = Vec::new();
    let progress = [0, 1, 0, 0, 0, 2];
    for row in 0..6 {
        expected.push(place(9 + row as i64, 40, "|", 0));
        expected.push(place(9 + row as i64, 42, "|", 0));
        expected.push(place(9 + row as i64, 38 + 2 * progress[row], "@@", row as u64));
    }
    expected.push(place(15, 38, "0", 0));
    expected.push(place(15, 40, "1", 0));
    expected.push(place(15, 42, "2", 0));
    assert_eq!(ops, expected);
}

#[test]
fn draw_labels_every_step_up_to_the_goal() {
    let d = Display::new(board(12), 30, 100);
    // scale 3, board 36 columns wide: offset (12, 32)
    let ops = d.draw();
    assert_eq!(ops.len(), 18 + 13);
    assert_eq!(ops[0], place(12, 35, "|", 0));
    assert_eq!(ops[1], place(12, 68, "|", 0));
    assert_eq!(ops[2], place(12, 32, "@@@", 0));
    assert_eq!(ops[18 + 12], place(18, 68, "12", 0));
    assert_eq!(ops[18 + 9], place(18, 59, "9", 0));
}

#[test]
fn tally_lists_colours_after_a_label() {
    let d = Display::new(board(8), 24, 80);
    let ops = d.tally(DICE_ROW, DICE_LABEL, &vec![Color::Red, Color::Blue]);
    assert_eq!(
        ops,
        vec![
            place(17, 32, "dice", 0),
            place(17, 37, "#", 0),
            place(17, 39, "#", 4),
        ]
    );
    assert_eq!(d.tally(9, "winner", &vec![]), vec![place(18, 32, "winner", 0)]);
}
