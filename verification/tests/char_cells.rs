use game_of_life::grid::dead_alive_char_cells::get_only_first_char;
use game_of_life::grid::{DeadAliveCharCell, InvalidCharCell};
use game_of_life::text::{char_string, chars_of, is_white_space, trim};

fn fault(dead: &str, alive: &str) -> Option<InvalidCharCell> {
    DeadAliveCharCell::new(dead, alive).err()
}

#[test]
fn two_characters_for_the_dead_cell_are_too_long() {
    assert_eq!(fault("ab", "x"), Some(InvalidCharCell::TooLongForDead));
}

#[test]
fn no_character_for_the_dead_cell_is_refused() {
    assert_eq!(fault("", "x"), Some(InvalidCharCell::TooLongForDead));
    assert_eq!(fault("   ", "x"), Some(InvalidCharCell::TooLongForDead));
}

#[test]
fn two_characters_for_the_alive_cell_are_too_long() {
    assert_eq!(fault("*", "xy"), Some(InvalidCharCell::TooLongForAlive));
    assert_eq!(fault("*", ""), Some(InvalidCharCell::TooLongForAlive));
    assert_eq!(fault("*", "x y"), Some(InvalidCharCell::TooLongForAlive));
}

#[test]
fn where_both_are_wrong_the_dead_one_is_reported() {
    assert_eq!(fault("ab", "xy"), Some(InvalidCharCell::TooLongForDead));
    assert_eq!(fault("", ""), Some(InvalidCharCell::TooLongForDead));
}

#[test]
fn one_character_each_is_accepted() {
    let chars = DeadAliveCharCell::new("*", "x").unwrap();
    assert_eq!((chars.dead(), chars.alive()), ('*', 'x'));
}

#[test]
fn white_space_around_the_character_is_dropped() {
    let chars = DeadAliveCharCell::new("  * ", "\tx\n").unwrap();
    assert_eq!((chars.dead(), chars.alive()), ('*', 'x'));
    let chars = DeadAliveCharCell::new("\u{3000}0\u{a0}", "\u{2003}1\u{85}").unwrap();
    assert_eq!((chars.dead(), chars.alive()), ('0', '1'));
}

#[test]
fn the_two_characters_may_be_the_same() {
    let chars = DeadAliveCharCell::new("o", " o").unwrap();
    assert_eq!((chars.dead(), chars.alive()), ('o', 'o'));
}

#[test]
fn a_character_of_several_bytes_is_one_character() {
    let chars = DeadAliveCharCell::new("░", "█").unwrap();
    assert_eq!((chars.dead(), chars.alive()), ('░', '█'));
}

#[test]
fn only_first_char_is_the_one_character_left_after_trimming() {
    for input in ["", " ", "a", " a", "a ", " a ", "ab", "a b", " a b ", "\ta\r\n", "é", "éé"] {
        let trimmed = input.trim();
        let expected = if trimmed.chars().count() == 1 { trimmed.chars().next() } else { None };
        assert_eq!(get_only_first_char(input), expected, "{:?}", input);
    }
}

#[test]
fn white_space_is_what_the_standard_library_calls_white_space() {
    let mut white = 0;
    for code in 0..=0x10ffffu32 {
        if let Some(c) = char::from_u32(code) {
            assert_eq!(is_white_space(c), c.is_whitespace(), "{:x}", code);
            if is_white_space(c) {
                white += 1;
            }
        }
    }
    assert_eq!(white, 25);
}

#[test]
fn trimming_is_what_the_standard_library_does() {
    let inputs = [
        "", " ", "  ", "a", " a", "a ", "  a b  ", "\n\ta\u{a0}", "\u{2028}x\u{2029}", "a  b",
        " \u{1680} ", "\u{200b}", " \u{200b} ", "\u{feff}a",
    ];
    for input in inputs {
        let chars = chars_of(input);
        let (start, end) = trim(&chars);
        let kept: String = chars[start..end].iter().collect();
        assert_eq!(kept, input.trim(), "{:?}", input);
    }
}

#[test]
fn chars_of_are_the_characters_in_order() {
    assert_eq!(chars_of(""), Vec::<char>::new());
    assert_eq!(chars_of("a░b"), vec!['a', '░', 'b']);
}

#[test]
fn a_character_becomes_a_text_of_its_own() {
    assert_eq!(char_string('*'), "*");
    assert_eq!(char_string('░'), "░");
}
