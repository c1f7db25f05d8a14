use crumbeez::buffer::LiveBuffer;
use crumbeez::text::byte_length;
use crumbeez::words::is_word_char;
use crumbeez::{next_char_boundary, prev_char_boundary, word_left, word_right};

#[test]
fn prev_boundary_steps_over_a_whole_scalar() {
    // 'a' is 1 byte, 'é' 2 bytes, '😀' 4 bytes.
    let s = "aé😀";
    assert_eq!(byte_length(s), 7);
    assert_eq!(prev_char_boundary(s, 7), 3);
    assert_eq!(prev_char_boundary(s, 3), 1);
    assert_eq!(prev_char_boundary(s, 1), 0);
    assert_eq!(prev_char_boundary(s, 0), 0);
}

#[test]
fn prev_boundary_from_inside_a_scalar_is_its_start() {
    let s = "aé😀";
    assert_eq!(prev_char_boundary(s, 5), 3);
    assert_eq!(prev_char_boundary(s, 2), 1);
}

#[test]
fn next_boundary_steps_over_a_whole_scalar() {
    let s = "aé😀";
    assert_eq!(next_char_boundary(s, 0), 1);
    assert_eq!(next_char_boundary(s, 1), 3);
    assert_eq!(next_char_boundary(s, 3), 7);
    assert_eq!(next_char_boundary(s, 7), 7);
    assert_eq!(next_char_boundary(s, 100), 7);
}

#[test]
fn word_characters_are_alphanumeric_or_underscore() {
    assert!(is_word_char('a'));
    assert!(is_word_char('9'));
    assert!(is_word_char('_'));
    assert!(is_word_char('é'));
    assert!(!is_word_char(' '));
    assert!(!is_word_char('-'));
    assert!(!is_word_char('.'));
}

#[test]
fn word_left_skips_separators_then_the_word() {
    let s = "hello, wörld_1  ";
    // from the end: skip two spaces, then "wörld_1", stop at its start
    assert_eq!(word_left(s, byte_length(s)), 7);
    // from the start of that word: skip ", " then "hello"
    assert_eq!(word_left(s, 7), 0);
    // from the middle of "hello"
    assert_eq!(word_left(s, 3), 0);
    assert_eq!(word_left(s, 0), 0);
}

#[test]
fn word_left_on_separators_only_goes_to_the_start() {
    assert_eq!(word_left("  --  ", 6), 0);
}

#[test]
fn word_right_goes_to_the_start_of_the_next_word() {
    let s = "hello, wörld_1  ";
    // from inside "hello": to the end of the word, then over ", "
    assert_eq!(word_right(s, 2), 7);
    // from the start of "wörld_1" (8 bytes): over the word and the spaces
    assert_eq!(word_right(s, 7), byte_length(s));
    assert_eq!(word_right(s, byte_length(s)), byte_length(s));
}

#[test]
fn word_right_between_words_skips_the_separators() {
    assert_eq!(word_right("ab  cd", 2), 4);
    assert_eq!(word_right("ab  cd", 4), 6);
}

#[test]
fn a_buffer_starts_with_the_cursor_at_the_end() {
    let b = LiveBuffer::new("héllo".to_string()).unwrap();
    assert_eq!(b.text(), "héllo");
    assert_eq!(b.cursor(), 6);
}

#[test]
fn no_buffer_comes_of_empty_text() {
    assert!(LiveBuffer::new(String::new()).is_none());
}

#[test]
fn with_cursor_refuses_an_offset_inside_a_scalar() {
    assert!(LiveBuffer::with_cursor("é".to_string(), 1).is_none());
    assert!(LiveBuffer::with_cursor("é".to_string(), 3).is_none());
    assert!(LiveBuffer::with_cursor(String::new(), 0).is_none());
    let b = LiveBuffer::with_cursor("é".to_string(), 2).unwrap();
    assert_eq!(b.cursor(), 2);
}

#[test]
fn insert_goes_in_at_the_cursor() {
    let b = LiveBuffer::with_cursor("héo".to_string(), 3).unwrap();
    let b = b.insert("ll");
    assert_eq!(b.text(), "héllo");
    assert_eq!(b.cursor(), 5);
}

#[test]
fn backspace_removes_the_scalar_before_the_cursor() {
    let b = LiveBuffer::with_cursor("a😀b".to_string(), 5).unwrap();
    let b = b.backspace().unwrap();
    assert_eq!(b.text(), "ab");
    assert_eq!(b.cursor(), 1);
    let b = b.backspace().unwrap();
    assert_eq!(b.text(), "b");
    assert_eq!(b.cursor(), 0);
    // at the start nothing happens
    let b = b.backspace().unwrap();
    assert_eq!(b.text(), "b");
    assert_eq!(b.cursor(), 0);
}

#[test]
fn backspace_on_the_last_scalar_discards_the_buffer() {
    let b = LiveBuffer::new("é".to_string()).unwrap();
    assert!(b.backspace().is_none());
}

#[test]
fn delete_removes_the_scalar_at_the_cursor() {
    let b = LiveBuffer::with_cursor("a😀b".to_string(), 1).unwrap();
    let b = b.delete().unwrap();
    assert_eq!(b.text(), "ab");
    assert_eq!(b.cursor(), 1);
    let b = b.delete().unwrap();
    assert_eq!(b.text(), "a");
    assert_eq!(b.cursor(), 1);
    // at the end nothing happens
    let b = b.delete().unwrap();
    assert_eq!(b.text(), "a");
    let b = b.home();
    assert!(b.delete().is_none());
}

#[test]
fn left_and_right_move_by_scalars_and_stop_at_the_ends() {
    let b = LiveBuffer::new("a😀é".to_string()).unwrap();
    assert_eq!(b.cursor(), 7);
    let b = b.move_left(1, false);
    assert_eq!(b.cursor(), 5);
    let b = b.move_left(1, false);
    assert_eq!(b.cursor(), 1);
    let b = b.move_left(5, false);
    assert_eq!(b.cursor(), 0);
    let b = b.move_right(2, false);
    assert_eq!(b.cursor(), 5);
    let b = b.move_right(usize::MAX, false);
    assert_eq!(b.cursor(), 7);
    let b = b.move_left(usize::MAX, false);
    assert_eq!(b.cursor(), 0);
    assert_eq!(b.text(), "a😀é");
}

#[test]
fn home_and_end_jump_to_the_ends() {
    let b = LiveBuffer::with_cursor("héllo".to_string(), 3).unwrap();
    let b = b.home();
    assert_eq!(b.cursor(), 0);
    let b = b.end();
    assert_eq!(b.cursor(), 6);
    assert_eq!(b.into_text(), "héllo");
}

#[test]
fn word_moves_in_a_buffer() {
    let b = LiveBuffer::new("foo bar_baz".to_string()).unwrap();
    let b = b.move_left(1, true);
    assert_eq!(b.cursor(), 4);
    let b = b.move_left(7, true);
    assert_eq!(b.cursor(), 0);
    let b = b.move_right(1, true);
    assert_eq!(b.cursor(), 4);
    let b = b.move_right(1, true);
    assert_eq!(b.cursor(), 11);
}

struct Model {
    text: Vec<char>,
    cursor: usize,
}

fn is_word(c: char) -> bool {
    c.is_alphanumeric() || c == '_'
}

impl Model {
    fn byte_cursor(&self) -> usize {
        self.text[..self.cursor].iter().map(|c| c.len_utf8()).sum()
    }

    fn string(&self) -> String {
        self.text.iter().collect()
    }

    fn word_left(&mut self) {
        while self.cursor > 0 && !is_word(self.text[self.cursor - 1]) {
            self.cursor -= 1;
        }
        while self.cursor > 0 && is_word(self.text[self.cursor - 1]) {
            self.cursor -= 1;
        }
    }

    fn word_right(&mut self) {
        while self.cursor < self.text.len() && is_word(self.text[self.cursor]) {
            self.cursor += 1;
        }
        while self.cursor < self.text.len() && !is_word(self.text[self.cursor]) {
            self.cursor += 1;
        }
    }
}

#[test]
fn random_edits_agree_with_a_scalar_model() {
    let alphabet: Vec<char> = "ab_ é,😀Z9-ß".chars().collect();
    let mut seed: u64 = 0x9e37_79b9_7f4a_7c15;
    let mut next = |bound: u64| {
        seed = seed
            .wrapping_mul(6364136223846793005)
            .wrapping_add(1442695040888963407);
        (seed >> 33) % bound
    };
    for _round in 0..200 {
        let mut live: Option<LiveBuffer> = None;
        let mut model = Model { text: Vec::new(), cursor: 0 };
        for _step in 0..60 {
            let choice = next(10);
            live = match (choice, live) {
                (0..=3, current) => {
                    let len = next(4) as usize;
                    let typed: String = (0..len)
                        .map(|_| alphabet[next(alphabet.len() as u64) as usize])
                        .collect();
                    for (i, c) in typed.chars().enumerate() {
                        model.text.insert(model.cursor + i, c);
                    }
                    model.cursor += typed.chars().count();
                    match current {
                        Some(b) => Some(b.insert(&typed)),
                        None => LiveBuffer::new(typed),
                    }
                }
                (_, None) => None,
                (4, Some(b)) => {
                    if model.cursor > 0 {
                        model.text.remove(model.cursor - 1);
                        model.cursor -= 1;
                    }
                    b.backspace()
                }
                (5, Some(b)) => {
                    if model.cursor < model.text.len() {
                        model.text.remove(model.cursor);
                    }
                    b.delete()
                }
                (6, Some(b)) => {
                    let count = next(4) as usize;
                    model.cursor = model.cursor.saturating_sub(count);
                    Some(b.move_left(count, false))
                }
                (7, Some(b)) => {
                    let count = next(4) as usize;
                    model.cursor = (model.cursor + count).min(model.text.len());
                    Some(b.move_right(count, false))
                }
                (8, Some(b)) => {
                    if next(2) == 0 {
                        model.word_left();
                        Some(b.move_left(1, true))
                    } else {
                        model.word_right();
                        Some(b.move_right(1, true))
                    }
                }
                (_, Some(b)) => {
                    if next(2) == 0 {
                        model.cursor = 0;
                        Some(b.home())
                    } else {
                        model.cursor = model.text.len();
                        Some(b.end())
                    }
                }
            };
            match &live {
                Some(b) => {
                    assert_eq!(b.text(), model.string());
                    assert_eq!(b.cursor(), model.byte_cursor());
                }
                None => {
                    assert!(model.text.is_empty());
                    model.cursor = 0;
                }
            }
        }
    }
}
