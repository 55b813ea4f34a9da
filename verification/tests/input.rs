use wordle::{clean_input_string, Guess};

fn cleaned(line: &str) -> String {
    let mut s = line.to_string();
    clean_input_string(&mut s);
    s
}

#[test]
fn white_space_is_stripped_everywhere() {
    assert_eq!(cleaned("hello\n"), "hello");
    assert_eq!(cleaned("  hello  \r\n"), "hello");
    assert_eq!(cleaned("h e\tl l\no"), "hello");
    assert_eq!(cleaned("\u{a0}he\u{2003}llo\u{3000}"), "hello");
    assert_eq!(cleaned(" \t\n"), "");
    assert_eq!(cleaned(""), "");
}

#[test]
fn letters_are_turned_to_lower_case() {
    assert_eq!(cleaned("HELLO"), "hello");
    assert_eq!(cleaned("HeLlO"), "hello");
    assert_eq!(cleaned("ÉCOLE"), "école");
    assert_eq!(cleaned("hello"), "hello");
}

#[test]
fn symbols_of_a_feedback_line_stay_as_they_are() {
    assert_eq!(cleaned(" X~*x~ \n"), "x~*x~");
    assert_eq!(cleaned("*~x~*"), "*~x~*");
}

#[test]
fn cleaned_line_is_read_as_a_guess() {
    let guess = Guess::from_string(cleaned(" CrAtE \n")).unwrap();
    assert_eq!(guess.word, ['c', 'r', 'a', 't', 'e']);
    assert!(Guess::from_string(" CrAtE \n".to_string()).is_err());
}
