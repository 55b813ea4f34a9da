use wordle::{BadInput, Feedback, Guess, MatchOption, Matcher};

fn guess_with(word: &str, feedback: &str) -> Guess {
    let mut guess = Guess::from_string(word.to_string()).unwrap();
    guess.update_with_feedback(feedback.to_string()).unwrap();
    guess
}

fn words(list: &[&str]) -> Vec<String> {
    list.iter().map(|w| w.to_string()).collect()
}

fn kept(matcher: &Matcher, list: &[String]) -> Vec<String> {
    matcher.filter(list.iter().collect()).into_iter().cloned().collect()
}

#[test]
fn test_from_str() {
    let guess = Guess::from_string("hello".to_string()).unwrap();
    assert_eq!(guess.word, ['h', 'e', 'l', 'l', 'o']);

    match Guess::from_string("too_long".to_string()) {
        Ok(_) => assert!(false, "from_string should have raised an error"),
        Err(_) => assert!(true),
    }
}

#[test]
fn test_is_match() {
    let mut matcher = Matcher::new();
    let mut guess = Guess::from_string("HELLO".to_string()).unwrap();
    guess.feedback = Some(
        Feedback::from_vec(vec![
            MatchOption::WrongLetter,
            MatchOption::Correct,
            MatchOption::Correct,
            MatchOption::Correct,
            MatchOption::Correct,
        ])
        .unwrap(),
    );

    matcher.update(guess);
    assert!(matcher.is_match("JELLO"));
    assert!(!matcher.is_match("HELLO"))
}

#[test]
fn guess_of_any_other_length_is_rejected() {
    for s in ["", "a", "abcd", "abcdef", "too_long", "hello world"] {
        assert!(Guess::from_string(s.to_string()).is_err(), "{:?}", s);
    }
}

#[test]
fn guess_of_five_letters_keeps_them_as_given() {
    let guess = Guess::from_string("crate".to_string()).unwrap();
    assert_eq!(guess.word, ['c', 'r', 'a', 't', 'e']);
    assert!(guess.feedback.is_none());

    let guess = Guess::from_string("CrAtE".to_string()).unwrap();
    assert_eq!(guess.word, ['C', 'r', 'A', 't', 'E']);
}

#[test]
fn guess_takes_five_characters_that_are_no_letters() {
    let guess = Guess::from_string("12 4!".to_string()).unwrap();
    assert_eq!(guess.word, ['1', '2', ' ', '4', '!']);
}

#[test]
fn guess_counts_characters_not_bytes() {
    let guess = Guess::from_string("héllo".to_string()).unwrap();
    assert_eq!(guess.word, ['h', 'é', 'l', 'l', 'o']);
    assert!(Guess::from_string("héll".to_string()).is_err());
}

#[test]
fn feedback_from_vec_takes_exactly_five_marks() {
    let five = vec![
        MatchOption::Correct,
        MatchOption::WrongPlace,
        MatchOption::WrongLetter,
        MatchOption::WrongPlace,
        MatchOption::Correct,
    ];
    let feedback = Feedback::from_vec(five.clone()).unwrap();
    assert_eq!(feedback.pattern.to_vec(), five);

    assert!(Feedback::from_vec(vec![]).is_err());
    assert!(Feedback::from_vec(vec![MatchOption::Correct; 4]).is_err());
    assert!(Feedback::from_vec(vec![MatchOption::Correct; 6]).is_err());
}

#[test]
fn symbols_stand_for_marks() {
    assert_eq!(MatchOption::from_symbol('*'), Some(MatchOption::Correct));
    assert_eq!(MatchOption::from_symbol('~'), Some(MatchOption::WrongPlace));
    assert_eq!(MatchOption::from_symbol('x'), Some(MatchOption::WrongLetter));
    for other in ['X', 'o', ' ', '-', '+', '✓'] {
        assert_eq!(MatchOption::from_symbol(other), None, "{:?}", other);
    }
}

#[test]
fn feedback_line_is_read_symbol_by_symbol() {
    let feedback = Feedback::from_string("*~x~*".to_string()).unwrap();
    assert_eq!(
        feedback.pattern,
        [
            MatchOption::Correct,
            MatchOption::WrongPlace,
            MatchOption::WrongLetter,
            MatchOption::WrongPlace,
            MatchOption::Correct,
        ]
    );
}

#[test]
fn feedback_line_of_other_length_or_symbols_is_rejected() {
    for s in ["", "*", "****", "******", "x~*x~x"] {
        assert!(Feedback::from_string(s.to_string()).is_err(), "{:?}", s);
    }
    for s in ["****X", "a****", "**-**", "x x x", "hello", "*~x~✓"] {
        assert!(Feedback::from_string(s.to_string()).is_err(), "{:?}", s);
    }
}

#[test]
fn feedback_is_attached_to_the_guess() {
    let mut guess = Guess::from_string("crate".to_string()).unwrap();
    assert!(guess.feedback.is_none());
    assert!(guess.update_with_feedback("~xxx*".to_string()).is_ok());
    assert_eq!(guess.word, ['c', 'r', 'a', 't', 'e']);
    assert_eq!(
        guess.feedback.unwrap().pattern,
        [
            MatchOption::WrongPlace,
            MatchOption::WrongLetter,
            MatchOption::WrongLetter,
            MatchOption::WrongLetter,
            MatchOption::Correct,
        ]
    );
}

#[test]
fn rejected_feedback_leaves_the_guess_as_it_was() {
    let mut guess = Guess::from_string("crate".to_string()).unwrap();
    assert!(guess.update_with_feedback("~xxx".to_string()).is_err());
    assert_eq!(guess.word, ['c', 'r', 'a', 't', 'e']);
    assert!(guess.feedback.is_none());

    guess.update_with_feedback("*****".to_string()).unwrap();
    assert!(guess.update_with_feedback("~xxxy".to_string()).is_err());
    assert_eq!(guess.feedback.unwrap().pattern, [MatchOption::Correct; 5]);
}

#[test]
fn bad_input_has_its_message() {
    let error: BadInput = Guess::from_string("no".to_string()).err().unwrap();
    assert_eq!(error.message(), "guesses must be exactly 5 characters!");
}

#[test]
fn new_matcher_accepts_every_word() {
    let matcher = Matcher::new();
    for w in ["hello", "crate", "zzzzz", "ABCDE", "12345"] {
        assert!(matcher.is_match(w), "{:?}", w);
    }
}

#[test]
fn guess_without_feedback_teaches_nothing() {
    let mut matcher = Matcher::new();
    matcher.update(guess_with("crate", "xxxxx"));
    let list = words(&["hello", "crate", "build", "moody", "pizza"]);
    let before = kept(&matcher, &list);
    matcher.update(Guess::from_string("moody".to_string()).unwrap());
    assert_eq!(kept(&matcher, &list), before);
    assert_eq!(before, words(&["build", "moody"]));
}

#[test]
fn asking_twice_gives_the_same_answer() {
    let mut matcher = Matcher::new();
    matcher.update(guess_with("crate", "~x*xx"));
    for w in ["trace", "crate", "black", "clack", "scamp", "ocean"] {
        let first = matcher.is_match(w);
        let second = matcher.is_match(w);
        assert_eq!(first, second, "{:?}", w);
    }
    assert!(matcher.is_match("black"));
    assert!(matcher.is_match("blacc"));
    assert!(!matcher.is_match("clack"));
    assert!(!matcher.is_match("blank"));
}

#[test]
fn every_update_narrows_the_candidates() {
    let list = words(&[
        "hello", "jello", "cello", "trace", "crate", "train", "black", "clack", "scamp", "ocean",
        "cabal", "label", "rebel", "pupil", "until",
    ]);
    let mut matcher = Matcher::new();
    let mut before = kept(&matcher, &list);
    assert_eq!(before, list);
    for (word, feedback) in [("crate", "~x~xx"), ("black", "xxx~x"), ("sonic", "~xxx*"), ("music", "x~x~*")] {
        matcher.update(guess_with(word, feedback));
        let after = kept(&matcher, &list);
        assert!(after.iter().all(|w| before.contains(w)), "{:?} {:?}", word, after);
        before = after;
    }
}

#[test]
fn wrong_letter_is_forbidden_everywhere() {
    let mut matcher = Matcher::new();
    matcher.update(guess_with("hello", "x****"));
    assert!(matcher.is_match("jello"));
    assert!(matcher.is_match("cello"));
    assert!(!matcher.is_match("hello"));
    assert!(!matcher.is_match("jelly"));
    assert!(!matcher.is_match("jellh"));
}

#[test]
fn wrong_place_forbids_here_and_requires_elsewhere() {
    let mut matcher = Matcher::new();
    matcher.update(guess_with("crate", "~xxxx"));
    assert!(matcher.is_match("pinch"));
    assert!(!matcher.is_match("occur"));
    assert!(matcher.is_match("ionic"));
    assert!(!matcher.is_match("chick"));
    assert!(!matcher.is_match("pound"));
    assert!(!matcher.is_match("crate"));
    assert!(!matcher.is_match("train"));
    assert!(!matcher.is_match("trace"));
}

#[test]
fn misplaced_letters_among_correct_ones() {
    let mut matcher = Matcher::new();
    matcher.update(guess_with("crate", "~**~*"));
    assert!(matcher.is_match("trace"));
    assert!(!matcher.is_match("crate"));
    assert!(!matcher.is_match("train"));
    assert!(!matcher.is_match("trade"));
    assert!(!matcher.is_match("brace"));
}

#[test]
fn later_fixed_letter_replaces_the_earlier_one() {
    let mut matcher = Matcher::new();
    matcher.update(guess_with("wfaqz", "xx*xx"));
    assert!(matcher.is_match("slant"));
    assert!(!matcher.is_match("noble"));

    matcher.update(guess_with("jvbkg", "xx*xx"));
    assert!(matcher.is_match("noble"));
    assert!(matcher.is_match("cabin"));
    assert!(!matcher.is_match("slant"));
    assert!(matcher.is_match("rebus"));
}

#[test]
fn repeated_letter_with_mixed_marks_forbids_its_fixed_position() {
    let mut matcher = Matcher::new();
    matcher.update(guess_with("hello", "xx*xx"));
    assert!(!matcher.is_match("salad"));
    assert!(!matcher.is_match("balmy"));
    assert!(!matcher.is_match("tulip"));
}

#[test]
fn letters_are_compared_as_they_are() {
    let mut matcher = Matcher::new();
    matcher.update(guess_with("hello", "x****"));
    assert!(matcher.is_match("Hello"));
    assert!(!matcher.is_match("JELLO"));
    assert!(!matcher.is_match("jéllo"));
}

#[test]
fn required_letter_may_stand_anywhere_else() {
    let mut matcher = Matcher::new();
    matcher.update(guess_with("abcde", "~~~~~"));
    assert!(matcher.is_match("bcdea"));
    assert!(matcher.is_match("eabcd"));
    assert!(!matcher.is_match("abcde"));
    assert!(!matcher.is_match("bcdex"));
    assert!(!matcher.is_match("bbdea"));
    assert!(!matcher.is_match("ebcda"));
}

#[test]
fn knowledge_of_several_guesses_adds_up() {
    let mut matcher = Matcher::new();
    matcher.update(guess_with("crate", "x~xx~"));
    matcher.update(guess_with("lower", "xx~*~"));
    let list = words(&["embed", "weber", "wired", "rewed", "hewer", "wider", "wried", "under"]);
    assert_eq!(kept(&matcher, &list), words(&["wired"]));
}

#[test]
fn filtering_keeps_the_order_of_the_list() {
    let list = words(&["jello", "hello", "cello", "bello", "jelly", "fello", "hullo", "cello"]);
    let mut matcher = Matcher::new();
    assert_eq!(kept(&matcher, &list), list);

    matcher.update(guess_with("hello", "x****"));
    assert_eq!(kept(&matcher, &list), words(&["jello", "cello", "bello", "fello", "cello"]));

    matcher.update(guess_with("fuzzy", "xxxxx"));
    assert_eq!(kept(&matcher, &list), words(&["jello", "cello", "bello", "cello"]));

    assert_eq!(kept(&matcher, &[]), Vec::<String>::new());
}

#[test]
fn filtering_hands_back_the_very_words_of_the_list() {
    let list = words(&["trace", "crate", "train"]);
    let mut matcher = Matcher::new();
    matcher.update(guess_with("crate", "~**~*"));
    let remaining = matcher.filter(list.iter().collect());
    assert_eq!(remaining.len(), 1);
    assert!(std::ptr::eq(remaining[0], &list[0]));
}
