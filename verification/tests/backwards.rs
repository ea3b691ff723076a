use battleship::backwards::{backwards1, backwards2, backwards3, backwards4};

fn cases() -> Vec<(&'static str, &'static str)> {
    vec![
        ("", ""),
        ("a", "a"),
        ("ab", "ba"),
        ("abc", "cba"),
        ("hello world", "dlrow olleh"),
        ("racecar", "racecar"),
        ("  padded ", " deddap  "),
        ("grüße", "eßürg"),
        ("日本語", "語本日"),
    ]
}

#[test]
fn backwards1_reverses() {
    for (forwards, expected) in cases() {
        assert_eq!(backwards1(forwards), expected);
    }
}

#[test]
fn backwards2_reverses() {
    for (forwards, expected) in cases() {
        assert_eq!(backwards2(forwards), expected);
    }
}

#[test]
fn backwards3_reverses() {
    for (forwards, expected) in cases() {
        assert_eq!(backwards3(forwards), expected);
    }
}

#[test]
fn backwards4_reverses() {
    for (forwards, expected) in cases() {
        assert_eq!(backwards4(forwards), expected);
    }
}

#[test]
fn reversing_twice_gives_the_text_back() {
    for (forwards, _) in cases() {
        assert_eq!(backwards1(&backwards2(forwards)), forwards);
        assert_eq!(backwards3(&backwards4(forwards)), forwards);
    }
}
