use fretta::fretboard::{calculate_note, parse_tuning, standard_tuning};
use fretta::note::Note;

#[test]
fn test_calculate_note() {
    struct Test {
        base_note: Note,
        fret: usize,
        expected: Note,
    }

    let tests = [
        Test {
            base_note: Note::A,
            fret: 2,
            expected: Note::B,
        },
        Test {
            base_note: Note::GSharp,
            fret: 4,
            expected: Note::C,
        },
    ];

    for test in &tests {
        assert_eq!(test.expected, calculate_note(test.base_note, test.fret));
    }
}

#[test]
fn test_parse_tuning() {
    struct Test {
        input: String,
        expected: Vec<Note>,
    }

    let tests = [
        Test {
            input: String::from("E, A, D, G, B, E"),
            expected: vec![Note::E, Note::A, Note::D, Note::G, Note::B, Note::E],
        },
        Test {
            input: String::from("D#, A, D#, Gb, B"),
            expected: vec![Note::DSharp, Note::A, Note::DSharp, Note::FSharp, Note::B],
        },
        Test {
            input: String::from("B, A, D"),
            expected: vec![Note::B, Note::A, Note::D],
        },
    ];

    for test in &tests {
        assert_eq!(test.expected, parse_tuning(&test.input).unwrap());
    }
}

#[test]
fn open_string_and_small_frets() {
    assert_eq!(calculate_note(Note::A, 0), Note::A);
    assert_eq!(calculate_note(Note::A, 2), Note::B);
    assert_eq!(calculate_note(Note::GSharp, 4), Note::C);
    assert_eq!(calculate_note(Note::E, 5), Note::A);
    assert_eq!(calculate_note(Note::E, 11), Note::DSharp);
}

#[test]
fn frets_repeat_every_octave() {
    for base in [Note::A, Note::C, Note::FSharp, Note::GSharp].iter() {
        assert_eq!(calculate_note(*base, 12), calculate_note(*base, 0));
        for n in 0..30usize {
            assert_eq!(calculate_note(*base, n), calculate_note(*base, n + 12));
        }
    }
    assert_eq!(calculate_note(Note::E, 24), Note::E);
    assert_eq!(calculate_note(Note::E, usize::MAX), calculate_note(Note::E, usize::MAX % 12));
}

#[test]
fn tuning_ignores_all_whitespace() {
    let input = String::from("\tE ,A\u{a0},\u{3000}D#\n");
    assert_eq!(parse_tuning(&input).unwrap(), vec![Note::E, Note::A, Note::DSharp]);
    let input = String::from("C #");
    assert_eq!(parse_tuning(&input).unwrap(), vec![Note::CSharp]);
}

#[test]
fn tuning_reports_first_bad_name() {
    let e = parse_tuning(&String::from("E, H, x, A")).unwrap_err();
    assert_eq!(e.text, "H");
    let e = parse_tuning(&String::from("E,,A")).unwrap_err();
    assert_eq!(e.text, "");
    let e = parse_tuning(&String::from("")).unwrap_err();
    assert_eq!(e.text, "");
    let e = parse_tuning(&String::from("E, A,")).unwrap_err();
    assert_eq!(e.text, "");
    let e = parse_tuning(&String::from("E, a")).unwrap_err();
    assert_eq!(e.text, "a");
}

#[test]
fn standard_tuning_is_eadgbe() {
    assert_eq!(
        standard_tuning(),
        vec![Note::E, Note::A, Note::D, Note::G, Note::B, Note::E]
    );
}
