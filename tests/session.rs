use fretta::note::Note;
use fretta::session::{pick_question, respond, Reply, HIGHEST_FRET};
use fretta::text::trim;

fn reply(line: &str, answer: Note) -> Reply {
    respond(&String::from(line), answer)
}

#[test]
fn blank_lines_ask_again() {
    assert_eq!(reply("", Note::A), Reply::Reprompt);
    assert_eq!(reply(" \t\n", Note::A), Reply::Reprompt);
}

#[test]
fn q_in_either_case_quits() {
    assert_eq!(reply("q\n", Note::A), Reply::Quit);
    assert_eq!(reply(" Q ", Note::A), Reply::Quit);
    assert!(matches!(reply("qq", Note::A), Reply::Invalid(_)));
}

#[test]
fn guesses_are_judged() {
    assert_eq!(reply("B\n", Note::B), Reply::Correct);
    assert_eq!(reply("Bb\n", Note::ASharp), Reply::Correct);
    assert_eq!(reply("C", Note::B), Reply::Incorrect(Note::B));
    match reply("  H# \n", Note::B) {
        Reply::Invalid(e) => assert_eq!(e.text, "H#"),
        other => panic!("unexpected reply {:?}", other),
    }
}

#[test]
fn trim_strips_both_ends_only() {
    assert_eq!(trim(&String::from("  A# \n")), "A#");
    assert_eq!(trim(&String::from("\u{3000}G b\u{a0}")), "G b");
    assert_eq!(trim(&String::from("   ")), "");
    assert_eq!(trim(&String::from("")), "");
}

#[test]
fn questions_stay_in_range() {
    let mut rng = rand::thread_rng();
    let mut seen_high = false;
    for _ in 0..2000 {
        let (string, fret) = pick_question(&mut rng, 6);
        assert!(string < 6);
        assert!(fret >= 1 && fret <= HIGHEST_FRET);
        seen_high = seen_high || fret == HIGHEST_FRET;
    }
    assert!(seen_high);
    assert_eq!(pick_question(&mut rng, 1).0, 0);
}
