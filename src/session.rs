use vstd::prelude::*;
use crate::note::{Note, ParseError};
use crate::text::{trim, trimmed};
use rand::distributions::{IndependentSample, Range};
use rand::ThreadRng;

verus! {

/// What the trainer does with a line the user typed in answer to a prompt.
#[derive(Debug, PartialEq, Eq)]
pub enum Reply {
    /// Nothing but whitespace was typed: ask the same question again.
    Reprompt,
    /// The user asked to stop.
    Quit,
    /// The guess names the expected note.
    Correct,
    /// The guess names another note; the expected one is given.
    Incorrect(Note),
    /// The guess names no note.
    Invalid(ParseError),
}

/// The highest fret asked about; questions start at the first fret.
pub const HIGHEST_FRET: usize = 22;

#[verifier::external_type_specification]
#[verifier::external_body]
pub struct ExThreadRng(ThreadRng);

/// Relies on rand's `Range::new(low, high)`, sampled by `ind_sample`: a
/// value in `low..high`; `Range::new` panics unless `low < high`.
#[verifier::external_body]
fn draw(rng: &mut ThreadRng, low: usize, high: usize) -> (r: usize)
    requires
        low < high,
    ensures
        low <= r < high,
{
    Range::new(low, high).ind_sample(rng)
}

/// Picks the next question at random: a string of the instrument and a
/// fret from the first to [`HIGHEST_FRET`].
pub fn pick_question(rng: &mut ThreadRng, num_strings: usize) -> (r: (usize, usize))
    requires
        num_strings > 0,
    ensures
        r.0 < num_strings,
        1 <= r.1 <= HIGHEST_FRET,
{
    let string = draw(rng, 0, num_strings);
    let fret = draw(rng, 1, HIGHEST_FRET + 1);
    (string, fret)
}

/// A `q` in either case asks to stop.
pub open spec fn is_quit(t: Seq<char>) -> bool {
    t == seq!['q'] || t == seq!['Q']
}

/// Judges one line of input against the expected note. The line is read
/// without its surrounding whitespace.
pub fn respond(line: &String, answer: Note) -> (r: Reply)
    ensures
        ({
            let t = trimmed(line@);
            if t.len() == 0 {
                r is Reprompt
            } else if is_quit(t) {
                r is Quit
            } else {
                match Note::parse(t) {
                    Some(g) => if g == answer {
                        r is Correct
                    } else {
                        r == Reply::Incorrect(answer)
                    },
                    None => r is Invalid && r->Invalid_0.text@ == t,
                }
            }
        }),
{
    let t = trim(line);
    let n = t.as_str().unicode_len();
    if n == 0 {
        return Reply::Reprompt;
    }
    if n == 1 {
        let c = t.as_str().get_char(0);
        if c == 'q' || c == 'Q' {
            proof {
                assert(t@ =~= seq![c]);
            }
            return Reply::Quit;
        }
    }
    match Note::try_from_string(&t) {
        Ok(g) => if g == answer {
            Reply::Correct
        } else {
            Reply::Incorrect(answer)
        },
        Err(e) => Reply::Invalid(e),
    }
}

} // verus!
