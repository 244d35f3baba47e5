use vstd::prelude::*;
use crate::note::{lemma_iterate_up, lemma_pos_at_pos, Note, ParseError};
use crate::text::{is_white_space, is_whitespace};

verus! {

/// The note sounded at `fret` above an open string tuned to `base_note`:
/// the note `fret` semitones up, fret 0 being the open string.
pub fn calculate_note(base_note: Note, fret: usize) -> (r: Note)
    ensures
        r == base_note.up(fret as int),
        r == base_note.iterate((fret % 12) as nat),
{
    let mut list: Vec<Note> = Vec::with_capacity(12);
    list.push(base_note);
    let mut i: usize = 0;
    while i < 11
        invariant
            0 <= i <= 11,
            list@.len() == i + 1,
            forall|j: nat| j <= i ==> list@[j as int] == #[trigger] base_note.iterate(j),
        decreases 11 - i,
    {
        let prev_note = list[i];
        assert(prev_note == base_note.iterate(i as nat));
        list.push(prev_note.next());
        assert(list@[i + 1] == base_note.iterate((i + 1) as nat));
        i = i + 1;
    }
    let k: usize = fret % 12;
    proof {
        assert(list@[k as int] == base_note.iterate(k as nat));
        lemma_iterate_up(base_note, k as nat);
        lemma_pos_at_pos(base_note, 0);
        assert((base_note.pos() + k) % 12 == (base_note.pos() + fret) % 12);
    }
    list[k]
}

/// The note at a fret depends on the fret only modulo twelve: a fret and
/// the fret twelve above it sound the same pitch class.
pub proof fn lemma_fret_period(p: Note, n: nat)
    ensures
        p.up(n + 12int) == p.up(n as int),
        p.up(12) == p.up(0),
{
    assert((p.pos() + n + 12) % 12 == (p.pos() + n) % 12);
    assert((p.pos() + 12) % 12 == (p.pos() + 0) % 12);
}

/// Standard guitar tuning, lowest string first: E A D G B E.
pub fn standard_tuning() -> (r: Vec<Note>)
    ensures
        r@ == seq![Note::E, Note::A, Note::D, Note::G, Note::B, Note::E],
{
    let r = vec![Note::E, Note::A, Note::D, Note::G, Note::B, Note::E];
    proof {
        assert(r@ =~= seq![Note::E, Note::A, Note::D, Note::G, Note::B, Note::E]);
    }
    r
}

/// The note names of a tuning: the text split at each comma, with every
/// whitespace character taken out of each piece.
pub open spec fn tuning_tokens(s: Seq<char>) -> Seq<Seq<char>>
    decreases s.len(),
{
    if s.len() == 0 {
        seq![Seq::empty()]
    } else {
        let ts = tuning_tokens(s.drop_last());
        let c = s.last();
        if c == ',' {
            ts.push(Seq::empty())
        } else if is_white_space(c) {
            ts
        } else {
            ts.update(ts.len() - 1, ts.last().push(c))
        }
    }
}

/// A tuning always has at least one (possibly empty) name.
pub proof fn lemma_tuning_tokens_len(s: Seq<char>)
    ensures
        tuning_tokens(s).len() >= 1,
    decreases s.len(),
{
    if s.len() > 0 {
        lemma_tuning_tokens_len(s.drop_last());
    }
}

/// Name `k` is the first of `ts` that names no note.
pub open spec fn first_unparsed(ts: Seq<Seq<char>>, k: int) -> bool {
    &&& 0 <= k < ts.len()
    &&& Note::parse(ts[k]) is None
    &&& forall|j: int| 0 <= j < k ==> Note::parse(#[trigger] ts[j]) is Some
}

/// Reads a comma-separated list of notes, such as `"E, A, D, G, B, E"`,
/// ignoring whitespace. Succeeds with one note per name when every name
/// parses; otherwise fails with the first name that does not.
pub fn parse_tuning(input: &String) -> (r: Result<Vec<Note>, ParseError>)
    ensures
        ({
            let ts = tuning_tokens(input@);
            match r {
                Ok(v) => v@.len() == ts.len() && forall|j: int|
                    0 <= j < ts.len() ==> Note::parse(#[trigger] ts[j]) == Some(v@[j]),
                Err(e) => exists|k: int| #[trigger] first_unparsed(ts, k) && e.text@ == ts[k],
            }
        }),
{
    let t = input.as_str();
    let n = t.unicode_len();
    let mut names: Vec<String> = Vec::new();
    let mut cur = String::new();
    let mut i: usize = 0;
    proof {
        assert(t@.subrange(0, 0) =~= Seq::<char>::empty());
    }
    while i < n
        invariant
            t@ == input@,
            n == t@.len(),
            i <= n,
            names@.len() + 1 == tuning_tokens(t@.subrange(0, i as int)).len(),
            forall|j: int|
                0 <= j < names@.len() ==> (#[trigger] names@[j])@ == tuning_tokens(
                    t@.subrange(0, i as int),
                )[j],
            cur@ == tuning_tokens(t@.subrange(0, i as int)).last(),
        decreases n - i,
    {
        let ghost before = t@.subrange(0, i as int);
        let ghost after = t@.subrange(0, i + 1);
        proof {
            assert(after.drop_last() =~= before);
            lemma_tuning_tokens_len(before);
        }
        let c = t.get_char(i);
        if c == ',' {
            names.push(cur);
            cur = String::new();
        } else if !is_whitespace(c) {
            cur.append(t.substring_char(i, i + 1));
            proof {
                assert(t@.subrange(i as int, i + 1) =~= seq![c]);
            }
        }
        i = i + 1;
        proof {
            assert(names@.len() + 1 == tuning_tokens(after).len());
        }
    }
    names.push(cur);
    let ghost ts = tuning_tokens(input@);
    proof {
        assert(t@.subrange(0, n as int) =~= input@);
        assert(names@.len() == ts.len());
    }
    let mut notes: Vec<Note> = Vec::new();
    let mut k: usize = 0;
    while k < names.len()
        invariant
            ts == tuning_tokens(input@),
            names@.len() == ts.len(),
            forall|j: int| 0 <= j < names@.len() ==> (#[trigger] names@[j])@ == ts[j],
            k <= names@.len(),
            notes@.len() == k,
            forall|j: int| 0 <= j < k ==> Note::parse(#[trigger] ts[j]) == Some(notes@[j]),
        decreases names@.len() - k,
    {
        match Note::try_from_string(&names[k]) {
            Ok(note) => notes.push(note),
            Err(e) => {
                proof {
                    let kk = k as int;
                    assert(names@[kk]@ == ts[kk]);
                    assert(Note::parse(ts[kk]) is None && e.text@ == ts[kk]);
                    assert(forall|j: int| 0 <= j < kk ==> Note::parse(#[trigger] ts[j]) is Some);
                    assert(first_unparsed(ts, kk));
                }
                return Err(e);
            },
        }
        k = k + 1;
    }
    Ok(notes)
}

} // verus!
