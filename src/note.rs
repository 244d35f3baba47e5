use vstd::prelude::*;

verus! {

/// One of the twelve equal-tempered pitch classes, in the order of the
/// chromatic cycle starting from A.
#[derive(Debug, Clone, Copy, PartialEq, Eq, Structural)]
pub enum Note {
    A,
    ASharp,
    B,
    C,
    CSharp,
    D,
    DSharp,
    E,
    F,
    FSharp,
    G,
    GSharp,
}

/// Text that names no note; it keeps the text for the message.
#[derive(Debug, PartialEq, Eq)]
pub struct ParseError {
    pub text: String,
}

/// The message shown for refused text.
pub open spec fn message_of(text: Seq<char>) -> Seq<char> {
    if text.len() == 0 {
        "note cannot be empty"@
    } else {
        "unrecognized note: "@ + text
    }
}

impl ParseError {
    /// A message for the user; empty text has a message of its own.
    pub fn message(&self) -> (r: String)
        ensures
            r@ == message_of(self.text@),
    {
        if self.text.as_str().unicode_len() == 0 {
            String::from_str("note cannot be empty")
        } else {
            let mut m = String::from_str("unrecognized note: ");
            m.append(self.text.as_str());
            m
        }
    }
}

impl Note {
    /// Position of the note in the cycle, counted in semitones above A.
    pub open spec fn pos(self) -> int {
        match self {
            Note::A => 0,
            Note::ASharp => 1,
            Note::B => 2,
            Note::C => 3,
            Note::CSharp => 4,
            Note::D => 5,
            Note::DSharp => 6,
            Note::E => 7,
            Note::F => 8,
            Note::FSharp => 9,
            Note::G => 10,
            Note::GSharp => 11,
        }
    }

    /// The note at position `i` of the cycle, for `i` in `0..12`.
    #[verifier::opaque]
    pub open spec fn at_pos(i: int) -> Note {
        if i == 0 {
            Note::A
        } else if i == 1 {
            Note::ASharp
        } else if i == 2 {
            Note::B
        } else if i == 3 {
            Note::C
        } else if i == 4 {
            Note::CSharp
        } else if i == 5 {
            Note::D
        } else if i == 6 {
            Note::DSharp
        } else if i == 7 {
            Note::E
        } else if i == 8 {
            Note::F
        } else if i == 9 {
            Note::FSharp
        } else if i == 10 {
            Note::G
        } else {
            Note::GSharp
        }
    }

    /// The note `k` semitones above this one.
    pub open spec fn up(self, k: int) -> Note {
        Note::at_pos((self.pos() + k) % 12)
    }

    /// The note one semitone above this one; G# wraps round to A.
    pub open spec fn succ(self) -> Note {
        match self {
            Note::A => Note::ASharp,
            Note::ASharp => Note::B,
            Note::B => Note::C,
            Note::C => Note::CSharp,
            Note::CSharp => Note::D,
            Note::D => Note::DSharp,
            Note::DSharp => Note::E,
            Note::E => Note::F,
            Note::F => Note::FSharp,
            Note::FSharp => Note::G,
            Note::G => Note::GSharp,
            Note::GSharp => Note::A,
        }
    }

    /// The note reached by applying the successor `k` times.
    pub open spec fn iterate(self, k: nat) -> Note
        decreases k,
    {
        if k == 0 {
            self
        } else {
            self.iterate((k - 1) as nat).succ()
        }
    }

    /// The sharp-spelled canonical name.
    pub open spec fn name(self) -> Seq<char> {
        match self {
            Note::A => seq!['A'],
            Note::ASharp => seq!['A', '#'],
            Note::B => seq!['B'],
            Note::C => seq!['C'],
            Note::CSharp => seq!['C', '#'],
            Note::D => seq!['D'],
            Note::DSharp => seq!['D', '#'],
            Note::E => seq!['E'],
            Note::F => seq!['F'],
            Note::FSharp => seq!['F', '#'],
            Note::G => seq!['G'],
            Note::GSharp => seq!['G', '#'],
        }
    }

    /// Reads a note from its exact spelling: a letter `A` to `G`, optionally
    /// followed by `#`, or by `b` where the flat names a black key. Case and
    /// whitespace count: `"a"` and `" A"` are no notes.
    pub open spec fn parse(s: Seq<char>) -> Option<Note> {
        if s.len() == 1 {
            match s[0] {
                'A' => Some(Note::A),
                'B' => Some(Note::B),
                'C' => Some(Note::C),
                'D' => Some(Note::D),
                'E' => Some(Note::E),
                'F' => Some(Note::F),
                'G' => Some(Note::G),
                _ => None,
            }
        } else if s.len() == 2 && s[1] == '#' {
            match s[0] {
                'A' => Some(Note::ASharp),
                'C' => Some(Note::CSharp),
                'D' => Some(Note::DSharp),
                'F' => Some(Note::FSharp),
                'G' => Some(Note::GSharp),
                _ => None,
            }
        } else if s.len() == 2 && s[1] == 'b' {
            match s[0] {
                'B' => Some(Note::ASharp),
                'D' => Some(Note::CSharp),
                'E' => Some(Note::DSharp),
                'G' => Some(Note::FSharp),
                'A' => Some(Note::GSharp),
                _ => None,
            }
        } else {
            None
        }
    }

    /// Parses a note from its exact spelling (see [`Note::parse`]); any other
    /// text, the empty text included, is refused with that text.
    pub fn try_from_string(s: &String) -> (r: Result<Note, ParseError>)
        ensures
            match r {
                Ok(n) => Note::parse(s@) == Some(n),
                Err(e) => Note::parse(s@) is None && e.text@ == s@,
            },
    {
        let t = s.as_str();
        let n = t.unicode_len();
        let found: Option<Note> = if n == 1 {
            match t.get_char(0) {
                'A' => Some(Note::A),
                'B' => Some(Note::B),
                'C' => Some(Note::C),
                'D' => Some(Note::D),
                'E' => Some(Note::E),
                'F' => Some(Note::F),
                'G' => Some(Note::G),
                _ => None,
            }
        } else if n == 2 && t.get_char(1) == '#' {
            match t.get_char(0) {
                'A' => Some(Note::ASharp),
                'C' => Some(Note::CSharp),
                'D' => Some(Note::DSharp),
                'F' => Some(Note::FSharp),
                'G' => Some(Note::GSharp),
                _ => None,
            }
        } else if n == 2 && t.get_char(1) == 'b' {
            match t.get_char(0) {
                'B' => Some(Note::ASharp),
                'D' => Some(Note::CSharp),
                'E' => Some(Note::DSharp),
                'G' => Some(Note::FSharp),
                'A' => Some(Note::GSharp),
                _ => None,
            }
        } else {
            None
        };
        match found {
            Some(note) => Ok(note),
            None => Err(ParseError { text: s.clone() }),
        }
    }

    /// The canonical name as a string slice.
    pub fn as_str(&self) -> (r: &'static str)
        ensures
            r@ == self.name(),
    {
        proof {
            reveal_strlit("A");
            reveal_strlit("A#");
            reveal_strlit("B");
            reveal_strlit("C");
            reveal_strlit("C#");
            reveal_strlit("D");
            reveal_strlit("D#");
            reveal_strlit("E");
            reveal_strlit("F");
            reveal_strlit("F#");
            reveal_strlit("G");
            reveal_strlit("G#");
        }
        match *self {
            Note::A => "A",
            Note::ASharp => "A#",
            Note::B => "B",
            Note::C => "C",
            Note::CSharp => "C#",
            Note::D => "D",
            Note::DSharp => "D#",
            Note::E => "E",
            Note::F => "F",
            Note::FSharp => "F#",
            Note::G => "G",
            Note::GSharp => "G#",
        }
    }

    /// The canonical, sharp-spelled name, e.g. `"C#"` for C sharp.
    pub fn to_string(&self) -> (r: String)
        ensures
            r@ == self.name(),
    {
        String::from_str(self.as_str())
    }

    /// Returns the note one semitone above this one, wrapping G# to A.
    pub fn next(&self) -> (r: Note)
        ensures
            r == self.succ(),
            r.pos() == (self.pos() + 1) % 12,
    {
        match *self {
            Note::A => Note::ASharp,
            Note::ASharp => Note::B,
            Note::B => Note::C,
            Note::C => Note::CSharp,
            Note::CSharp => Note::D,
            Note::D => Note::DSharp,
            Note::DSharp => Note::E,
            Note::E => Note::F,
            Note::F => Note::FSharp,
            Note::FSharp => Note::G,
            Note::G => Note::GSharp,
            Note::GSharp => Note::A,
        }
    }
}

/// Positions and notes correspond one to one.
pub proof fn lemma_pos_at_pos(p: Note, i: int)
    requires
        0 <= i < 12,
    ensures
        Note::at_pos(p.pos()) == p,
        Note::at_pos(i).pos() == i,
        0 <= p.pos() < 12,
{
    reveal(Note::at_pos);
}

/// The successor of the note at position `i` is the note at the next position.
proof fn lemma_succ_at_pos(i: int)
    requires
        0 <= i < 12,
    ensures
        Note::at_pos(i).succ() == Note::at_pos((i + 1) % 12),
{
    reveal(Note::at_pos);
}

/// Applying the successor `k` times moves `k` semitones up the cycle.
pub proof fn lemma_iterate_up(p: Note, k: nat)
    ensures
        p.iterate(k) == p.up(k as int),
    decreases k,
{
    lemma_pos_at_pos(p, 0);
    if k > 0 {
        lemma_iterate_up(p, (k - 1) as nat);
        let i = (p.pos() + k - 1) % 12;
        lemma_succ_at_pos(i);
        assert((i + 1) % 12 == (p.pos() + k) % 12);
    }
}

/// The successor closes a single cycle of length twelve: twelve steps from
/// any note return to it, and no smaller positive number of steps does.
pub proof fn lemma_cycle_closure(p: Note)
    ensures
        p.iterate(12) == p,
        forall|k: nat| 0 < k < 12 ==> #[trigger] p.iterate(k) != p,
{
    lemma_pos_at_pos(p, 0);
    lemma_iterate_up(p, 12);
    assert forall|k: nat| 0 < k < 12 implies #[trigger] p.iterate(k) != p by {
        lemma_iterate_up(p, k);
        lemma_pos_at_pos(p, (p.pos() + k) % 12);
    }
}

/// Parsing the canonical name of any note gives that note back.
pub proof fn lemma_parse_name(p: Note)
    ensures
        Note::parse(p.name()) == Some(p),
{
}

} // verus!
