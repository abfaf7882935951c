use vstd::prelude::*;
use vstd::string::StringExecFns;
use crate::scoutwrap::ScoutwrapWalkInodesEntry;
use crate::decimal::{
    decimal_chars, decimal_vec, is_digit, lemma_decimal_chars, lemma_parse_decimal, parse_i64,
    parse_i64_spec,
};
use crate::text::{
    char_vec, free_of, lemma_split_free, lemma_split_nonempty, lemma_split_then_piece,
    lemma_trim_unchanged, split_chars, split_seq, string_from_chars, trim, trim_chars,
};

verus! {

/// The three integers kept in the state file, as read back: major, inode, minor.
#[derive(Debug, Clone, Copy, PartialEq, Eq, Structural)]
pub struct SavedState {
    pub major: i64,
    pub ino: i64,
    pub minor: i64,
}

/// Why a state file could not be read.
#[derive(Debug, Clone, Copy, PartialEq, Eq, Structural)]
pub enum StateFileError {
    /// A line that should hold an integer does not.
    InvalidInteger,
    /// The file has fewer than three lines.
    MissingLine,
}

/// The text written to the state file for a change-log point: the three
/// numbers in decimal, one per line, with no final newline.
pub open spec fn state_text(p: ScoutwrapWalkInodesEntry) -> Seq<char> {
    decimal_chars(p.major as nat) + seq!['\n'] + decimal_chars(p.ino as nat) + seq!['\n']
        + decimal_chars(p.minor as nat)
}

/// How a state file's text is read: split into lines at `\n`; the first three
/// lines, each trimmed of white space, are parsed as `i64` in order, and the first
/// failure decides the error.
pub open spec fn parse_state_spec(text: Seq<char>) -> Result<SavedState, StateFileError> {
    let lines = split_seq(text, '\n');
    match parse_i64_spec(trim(lines[0])) {
        None => Err(StateFileError::InvalidInteger),
        Some(major) => if lines.len() < 2 {
            Err(StateFileError::MissingLine)
        } else {
            match parse_i64_spec(trim(lines[1])) {
                None => Err(StateFileError::InvalidInteger),
                Some(ino) => if lines.len() < 3 {
                    Err(StateFileError::MissingLine)
                } else {
                    match parse_i64_spec(trim(lines[2])) {
                        None => Err(StateFileError::InvalidInteger),
                        Some(minor) => Ok(SavedState { major, ino, minor }),
                    }
                },
            }
        },
    }
}

/// The change-log point that a run starts from, given the saved state: each
/// integer converted as `as` does (two's complement, truncated to 32 bits for minor).
pub open spec fn start_point_of(s: SavedState) -> ScoutwrapWalkInodesEntry {
    ScoutwrapWalkInodesEntry { major: s.major as u64, ino: s.ino as u64, minor: s.minor as u32 }
}

/// The text to write to the state file for `p`.
pub fn format_state(p: &ScoutwrapWalkInodesEntry) -> (s: String)
    ensures
        s@ == state_text(*p),
{
    let mut v = decimal_vec(p.major);
    v.push('\n');
    let mut ino = decimal_vec(p.ino);
    v.append(&mut ino);
    v.push('\n');
    let mut minor = decimal_vec(p.minor as u64);
    v.append(&mut minor);
    string_from_chars(v.as_slice())
}

/// Reads the state file's text.
pub fn parse_state(text: &str) -> (r: Result<SavedState, StateFileError>)
    ensures
        r == parse_state_spec(text@),
{
    let chars = char_vec(text);
    let lines = split_chars(&chars, '\n');
    let ghost views = lines@.map_values(|p: Vec<char>| p@);
    proof {
        lemma_split_nonempty(text@, '\n');
    }
    assert(views[0] == lines@[0]@);
    let major = match parse_i64(&trim_chars(&lines[0])) {
        None => return Err(StateFileError::InvalidInteger),
        Some(v) => v,
    };
    if lines.len() < 2 {
        return Err(StateFileError::MissingLine);
    }
    assert(views[1] == lines@[1]@);
    let ino = match parse_i64(&trim_chars(&lines[1])) {
        None => return Err(StateFileError::InvalidInteger),
        Some(v) => v,
    };
    if lines.len() < 3 {
        return Err(StateFileError::MissingLine);
    }
    assert(views[2] == lines@[2]@);
    let minor = match parse_i64(&trim_chars(&lines[2])) {
        None => return Err(StateFileError::InvalidInteger),
        Some(v) => v,
    };
    Ok(SavedState { major, ino, minor })
}

/// The change-log point to start from for a saved state.
pub fn starting_point(s: &SavedState) -> (p: ScoutwrapWalkInodesEntry)
    ensures
        p == start_point_of(*s),
{
    ScoutwrapWalkInodesEntry { major: s.major as u64, ino: s.ino as u64, minor: s.minor as u32 }
}

/// The state file and the swap file that a new state is written to before it
/// replaces the state file: the path given and that path with `.swp` added, else
/// `.state` and `.state.swp`.
pub fn state_file_paths(path: Option<String>) -> (r: (String, String))
    ensures
        match path {
            Some(p) => r.0@ == p@ && r.1@ == p@ + ".swp"@,
            None => r.0@ == ".state"@ && r.1@ == ".state.swp"@,
        },
{
    match path {
        Some(p) => {
            let swap = p.clone().concat(".swp");
            (p, swap)
        },
        None => (String::from_str(".state"), String::from_str(".state.swp")),
    }
}

/// A numeral is free of newlines and is its own trim.
proof fn lemma_numeral_line(n: nat)
    ensures
        free_of(decimal_chars(n), '\n'),
        trim(decimal_chars(n)) == decimal_chars(n),
{
    lemma_decimal_chars(n);
    let s = decimal_chars(n);
    assert forall|i: int| 0 <= i < s.len() implies s[i] != '\n' by {
        assert(is_digit(s[i]));
    }
    assert(is_digit(s[0]));
    assert(is_digit(s[s.len() - 1]));
    lemma_trim_unchanged(s);
}

/// What is written to the state file reads back as the same change-log point,
/// for every point whose major and inode numbers fit in `i64`; a point whose
/// major or inode number does not fit cannot be read back.
pub proof fn lemma_state_round_trip(p: ScoutwrapWalkInodesEntry)
    ensures
        parse_state_spec(state_text(p)) == (if p.major <= i64::MAX && p.ino <= i64::MAX {
            Ok(SavedState { major: p.major as i64, ino: p.ino as i64, minor: p.minor as i64 })
        } else {
            Err(StateFileError::InvalidInteger)
        }),
        p.major <= i64::MAX && p.ino <= i64::MAX ==> start_point_of(
            parse_state_spec(state_text(p))->Ok_0,
        ) == p,
{
    let a = decimal_chars(p.major as nat);
    let b = decimal_chars(p.ino as nat);
    let c = decimal_chars(p.minor as nat);
    lemma_numeral_line(p.major as nat);
    lemma_numeral_line(p.ino as nat);
    lemma_numeral_line(p.minor as nat);
    lemma_split_free(a, '\n');
    lemma_split_then_piece(a, '\n', b);
    lemma_split_then_piece(a.push('\n') + b, '\n', c);
    assert(a.push('\n') + b =~= a + seq!['\n'] + b);
    assert((a.push('\n') + b).push('\n') + c =~= state_text(p));
    let lines = split_seq(state_text(p), '\n');
    assert(lines =~= seq![a, b, c]);
    lemma_parse_decimal(p.major as nat);
    lemma_parse_decimal(p.ino as nat);
    lemma_parse_decimal(p.minor as nat);
}

} // verus!
