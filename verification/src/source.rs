//! From source text to a program: lexing then parsing.
use vstd::prelude::*;
use crate::ast::{Program, SpecProgram};
use crate::lexer::{lemma_lex_from_ends_with_eof, lex, Cursor, LexError, Lexer};
use crate::parser::{program_from, wf_tokens, ParseError, Parser, SpecParseError};

verus! {

/// Why a source text is no program: a lexing or a parsing error.
#[derive(Debug, Clone)]
pub enum SourceError {
    Lex(LexError),
    Parse(ParseError),
}

/// The program that a source text writes, in the model.
pub open spec fn source_program(src: Seq<char>) -> Result<SpecProgram, SpecSourceError> {
    match lex(src) {
        Err(e) => Err(SpecSourceError::Lex(e)),
        Ok(ts) => match program_from(ts, 0) {
            Ok(p) => Ok(p),
            Err(e) => Err(SpecSourceError::Parse(e)),
        },
    }
}

pub enum SpecSourceError {
    Lex(LexError),
    Parse(SpecParseError),
}

impl View for SourceError {
    type V = SpecSourceError;

    open spec fn view(&self) -> SpecSourceError {
        match self {
            SourceError::Lex(e) => SpecSourceError::Lex(*e),
            SourceError::Parse(e) => SpecSourceError::Parse(e@),
        }
    }
}

/// Lexes and parses a whole source text.
pub fn parse_source(source: &str) -> (r: Result<Program, SourceError>)
    requires
        source@.len() < usize::MAX,
    ensures
        match r {
            Ok(prog) => source_program(source@) == Ok::<SpecProgram, SpecSourceError>(prog@),
            Err(e) => source_program(source@) == Err::<SpecProgram, SpecSourceError>(e@),
        },
{
    let mut lex = Lexer::new(source);
    let tokens = match lex.tokenize() {
        Ok(tokens) => tokens,
        Err(e) => return Err(SourceError::Lex(e)),
    };
    proof {
        lemma_lex_from_ends_with_eof(source@, Cursor { pos: 0, line: 1, col: 1 }, false);
    }
    let mut p = Parser::new(tokens);
    match p.parse() {
        Ok(prog) => Ok(prog),
        Err(e) => Err(SourceError::Parse(e)),
    }
}

/// What `Path::file_stem` gives for a path, as text: `None` where it finds
/// no stem.
pub uninterp spec fn path_file_stem(path: Seq<char>) -> Option<Seq<char>>;

/// A path that is a bare file name: no `/` (nor `\` or `:`, which other
/// systems read as separators).
pub open spec fn bare_name(path: Seq<char>) -> bool {
    !path.contains('/') && !path.contains('\\') && !path.contains(':')
}

/// The position of the last `.` in `s`, if there is one.
pub open spec fn last_dot(s: Seq<char>) -> Option<int>
    decreases s.len(),
{
    if s.len() == 0 {
        None
    } else if s.last() == '.' {
        Some(s.len() - 1)
    } else {
        last_dot(s.drop_last())
    }
}

/// The stem of a path that is a bare file name (no `/`): nothing for `.` and
/// `..`, which name no file; the whole name where it has no `.` or only a
/// leading one; otherwise what stands before the last `.`.
pub open spec fn name_stem(name: Seq<char>) -> Seq<char> {
    if name == seq!['.'] || name == seq!['.', '.'] {
        Seq::empty()
    } else {
        match last_dot(name) {
            None => name,
            Some(i) => if i == 0 { name } else { name.take(i) },
        }
    }
}

/// Calls `Path::file_stem` on `path` and converts the stem to text. The
/// result is named `path_file_stem(path)`. For a bare file name the
/// documentation of `file_stem` gives the stem, which is stated; for other
/// paths the file name is the last normal component, which is left unsaid.
#[verifier::external_body]
fn file_stem_text(path: &str) -> (r: Option<String>)
    ensures
        match r {
            Some(s) => path_file_stem(path@) == Some(s@),
            None => path_file_stem(path@) is None,
        },
        bare_name(path@) ==> (match r {
            Some(s) => name_stem(path@) == s@ && name_stem(path@).len() > 0,
            None => name_stem(path@).len() == 0,
        }),
{
    std::path::Path::new(path).file_stem().map(|s| s.to_string_lossy().into_owned())
}

/// The stem of a path as text: what `path_file_stem` finds, or empty
/// where it finds none.
pub open spec fn stem_text(path: Seq<char>) -> Seq<char> {
    match path_file_stem(path) {
        Some(s) => s,
        None => Seq::empty(),
    }
}

/// The file name of `path` without its extension; empty where there is none.
pub fn stem_of(path: &str) -> (r: String)
    ensures
        r@ == stem_text(path@),
        bare_name(path@) ==> r@ == name_stem(path@),
{
    match file_stem_text(path) {
        Some(s) => s,
        None => String::new(),
    }
}

} // verus!
