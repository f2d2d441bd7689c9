//! The scanner: turns a raw text buffer into tokens on demand, tracking a
//! 1-based line and column for diagnostics.
//!
//! The whole behaviour of one scanning step is written down as the spec
//! function [`spec_next_token`]; the contract of [`Lexer::get_next_token`]
//! says that the token it hands back, and the cursor it leaves behind, are
//! exactly what that spec function gives for the state the call started in.

use crate::token::SpecToken;
use crate::token::TokenKind;
use vstd::prelude::*;
use vstd::std_specs::iter::IteratorSpec;
use vstd::string::StrSliceExecFns;

verus! {

// ---------------------------------------------------------------------------
// Character classification, taken on trust from std
// ---------------------------------------------------------------------------
/// What `char::is_alphabetic` returns for a character with the Unicode
/// `Alphabetic` property, beyond the two the property plainly excludes.
pub uninterp spec fn unicode_alphabetic(c: char) -> bool;

/// What `char::is_alphanumeric` returns for a character.
pub uninterp spec fn alphanumeric(c: char) -> bool;

/// What `char::is_whitespace` returns for a character with the Unicode
/// `White_Space` property, beyond the one the property plainly excludes.
pub uninterp spec fn unicode_whitespace(c: char) -> bool;

/// What `char::is_alphabetic` returns for a character. A line break and
/// `#` do not have the Unicode `Alphabetic` property.
pub open spec fn alphabetic(c: char) -> bool {
    c != '\n' && c != '#' && unicode_alphabetic(c)
}

/// What `char::is_whitespace` returns for a character. `#` does not have
/// the Unicode `White_Space` property.
pub open spec fn whitespace(c: char) -> bool {
    c != '#' && unicode_whitespace(c)
}

/// Relies on `char::is_alphabetic`: decided by the character alone (the
/// Unicode `Alphabetic` property, which a line break and `#` do not
/// have — the documentation's definition plainly gives both).
pub assume_specification[ char::is_alphabetic ](c: char) -> (r: bool)
    ensures
        r == (c != '\n' && c != '#' && unicode_alphabetic(c)),
;

/// Relies on `char::is_alphanumeric`: decided by the character alone.
pub assume_specification[ char::is_alphanumeric ](c: char) -> (r: bool)
    ensures
        r == alphanumeric(c),
;

/// Relies on `char::is_whitespace`: decided by the character alone (the
/// Unicode `White_Space` property, which `#` does not have).
pub assume_specification[ char::is_whitespace ](c: char) -> (r: bool)
    ensures
        r == (c != '#' && unicode_whitespace(c)),
;

/// Relies on `String::push`: appends exactly the one character at the end.
#[verifier::external_body]
fn push_char(s: &mut String, c: char)
    ensures
        final(s)@ == old(s)@.push(c),
{
    s.push(c);
}

// ---------------------------------------------------------------------------
// Locations and scan errors
// ---------------------------------------------------------------------------
/// A place in the source text, for error reporting. Both counters are
/// 1-based; a line break moves to the next line and resets the column.
#[derive(Debug, Clone, Copy)]
pub struct Location {
    pub line: usize,
    pub column: usize,
}

impl Location {
    /// Packs a line and a column into a `Location`.
    fn new(line: usize, column: usize) -> (r: Self)
        ensures
            r.line == line,
            r.column == column,
    {
        Location { line, column }
    }
}

/// A failure of the scanner: either a character outside the accepted set,
/// or an identifier scan that produced no characters.
#[derive(Debug)]
pub enum LexerError {
    UnexpectedCharacter(char, Location),
    InvalidIdentifier(String, Location),
}

/// The mathematical image of a scan error: the offending character or text
/// with the 1-based line and column where it stood.
pub enum SpecLexError {
    UnexpectedCharacter(char, int, int),
    InvalidIdentifier(Seq<char>, int, int),
}

impl View for LexerError {
    type V = SpecLexError;

    open spec fn view(&self) -> SpecLexError {
        match self {
            LexerError::UnexpectedCharacter(c, loc) => SpecLexError::UnexpectedCharacter(
                *c,
                loc.line as int,
                loc.column as int,
            ),
            LexerError::InvalidIdentifier(s, loc) => SpecLexError::InvalidIdentifier(
                s@,
                loc.line as int,
                loc.column as int,
            ),
        }
    }
}

// ---------------------------------------------------------------------------
// The scanner's state, mathematically
// ---------------------------------------------------------------------------
/// The scanner's cursor: a character index into the source and the 1-based
/// line and column of that character.
pub struct LexCursor {
    pub pos: int,
    pub line: int,
    pub col: int,
}

/// The cursor at the start of a text.
pub open spec fn start_cursor() -> LexCursor {
    LexCursor { pos: 0, line: 1, col: 1 }
}

/// Where the cursor stands after consuming one character: a line break
/// moves to column 1 of the next line, anything else moves one column on.
pub open spec fn advance_cursor(cur: LexCursor, c: char) -> LexCursor {
    if c == '\n' {
        LexCursor { pos: cur.pos + 1, line: cur.line + 1, col: 1 }
    } else {
        LexCursor { pos: cur.pos + 1, line: cur.line, col: cur.col + 1 }
    }
}

/// Where the cursor stands after consuming every character up to `end`.
pub open spec fn advance_to(src: Seq<char>, cur: LexCursor, end: int) -> LexCursor
    decreases end - cur.pos,
    when 0 <= cur.pos && end <= src.len()
{
    if cur.pos < end && 0 <= cur.pos && end <= src.len() {
        advance_to(src, advance_cursor(cur, src[cur.pos]), end)
    } else {
        cur
    }
}

/// One step of the scanner: either the next token with the cursor after
/// it, or a scan error.
pub enum SpecLexStep {
    Tok(SpecToken, LexCursor),
    Fail(SpecLexError),
}

// ---------------------------------------------------------------------------
// Identifier and keyword scanning, mathematically
// ---------------------------------------------------------------------------
/// The characters an identifier may continue with.
pub open spec fn ident_char(c: char) -> bool {
    alphanumeric(c) || c == '_'
}

/// The first position at or after `pos` whose character cannot continue an
/// identifier (or the end of the text).
pub open spec fn ident_end(src: Seq<char>, pos: int) -> int
    decreases src.len() - pos,
    when 0 <= pos <= src.len()
{
    if pos < src.len() && ident_char(src[pos]) {
        ident_end(src, pos + 1)
    } else {
        pos
    }
}

pub proof fn lemma_ident_end_range(src: Seq<char>, pos: int)
    requires
        0 <= pos <= src.len(),
    ensures
        pos <= ident_end(src, pos) <= src.len(),
    decreases src.len() - pos,
{
    if pos < src.len() && ident_char(src[pos]) {
        lemma_ident_end_range(src, pos + 1);
    }
}

/// ASCII case folding of one character: a small letter becomes the capital
/// one, anything else stays itself.
pub open spec fn upper(c: char) -> char {
    match c {
        'a' => 'A',
        'b' => 'B',
        'c' => 'C',
        'd' => 'D',
        'e' => 'E',
        'f' => 'F',
        'g' => 'G',
        'h' => 'H',
        'i' => 'I',
        'j' => 'J',
        'k' => 'K',
        'l' => 'L',
        'm' => 'M',
        'n' => 'N',
        'o' => 'O',
        'p' => 'P',
        'q' => 'Q',
        'r' => 'R',
        's' => 'S',
        't' => 'T',
        'u' => 'U',
        'v' => 'V',
        'w' => 'W',
        'x' => 'X',
        'y' => 'Y',
        'z' => 'Z',
        _ => c,
    }
}

/// ASCII case folding of a whole text.
pub open spec fn fold_upper(s: Seq<char>) -> Seq<char> {
    s.map_values(|c: char| upper(c))
}

/// The keyword a scanned text stands for, if its case-folded form matches
/// one exactly; `None` for every other text.
pub open spec fn spec_keyword(s: Seq<char>) -> Option<SpecToken> {
    let u = fold_upper(s);
    if u == "INPUTS"@ {
        Some(SpecToken::Inputs)
    } else if u == "OUTPUTS"@ {
        Some(SpecToken::Outputs)
    } else if u == "IN"@ {
        Some(SpecToken::In)
    } else if u == "OUT"@ {
        Some(SpecToken::Out)
    } else if u == "AND"@ {
        Some(SpecToken::And)
    } else if u == "OR"@ {
        Some(SpecToken::Or)
    } else if u == "NOT"@ {
        Some(SpecToken::Not)
    } else if u == "NAND"@ {
        Some(SpecToken::Nand)
    } else if u == "NOR"@ {
        Some(SpecToken::Nor)
    } else if u == "XOR"@ {
        Some(SpecToken::Xor)
    } else if u == "XNOR"@ {
        Some(SpecToken::Xnor)
    } else if u == "SUBCIRCUIT"@ {
        Some(SpecToken::Subcircuit)
    } else if u == "END"@ {
        Some(SpecToken::End)
    } else {
        None
    }
}

/// The token a scanned text yields: its keyword if it is one, otherwise an
/// identifier keeping the text as it stood.
pub open spec fn spec_ident_token(s: Seq<char>) -> SpecToken {
    match spec_keyword(s) {
        Some(t) => t,
        None => SpecToken::Identifier(s),
    }
}

/// The result of an identifier scan started at `cur`: the token made of
/// the maximal identifier run there, or a failure if the run is empty.
pub open spec fn spec_identifier(src: Seq<char>, cur: LexCursor) -> SpecLexStep {
    let end = ident_end(src, cur.pos);
    let text = src.subrange(cur.pos, end);
    if text.len() == 0 {
        SpecLexStep::Fail(SpecLexError::InvalidIdentifier(text, cur.line, cur.col))
    } else {
        SpecLexStep::Tok(spec_ident_token(text), advance_to(src, cur, end))
    }
}

// ---------------------------------------------------------------------------
// One scanning step, mathematically
// ---------------------------------------------------------------------------
/// What one call of the scanner yields from the state `cur`, with
/// `in_comment` saying whether the cursor stands inside a line comment.
/// Mirrors the scanner's order of tests: end of text, comment skipping,
/// whitespace other than a line break, identifier start, comment start,
/// punctuation, line break, and failing anything else.
pub open spec fn spec_next_token(src: Seq<char>, cur: LexCursor, in_comment: bool) -> SpecLexStep
    decreases src.len() - cur.pos,
    when 0 <= cur.pos <= src.len()
{
    if cur.pos >= src.len() {
        SpecLexStep::Tok(SpecToken::Eof, cur)
    } else {
        let c = src[cur.pos];
        if in_comment {
            spec_next_token(src, advance_cursor(cur, c), c != '\n')
        } else if c != '\n' && whitespace(c) {
            spec_next_token(src, advance_cursor(cur, c), false)
        } else if alphabetic(c) {
            spec_identifier(src, cur)
        } else if c == '#' {
            spec_next_token(src, advance_cursor(cur, c), true)
        } else if c == ',' {
            SpecLexStep::Tok(SpecToken::Comma, advance_cursor(cur, c))
        } else if c == '(' {
            SpecLexStep::Tok(SpecToken::ParenOpen, advance_cursor(cur, c))
        } else if c == ')' {
            SpecLexStep::Tok(SpecToken::ParenClose, advance_cursor(cur, c))
        } else if c == '\n' {
            SpecLexStep::Tok(SpecToken::Newline, advance_cursor(cur, c))
        } else {
            SpecLexStep::Fail(SpecLexError::UnexpectedCharacter(c, cur.line, cur.col))
        }
    }
}

/// Consuming up to `end + 1` is consuming up to `end` and then one more
/// character.
pub proof fn lemma_advance_to_snoc(src: Seq<char>, cur: LexCursor, end: int)
    requires
        0 <= cur.pos <= end < src.len(),
    ensures
        advance_to(src, cur, end + 1) == advance_cursor(advance_to(src, cur, end), src[end]),
    decreases end - cur.pos,
{
    if cur.pos < end {
        lemma_advance_to_snoc(src, advance_cursor(cur, src[cur.pos]), end);
    } else {
        assert(advance_to(src, advance_cursor(cur, src[end]), end + 1) == advance_cursor(
            cur,
            src[end],
        ));
    }
}

pub proof fn lemma_advance_to_pos(src: Seq<char>, cur: LexCursor, end: int)
    requires
        0 <= cur.pos <= end <= src.len(),
    ensures
        advance_to(src, cur, end).pos == end,
    decreases end - cur.pos,
{
    if cur.pos < end {
        lemma_advance_to_pos(src, advance_cursor(cur, src[cur.pos]), end);
    }
}

/// A token other than end-of-input consumes at least one character, and no
/// step moves the cursor backwards or past the end.
pub proof fn lemma_next_token_in_range(src: Seq<char>, cur: LexCursor, in_comment: bool)
    requires
        0 <= cur.pos <= src.len(),
    ensures
        match spec_next_token(src, cur, in_comment) {
            SpecLexStep::Tok(t, cur2) => cur.pos <= cur2.pos <= src.len() && (!(t is Eof)
                ==> cur.pos < cur2.pos),
            SpecLexStep::Fail(_) => true,
        },
    decreases src.len() - cur.pos,
{
    if cur.pos < src.len() {
        let c = src[cur.pos];
        if in_comment {
            lemma_next_token_in_range(src, advance_cursor(cur, c), c != '\n');
        } else if c != '\n' && whitespace(c) {
            lemma_next_token_in_range(src, advance_cursor(cur, c), false);
        } else if alphabetic(c) {
            let end = ident_end(src, cur.pos);
            lemma_ident_end_range(src, cur.pos);
            lemma_advance_to_pos(src, cur, end);
        } else if c == '#' {
            lemma_next_token_in_range(src, advance_cursor(cur, c), true);
        }
    }
}

// ---------------------------------------------------------------------------
// Scanning a whole text, mathematically
// ---------------------------------------------------------------------------
/// Every token of the text from `cur` on, ending with the end-of-input
/// token, or the first scan error. By [`lemma_next_token_in_range`] the
/// guard on the recursion always holds.
pub open spec fn spec_tokenize_from(src: Seq<char>, cur: LexCursor) -> Result<
    Seq<SpecToken>,
    SpecLexError,
>
    decreases src.len() - cur.pos,
    when 0 <= cur.pos <= src.len()
{
    match spec_next_token(src, cur, false) {
        SpecLexStep::Fail(e) => Err(e),
        SpecLexStep::Tok(t, cur2) => {
            if t is Eof {
                Ok(seq![t])
            } else if cur.pos < cur2.pos <= src.len() {
                match spec_tokenize_from(src, cur2) {
                    Ok(ts) => Ok(seq![t] + ts),
                    Err(e) => Err(e),
                }
            } else {
                Ok(seq![t])
            }
        },
    }
}

/// Every token of a whole text, from its first character.
pub open spec fn spec_tokenize(src: Seq<char>) -> Result<Seq<SpecToken>, SpecLexError> {
    spec_tokenize_from(src, start_cursor())
}

/// The views of a sequence of scanned tokens.
pub open spec fn tokens_view(ts: Seq<TokenKind>) -> Seq<SpecToken> {
    ts.map_values(|t: TokenKind| t@)
}

} // verus!

verus! {

// ---------------------------------------------------------------------------
// The scanner itself
// ---------------------------------------------------------------------------
/// The scanner: holds the source as characters and a cursor over it.
#[derive(Debug)]
pub struct Lexer {
    source: Vec<char>,
    position: usize,
    line: usize,
    column: usize,
    current_char: Option<char>,
}

impl Lexer {
    /// The characters of the source text.
    pub closed spec fn src(&self) -> Seq<char> {
        self.source@
    }

    /// The scanner's cursor as a mathematical value.
    pub closed spec fn cursor(&self) -> LexCursor {
        LexCursor { pos: self.position as int, line: self.line as int, col: self.column as int }
    }

    /// The scanner's internal consistency: the cursor stays within the
    /// text, the cached character is the one under the cursor, and the
    /// 1-based counters never run ahead of what was consumed.
    pub closed spec fn wf(&self) -> bool {
        &&& self.position <= self.source.len()
        &&& self.source.len() < usize::MAX
        &&& self.current_char == (if self.position < self.source.len() {
            Some(self.source@[self.position as int])
        } else {
            None::<char>
        })
        &&& 1 <= self.line <= self.position + 1
        &&& 1 <= self.column <= self.position + 1
    }

    /// Makes a scanner for the given source text, standing at line 1,
    /// column 1. The length bound keeps the 1-based counters within
    /// machine range.
    pub fn new(source: String) -> (r: Self)
        requires
            source@.len() < usize::MAX,
        ensures
            r.wf(),
            r.src() == source@,
            r.cursor() == start_cursor(),
    {
        broadcast use vstd::string::group_string_axioms;

        let mut chars: Vec<char> = Vec::new();
        let mut it = source.as_str().chars();
        proof {
            assert(chars@ + it.remaining() =~= source@);
        }
        loop
            invariant
                chars@ + it.remaining() == source@,
                it.obeys_prophetic_iter_laws(),
            ensures
                chars@ == source@,
            decreases source@.len() - chars@.len(),
        {
            let ghost prev = chars@;
            let ghost rem = it.remaining();
            match it.next() {
                Some(c) => {
                    chars.push(c);
                    proof {
                        assert(rem.len() > 0);
                        assert(chars@ + it.remaining() =~= source@);
                    }
                },
                None => {
                    proof {
                        assert(rem.len() == 0);
                        assert(chars@ + rem =~= chars@);
                        assert(chars@ + rem == source@);
                        assert(chars@ == source@);
                    }
                    break ;
                },
            }
        }
        let first = if chars.len() > 0 {
            Some(chars[0])
        } else {
            None
        };
        Lexer { source: chars, position: 0, line: 1, column: 1, current_char: first }
    }

    /// The place the scanner stands at, for error reporting.
    fn get_location(&self) -> (r: Location)
        ensures
            r.line as int == self.cursor().line,
            r.column as int == self.cursor().col,
    {
        Location::new(self.line, self.column)
    }

    /// Consumes one character, keeping the line and column counters true
    /// to it.
    fn advance(&mut self)
        requires
            old(self).wf(),
            old(self).cursor().pos < old(self).src().len(),
        ensures
            final(self).wf(),
            final(self).src() == old(self).src(),
            final(self).cursor() == advance_cursor(
                old(self).cursor(),
                old(self).src()[old(self).cursor().pos],
            ),
    {
        if let Some(c) = self.current_char {
            if c == '\n' {
                self.line = self.line + 1;
                self.column = 1;
            } else {
                self.column = self.column + 1;
            }
        }
        self.position = self.position + 1;
        self.current_char = if self.position < self.source.len() {
            Some(self.source[self.position])
        } else {
            None
        };
    }

    /// Skips whitespace other than line breaks; what the next call of the
    /// scanner yields is unchanged, and the cursor stops on a line break,
    /// on a non-whitespace character, or at the end.
    fn skip_whitespace(&mut self)
        requires
            old(self).wf(),
        ensures
            final(self).wf(),
            final(self).src() == old(self).src(),
            old(self).cursor().pos <= final(self).cursor().pos,
            spec_next_token(final(self).src(), final(self).cursor(), false) == spec_next_token(
                old(self).src(),
                old(self).cursor(),
                false,
            ),
            ({
                let cur = final(self).cursor();
                let src = final(self).src();
                cur.pos < src.len() ==> (src[cur.pos] == '\n' || !whitespace(src[cur.pos]))
            }),
    {
        loop
            invariant
                self.wf(),
                self.src() == old(self).src(),
                old(self).cursor().pos <= self.cursor().pos,
                spec_next_token(self.src(), self.cursor(), false) == spec_next_token(
                    old(self).src(),
                    old(self).cursor(),
                    false,
                ),
            ensures
                self.wf(),
                self.src() == old(self).src(),
                old(self).cursor().pos <= self.cursor().pos,
                spec_next_token(self.src(), self.cursor(), false) == spec_next_token(
                    old(self).src(),
                    old(self).cursor(),
                    false,
                ),
                self.cursor().pos < self.src().len() ==> (self.src()[self.cursor().pos] == '\n'
                    || !whitespace(self.src()[self.cursor().pos])),
            decreases self.src().len() - self.cursor().pos,
        {
            match self.current_char {
                Some(c) => {
                    if c == '\n' {
                        break ;
                    } else if c.is_whitespace() {
                        self.advance();
                    } else {
                        break ;
                    }
                },
                None => {
                    break ;
                },
            }
        }
    }

    /// Discards everything through the next line break (or the end of the
    /// text): what scanning yields after the comment is what a scanner
    /// standing inside a comment here would yield.
    fn skip_line_comment(&mut self)
        requires
            old(self).wf(),
        ensures
            final(self).wf(),
            final(self).src() == old(self).src(),
            old(self).cursor().pos <= final(self).cursor().pos,
            old(self).cursor().pos < old(self).src().len() ==> old(self).cursor().pos < final(self).cursor().pos,
            spec_next_token(old(self).src(), old(self).cursor(), true) == spec_next_token(
                final(self).src(),
                final(self).cursor(),
                false,
            ),
    {
        loop
            invariant_except_break
                spec_next_token(old(self).src(), old(self).cursor(), true) == spec_next_token(
                    self.src(),
                    self.cursor(),
                    true,
                ),
            invariant
                self.wf(),
                self.src() == old(self).src(),
                old(self).cursor().pos <= self.cursor().pos,
            ensures
                self.wf(),
                self.src() == old(self).src(),
                old(self).cursor().pos <= self.cursor().pos,
                old(self).cursor().pos < old(self).src().len() ==> old(self).cursor().pos < self.cursor().pos,
                spec_next_token(old(self).src(), old(self).cursor(), true) == spec_next_token(
                    self.src(),
                    self.cursor(),
                    false,
                ),
            decreases self.src().len() - self.cursor().pos,
        {
            match self.current_char {
                Some(c) => {
                    if c == '\n' {
                        self.advance();
                        break ;
                    } else {
                        self.advance();
                    }
                },
                None => {
                    break ;
                },
            }
        }
    }
}

} // verus!

verus! {

/// ASCII case folding of one character, as [`upper`] describes it.
fn upper_char(c: char) -> (r: char)
    ensures
        r == upper(c),
{
    match c {
        'a' => 'A',
        'b' => 'B',
        'c' => 'C',
        'd' => 'D',
        'e' => 'E',
        'f' => 'F',
        'g' => 'G',
        'h' => 'H',
        'i' => 'I',
        'j' => 'J',
        'k' => 'K',
        'l' => 'L',
        'm' => 'M',
        'n' => 'N',
        'o' => 'O',
        'p' => 'P',
        'q' => 'Q',
        'r' => 'R',
        's' => 'S',
        't' => 'T',
        'u' => 'U',
        'v' => 'V',
        'w' => 'W',
        'x' => 'X',
        'y' => 'Y',
        'z' => 'Z',
        _ => c,
    }
}

/// Decides whether the case-folded text equals the (already capital)
/// keyword exactly — full-token matching, no prefixes.
fn eq_fold(s: &String, kw: &str) -> (b: bool)
    ensures
        b == (fold_upper(s@) == kw@),
{
    let n = s.as_str().unicode_len();
    let m = kw.unicode_len();
    if n != m {
        proof {
            assert(fold_upper(s@).len() == s@.len());
        }
        return false;
    }
    let mut i: usize = 0;
    while i < n
        invariant
            n == s@.len(),
            n == kw@.len(),
            i <= n,
            forall|j: int| 0 <= j < i ==> upper(s@[j]) == kw@[j],
        decreases n - i,
    {
        let c = upper_char(s.as_str().get_char(i));
        let k = kw.get_char(i);
        if c != k {
            proof {
                assert(fold_upper(s@)[i as int] == upper(s@[i as int]));
            }
            return false;
        }
        i = i + 1;
    }
    proof {
        assert(fold_upper(s@) =~= kw@);
    }
    true
}

/// The keyword token a scanned text stands for, if any.
fn keyword_lookup(s: &String) -> (r: Option<TokenKind>)
    ensures
        match r {
            Some(t) => spec_keyword(s@) == Some(t@),
            None => spec_keyword(s@) is None,
        },
{
    if eq_fold(s, "INPUTS") {
        Some(TokenKind::Inputs)
    } else if eq_fold(s, "OUTPUTS") {
        Some(TokenKind::Outputs)
    } else if eq_fold(s, "IN") {
        Some(TokenKind::In)
    } else if eq_fold(s, "OUT") {
        Some(TokenKind::Out)
    } else if eq_fold(s, "AND") {
        Some(TokenKind::And)
    } else if eq_fold(s, "OR") {
        Some(TokenKind::Or)
    } else if eq_fold(s, "NOT") {
        Some(TokenKind::Not)
    } else if eq_fold(s, "NAND") {
        Some(TokenKind::Nand)
    } else if eq_fold(s, "NOR") {
        Some(TokenKind::Nor)
    } else if eq_fold(s, "XOR") {
        Some(TokenKind::Xor)
    } else if eq_fold(s, "XNOR") {
        Some(TokenKind::Xnor)
    } else if eq_fold(s, "SUBCIRCUIT") {
        Some(TokenKind::Subcircuit)
    } else if eq_fold(s, "END") {
        Some(TokenKind::End)
    } else {
        None
    }
}

impl Lexer {
    /// Scans a maximal run of identifier characters from the cursor and
    /// hands back the keyword it spells — matched case-insensitively,
    /// full-token — or an `Identifier` keeping the text as written. An
    /// empty run is the `InvalidIdentifier` failure, with the scanner
    /// left where it stood.
    pub fn identifier(&mut self) -> (r: Result<TokenKind, LexerError>)
        requires
            old(self).wf(),
        ensures
            final(self).wf(),
            final(self).src() == old(self).src(),
            match r {
                Ok(t) => spec_identifier(old(self).src(), old(self).cursor())
                    == SpecLexStep::Tok(t@, final(self).cursor()),
                Err(e) => spec_identifier(old(self).src(), old(self).cursor())
                    == SpecLexStep::Fail(e@) && final(self).cursor() == old(self).cursor(),
            },
    {
        let location = self.get_location();
        let mut id_str = String::new();
        proof {
            lemma_ident_end_range(self.src(), self.cursor().pos);
        }
        loop
            invariant
                self.wf(),
                self.src() == old(self).src(),
                old(self).cursor().pos <= self.cursor().pos <= self.src().len(),
                ident_end(self.src(), old(self).cursor().pos) == ident_end(
                    self.src(),
                    self.cursor().pos,
                ),
                id_str@ == self.src().subrange(old(self).cursor().pos, self.cursor().pos),
                self.cursor() == advance_to(self.src(), old(self).cursor(), self.cursor().pos),
                forall|j: int|
                    old(self).cursor().pos <= j < self.cursor().pos ==> ident_char(self.src()[j]),
            ensures
                self.wf(),
                self.src() == old(self).src(),
                old(self).cursor().pos <= self.cursor().pos <= self.src().len(),
                self.cursor().pos == ident_end(self.src(), old(self).cursor().pos),
                id_str@ == self.src().subrange(old(self).cursor().pos, self.cursor().pos),
                self.cursor() == advance_to(self.src(), old(self).cursor(), self.cursor().pos),
            decreases self.src().len() - self.cursor().pos,
        {
            match self.current_char {
                Some(c) => {
                    if c.is_alphanumeric() || c == '_' {
                        push_char(&mut id_str, c);
                        let ghost prev = self.cursor();
                        self.advance();
                        proof {
                            assert(id_str@ =~= self.src().subrange(
                                old(self).cursor().pos,
                                self.cursor().pos,
                            ));
                            lemma_advance_to_snoc(self.src(), old(self).cursor(), prev.pos);
                        }
                    } else {
                        break ;
                    }
                },
                None => {
                    break ;
                },
            }
        }
        if id_str.as_str().is_empty() {
            return Err(LexerError::InvalidIdentifier(id_str, location));
        }
        match keyword_lookup(&id_str) {
            Some(t) => Ok(t),
            None => Ok(TokenKind::Identifier(id_str)),
        }
    }
}

} // verus!

verus! {

impl Lexer {
    /// Hands back the next token of the source — exactly what
    /// [`spec_next_token`] gives for the state the call starts in — or the
    /// first scan error. At the end of the text it yields the end-of-input
    /// token on this and on every later call.
    pub fn get_next_token(&mut self) -> (r: Result<TokenKind, LexerError>)
        requires
            old(self).wf(),
        ensures
            final(self).wf(),
            final(self).src() == old(self).src(),
            match r {
                Ok(t) => spec_next_token(old(self).src(), old(self).cursor(), false)
                    == SpecLexStep::Tok(t@, final(self).cursor()),
                Err(e) => spec_next_token(old(self).src(), old(self).cursor(), false)
                    == SpecLexStep::Fail(e@),
            },
        decreases old(self).src().len() - old(self).cursor().pos,
    {
        self.skip_whitespace();
        let location = self.get_location();
        if self.current_char.is_none() {
            return Ok(TokenKind::EOF);
        }
        match self.current_char {
            None => Ok(TokenKind::EOF),
            Some(c) => {
                if c.is_alphabetic() {
                    self.identifier()
                } else if c == '#' {
                    self.skip_line_comment();
                    self.get_next_token()
                } else if c == ',' {
                    self.advance();
                    Ok(TokenKind::Comma)
                } else if c == '(' {
                    self.advance();
                    Ok(TokenKind::ParenOpen)
                } else if c == ')' {
                    self.advance();
                    Ok(TokenKind::ParenClose)
                } else if c == '\n' {
                    self.advance();
                    Ok(TokenKind::Newline)
                } else {
                    Err(LexerError::UnexpectedCharacter(c, location))
                }
            },
        }
    }

    /// Scans the whole source into tokens, the end-of-input token last, or
    /// stops at the first scan error.
    pub fn tokenize(&mut self) -> (r: Result<Vec<TokenKind>, LexerError>)
        requires
            old(self).wf(),
        ensures
            final(self).wf(),
            match r {
                Ok(ts) => spec_tokenize_from(old(self).src(), old(self).cursor()) == Ok::<
                    _,
                    SpecLexError,
                >(tokens_view(ts@)),
                Err(e) => spec_tokenize_from(old(self).src(), old(self).cursor()) == Err::<
                    Seq<SpecToken>,
                    _,
                >(e@),
            },
    {
        let mut toks: Vec<TokenKind> = Vec::new();
        loop
            invariant
                self.wf(),
                self.src() == old(self).src(),
                spec_tokenize_from(old(self).src(), old(self).cursor()) == (match
                    spec_tokenize_from(self.src(), self.cursor()) {
                    Ok(ts) => Ok::<_, SpecLexError>(tokens_view(toks@) + ts),
                    Err(e) => Err::<Seq<SpecToken>, _>(e),
                }),
            decreases self.src().len() - self.cursor().pos,
        {
            let ghost pre = self.cursor();
            let ghost prev_toks = toks@;
            match self.get_next_token() {
                Ok(t) => {
                    let is_eof = matches!(t, TokenKind::EOF);
                    toks.push(t);
                    proof {
                        lemma_next_token_in_range(self.src(), pre, false);
                        assert(tokens_view(prev_toks.push(t)) =~= tokens_view(prev_toks) + seq![
                            t@,
                        ]);
                        if !is_eof {
                            match spec_tokenize_from(self.src(), self.cursor()) {
                                Ok(ts) => {
                                    assert(tokens_view(prev_toks) + (seq![t@] + ts) =~= (
                                    tokens_view(prev_toks) + seq![t@]) + ts);
                                },
                                Err(e) => {},
                            }
                        }
                    }
                    if is_eof {
                        return Ok(toks);
                    }
                },
                Err(e) => {
                    return Err(e);
                },
            }
        }
    }
}

} // verus!

verus! {

/// The decimal digit a value below ten is written with.
pub open spec fn digit_char(d: nat) -> char {
    if d == 0 {
        '0'
    } else if d == 1 {
        '1'
    } else if d == 2 {
        '2'
    } else if d == 3 {
        '3'
    } else if d == 4 {
        '4'
    } else if d == 5 {
        '5'
    } else if d == 6 {
        '6'
    } else if d == 7 {
        '7'
    } else if d == 8 {
        '8'
    } else {
        '9'
    }
}

/// The decimal digits of a number, most significant first.
pub open spec fn dec_digits(n: nat) -> Seq<char>
    decreases n,
{
    if n < 10 {
        seq![digit_char(n)]
    } else {
        dec_digits(n / 10).push(digit_char(n % 10))
    }
}

/// Appends the decimal rendering of a number.
fn push_decimal(out: &mut String, n: usize)
    ensures
        final(out)@ == old(out)@ + dec_digits(n as nat),
    decreases n,
{
    if n >= 10 {
        push_decimal(out, n / 10);
    }
    let d = n % 10;
    let c = match d {
        0 => '0',
        1 => '1',
        2 => '2',
        3 => '3',
        4 => '4',
        5 => '5',
        6 => '6',
        7 => '7',
        8 => '8',
        _ => '9',
    };
    let ghost mid = out@;
    push_char(out, c);
    proof {
        assert(c == digit_char((n % 10) as nat));
        if n < 10 {
            assert(out@ =~= old(out)@ + seq![c]);
        } else {
            assert(mid.push(c) =~= old(out)@ + dec_digits((n / 10) as nat).push(c));
        }
    }
}

/// The rendering of a scan error's message.
pub open spec fn spec_lex_message(e: SpecLexError) -> Seq<char> {
    match e {
        SpecLexError::UnexpectedCharacter(c, l, col) => "Unexpected character '"@ + seq![c]
            + "' at line "@ + dec_digits(l as nat) + ", column "@ + dec_digits(col as nat),
        SpecLexError::InvalidIdentifier(s, l, col) => "Invalid identifier '"@ + s + "' at line "@
            + dec_digits(l as nat) + ", column "@ + dec_digits(col as nat),
    }
}

impl LexerError {
    /// The human-readable text of the error, naming the offending
    /// character or text and its 1-based line and column.
    pub fn message(&self) -> (r: String)
        ensures
            r@ == spec_lex_message(self@),
    {
        match self {
            LexerError::UnexpectedCharacter(c, loc) => {
                let mut out = String::from_str("Unexpected character '");
                let ghost mid = out@;
                push_char(&mut out, *c);
                proof {
                    assert(out@ =~= mid + seq![*c]);
                }
                out.append("' at line ");
                push_decimal(&mut out, loc.line);
                out.append(", column ");
                push_decimal(&mut out, loc.column);
                out
            },
            LexerError::InvalidIdentifier(s, loc) => {
                let mut out = String::from_str("Invalid identifier '");
                out.append(s.as_str());
                out.append("' at line ");
                push_decimal(&mut out, loc.line);
                out.append(", column ");
                push_decimal(&mut out, loc.column);
                out
            },
        }
    }
}

} // verus!
