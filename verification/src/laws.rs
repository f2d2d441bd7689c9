//! Properties of the scanner and parser that hold of every input, stated
//! and proved over the spec-level pipeline.

use crate::lexer::LexCursor;
use crate::lexer::SpecLexStep;
use crate::lexer::advance_cursor;
use crate::lexer::alphabetic;
use crate::lexer::fold_upper;
use crate::lexer::lemma_next_token_in_range;
use crate::lexer::spec_keyword;
use crate::lexer::spec_next_token;
use crate::lexer::spec_tokenize;
use crate::lexer::spec_tokenize_from;
use crate::lexer::upper;
use crate::lexer::whitespace;
use crate::ast::SpecProgram;
use crate::parser::spec_parse_program;
use crate::token::SpecToken;
use vstd::prelude::*;

verus! {

// ---------------------------------------------------------------------------
// Keyword matching is case-insensitive
// ---------------------------------------------------------------------------
proof fn lemma_upper_idempotent(c: char)
    ensures
        upper(upper(c)) == upper(c),
{
}

/// Keyword matching is case-insensitive: a text and its case-folded form
/// stand for the same keyword, or for none at all. Only a full-token
/// match counts, since [`spec_keyword`] compares whole texts.
pub proof fn lemma_keyword_case_insensitive(s: Seq<char>)
    ensures
        spec_keyword(fold_upper(s)) == spec_keyword(s),
{
    assert forall|i: int| 0 <= i < s.len() implies fold_upper(fold_upper(s))[i] == fold_upper(
        s,
    )[i] by {
        lemma_upper_idempotent(s[i]);
    }
    assert(fold_upper(fold_upper(s)) =~= fold_upper(s));
}

// ---------------------------------------------------------------------------
// Whitespace and comments scan cleanly
// ---------------------------------------------------------------------------
/// The text from `pos` on holds only whitespace, line breaks and line
/// comments; `in_comment` says the position stands inside a comment.
pub open spec fn blank_from(src: Seq<char>, pos: int, in_comment: bool) -> bool
    decreases src.len() - pos,
    when 0 <= pos <= src.len()
{
    if pos >= src.len() {
        true
    } else if in_comment {
        blank_from(src, pos + 1, src[pos] != '\n')
    } else {
        let c = src[pos];
        if c == '\n' {
            blank_from(src, pos + 1, false)
        } else if whitespace(c) {
            blank_from(src, pos + 1, false)
        } else if c == '#' {
            blank_from(src, pos + 1, true)
        } else {
            false
        }
    }
}

/// A whole text of whitespace and comments only.
pub open spec fn blank_source(src: Seq<char>) -> bool {
    blank_from(src, 0, false)
}

proof fn lemma_blank_step(src: Seq<char>, cur: LexCursor, in_comment: bool)
    requires
        0 <= cur.pos <= src.len(),
        blank_from(src, cur.pos, in_comment),
    ensures
        match spec_next_token(src, cur, in_comment) {
            SpecLexStep::Tok(t, cur2) => (t is Newline || t is Eof) && cur.pos <= cur2.pos
                <= src.len() && blank_from(src, cur2.pos, false),
            SpecLexStep::Fail(e) => false,
        },
    decreases src.len() - cur.pos,
{
    if cur.pos < src.len() {
        let c = src[cur.pos];
        if in_comment {
            lemma_blank_step(src, advance_cursor(cur, c), c != '\n');
        } else if c != '\n' && whitespace(c) {
            lemma_blank_step(src, advance_cursor(cur, c), false);
        } else if alphabetic(c) {
        } else if c == '#' {
            lemma_blank_step(src, advance_cursor(cur, c), true);
        }
    }
}

/// A source of whitespace and comments only scans without error: every
/// token is a line break until the end-of-input token arrives.
pub proof fn lemma_blank_scans_clean(src: Seq<char>, cur: LexCursor)
    requires
        0 <= cur.pos <= src.len(),
        blank_from(src, cur.pos, false),
    ensures
        match spec_tokenize_from(src, cur) {
            Ok(ts) => forall|i: int| 0 <= i < ts.len() ==> (ts[i] is Newline || ts[i] is Eof),
            Err(e) => false,
        },
    decreases src.len() - cur.pos,
{
    lemma_blank_step(src, cur, false);
    lemma_next_token_in_range(src, cur, false);
    match spec_next_token(src, cur, false) {
        SpecLexStep::Tok(t, cur2) => {
            if !(t is Eof) {
                lemma_blank_scans_clean(src, cur2);
                match spec_tokenize_from(src, cur2) {
                    Ok(ts) => {
                        assert forall|i: int| 0 <= i < (seq![t] + ts).len() implies ((seq![t]
                            + ts)[i] is Newline || (seq![t] + ts)[i] is Eof) by {
                            if i > 0 {
                                assert((seq![t] + ts)[i] == ts[i - 1]);
                            }
                        }
                    },
                    Err(e) => {},
                }
            }
        },
        SpecLexStep::Fail(e) => {},
    }
}

/// A scan that succeeds always ends by yielding the end-of-input token.
pub proof fn lemma_tokenize_ends_with_eof(src: Seq<char>, cur: LexCursor)
    requires
        0 <= cur.pos <= src.len(),
    ensures
        match spec_tokenize_from(src, cur) {
            Ok(ts) => ts.len() > 0 && ts.last() is Eof,
            Err(e) => true,
        },
    decreases src.len() - cur.pos,
{
    lemma_next_token_in_range(src, cur, false);
    match spec_next_token(src, cur, false) {
        SpecLexStep::Tok(t, cur2) => {
            if !(t is Eof) {
                lemma_tokenize_ends_with_eof(src, cur2);
                match spec_tokenize_from(src, cur2) {
                    Ok(ts) => {
                        assert((seq![t] + ts).last() == ts.last());
                    },
                    Err(e) => {},
                }
            }
        },
        SpecLexStep::Fail(e) => {},
    }
}

/// A whole source of whitespace and comments only eventually yields the
/// end-of-input token and never a scan error.
pub proof fn lemma_blank_source_never_errors(src: Seq<char>)
    requires
        blank_source(src),
    ensures
        spec_tokenize(src) is Ok,
        match spec_tokenize(src) {
            Ok(ts) => ts.len() > 0 && ts.last() is Eof && forall|i: int|
                0 <= i < ts.len() ==> (ts[i] is Newline || ts[i] is Eof),
            Err(e) => false,
        },
{
    lemma_blank_scans_clean(src, crate::lexer::start_cursor());
    lemma_tokenize_ends_with_eof(src, crate::lexer::start_cursor());
}

// ---------------------------------------------------------------------------
// Parsing is deterministic
// ---------------------------------------------------------------------------
/// Parsing the same tokens twice gives structurally equal programs: the
/// parse result is a function of the token sequence alone, with no hidden
/// state, so any two successful parses of one stream agree.
pub proof fn lemma_parse_deterministic(
    toks1: Seq<SpecToken>,
    toks2: Seq<SpecToken>,
    p1: SpecProgram,
    p2: SpecProgram,
)
    requires
        toks1 == toks2,
        spec_parse_program(toks1, 0) == Ok::<_, Seq<char>>(p1),
        spec_parse_program(toks2, 0) == Ok::<_, Seq<char>>(p2),
    ensures
        p1 == p2,
{
}

} // verus!

verus! {

// ---------------------------------------------------------------------------
// A full-line comment is invisible to the parser
// ---------------------------------------------------------------------------
proof fn lemma_ident_end_shift(src1: Seq<char>, src2: Seq<char>, off: int, p: int)
    requires
        0 <= off,
        src1.len() == off + src2.len(),
        src1.subrange(off, src1.len() as int) == src2,
        0 <= p <= src2.len(),
    ensures
        crate::lexer::ident_end(src1, off + p) == off + crate::lexer::ident_end(src2, p),
    decreases src2.len() - p,
{
    assert(p < src2.len() ==> src1[off + p] == src2[p]) by {
        if p < src2.len() {
            assert(src2[p] == src1.subrange(off, src1.len() as int)[p]);
        }
    }
    if p < src2.len() && crate::lexer::ident_char(src2[p]) {
        lemma_ident_end_shift(src1, src2, off, p + 1);
    }
}

proof fn lemma_step_shift(
    src1: Seq<char>,
    src2: Seq<char>,
    off: int,
    cur1: LexCursor,
    cur2: LexCursor,
    in_comment: bool,
)
    requires
        0 <= off,
        src1.len() == off + src2.len(),
        src1.subrange(off, src1.len() as int) == src2,
        cur1.pos == off + cur2.pos,
        0 <= cur2.pos <= src2.len(),
    ensures
        match spec_next_token(src2, cur2, in_comment) {
            SpecLexStep::Tok(t, c2) => match spec_next_token(src1, cur1, in_comment) {
                SpecLexStep::Tok(t1, c1) => t1 == t && c1.pos == off + c2.pos,
                SpecLexStep::Fail(e) => false,
            },
            SpecLexStep::Fail(e) => spec_next_token(src1, cur1, in_comment) is Fail,
        },
    decreases src2.len() - cur2.pos,
{
    if cur2.pos < src2.len() {
        let c = src2[cur2.pos];
        assert(src1[cur1.pos] == src2[cur2.pos]) by {
            assert(src2[cur2.pos] == src1.subrange(off, src1.len() as int)[cur2.pos]);
        }
        if in_comment {
            lemma_step_shift(
                src1,
                src2,
                off,
                advance_cursor(cur1, c),
                advance_cursor(cur2, c),
                c != '\n',
            );
        } else if c != '\n' && whitespace(c) {
            lemma_step_shift(
                src1,
                src2,
                off,
                advance_cursor(cur1, c),
                advance_cursor(cur2, c),
                false,
            );
        } else if alphabetic(c) {
            let end2 = crate::lexer::ident_end(src2, cur2.pos);
            let end1 = crate::lexer::ident_end(src1, cur1.pos);
            crate::lexer::lemma_ident_end_range(src2, cur2.pos);
            crate::lexer::lemma_ident_end_range(src1, cur1.pos);
            lemma_ident_end_shift(src1, src2, off, cur2.pos);
            assert(end1 == off + end2);
            assert(src1.subrange(cur1.pos, end1) =~= src2.subrange(cur2.pos, end2)) by {
                assert forall|i: int| 0 <= i < end2 - cur2.pos implies src1.subrange(
                    cur1.pos,
                    end1,
                )[i] == src2.subrange(cur2.pos, end2)[i] by {
                    assert(src2[cur2.pos + i] == src1.subrange(off, src1.len() as int)[cur2.pos
                        + i]);
                }
            }
            crate::lexer::lemma_advance_to_pos(src1, cur1, end1);
            crate::lexer::lemma_advance_to_pos(src2, cur2, end2);
        } else if c == '#' {
            lemma_step_shift(
                src1,
                src2,
                off,
                advance_cursor(cur1, c),
                advance_cursor(cur2, c),
                true,
            );
        } else {
        }
    }
}

proof fn lemma_tokenize_shift(
    src1: Seq<char>,
    src2: Seq<char>,
    off: int,
    cur1: LexCursor,
    cur2: LexCursor,
)
    requires
        0 <= off,
        src1.len() == off + src2.len(),
        src1.subrange(off, src1.len() as int) == src2,
        cur1.pos == off + cur2.pos,
        0 <= cur2.pos <= src2.len(),
    ensures
        match spec_tokenize_from(src2, cur2) {
            Ok(ts) => spec_tokenize_from(src1, cur1) == Ok::<_, crate::lexer::SpecLexError>(ts),
            Err(e) => spec_tokenize_from(src1, cur1) is Err,
        },
    decreases src2.len() - cur2.pos,
{
    lemma_step_shift(src1, src2, off, cur1, cur2, false);
    lemma_next_token_in_range(src2, cur2, false);
    lemma_next_token_in_range(src1, cur1, false);
    match spec_next_token(src2, cur2, false) {
        SpecLexStep::Tok(t, c2) => {
            if !(t is Eof) {
                match spec_next_token(src1, cur1, false) {
                    SpecLexStep::Tok(t1, c1) => {
                        lemma_tokenize_shift(src1, src2, off, c1, c2);
                    },
                    SpecLexStep::Fail(e) => {},
                }
            }
        },
        SpecLexStep::Fail(e) => {},
    }
}

proof fn lemma_comment_walk(src: Seq<char>, cur: LexCursor, nl: int)
    requires
        0 <= cur.pos <= nl < src.len(),
        forall|i: int| cur.pos <= i < nl ==> src[i] != '\n',
        src[nl] == '\n',
    ensures
        spec_next_token(src, cur, true) == spec_next_token(
            src,
            crate::lexer::advance_to(src, cur, nl + 1),
            false,
        ),
    decreases nl - cur.pos,
{
    if cur.pos < nl {
        lemma_comment_walk(src, advance_cursor(cur, src[cur.pos]), nl);
    } else {
        assert(crate::lexer::advance_to(src, advance_cursor(cur, src[cur.pos]), nl + 1)
            == advance_cursor(cur, src[cur.pos]));
    }
}

/// A full-line comment is invisible: prepending a line `#`…`\n` to a
/// source that scans without error changes neither the tokens nor the
/// parse of it.
pub proof fn lemma_comment_line_invisible(text: Seq<char>, src: Seq<char>)
    requires
        forall|i: int| 0 <= i < text.len() ==> text[i] != '\n',
        spec_tokenize(src) is Ok,
    ensures
        spec_tokenize(seq!['#'] + text + seq!['\n'] + src) == spec_tokenize(src),
        crate::parser::spec_parse_source(seq!['#'] + text + seq!['\n'] + src)
            == crate::parser::spec_parse_source(src),
{
    let full = seq!['#'] + text + seq!['\n'] + src;
    let off: int = 2 + text.len() as int;
    assert(full.len() == off + src.len());
    assert(full[0] == '#');
    assert(full[off - 1] == '\n');
    assert forall|i: int| 1 <= i < off - 1 implies full[i] != '\n' by {
        assert(full[i] == text[i - 1]);
    }
    assert(full.subrange(off, full.len() as int) =~= src) by {
        assert forall|i: int| 0 <= i < src.len() implies full.subrange(off, full.len() as int)[i]
            == src[i] by {
            assert(full[off + i] == src[i]);
        }
    }
    let start = crate::lexer::start_cursor();
    let cur1 = advance_cursor(start, '#');
    lemma_comment_walk(full, cur1, off - 1);
    let curoff = crate::lexer::advance_to(full, cur1, off);
    crate::lexer::lemma_advance_to_pos(full, cur1, off);
    assert(spec_next_token(full, start, false) == spec_next_token(full, curoff, false));
    lemma_next_token_in_range(full, curoff, false);
    assert(spec_tokenize_from(full, start) == spec_tokenize_from(full, curoff)) by {
        match spec_next_token(full, curoff, false) {
            SpecLexStep::Tok(t, c2) => {},
            SpecLexStep::Fail(e) => {},
        }
    }
    lemma_tokenize_shift(full, src, off, curoff, start);
}

} // verus!
