//! The parser: walks the scanner's tokens from first to last, building
//! the program tree by recursive descent, one function per production.
//!
//! The grammar is written down as spec functions over the token sequence
//! ([`spec_parse_program`] at the top); the contract of each parsing
//! function says it returns exactly what the corresponding spec production
//! gives — the same tree on success, the same message on failure.

use crate::ast::Component;
use crate::ast::GateType;
use crate::ast::Program;
use crate::ast::SpecComponent;
use crate::ast::SpecGateType;
use crate::ast::SpecProgram;
use crate::ast::SpecSubcircuit;
use crate::ast::Subcircuit;
use crate::ast::components_view;
use crate::ast::strings_view;
use crate::ast::table_view;
use crate::lexer::tokens_view;
use crate::token::SpecToken;
use crate::token::TokenKind;
use crate::token::token_eq;
use vstd::prelude::*;
use vstd::string::StringExecFns;

verus! {

// ---------------------------------------------------------------------------
// Error messages
// ---------------------------------------------------------------------------
/// The rendering of a token used inside error messages.
pub open spec fn spec_tok_text(t: SpecToken) -> Seq<char> {
    match t {
        SpecToken::Inputs => "Inputs"@,
        SpecToken::Outputs => "Outputs"@,
        SpecToken::In => "In"@,
        SpecToken::Out => "Out"@,
        SpecToken::Comma => "Comma"@,
        SpecToken::ParenOpen => "ParenOpen"@,
        SpecToken::ParenClose => "ParenClose"@,
        SpecToken::Newline => "Newline"@,
        SpecToken::Eof => "EOF"@,
        SpecToken::And => "And"@,
        SpecToken::Or => "Or"@,
        SpecToken::Not => "Not"@,
        SpecToken::Nand => "Nand"@,
        SpecToken::Nor => "Nor"@,
        SpecToken::Xor => "Xor"@,
        SpecToken::Xnor => "Xnor"@,
        SpecToken::Subcircuit => "Subcircuit"@,
        SpecToken::End => "End"@,
        SpecToken::Identifier(s) => "Identifier(\""@ + s + "\")"@,
    }
}

/// The rendering of the token the parser stood on, or of its absence.
pub open spec fn spec_found_text(found: Option<SpecToken>) -> Seq<char> {
    match found {
        Some(t) => spec_tok_text(t),
        None => "end of input"@,
    }
}

/// The message for meeting `found` where `exp` was required.
pub open spec fn msg_expected(exp: SpecToken, found: SpecToken) -> Seq<char> {
    "Expected "@ + spec_tok_text(exp) + ", found "@ + spec_tok_text(found)
}

/// The message for running out of tokens where `exp` was required.
pub open spec fn msg_end_of_input(exp: SpecToken) -> Seq<char> {
    "Unexpected end of input, expected "@ + spec_tok_text(exp)
}

/// The message for a token that cannot stand in a port-list section.
pub open spec fn msg_section(section: Seq<char>, found: Option<SpecToken>) -> Seq<char> {
    "Unexpected token in "@ + section + " section: "@ + spec_found_text(found)
}

/// The message for a token that cannot start or separate components.
pub open spec fn msg_component_list(found: Option<SpecToken>) -> Seq<char> {
    "Unexpected token in component list: "@ + spec_found_text(found)
}

/// The message for a token that names no gate type.
pub open spec fn msg_gate_type(found: Option<SpecToken>) -> Seq<char> {
    "Unexpected token for gate type: "@ + spec_found_text(found)
}

// ---------------------------------------------------------------------------
// The grammar, mathematically
// ---------------------------------------------------------------------------
/// What one production yields: a value and the position after it, or the
/// message of the first failure.
pub enum Parsed<T> {
    Done(T, int),
    Fail(Seq<char>),
}

/// The position of the first token at or after `pos` that is not a line
/// break (or the end of the tokens).
pub open spec fn spec_skip_newlines(toks: Seq<SpecToken>, pos: int) -> int
    decreases toks.len() - pos,
    when 0 <= pos <= toks.len()
{
    if pos < toks.len() && toks[pos] is Newline {
        spec_skip_newlines(toks, pos + 1)
    } else {
        pos
    }
}

/// Requiring one exact token: consume it, or fail naming it and what
/// stood there instead.
pub open spec fn spec_expect(toks: Seq<SpecToken>, pos: int, exp: SpecToken) -> Parsed<()> {
    if pos >= toks.len() {
        Parsed::Fail(msg_end_of_input(exp))
    } else if toks[pos] == exp {
        Parsed::Done((), pos + 1)
    } else {
        Parsed::Fail(msg_expected(exp, toks[pos]))
    }
}

/// The INPUTS/OUTPUTS port list: identifiers collected in order, commas
/// skipped, closed by the line break; anything else fails.
pub open spec fn spec_ports(
    toks: Seq<SpecToken>,
    pos: int,
    acc: Seq<Seq<char>>,
    section: Seq<char>,
) -> Parsed<Seq<Seq<char>>>
    decreases toks.len() - pos,
    when 0 <= pos <= toks.len()
{
    if pos >= toks.len() {
        Parsed::Fail(msg_section(section, None))
    } else {
        match toks[pos] {
            SpecToken::Identifier(s) => spec_ports(toks, pos + 1, acc.push(s), section),
            SpecToken::Comma => spec_ports(toks, pos + 1, acc, section),
            SpecToken::Newline => Parsed::Done(acc, pos + 1),
            _ => Parsed::Fail(msg_section(section, Some(toks[pos]))),
        }
    }
}

/// The INPUTS section: leading line breaks tolerated, then the keyword
/// and its port list.
pub open spec fn spec_inputs_section(toks: Seq<SpecToken>, pos: int) -> Parsed<Seq<Seq<char>>> {
    let p = spec_skip_newlines(toks, pos);
    match spec_expect(toks, p, SpecToken::Inputs) {
        Parsed::Done(u, p2) => spec_ports(toks, p2, Seq::empty(), "INPUTS"@),
        Parsed::Fail(e) => Parsed::Fail(e),
    }
}

/// The OUTPUTS section: the keyword straight away — no tolerance for
/// leading line breaks here — then its port list.
pub open spec fn spec_outputs_section(toks: Seq<SpecToken>, pos: int) -> Parsed<Seq<Seq<char>>> {
    match spec_expect(toks, pos, SpecToken::Outputs) {
        Parsed::Done(u, p2) => spec_ports(toks, p2, Seq::empty(), "OUTPUTS"@),
        Parsed::Fail(e) => Parsed::Fail(e),
    }
}

/// The parenthesised signal list of IN(...)/OUT(...): identifiers as long
/// as each is followed by a comma; never fails, the caller's closing
/// parenthesis check reports anything left over.
pub open spec fn spec_id_list(toks: Seq<SpecToken>, pos: int, acc: Seq<Seq<char>>) -> (
    Seq<Seq<char>>,
    int,
)
    decreases toks.len() - pos,
    when 0 <= pos <= toks.len()
{
    if pos < toks.len() {
        match toks[pos] {
            SpecToken::Identifier(s) => {
                let acc2 = acc.push(s);
                if pos + 1 < toks.len() && toks[pos + 1] is Comma {
                    spec_id_list(toks, pos + 2, acc2)
                } else {
                    (acc2, pos + 1)
                }
            },
            _ => (acc, pos),
        }
    } else {
        (acc, pos)
    }
}

/// Which kind of element a statement's first token picks out, if it can
/// open one at all.
pub open spec fn spec_gate_type(t: SpecToken) -> Option<SpecGateType> {
    match t {
        SpecToken::And => Some(SpecGateType::And),
        SpecToken::Or => Some(SpecGateType::Or),
        SpecToken::Not => Some(SpecGateType::Not),
        SpecToken::Nand => Some(SpecGateType::Nand),
        SpecToken::Nor => Some(SpecGateType::Nor),
        SpecToken::Xor => Some(SpecGateType::Xor),
        SpecToken::Xnor => Some(SpecGateType::Xnor),
        SpecToken::Identifier(s) => Some(SpecGateType::Subcircuit(s)),
        _ => None,
    }
}

/// The IN(...) OUT(...) tail of a component whose gate type and instance
/// identifier are already fixed.
pub open spec fn spec_component_io(
    toks: Seq<SpecToken>,
    pos: int,
    g: SpecGateType,
    ident: Seq<char>,
) -> Parsed<SpecComponent> {
    match spec_expect(toks, pos, SpecToken::In) {
        Parsed::Fail(e) => Parsed::Fail(e),
        Parsed::Done(u1, p1) => match spec_expect(toks, p1, SpecToken::ParenOpen) {
            Parsed::Fail(e) => Parsed::Fail(e),
            Parsed::Done(u2, p2) => {
                let (ins, p3) = spec_id_list(toks, p2, Seq::empty());
                match spec_expect(toks, p3, SpecToken::ParenClose) {
                    Parsed::Fail(e) => Parsed::Fail(e),
                    Parsed::Done(u3, p4) => match spec_expect(toks, p4, SpecToken::Out) {
                        Parsed::Fail(e) => Parsed::Fail(e),
                        Parsed::Done(u4, p5) => match spec_expect(toks, p5, SpecToken::ParenOpen) {
                            Parsed::Fail(e) => Parsed::Fail(e),
                            Parsed::Done(u5, p6) => {
                                let (outs, p7) = spec_id_list(toks, p6, Seq::empty());
                                match spec_expect(toks, p7, SpecToken::ParenClose) {
                                    Parsed::Fail(e) => Parsed::Fail(e),
                                    Parsed::Done(u6, p8) => Parsed::Done(
                                        SpecComponent {
                                            gate_type: g,
                                            identifier: ident,
                                            inputs: ins,
                                            outputs: outs,
                                        },
                                        p8,
                                    ),
                                }
                            },
                        },
                    },
                }
            },
        },
    }
}

/// The instance identifier of a component: mandatory after a primitive
/// gate keyword, absent — an empty name — for a subcircuit call.
pub open spec fn spec_component_ident(
    toks: Seq<SpecToken>,
    pos: int,
    g: SpecGateType,
) -> Parsed<SpecComponent> {
    if g is Subcircuit {
        spec_component_io(toks, pos, g, Seq::empty())
    } else if pos < toks.len() {
        match toks[pos] {
            SpecToken::Identifier(s) => spec_component_io(toks, pos + 1, g, s),
            _ => Parsed::Fail("Expected identifier for component"@),
        }
    } else {
        Parsed::Fail("Expected identifier for component"@)
    }
}

/// One component statement.
pub open spec fn spec_component(toks: Seq<SpecToken>, pos: int) -> Parsed<SpecComponent> {
    if pos >= toks.len() {
        Parsed::Fail(msg_gate_type(None))
    } else {
        match spec_gate_type(toks[pos]) {
            None => Parsed::Fail(msg_gate_type(Some(toks[pos]))),
            Some(g) => spec_component_ident(toks, pos + 1, g),
        }
    }
}

/// The component list: components and bare line breaks until `END` or the
/// end of input; any other token fails. The guard on the recursion always
/// holds, by [`lemma_component_range`].
pub open spec fn spec_component_list(
    toks: Seq<SpecToken>,
    pos: int,
    acc: Seq<SpecComponent>,
) -> Parsed<Seq<SpecComponent>>
    decreases toks.len() - pos,
    when 0 <= pos <= toks.len()
{
    if pos >= toks.len() {
        Parsed::Done(acc, pos)
    } else {
        match toks[pos] {
            SpecToken::Newline => spec_component_list(toks, pos + 1, acc),
            SpecToken::End => Parsed::Done(acc, pos),
            SpecToken::Eof => Parsed::Done(acc, pos),
            SpecToken::And | SpecToken::Or | SpecToken::Not | SpecToken::Nand | SpecToken::Nor
                | SpecToken::Xor | SpecToken::Xnor | SpecToken::Identifier(_) => {
                match spec_component(toks, pos) {
                    Parsed::Fail(e) => Parsed::Fail(e),
                    Parsed::Done(c, p2) => {
                        if pos < p2 <= toks.len() {
                            spec_component_list(toks, p2, acc.push(c))
                        } else {
                            Parsed::Done(acc.push(c), p2)
                        }
                    },
                }
            },
            _ => Parsed::Fail(msg_component_list(Some(toks[pos]))),
        }
    }
}

/// One SUBCIRCUIT ... END block.
pub open spec fn spec_subcircuit(toks: Seq<SpecToken>, pos: int) -> Parsed<SpecSubcircuit> {
    match spec_expect(toks, pos, SpecToken::Subcircuit) {
        Parsed::Fail(e) => Parsed::Fail(e),
        Parsed::Done(u1, p1) => {
            if p1 < toks.len() && toks[p1] is Identifier {
                let name = toks[p1]->Identifier_0;
                match spec_expect(toks, p1 + 1, SpecToken::Newline) {
                    Parsed::Fail(e) => Parsed::Fail(e),
                    Parsed::Done(u2, p2) => match spec_inputs_section(toks, p2) {
                        Parsed::Fail(e) => Parsed::Fail(e),
                        Parsed::Done(ins, p3) => match spec_outputs_section(toks, p3) {
                            Parsed::Fail(e) => Parsed::Fail(e),
                            Parsed::Done(outs, p4) => match spec_component_list(
                                toks,
                                p4,
                                Seq::empty(),
                            ) {
                                Parsed::Fail(e) => Parsed::Fail(e),
                                Parsed::Done(cs, p5) => match spec_expect(
                                    toks,
                                    p5,
                                    SpecToken::End,
                                ) {
                                    Parsed::Fail(e) => Parsed::Fail(e),
                                    Parsed::Done(u3, p6) => match spec_expect(
                                        toks,
                                        p6,
                                        SpecToken::Newline,
                                    ) {
                                        Parsed::Fail(e) => Parsed::Fail(e),
                                        Parsed::Done(u4, p7) => Parsed::Done(
                                            SpecSubcircuit {
                                                name: name,
                                                inputs: ins,
                                                outputs: outs,
                                                components: cs,
                                            },
                                            p7,
                                        ),
                                    },
                                },
                            },
                        },
                    },
                }
            } else {
                Parsed::Fail("Expected subcircuit name"@)
            }
        },
    }
}

/// The leading run of subcircuit definitions, collected into the name
/// table; a later definition of a name silently overwrites an earlier
/// one. The guard on the recursion always holds, by
/// [`lemma_subcircuit_range`].
pub open spec fn spec_subcircuits(
    toks: Seq<SpecToken>,
    pos: int,
    acc: Map<Seq<char>, SpecSubcircuit>,
) -> Parsed<Map<Seq<char>, SpecSubcircuit>>
    decreases toks.len() - pos,
    when 0 <= pos <= toks.len()
{
    if pos < toks.len() && toks[pos] is Subcircuit {
        match spec_subcircuit(toks, pos) {
            Parsed::Fail(e) => Parsed::Fail(e),
            Parsed::Done(sc, p2) => {
                if pos < p2 <= toks.len() {
                    spec_subcircuits(toks, p2, acc.insert(sc.name, sc))
                } else {
                    Parsed::Done(acc.insert(sc.name, sc), p2)
                }
            },
        }
    } else {
        Parsed::Done(acc, pos)
    }
}

/// The whole program: subcircuit definitions first, then the top-level
/// interface and netlist. Tokens after the component list stops are left
/// unread, as the grammar has no terminator of its own.
pub open spec fn spec_parse_program(toks: Seq<SpecToken>, pos: int) -> Result<
    SpecProgram,
    Seq<char>,
> {
    match spec_subcircuits(toks, pos, Map::empty()) {
        Parsed::Fail(e) => Err(e),
        Parsed::Done(subs, p1) => match spec_inputs_section(toks, p1) {
            Parsed::Fail(e) => Err(e),
            Parsed::Done(ins, p2) => match spec_outputs_section(toks, p2) {
                Parsed::Fail(e) => Err(e),
                Parsed::Done(outs, p3) => match spec_component_list(toks, p3, Seq::empty()) {
                    Parsed::Fail(e) => Err(e),
                    Parsed::Done(cs, p4) => Ok(
                        SpecProgram {
                            subcircuits: subs,
                            inputs: ins,
                            outputs: outs,
                            components: cs,
                        },
                    ),
                },
            },
        },
    }
}

/// The whole pipeline on a source text: scan it, then parse the tokens;
/// a scan error is reported through its message method's text elsewhere,
/// so this distinguishes the two failure kinds.
pub open spec fn spec_parse_source(src: Seq<char>) -> Result<
    SpecProgram,
    Result<Seq<char>, crate::lexer::SpecLexError>,
> {
    match crate::lexer::spec_tokenize(src) {
        Err(e) => Err(Err(e)),
        Ok(ts) => match spec_parse_program(ts, 0) {
            Err(m) => Err(Ok(m)),
            Ok(p) => Ok(p),
        },
    }
}

// ---------------------------------------------------------------------------
// Bounds of the productions
// ---------------------------------------------------------------------------
pub proof fn lemma_skip_newlines_range(toks: Seq<SpecToken>, pos: int)
    requires
        0 <= pos <= toks.len(),
    ensures
        pos <= spec_skip_newlines(toks, pos) <= toks.len(),
    decreases toks.len() - pos,
{
    if pos < toks.len() && toks[pos] is Newline {
        lemma_skip_newlines_range(toks, pos + 1);
    }
}

pub proof fn lemma_ports_range(toks: Seq<SpecToken>, pos: int, acc: Seq<Seq<char>>, section: Seq<char>)
    requires
        0 <= pos <= toks.len(),
    ensures
        match spec_ports(toks, pos, acc, section) {
            Parsed::Done(v, p2) => pos < p2 <= toks.len(),
            Parsed::Fail(e) => true,
        },
    decreases toks.len() - pos,
{
    if pos < toks.len() {
        match toks[pos] {
            SpecToken::Identifier(s) => lemma_ports_range(toks, pos + 1, acc.push(s), section),
            SpecToken::Comma => lemma_ports_range(toks, pos + 1, acc, section),
            _ => {},
        }
    }
}

pub proof fn lemma_id_list_range(toks: Seq<SpecToken>, pos: int, acc: Seq<Seq<char>>)
    requires
        0 <= pos <= toks.len(),
    ensures
        pos <= spec_id_list(toks, pos, acc).1 <= toks.len(),
    decreases toks.len() - pos,
{
    if pos < toks.len() {
        match toks[pos] {
            SpecToken::Identifier(s) => {
                if pos + 1 < toks.len() && toks[pos + 1] is Comma {
                    lemma_id_list_range(toks, pos + 2, acc.push(s));
                }
            },
            _ => {},
        }
    }
}

pub proof fn lemma_inputs_section_range(toks: Seq<SpecToken>, pos: int)
    requires
        0 <= pos <= toks.len(),
    ensures
        match spec_inputs_section(toks, pos) {
            Parsed::Done(v, p2) => pos < p2 <= toks.len(),
            Parsed::Fail(e) => true,
        },
{
    lemma_skip_newlines_range(toks, pos);
    let p = spec_skip_newlines(toks, pos);
    if p < toks.len() && toks[p] == SpecToken::Inputs {
        lemma_ports_range(toks, p + 1, Seq::empty(), "INPUTS"@);
    }
}

pub proof fn lemma_outputs_section_range(toks: Seq<SpecToken>, pos: int)
    requires
        0 <= pos <= toks.len(),
    ensures
        match spec_outputs_section(toks, pos) {
            Parsed::Done(v, p2) => pos < p2 <= toks.len(),
            Parsed::Fail(e) => true,
        },
{
    if pos < toks.len() && toks[pos] == SpecToken::Outputs {
        lemma_ports_range(toks, pos + 1, Seq::empty(), "OUTPUTS"@);
    }
}

pub proof fn lemma_component_range(toks: Seq<SpecToken>, pos: int)
    requires
        0 <= pos <= toks.len(),
    ensures
        match spec_component(toks, pos) {
            Parsed::Done(c, p2) => pos < p2 <= toks.len(),
            Parsed::Fail(e) => true,
        },
{
    if pos < toks.len() {
        match spec_gate_type(toks[pos]) {
            None => {},
            Some(g) => {
                let p1 = if g is Subcircuit {
                    pos + 1
                } else {
                    pos + 2
                };
                if p1 <= toks.len() {
                    if p1 < toks.len() && toks[p1] == SpecToken::In {
                        if p1 + 1 < toks.len() && toks[p1 + 1] == SpecToken::ParenOpen {
                            lemma_id_list_range(toks, p1 + 2, Seq::empty());
                            let p3 = spec_id_list(toks, p1 + 2, Seq::empty()).1;
                            if p3 < toks.len() && toks[p3] == SpecToken::ParenClose {
                                if p3 + 1 < toks.len() && toks[p3 + 1] == SpecToken::Out {
                                    if p3 + 2 < toks.len() && toks[p3 + 2]
                                        == SpecToken::ParenOpen {
                                        lemma_id_list_range(toks, p3 + 3, Seq::empty());
                                    }
                                }
                            }
                        }
                    }
                }
            },
        }
    }
}

pub proof fn lemma_subcircuit_range(toks: Seq<SpecToken>, pos: int)
    requires
        0 <= pos <= toks.len(),
    ensures
        match spec_subcircuit(toks, pos) {
            Parsed::Done(sc, p2) => pos < p2 <= toks.len(),
            Parsed::Fail(e) => true,
        },
{
    if pos < toks.len() && toks[pos] == SpecToken::Subcircuit {
        let p1 = pos + 1;
        if p1 < toks.len() && toks[p1] is Identifier {
            if p1 + 1 < toks.len() && toks[p1 + 1] == SpecToken::Newline {
                let p2 = p1 + 2;
                lemma_inputs_section_range(toks, p2);
                match spec_inputs_section(toks, p2) {
                    Parsed::Fail(e) => {},
                    Parsed::Done(ins, p3) => {
                        lemma_outputs_section_range(toks, p3);
                        match spec_outputs_section(toks, p3) {
                            Parsed::Fail(e) => {},
                            Parsed::Done(outs, p4) => {
                                lemma_component_list_range(toks, p4, Seq::empty());
                            },
                        }
                    },
                }
            }
        }
    }
}

pub proof fn lemma_component_list_range(toks: Seq<SpecToken>, pos: int, acc: Seq<SpecComponent>)
    requires
        0 <= pos <= toks.len(),
    ensures
        match spec_component_list(toks, pos, acc) {
            Parsed::Done(cs, p2) => pos <= p2 <= toks.len(),
            Parsed::Fail(e) => true,
        },
    decreases toks.len() - pos,
{
    if pos < toks.len() {
        match toks[pos] {
            SpecToken::Newline => {
                lemma_component_list_range(toks, pos + 1, acc);
            },
            SpecToken::And | SpecToken::Or | SpecToken::Not | SpecToken::Nand | SpecToken::Nor
                | SpecToken::Xor | SpecToken::Xnor | SpecToken::Identifier(_) => {
                lemma_component_range(toks, pos);
                match spec_component(toks, pos) {
                    Parsed::Fail(e) => {},
                    Parsed::Done(c, p2) => {
                        lemma_component_list_range(toks, p2, acc.push(c));
                    },
                }
            },
            _ => {},
        }
    }
}

} // verus!

verus! {

// ---------------------------------------------------------------------------
// Building error messages
// ---------------------------------------------------------------------------
/// The rendering of a token, as [`spec_tok_text`] describes it.
fn tok_text(t: &TokenKind) -> (r: String)
    ensures
        r@ == spec_tok_text(t@),
{
    match t {
        TokenKind::Inputs => String::from_str("Inputs"),
        TokenKind::Outputs => String::from_str("Outputs"),
        TokenKind::In => String::from_str("In"),
        TokenKind::Out => String::from_str("Out"),
        TokenKind::Comma => String::from_str("Comma"),
        TokenKind::ParenOpen => String::from_str("ParenOpen"),
        TokenKind::ParenClose => String::from_str("ParenClose"),
        TokenKind::Newline => String::from_str("Newline"),
        TokenKind::EOF => String::from_str("EOF"),
        TokenKind::And => String::from_str("And"),
        TokenKind::Or => String::from_str("Or"),
        TokenKind::Not => String::from_str("Not"),
        TokenKind::Nand => String::from_str("Nand"),
        TokenKind::Nor => String::from_str("Nor"),
        TokenKind::Xor => String::from_str("Xor"),
        TokenKind::Xnor => String::from_str("Xnor"),
        TokenKind::Subcircuit => String::from_str("Subcircuit"),
        TokenKind::End => String::from_str("End"),
        TokenKind::Identifier(s) => {
            let mut out = String::from_str("Identifier(\"");
            out.append(s.as_str());
            out.append("\")");
            out
        },
    }
}

/// The view of the token the parser stands on, if any.
pub open spec fn found_view(found: Option<&TokenKind>) -> Option<SpecToken> {
    match found {
        Some(t) => Some(t@),
        None => None,
    }
}

/// The rendering of the token the parser stands on, or of its absence.
fn found_text(found: Option<&TokenKind>) -> (r: String)
    ensures
        r@ == spec_found_text(found_view(found)),
{
    match found {
        Some(t) => tok_text(t),
        None => String::from_str("end of input"),
    }
}

/// Builds the message of [`msg_expected`].
fn make_expected_msg(exp: &TokenKind, found: &TokenKind) -> (r: String)
    ensures
        r@ == msg_expected(exp@, found@),
{
    let mut out = String::from_str("Expected ");
    out.append(tok_text(exp).as_str());
    out.append(", found ");
    out.append(tok_text(found).as_str());
    out
}

/// Builds the message of [`msg_end_of_input`].
fn make_end_of_input_msg(exp: &TokenKind) -> (r: String)
    ensures
        r@ == msg_end_of_input(exp@),
{
    let mut out = String::from_str("Unexpected end of input, expected ");
    out.append(tok_text(exp).as_str());
    out
}

/// Builds the message of [`msg_section`].
fn make_section_msg(section: &str, found: Option<&TokenKind>) -> (r: String)
    ensures
        r@ == msg_section(section@, found_view(found)),
{
    let mut out = String::from_str("Unexpected token in ");
    out.append(section);
    out.append(" section: ");
    out.append(found_text(found).as_str());
    out
}

/// Builds the message of [`msg_component_list`].
fn make_component_list_msg(found: Option<&TokenKind>) -> (r: String)
    ensures
        r@ == msg_component_list(found_view(found)),
{
    let mut out = String::from_str("Unexpected token in component list: ");
    out.append(found_text(found).as_str());
    out
}

/// Builds the message of [`msg_gate_type`].
fn make_gate_type_msg(found: Option<&TokenKind>) -> (r: String)
    ensures
        r@ == msg_gate_type(found_view(found)),
{
    let mut out = String::from_str("Unexpected token for gate type: ");
    out.append(found_text(found).as_str());
    out
}

// ---------------------------------------------------------------------------
// The parser itself
// ---------------------------------------------------------------------------
/// The parser: the materialized token list and the index of the token it
/// stands on. It consumes the tokens once, left to right, and never backs
/// up.
pub struct Parser {
    tokens: Vec<TokenKind>,
    position: usize,
}

impl Parser {
    /// The views of the tokens being parsed.
    pub closed spec fn toks(&self) -> Seq<SpecToken> {
        tokens_view(self.tokens@)
    }

    /// The index of the token the parser stands on.
    pub closed spec fn pos(&self) -> int {
        self.position as int
    }

    /// The parser never stands past the end of its tokens.
    pub closed spec fn wf(&self) -> bool {
        self.position <= self.tokens.len()
    }

    /// Makes a parser standing on the first of the given tokens.
    pub fn new(tokens: Vec<TokenKind>) -> (r: Self)
        ensures
            r.wf(),
            r.toks() == tokens_view(tokens@),
            r.pos() == 0,
    {
        Parser { tokens, position: 0 }
    }

    /// The token the parser stands on, or nothing at the end.
    fn current_token(&self) -> (r: Option<&TokenKind>)
        requires
            self.wf(),
        ensures
            match r {
                Some(t) => self.pos() < self.toks().len() && t@ == self.toks()[self.pos()],
                None => self.pos() >= self.toks().len(),
            },
    {
        if self.position < self.tokens.len() {
            Some(&self.tokens[self.position])
        } else {
            None
        }
    }

    /// Steps over the token the parser stands on.
    fn advance(&mut self)
        requires
            old(self).wf(),
            old(self).pos() < old(self).toks().len(),
        ensures
            final(self).wf(),
            final(self).toks() == old(self).toks(),
            final(self).pos() == old(self).pos() + 1,
    {
        self.position = self.position + 1;
    }

    /// Requires the exact token `expected` next: consumes it, or reports
    /// it together with what stood there — exactly [`spec_expect`].
    fn expect(&mut self, expected: TokenKind) -> (r: Result<(), String>)
        requires
            old(self).wf(),
        ensures
            final(self).wf(),
            final(self).toks() == old(self).toks(),
            match r {
                Ok(u) => spec_expect(old(self).toks(), old(self).pos(), expected@)
                    == Parsed::Done((), final(self).pos()),
                Err(e) => spec_expect(old(self).toks(), old(self).pos(), expected@)
                    == Parsed::<()>::Fail(e@) && final(self).pos() == old(self).pos(),
            },
    {
        match self.current_token() {
            Some(t) => {
                if token_eq(t, &expected) {
                    self.advance();
                    Ok(())
                } else {
                    Err(make_expected_msg(&expected, t))
                }
            },
            None => Err(make_end_of_input_msg(&expected)),
        }
    }
}

} // verus!

verus! {

impl Parser {
    /// The INPUTS/OUTPUTS port-list loop both sections share: identifiers
    /// collected in order, commas skipped, closed by the line break —
    /// exactly [`spec_ports`] from the position the call starts at.
    fn parse_port_list(&mut self, section: &str) -> (r: Result<Vec<String>, String>)
        requires
            old(self).wf(),
        ensures
            final(self).wf(),
            final(self).toks() == old(self).toks(),
            match r {
                Ok(v) => spec_ports(old(self).toks(), old(self).pos(), Seq::empty(), section@)
                    == Parsed::Done(strings_view(v@), final(self).pos()),
                Err(e) => spec_ports(old(self).toks(), old(self).pos(), Seq::empty(), section@)
                    == Parsed::<Seq<Seq<char>>>::Fail(e@),
            },
    {
        let mut ports: Vec<String> = Vec::new();
        proof {
            assert(strings_view(ports@) =~= Seq::<Seq<char>>::empty());
        }
        loop
            invariant
                self.wf(),
                self.toks() == old(self).toks(),
                spec_ports(old(self).toks(), old(self).pos(), Seq::empty(), section@)
                    == spec_ports(self.toks(), self.pos(), strings_view(ports@), section@),
            decreases self.toks().len() - self.pos(),
        {
            let ghost prev = ports@;
            match self.current_token() {
                Some(t) => match t {
                    TokenKind::Identifier(name) => {
                        let id = name.clone();
                        let ghost idv = id@;
                        self.advance();
                        ports.push(id);
                        proof {
                            assert(strings_view(ports@) =~= strings_view(prev).push(idv));
                        }
                    },
                    TokenKind::Comma => {
                        self.advance();
                    },
                    TokenKind::Newline => {
                        self.advance();
                        return Ok(ports);
                    },
                    _ => {
                        return Err(make_section_msg(section, Some(t)));
                    },
                },
                None => {
                    return Err(make_section_msg(section, None));
                },
            }
        }
    }

    /// The INPUTS section: tolerates leading blank lines, requires the
    /// keyword, and collects its port list — exactly
    /// [`spec_inputs_section`].
    fn parse_inputs_section(&mut self) -> (r: Result<Vec<String>, String>)
        requires
            old(self).wf(),
        ensures
            final(self).wf(),
            final(self).toks() == old(self).toks(),
            match r {
                Ok(v) => spec_inputs_section(old(self).toks(), old(self).pos()) == Parsed::Done(
                    strings_view(v@),
                    final(self).pos(),
                ),
                Err(e) => spec_inputs_section(old(self).toks(), old(self).pos())
                    == Parsed::<Seq<Seq<char>>>::Fail(e@),
            },
    {
        loop
            invariant
                self.wf(),
                self.toks() == old(self).toks(),
                spec_skip_newlines(self.toks(), old(self).pos()) == spec_skip_newlines(
                    self.toks(),
                    self.pos(),
                ),
            ensures
                self.wf(),
                self.toks() == old(self).toks(),
                self.pos() == spec_skip_newlines(self.toks(), old(self).pos()),
            decreases self.toks().len() - self.pos(),
        {
            match self.current_token() {
                Some(t) => {
                    if matches!(t, TokenKind::Newline) {
                        self.advance();
                    } else {
                        break ;
                    }
                },
                None => {
                    break ;
                },
            }
        }
        match self.expect(TokenKind::Inputs) {
            Err(e) => Err(e),
            Ok(u) => self.parse_port_list("INPUTS"),
        }
    }

    /// The OUTPUTS section: the keyword straight away — a blank line here
    /// is a hard error — then its port list; exactly
    /// [`spec_outputs_section`].
    fn parse_outputs_section(&mut self) -> (r: Result<Vec<String>, String>)
        requires
            old(self).wf(),
        ensures
            final(self).wf(),
            final(self).toks() == old(self).toks(),
            match r {
                Ok(v) => spec_outputs_section(old(self).toks(), old(self).pos()) == Parsed::Done(
                    strings_view(v@),
                    final(self).pos(),
                ),
                Err(e) => spec_outputs_section(old(self).toks(), old(self).pos())
                    == Parsed::<Seq<Seq<char>>>::Fail(e@),
            },
    {
        match self.expect(TokenKind::Outputs) {
            Err(e) => Err(e),
            Ok(u) => self.parse_port_list("OUTPUTS"),
        }
    }

    /// The parenthesised signal list of IN(...)/OUT(...): identifiers as
    /// long as each is followed by a comma — exactly [`spec_id_list`],
    /// which never fails.
    fn parse_id_list(&mut self) -> (r: Vec<String>)
        requires
            old(self).wf(),
        ensures
            final(self).wf(),
            final(self).toks() == old(self).toks(),
            spec_id_list(old(self).toks(), old(self).pos(), Seq::empty()) == (
                strings_view(r@),
                final(self).pos(),
            ),
    {
        let mut ids: Vec<String> = Vec::new();
        proof {
            assert(strings_view(ids@) =~= Seq::<Seq<char>>::empty());
        }
        loop
            invariant_except_break
                spec_id_list(old(self).toks(), old(self).pos(), Seq::empty()) == spec_id_list(
                    self.toks(),
                    self.pos(),
                    strings_view(ids@),
                ),
            invariant
                self.wf(),
                self.toks() == old(self).toks(),
            ensures
                self.wf(),
                self.toks() == old(self).toks(),
                spec_id_list(old(self).toks(), old(self).pos(), Seq::empty()) == (
                    strings_view(ids@),
                    self.pos(),
                ),
            decreases self.toks().len() - self.pos(),
        {
            let ghost prev = ids@;
            match self.current_token() {
                Some(t) => match t {
                    TokenKind::Identifier(name) => {
                        let id = name.clone();
                        let ghost idv = id@;
                        self.advance();
                        ids.push(id);
                        proof {
                            assert(strings_view(ids@) =~= strings_view(prev).push(idv));
                        }
                        match self.current_token() {
                            Some(t2) => {
                                if matches!(t2, TokenKind::Comma) {
                                    self.advance();
                                } else {
                                    break ;
                                }
                            },
                            None => {
                                break ;
                            },
                        }
                    },
                    _ => {
                        break ;
                    },
                },
                None => {
                    break ;
                },
            }
        }
        ids
    }
}

} // verus!

verus! {

impl Parser {
    /// Parses one statement of the netlist: its kind, its name where the
    /// grammar carries one, and its wired signals; exactly
    /// [`spec_component`].
    fn parse_component(&mut self) -> (r: Result<Component, String>)
        requires
            old(self).wf(),
        ensures
            final(self).wf(),
            final(self).toks() == old(self).toks(),
            match r {
                Ok(c) => spec_component(old(self).toks(), old(self).pos()) == Parsed::Done(
                    c@,
                    final(self).pos(),
                ),
                Err(e) => spec_component(old(self).toks(), old(self).pos())
                    == Parsed::<SpecComponent>::Fail(e@),
            },
    {
        let gate_type: GateType = match self.current_token() {
            Some(t) => match t {
                TokenKind::And => GateType::And,
                TokenKind::Or => GateType::Or,
                TokenKind::Not => GateType::Not,
                TokenKind::Nand => GateType::Nand,
                TokenKind::Nor => GateType::Nor,
                TokenKind::Xor => GateType::Xor,
                TokenKind::Xnor => GateType::Xnor,
                TokenKind::Identifier(name) => GateType::Subcircuit(name.clone()),
                _ => {
                    return Err(make_gate_type_msg(Some(t)));
                },
            },
            None => {
                return Err(make_gate_type_msg(None));
            },
        };
        self.advance();
        let identifier: String = if matches!(gate_type, GateType::Subcircuit(_)) {
            String::new()
        } else {
            match self.current_token() {
                Some(t) => match t {
                    TokenKind::Identifier(name) => {
                        let id = name.clone();
                        self.advance();
                        id
                    },
                    _ => {
                        return Err(String::from_str("Expected identifier for component"));
                    },
                },
                None => {
                    return Err(String::from_str("Expected identifier for component"));
                },
            }
        };
        match self.expect(TokenKind::In) {
            Err(e) => {
                return Err(e);
            },
            Ok(u) => {},
        }
        match self.expect(TokenKind::ParenOpen) {
            Err(e) => {
                return Err(e);
            },
            Ok(u) => {},
        }
        let inputs = self.parse_id_list();
        match self.expect(TokenKind::ParenClose) {
            Err(e) => {
                return Err(e);
            },
            Ok(u) => {},
        }
        match self.expect(TokenKind::Out) {
            Err(e) => {
                return Err(e);
            },
            Ok(u) => {},
        }
        match self.expect(TokenKind::ParenOpen) {
            Err(e) => {
                return Err(e);
            },
            Ok(u) => {},
        }
        let outputs = self.parse_id_list();
        match self.expect(TokenKind::ParenClose) {
            Err(e) => {
                return Err(e);
            },
            Ok(u) => {},
        }
        Ok(Component { gate_type, identifier, inputs, outputs })
    }

    /// The component list: statements and bare line breaks until `END` or
    /// the end of input; exactly [`spec_component_list`].
    fn parse_component_list(&mut self) -> (r: Result<Vec<Component>, String>)
        requires
            old(self).wf(),
        ensures
            final(self).wf(),
            final(self).toks() == old(self).toks(),
            match r {
                Ok(v) => spec_component_list(old(self).toks(), old(self).pos(), Seq::empty())
                    == Parsed::Done(components_view(v@), final(self).pos()),
                Err(e) => spec_component_list(old(self).toks(), old(self).pos(), Seq::empty())
                    == Parsed::<Seq<SpecComponent>>::Fail(e@),
            },
    {
        let mut components: Vec<Component> = Vec::new();
        proof {
            assert(components_view(components@) =~= Seq::<SpecComponent>::empty());
        }
        loop
            invariant
                self.wf(),
                self.toks() == old(self).toks(),
                spec_component_list(old(self).toks(), old(self).pos(), Seq::empty())
                    == spec_component_list(self.toks(), self.pos(), components_view(components@)),
            ensures
                self.wf(),
                self.toks() == old(self).toks(),
                spec_component_list(old(self).toks(), old(self).pos(), Seq::empty())
                    == Parsed::Done(components_view(components@), self.pos()),
            decreases self.toks().len() - self.pos(),
        {
            let ghost prev = components@;
            let ghost pos0 = self.pos();
            let start = match self.current_token() {
                Some(t) => match t {
                    TokenKind::And | TokenKind::Or | TokenKind::Not | TokenKind::Nand
                        | TokenKind::Nor | TokenKind::Xor | TokenKind::Xnor
                        | TokenKind::Identifier(_) => true,
                    TokenKind::Newline => false,
                    TokenKind::End => {
                        break ;
                    },
                    TokenKind::EOF => {
                        break ;
                    },
                    _ => {
                        return Err(make_component_list_msg(Some(t)));
                    },
                },
                None => {
                    break ;
                },
            };
            if start {
                match self.parse_component() {
                    Ok(c) => {
                        proof {
                            lemma_component_range(self.toks(), pos0);
                        }
                        let ghost cv = c@;
                        components.push(c);
                        proof {
                            assert(components_view(components@) =~= components_view(prev).push(
                                cv,
                            ));
                        }
                    },
                    Err(e) => {
                        return Err(e);
                    },
                }
            } else {
                self.advance();
            }
        }
        Ok(components)
    }

    /// One SUBCIRCUIT ... END block, its body parsed with the same
    /// productions as the top level; exactly [`spec_subcircuit`].
    fn parse_subcircuit(&mut self) -> (r: Result<Subcircuit, String>)
        requires
            old(self).wf(),
        ensures
            final(self).wf(),
            final(self).toks() == old(self).toks(),
            match r {
                Ok(sc) => spec_subcircuit(old(self).toks(), old(self).pos()) == Parsed::Done(
                    sc@,
                    final(self).pos(),
                ),
                Err(e) => spec_subcircuit(old(self).toks(), old(self).pos())
                    == Parsed::<SpecSubcircuit>::Fail(e@),
            },
    {
        match self.expect(TokenKind::Subcircuit) {
            Err(e) => {
                return Err(e);
            },
            Ok(u) => {},
        }
        let name = match self.current_token() {
            Some(t) => match t {
                TokenKind::Identifier(n) => n.clone(),
                _ => {
                    return Err(String::from_str("Expected subcircuit name"));
                },
            },
            None => {
                return Err(String::from_str("Expected subcircuit name"));
            },
        };
        self.advance();
        match self.expect(TokenKind::Newline) {
            Err(e) => {
                return Err(e);
            },
            Ok(u) => {},
        }
        let inputs = match self.parse_inputs_section() {
            Ok(v) => v,
            Err(e) => {
                return Err(e);
            },
        };
        let outputs = match self.parse_outputs_section() {
            Ok(v) => v,
            Err(e) => {
                return Err(e);
            },
        };
        let components = match self.parse_component_list() {
            Ok(v) => v,
            Err(e) => {
                return Err(e);
            },
        };
        match self.expect(TokenKind::End) {
            Err(e) => {
                return Err(e);
            },
            Ok(u) => {},
        }
        match self.expect(TokenKind::Newline) {
            Err(e) => {
                return Err(e);
            },
            Ok(u) => {},
        }
        Ok(Subcircuit { name, inputs, outputs, components })
    }

    /// The whole program: the leading subcircuit definitions — a later
    /// definition of a name silently overwriting an earlier one — then
    /// the top-level INPUTS and OUTPUTS sections and the component list;
    /// exactly [`spec_parse_program`] on the tokens from the position the
    /// call starts at. On failure the first error's message is handed
    /// back unchanged and no program is produced.
    pub fn parse_program(&mut self) -> (r: Result<Program, String>)
        requires
            old(self).wf(),
        ensures
            final(self).wf(),
            final(self).toks() == old(self).toks(),
            match r {
                Ok(p) => spec_parse_program(old(self).toks(), old(self).pos()) == Ok::<
                    _,
                    Seq<char>,
                >(p@),
                Err(e) => spec_parse_program(old(self).toks(), old(self).pos()) == Err::<
                    SpecProgram,
                    _,
                >(e@),
            },
    {
        let mut subcircuits: Vec<Subcircuit> = Vec::new();
        loop
            invariant
                self.wf(),
                self.toks() == old(self).toks(),
                spec_subcircuits(old(self).toks(), old(self).pos(), Map::empty())
                    == spec_subcircuits(self.toks(), self.pos(), table_view(subcircuits@)),
            ensures
                self.wf(),
                self.toks() == old(self).toks(),
                spec_subcircuits(old(self).toks(), old(self).pos(), Map::empty()) == Parsed::Done(
                    table_view(subcircuits@),
                    self.pos(),
                ),
            decreases self.toks().len() - self.pos(),
        {
            let ghost prev = subcircuits@;
            let ghost pos0 = self.pos();
            let is_def = match self.current_token() {
                Some(t) => matches!(t, TokenKind::Subcircuit),
                None => {
                    break ;
                },
            };
            if is_def {
                match self.parse_subcircuit() {
                    Ok(sc) => {
                        proof {
                            lemma_subcircuit_range(self.toks(), pos0);
                        }
                        subcircuits.push(sc);
                        proof {
                            assert(subcircuits@.drop_last() =~= prev);
                        }
                    },
                    Err(e) => {
                        return Err(e);
                    },
                }
            } else {
                break ;
            }
        }
        let inputs = match self.parse_inputs_section() {
            Ok(v) => v,
            Err(e) => {
                return Err(e);
            },
        };
        let outputs = match self.parse_outputs_section() {
            Ok(v) => v,
            Err(e) => {
                return Err(e);
            },
        };
        let components = match self.parse_component_list() {
            Ok(v) => v,
            Err(e) => {
                return Err(e);
            },
        };
        Ok(Program { subcircuits, inputs, outputs, components })
    }
}

} // verus!
