//! The gisp grammar: a tokenizer and a recursive-descent parser, each
//! implemented against a specification-level definition of the grammar.
//!
//! ```text
//! Query      := "(" "match" Vertices? Arcs? Edges? Where? ")"
//! Vertices   := "(" "vertices" Vertex* ")"
//! Vertex     := "(" "u" Integer Integer ")"
//! Arcs       := "(" "arcs" ArcEdge* ")"
//! Edges      := "(" "edges" ArcEdge* ")"
//! ArcEdge    := "(" "u" Integer "u" Integer Integer ")"
//! Where      := "(" "where" Expr ")"
//! ```
//!
//! A `where` clause is recognized by the grammar but has no semantic
//! representation, so its presence is a parse failure.

use crate::pattern_graph::ast::Ast;
use crate::pattern_graph::ast::AstView;
use crate::pattern_graph::ast::GispError;
use crate::pattern_graph::ast::kw_arcs;
use crate::pattern_graph::ast::kw_edges;
use crate::pattern_graph::ast::kw_match;
use crate::pattern_graph::ast::kw_vertices;
use crate::pattern_graph::ast::kw_where;
use crate::text::all_digits;
use crate::text::digit_val;
use crate::text::digits_val;
use crate::text::lemma_digits_val_prefix;
use crate::text::int_val;
use crate::text::is_digit_char;
use crate::text::valid_int_text;
use crate::types::ELabel;
use crate::types::VId;
use crate::types::VLabel;
use vstd::prelude::*;
use vstd::std_specs::iter::IteratorSpec;

verus! {

/// A lexical token of the gisp language.
#[derive(Debug, Clone, Copy, PartialEq, Eq, Structural)]
pub enum Token {
    /// `(`
    LPar,
    /// `)`
    RPar,
    /// The keyword `match`.
    KwMatch,
    /// The keyword `vertices`.
    KwVertices,
    /// The keyword `arcs`.
    KwArcs,
    /// The keyword `edges`.
    KwEdges,
    /// The keyword `where`.
    KwWhere,
    /// A vertex reference `u<integer>`, e.g. `u12`.
    URef(VId),
    /// A bare integer literal, always a label.
    Lit(ELabel),
}

/// Whether a character separates tokens.
pub open spec fn is_ws(c: char) -> bool {
    c == ' ' || c == '\t' || c == '\n' || c == '\r'
}

/// Whether a character can stand inside an atom (any character that is
/// neither whitespace nor a parenthesis).
pub open spec fn is_atom_char(c: char) -> bool {
    !is_ws(c) && c != '(' && c != ')'
}

/// The length of the maximal atom-character prefix of `s`.
pub open spec fn atom_len(s: Seq<char>) -> nat
    decreases s.len(),
{
    if s.len() == 0 || !is_atom_char(s[0]) {
        0
    } else {
        (1 + atom_len(s.skip(1))) as nat
    }
}

/// `atom_len` never exceeds the text's length and is positive exactly
/// on text that starts with an atom character.
pub proof fn lemma_atom_len(s: Seq<char>)
    ensures
        atom_len(s) <= s.len(),
        s.len() > 0 && is_atom_char(s[0]) ==> atom_len(s) >= 1,
        forall|j: int| 0 <= j < atom_len(s) ==> is_atom_char(s[j]),
        atom_len(s) < s.len() ==> !is_atom_char(s[atom_len(s) as int]),
    decreases s.len(),
{
    if s.len() > 0 && is_atom_char(s[0]) {
        lemma_atom_len(s.skip(1));
        assert forall|j: int| 0 <= j < atom_len(s) implies is_atom_char(s[j]) by {
            if j > 0 {
                assert(s.skip(1)[j - 1] == s[j]);
            }
        }
        if atom_len(s) < s.len() {
            assert(s.skip(1)[atom_len(s) as int - 1] == s[atom_len(s) as int]);
        }
    }
}

/// `atom_len` is `n` whenever the first `n` characters are atom
/// characters and the text ends or a delimiter follows.
pub proof fn lemma_atom_len_is(s: Seq<char>, n: int)
    requires
        0 <= n <= s.len(),
        forall|j: int| 0 <= j < n ==> is_atom_char(s[j]),
        n == s.len() || !is_atom_char(s[n]),
    ensures
        atom_len(s) == n,
    decreases n,
{
    if n == 0 {
    } else {
        assert(is_atom_char(s[0]));
        assert forall|j: int| 0 <= j < n - 1 implies is_atom_char(s.skip(1)[j]) by {
            assert(s.skip(1)[j] == s[j + 1]);
        }
        if n - 1 < s.skip(1).len() {
            assert(s.skip(1)[n - 1] == s[n]);
        }
        lemma_atom_len_is(s.skip(1), n - 1);
    }
}

/// The token an atom stands for, when it stands for one: a keyword, a
/// `u`-prefixed vertex reference whose value fits a vertex id, or an
/// integer literal whose value fits a label.
pub open spec fn classify(a: Seq<char>) -> Option<Token> {
    if a == kw_match() {
        Some(Token::KwMatch)
    } else if a == kw_vertices() {
        Some(Token::KwVertices)
    } else if a == kw_arcs() {
        Some(Token::KwArcs)
    } else if a == kw_edges() {
        Some(Token::KwEdges)
    } else if a == kw_where() {
        Some(Token::KwWhere)
    } else if a.len() >= 1 && a[0] == 'u' && valid_int_text(a.skip(1)) && i32::MIN <= int_val(
        a.skip(1),
    ) <= i32::MAX {
        Some(Token::URef(int_val(a.skip(1)) as VId))
    } else if valid_int_text(a) && i16::MIN <= int_val(a) <= i16::MAX {
        Some(Token::Lit(int_val(a) as ELabel))
    } else {
        None
    }
}

/// Prepends a token to a tokenization outcome.
pub open spec fn prepend_tok(t: Token, rest: Option<Seq<Token>>) -> Option<Seq<Token>> {
    match rest {
        Some(ts) => Some(seq![t] + ts),
        None => None,
    }
}

/// Prepends a token sequence to a tokenization outcome.
pub open spec fn prepend_toks(pre: Seq<Token>, rest: Option<Seq<Token>>) -> Option<Seq<Token>> {
    match rest {
        Some(ts) => Some(pre + ts),
        None => None,
    }
}

/// The tokenization of `s`: whitespace separates tokens, parentheses
/// are tokens of their own, and every maximal run of other characters
/// must be a keyword, a vertex reference or an integer literal.
pub open spec fn lex(s: Seq<char>) -> Option<Seq<Token>>
    decreases s.len(),
    via lex_decreases
{
    if s.len() == 0 {
        Some(Seq::empty())
    } else if is_ws(s[0]) {
        lex(s.skip(1))
    } else if s[0] == '(' {
        prepend_tok(Token::LPar, lex(s.skip(1)))
    } else if s[0] == ')' {
        prepend_tok(Token::RPar, lex(s.skip(1)))
    } else {
        let n = atom_len(s) as int;
        match classify(s.take(n)) {
            Some(t) => prepend_tok(t, lex(s.skip(n))),
            None => None,
        }
    }
}

#[via_fn]
proof fn lex_decreases(s: Seq<char>) {
    if s.len() > 0 && !is_ws(s[0]) && s[0] != '(' && s[0] != ')' {
        lemma_atom_len(s);
    }
}

/// Prepending one token and then a sequence is prepending the pushed
/// sequence.
proof fn lemma_prepend_push(pre: Seq<Token>, t: Token, rest: Option<Seq<Token>>)
    ensures
        prepend_toks(pre, prepend_tok(t, rest)) == prepend_toks(pre.push(t), rest),
{
    match rest {
        Some(ts) => {
            assert(pre + (seq![t] + ts) =~= pre.push(t) + ts);
        },
        None => {
        },
    }
}

/// Whether `c` separates tokens.
fn is_ws_char(c: char) -> (r: bool)
    ensures
        r == is_ws(c),
{
    c == ' ' || c == '\t' || c == '\n' || c == '\r'
}

/// Whether `c` can stand inside an atom.
fn is_atom(c: char) -> (r: bool)
    ensures
        r == is_atom_char(c),
{
    !is_ws_char(c) && c != '(' && c != ')'
}

/// The value of a decimal digit character, or nothing for any other
/// character.
fn digit_val_of(c: char) -> (r: Option<u8>)
    ensures
        match r {
            Some(d) => is_digit_char(c) && d == digit_val(c),
            None => !is_digit_char(c),
        },
{
    match c {
        '0' => Some(0),
        '1' => Some(1),
        '2' => Some(2),
        '3' => Some(3),
        '4' => Some(4),
        '5' => Some(5),
        '6' => Some(6),
        '7' => Some(7),
        '8' => Some(8),
        '9' => Some(9),
        _ => None,
    }
}

/// Parses `cs[from..to]` as an optionally signed decimal integer,
/// accepting exactly the values that fit a vertex id.
#[verifier::loop_isolation(false)]
fn parse_int(cs: &Vec<char>, from: usize, to: usize) -> (r: Option<i64>)
    requires
        from <= to && to <= cs.len(),
    ensures
        ({
            let a = cs@.subrange(from as int, to as int);
            match r {
                Some(v) => valid_int_text(a) && int_val(a) == v && i32::MIN <= v <= i32::MAX,
                None => !(valid_int_text(a) && i32::MIN <= int_val(a) <= i32::MAX),
            }
        }),
{
    let ghost a = cs@.subrange(from as int, to as int);
    if from == to {
        return None;
    }
    let neg = cs[from] == '-';
    let dstart = if neg {
        from + 1
    } else {
        from
    };
    let ghost ds = cs@.subrange(dstart as int, to as int);
    proof {
        if neg {
            assert(ds =~= a.skip(1));
        } else {
            assert(ds =~= a);
        }
    }
    if dstart == to {
        return None;
    }
    let mut acc: i64 = 0;
    let mut i: usize = dstart;
    proof {
        assert(ds.take(0) =~= Seq::<char>::empty());
    }
    while i < to
        invariant
            dstart <= i <= to,
            to <= cs.len(),
            dstart < to,
            ds == cs@.subrange(dstart as int, to as int),
            0 <= acc <= 0x8000_0000,
            acc == digits_val(ds.take(i - dstart)),
            forall|j: int| 0 <= j < i - dstart ==> is_digit_char(ds[j]),
        decreases to - i,
    {
        let c = cs[i];
        match digit_val_of(c) {
            Some(d) => {
                proof {
                    assert(ds[i - dstart] == cs@[i as int]);
                    assert(ds.take(i - dstart + 1).drop_last() =~= ds.take(i - dstart));
                    assert(ds.take(i - dstart + 1).last() == ds[i - dstart]);
                }
                acc = acc * 10 + d as i64;
                if acc > 0x8000_0000 {
                    proof {
                        lemma_digits_val_prefix(ds, i - dstart + 1);
                        if valid_int_text(a) {
                            if neg {
                                assert(int_val(a) == -digits_val(ds));
                            } else {
                                assert(a[0] == cs@[from as int]);
                                assert(int_val(a) == digits_val(ds));
                            }
                        }
                    }
                    return None;
                }
                i = i + 1;
            },
            None => {
                proof {
                    assert(ds[i - dstart] == cs@[i as int]);
                    assert(!all_digits(ds)) by {
                        assert(0 <= i - dstart < ds.len());
                        assert(!is_digit_char(ds[i - dstart]));
                    }
                    if neg {
                        assert(!valid_int_text(a));
                    } else {
                        assert(a[0] == cs@[from as int]);
                        assert(!valid_int_text(a));
                    }
                }
                return None;
            },
        }
    }
    proof {
        assert(ds.take(to - dstart) =~= ds);
        assert(all_digits(ds));
        assert(a[0] == cs@[from as int]);
        if neg {
            assert(a.len() > 1);
            assert(valid_int_text(a));
            assert(int_val(a) == -digits_val(ds));
        } else {
            assert(valid_int_text(a));
            assert(int_val(a) == digits_val(ds));
        }
    }
    if neg {
        Some(-acc)
    } else {
        if acc > 0x7fff_ffff {
            return None;
        }
        Some(acc)
    }
}

/// Classifies the atom `cs[from..to]` as a keyword, a vertex reference
/// or an integer literal.
fn classify_atom(cs: &Vec<char>, from: usize, to: usize) -> (r: Option<Token>)
    requires
        from < to && to <= cs.len(),
    ensures
        r == classify(cs@.subrange(from as int, to as int)),
{
    let ghost a = cs@.subrange(from as int, to as int);
    let n = to - from;
    if n == 5 && cs[from] == 'm' && cs[from + 1] == 'a' && cs[from + 2] == 't' && cs[from + 3]
        == 'c' && cs[from + 4] == 'h' {
        proof {
            assert(a =~= kw_match());
        }
        return Some(Token::KwMatch);
    }
    if n == 8 && cs[from] == 'v' && cs[from + 1] == 'e' && cs[from + 2] == 'r' && cs[from + 3]
        == 't' && cs[from + 4] == 'i' && cs[from + 5] == 'c' && cs[from + 6] == 'e' && cs[from + 7]
        == 's' {
        proof {
            assert(a =~= kw_vertices());
        }
        return Some(Token::KwVertices);
    }
    if n == 4 && cs[from] == 'a' && cs[from + 1] == 'r' && cs[from + 2] == 'c' && cs[from + 3]
        == 's' {
        proof {
            assert(a =~= kw_arcs());
        }
        return Some(Token::KwArcs);
    }
    if n == 5 && cs[from] == 'e' && cs[from + 1] == 'd' && cs[from + 2] == 'g' && cs[from + 3]
        == 'e' && cs[from + 4] == 's' {
        proof {
            assert(a =~= kw_edges());
        }
        return Some(Token::KwEdges);
    }
    if n == 5 && cs[from] == 'w' && cs[from + 1] == 'h' && cs[from + 2] == 'e' && cs[from + 3]
        == 'r' && cs[from + 4] == 'e' {
        proof {
            assert(a =~= kw_where());
        }
        return Some(Token::KwWhere);
    }
    proof {
        assert(a.len() == n);
        assert(forall|j: int| 0 <= j < n ==> a[j] == cs@[from + j]);
        assert(a != kw_match());
        assert(a != kw_vertices());
        assert(a != kw_arcs());
        assert(a != kw_edges());
        assert(a != kw_where());
    }
    if cs[from] == 'u' {
        proof {
            assert(a[0] == 'u');
            assert(cs@.subrange(from as int + 1, to as int) =~= a.skip(1));
        }
        match parse_int(cs, from + 1, to) {
            Some(v) => Some(Token::URef(v as VId)),
            None => None,
        }
    } else {
        proof {
            assert(a[0] != 'u');
        }
        match parse_int(cs, from, to) {
            Some(v) => {
                if -0x8000 <= v && v <= 0x7fff {
                    Some(Token::Lit(v as ELabel))
                } else {
                    None
                }
            },
            None => None,
        }
    }
}

/// Tokenizes `cs`, or reports the position at which no token can be
/// read.
fn lex_chars(cs: &Vec<char>) -> (r: Result<Vec<Token>, GispError>)
    ensures
        match r {
            Ok(ts) => lex(cs@) == Some(ts@),
            Err(e) => lex(cs@) is None && e matches GispError::Syntax { .. },
        },
{
    let mut toks: Vec<Token> = Vec::new();
    let mut p: usize = 0;
    proof {
        assert(cs@.skip(0) =~= cs@);
        assert(prepend_toks(toks@, lex(cs@)) == lex(cs@)) by {
            match lex(cs@) {
                Some(ts) => {
                    assert(toks@ + ts =~= ts);
                },
                None => {
                },
            }
        }
    }
    while p < cs.len()
        invariant
            p <= cs.len(),
            lex(cs@) == prepend_toks(toks@, lex(cs@.skip(p as int))),
        decreases cs.len() - p,
    {
        let ghost rem = cs@.skip(p as int);
        proof {
            assert(rem[0] == cs@[p as int]);
            assert(rem.skip(1) =~= cs@.skip(p as int + 1));
        }
        let c = cs[p];
        if is_ws_char(c) {
            p = p + 1;
        } else if c == '(' {
            proof {
                lemma_prepend_push(toks@, Token::LPar, lex(rem.skip(1)));
            }
            toks.push(Token::LPar);
            p = p + 1;
        } else if c == ')' {
            proof {
                lemma_prepend_push(toks@, Token::RPar, lex(rem.skip(1)));
            }
            toks.push(Token::RPar);
            p = p + 1;
        } else {
            let mut q: usize = p + 1;
            while q < cs.len()
                invariant_except_break
                    p < q <= cs.len(),
                    forall|j: int| p <= j < q ==> is_atom_char(cs@[j]),
                ensures
                    p < q <= cs.len(),
                    forall|j: int| p <= j < q ==> is_atom_char(cs@[j]),
                    q == cs.len() || !is_atom_char(cs@[q as int]),
                decreases cs.len() - q,
            {
                if !is_atom(cs[q]) {
                    break ;
                }
                q = q + 1;
            }
            proof {
                assert(is_atom_char(cs@[p as int]));
                assert forall|j: int| 0 <= j < q - p implies is_atom_char(rem[j]) by {
                    assert(rem[j] == cs@[p + j]);
                }
                if q - p < rem.len() {
                    assert(rem[q - p] == cs@[q as int]);
                }
                lemma_atom_len_is(rem, q - p);
                assert(rem.take(q - p) =~= cs@.subrange(p as int, q as int));
                assert(rem.skip(q - p) =~= cs@.skip(q as int));
            }
            match classify_atom(cs, p, q) {
                Some(t) => {
                    proof {
                        lemma_prepend_push(toks@, t, lex(cs@.skip(q as int)));
                    }
                    toks.push(t);
                    p = q;
                },
                None => {
                    return Err(GispError::Syntax { pos: p });
                },
            }
        }
    }
    proof {
        assert(cs@.skip(p as int) =~= Seq::<char>::empty());
        assert(lex(cs@.skip(p as int)) == Some(Seq::<Token>::empty()));
        assert(toks@ + Seq::<Token>::empty() =~= toks@);
    }
    Ok(toks)
}

/// Zero or more `Vertex` productions starting at token `i`: the parsed
/// pairs and the index of the first token after them.
pub open spec fn parse_vertex_list(t: Seq<Token>, i: int) -> Option<(Seq<(VId, VLabel)>, int)>
    decreases t.len() - i,
{
    if i < t.len() && t[i] == Token::LPar {
        if i + 4 <= t.len() {
            match (t[i + 1], t[i + 2], t[i + 3]) {
                (Token::URef(vid), Token::Lit(l), Token::RPar) => match parse_vertex_list(
                    t,
                    i + 4,
                ) {
                    Some(r) => Some((seq![(vid, l)] + r.0, r.1)),
                    None => None,
                },
                _ => None,
            }
        } else {
            None
        }
    } else {
        Some((Seq::empty(), i))
    }
}

/// Zero or more `ArcEdge` productions starting at token `i`: the parsed
/// triples and the index of the first token after them.
pub open spec fn parse_arc_list(t: Seq<Token>, i: int) -> Option<(Seq<(VId, VId, ELabel)>, int)>
    decreases t.len() - i,
{
    if i < t.len() && t[i] == Token::LPar {
        if i + 5 <= t.len() {
            match (t[i + 1], t[i + 2], t[i + 3], t[i + 4]) {
                (Token::URef(src), Token::URef(dst), Token::Lit(l), Token::RPar) => match
                    parse_arc_list(t, i + 5) {
                    Some(r) => Some((seq![(src, dst, l)] + r.0, r.1)),
                    None => None,
                },
                _ => None,
            }
        } else {
            None
        }
    } else {
        Some((Seq::empty(), i))
    }
}

/// An optional `Vertices` block at token `i`: its vertex pairs, or the
/// empty sequence when no such block starts here.
pub open spec fn parse_vertices_block(t: Seq<Token>, i: int) -> Option<(Seq<(VId, VLabel)>, int)> {
    if i + 2 <= t.len() && t[i] == Token::LPar && t[i + 1] == Token::KwVertices {
        match parse_vertex_list(t, i + 2) {
            Some(r) => if r.1 < t.len() && t[r.1] == Token::RPar {
                Some((r.0, r.1 + 1))
            } else {
                None
            },
            None => None,
        }
    } else {
        Some((Seq::empty(), i))
    }
}

/// An optional `Arcs` block at token `i`.
pub open spec fn parse_arcs_block(t: Seq<Token>, i: int) -> Option<
    (Seq<(VId, VId, ELabel)>, int),
> {
    if i + 2 <= t.len() && t[i] == Token::LPar && t[i + 1] == Token::KwArcs {
        match parse_arc_list(t, i + 2) {
            Some(r) => if r.1 < t.len() && t[r.1] == Token::RPar {
                Some((r.0, r.1 + 1))
            } else {
                None
            },
            None => None,
        }
    } else {
        Some((Seq::empty(), i))
    }
}

/// An optional `Edges` block at token `i`.
pub open spec fn parse_edges_block(t: Seq<Token>, i: int) -> Option<
    (Seq<(VId, VId, ELabel)>, int),
> {
    if i + 2 <= t.len() && t[i] == Token::LPar && t[i + 1] == Token::KwEdges {
        match parse_arc_list(t, i + 2) {
            Some(r) => if r.1 < t.len() && t[r.1] == Token::RPar {
                Some((r.0, r.1 + 1))
            } else {
                None
            },
            None => None,
        }
    } else {
        Some((Seq::empty(), i))
    }
}

/// The `Query` production over a whole token sequence. A `where`
/// clause, or anything else between the last block and the closing
/// parenthesis, is not accepted.
pub open spec fn parse_tokens(t: Seq<Token>) -> Option<AstView> {
    if t.len() >= 2 && t[0] == Token::LPar && t[1] == Token::KwMatch {
        match parse_vertices_block(t, 2) {
            Some(v) => match parse_arcs_block(t, v.1) {
                Some(ar) => match parse_edges_block(t, ar.1) {
                    Some(ed) => if ed.1 < t.len() && t[ed.1] == Token::RPar && ed.1 + 1 == t.len() {
                        Some(
                            AstView {
                                vertices: v.0,
                                arcs: ar.0,
                                edges: ed.0,
                                constraint: None,
                            },
                        )
                    } else {
                        None
                    },
                    None => None,
                },
                None => None,
            },
            None => None,
        }
    } else {
        None
    }
}

/// What parsing a gisp text yields: the tokenization followed by the
/// `Query` production, or nothing when either fails.
pub open spec fn parse_spec(s: Seq<char>) -> Option<AstView> {
    match lex(s) {
        Some(t) => parse_tokens(t),
        None => None,
    }
}

/// Parses zero or more `Vertex` productions starting at token `start`.
#[verifier::loop_isolation(false)]
fn parse_vertex_list_exec(t: &Vec<Token>, start: usize) -> (r: Option<(Vec<(VId, VLabel)>, usize)>)
    requires
        start <= t.len(),
    ensures
        match r {
            Some(p) => parse_vertex_list(t@, start as int) == Some((p.0@, p.1 as int)) && start
                <= p.1 <= t.len(),
            None => parse_vertex_list(t@, start as int) is None,
        },
{
    let mut acc: Vec<(VId, VLabel)> = Vec::new();
    let mut i: usize = start;
    loop
        invariant
            start <= i <= t.len(),
            match parse_vertex_list(t@, i as int) {
                Some(p) => parse_vertex_list(t@, start as int) == Some((acc@ + p.0, p.1)),
                None => parse_vertex_list(t@, start as int) is None,
            },
        decreases t.len() - i,
    {
        if !(i < t.len() && t[i] == Token::LPar) {
            proof {
                assert(acc@ + Seq::<(VId, VLabel)>::empty() =~= acc@);
            }
            return Some((acc, i));
        }
        if t.len() - i < 4 {
            return None;
        }
        match (t[i + 1], t[i + 2], t[i + 3]) {
            (Token::URef(vid), Token::Lit(l), Token::RPar) => {
                proof {
                    match parse_vertex_list(t@, i as int + 4) {
                        Some(p) => {
                            assert(acc@ + (seq![(vid, l)] + p.0) =~= acc@.push((vid, l)) + p.0);
                        },
                        None => {
                        },
                    }
                }
                acc.push((vid, l));
                i = i + 4;
            },
            _ => {
                return None;
            },
        }
    }
}

/// Parses zero or more `ArcEdge` productions starting at token `start`.
#[verifier::loop_isolation(false)]
fn parse_arc_list_exec(t: &Vec<Token>, start: usize) -> (r: Option<
    (Vec<(VId, VId, ELabel)>, usize),
>)
    requires
        start <= t.len(),
    ensures
        match r {
            Some(p) => parse_arc_list(t@, start as int) == Some((p.0@, p.1 as int)) && start <= p.1
                <= t.len(),
            None => parse_arc_list(t@, start as int) is None,
        },
{
    let mut acc: Vec<(VId, VId, ELabel)> = Vec::new();
    let mut i: usize = start;
    loop
        invariant
            start <= i <= t.len(),
            match parse_arc_list(t@, i as int) {
                Some(p) => parse_arc_list(t@, start as int) == Some((acc@ + p.0, p.1)),
                None => parse_arc_list(t@, start as int) is None,
            },
        decreases t.len() - i,
    {
        if !(i < t.len() && t[i] == Token::LPar) {
            proof {
                assert(acc@ + Seq::<(VId, VId, ELabel)>::empty() =~= acc@);
            }
            return Some((acc, i));
        }
        if t.len() - i < 5 {
            return None;
        }
        match (t[i + 1], t[i + 2], t[i + 3], t[i + 4]) {
            (Token::URef(src), Token::URef(dst), Token::Lit(l), Token::RPar) => {
                proof {
                    match parse_arc_list(t@, i as int + 5) {
                        Some(p) => {
                            assert(acc@ + (seq![(src, dst, l)] + p.0) =~= acc@.push(
                                (src, dst, l),
                            ) + p.0);
                        },
                        None => {
                        },
                    }
                }
                acc.push((src, dst, l));
                i = i + 5;
            },
            _ => {
                return None;
            },
        }
    }
}

/// Parses an optional `Vertices` block at token `start`.
fn parse_vertices_block_exec(t: &Vec<Token>, start: usize) -> (r: Option<
    (Vec<(VId, VLabel)>, usize),
>)
    requires
        start <= t.len(),
    ensures
        match r {
            Some(p) => parse_vertices_block(t@, start as int) == Some((p.0@, p.1 as int)) && start
                <= p.1 <= t.len(),
            None => parse_vertices_block(t@, start as int) is None,
        },
{
    if !(t.len() - start >= 2 && t[start] == Token::LPar && t[start + 1] == Token::KwVertices) {
        let empty: Vec<(VId, VLabel)> = Vec::new();
        return Some((empty, start));
    }
    match parse_vertex_list_exec(t, start + 2) {
        Some((vs, j)) => {
            if j < t.len() && t[j] == Token::RPar {
                Some((vs, j + 1))
            } else {
                None
            }
        },
        None => None,
    }
}

/// Parses an optional `Arcs` or `Edges` block at token `start`.
fn parse_arcs_or_edges_block_exec(t: &Vec<Token>, start: usize, edges: bool) -> (r: Option<
    (Vec<(VId, VId, ELabel)>, usize),
>)
    requires
        start <= t.len(),
    ensures
        match r {
            Some(p) => (if edges {
                parse_edges_block(t@, start as int)
            } else {
                parse_arcs_block(t@, start as int)
            }) == Some((p.0@, p.1 as int)) && start <= p.1 <= t.len(),
            None => (if edges {
                parse_edges_block(t@, start as int)
            } else {
                parse_arcs_block(t@, start as int)
            }) is None,
        },
{
    let kw = if edges {
        Token::KwEdges
    } else {
        Token::KwArcs
    };
    if !(t.len() - start >= 2 && t[start] == Token::LPar && t[start + 1] == kw) {
        let empty: Vec<(VId, VId, ELabel)> = Vec::new();
        return Some((empty, start));
    }
    match parse_arc_list_exec(t, start + 2) {
        Some((es, j)) => {
            if j < t.len() && t[j] == Token::RPar {
                Some((es, j + 1))
            } else {
                None
            }
        },
        None => None,
    }
}

/// Parses a whole token sequence as one `Query` production.
fn parse_tokens_exec(t: &Vec<Token>) -> (r: Result<Ast, GispError>)
    ensures
        match r {
            Ok(a) => parse_tokens(t@) == Some(a@) && a@.constraint is None,
            Err(e) => parse_tokens(t@) is None && e matches GispError::Syntax { .. },
        },
{
    if !(t.len() >= 2 && t[0] == Token::LPar && t[1] == Token::KwMatch) {
        return Err(GispError::Syntax { pos: 0 });
    }
    let (vs, i) = match parse_vertices_block_exec(t, 2) {
        Some(p) => p,
        None => {
            return Err(GispError::Syntax { pos: 2 });
        },
    };
    let (arcs, j) = match parse_arcs_or_edges_block_exec(t, i, false) {
        Some(p) => p,
        None => {
            return Err(GispError::Syntax { pos: i });
        },
    };
    let (edges, k) = match parse_arcs_or_edges_block_exec(t, j, true) {
        Some(p) => p,
        None => {
            return Err(GispError::Syntax { pos: j });
        },
    };
    if k < t.len() && t[k] == Token::RPar && k + 1 == t.len() {
        Ok(Ast::new(vs, arcs, edges, None))
    } else {
        Err(GispError::Syntax { pos: k })
    }
}

/// The characters of a string, in order.
fn str_chars(s: &str) -> (r: Vec<char>)
    ensures
        r@ == s@,
{
    broadcast use vstd::string::axiom_spec_iter;

    let mut it = s.chars();
    let mut v: Vec<char> = Vec::new();
    proof {
        assert(it.remaining() == s@);
    }
    loop
        invariant
            it.obeys_prophetic_iter_laws(),
            v@ + it.remaining() =~= s@,
            v@.len() <= s@.len(),
        decreases s@.len() - v@.len(),
    {
        let ghost prev = it.remaining();
        match it.next() {
            Some(c) => {
                proof {
                    assert(prev.len() > 0);
                    assert(v@.push(c) + it.remaining() =~= v@ + prev);
                }
                v.push(c);
            },
            None => {
                proof {
                    assert(prev.len() == 0);
                    assert(v@ =~= s@);
                }
                return v;
            },
        }
    }
}

/// Parses a gisp document into its [`Ast`]. Exactly the well-formed
/// gisp texts are accepted; a parsed pattern never carries a
/// constraint, since a `where` clause has no semantic representation
/// yet and is rejected.
pub fn parse(source: &str) -> (r: Result<Ast, GispError>)
    ensures
        match r {
            Ok(ast) => parse_spec(source@) == Some(ast@) && ast@.constraint is None,
            Err(e) => parse_spec(source@) is None && e matches GispError::Syntax { .. },
        },
{
    let cs = str_chars(source);
    let toks = match lex_chars(&cs) {
        Ok(ts) => ts,
        Err(e) => {
            return Err(e);
        },
    };
    parse_tokens_exec(&toks)
}

} // verus!
