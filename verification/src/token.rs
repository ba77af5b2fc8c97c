//! The tokens of a compatibility declaration, and their text.
use vstd::prelude::*;
use crate::syntax::{read_literal, syn_literal_reading};
use crate::text::{string_push, append_string, text_is};

verus! {

broadcast use {vstd::seq::axiom_seq_index_decreases, vstd::std_specs::vec::axiom_vec_decreases_to_view};

/// The delimiter of a token group.
#[derive(Debug, Clone, Copy, PartialEq, Eq, Structural)]
pub enum Delimiter {
    Parenthesis,
    Brace,
    Bracket,
    Invisible,
}

/// What a literal token holds.
#[derive(Debug)]
pub enum LitKind {
    /// An integer literal, with its digits in base 10.
    Int(String),
    /// A string literal, with its value.
    Str(String),
    /// Any other literal.
    Other,
}

/// What a literal token holds, as a value.
pub enum LitKindView {
    Int(Seq<char>),
    Str(Seq<char>),
    Other,
}

impl View for LitKind {
    type V = LitKindView;

    open spec fn view(&self) -> LitKindView {
        match self {
            LitKind::Int(d) => LitKindView::Int(d@),
            LitKind::Str(s) => LitKindView::Str(s@),
            LitKind::Other => LitKindView::Other,
        }
    }
}

/// A token of a declaration.
#[derive(Debug)]
pub enum Tok {
    /// An identifier or keyword.
    Ident(String),
    /// A punctuation character; the flag tells whether it is joined to the
    /// punctuation character that follows it.
    Punct(char, bool),
    /// A literal, with what it holds and its source text.
    Literal(LitKind, String),
    /// A delimited group of tokens.
    Group(Delimiter, Vec<Tok>),
}

impl Tok {
    /// The literal token whose source text is `raw`, with what `syn` reads
    /// from that text: the base-10 digits of an integer literal, the value of
    /// a string literal, or nothing for any other literal.
    pub fn literal(raw: String) -> (t: Tok)
        ensures
            t matches Tok::Literal(k, r) && k@ == syn_literal_reading(raw@) && r@ == raw@,
    {
        let kind = read_literal(&raw);
        Tok::Literal(kind, raw)
    }
}

/// The opening character of a delimiter.
pub open spec fn open_text(d: Delimiter) -> Seq<char> {
    match d {
        Delimiter::Parenthesis => seq!['('],
        Delimiter::Brace => seq!['{'],
        Delimiter::Bracket => seq!['['],
        Delimiter::Invisible => Seq::empty(),
    }
}

/// The closing character of a delimiter.
pub open spec fn close_text(d: Delimiter) -> Seq<char> {
    match d {
        Delimiter::Parenthesis => seq![')'],
        Delimiter::Brace => seq!['}'],
        Delimiter::Bracket => seq![']'],
        Delimiter::Invisible => Seq::empty(),
    }
}

/// The text of a token.
pub open spec fn tok_text(t: Tok) -> Seq<char>
    decreases t,
{
    match t {
        Tok::Ident(s) => s@,
        Tok::Punct(c, _) => seq![c],
        Tok::Literal(_, raw) => raw@,
        Tok::Group(d, inner) => open_text(d) + toks_text(inner@) + close_text(d),
    }
}

/// What separates the text of `t` from the text of the token after it: a
/// space, except after a joined punctuation character.
pub open spec fn sep_after(t: Tok) -> Seq<char> {
    match t {
        Tok::Punct(_, true) => Seq::empty(),
        _ => seq![' '],
    }
}

/// The text of a token sequence.
pub open spec fn toks_text(ts: Seq<Tok>) -> Seq<char>
    decreases ts,
{
    if ts.len() == 0 {
        Seq::empty()
    } else if ts.len() == 1 {
        tok_text(ts[0])
    } else {
        proof {
            vstd::seq::axiom_seq_subrange_decreases(ts, 0, ts.len() - 1);
        }
        toks_text(ts.drop_last()) + sep_after(ts[ts.len() - 2]) + tok_text(ts.last())
    }
}

/// The Rust keywords, which an identifier position does not accept.
pub open spec fn is_keyword(s: Seq<char>) -> bool {
    ||| s == "_"@
    ||| s == "abstract"@
    ||| s == "as"@
    ||| s == "async"@
    ||| s == "await"@
    ||| s == "become"@
    ||| s == "box"@
    ||| s == "break"@
    ||| s == "const"@
    ||| s == "continue"@
    ||| s == "crate"@
    ||| s == "do"@
    ||| s == "dyn"@
    ||| s == "else"@
    ||| s == "enum"@
    ||| s == "extern"@
    ||| s == "false"@
    ||| s == "final"@
    ||| s == "fn"@
    ||| s == "for"@
    ||| s == "if"@
    ||| s == "impl"@
    ||| s == "in"@
    ||| s == "let"@
    ||| s == "loop"@
    ||| s == "macro"@
    ||| s == "match"@
    ||| s == "mod"@
    ||| s == "move"@
    ||| s == "mut"@
    ||| s == "override"@
    ||| s == "priv"@
    ||| s == "pub"@
    ||| s == "ref"@
    ||| s == "return"@
    ||| s == "Self"@
    ||| s == "self"@
    ||| s == "static"@
    ||| s == "struct"@
    ||| s == "super"@
    ||| s == "trait"@
    ||| s == "true"@
    ||| s == "try"@
    ||| s == "type"@
    ||| s == "typeof"@
    ||| s == "unsafe"@
    ||| s == "unsized"@
    ||| s == "use"@
    ||| s == "virtual"@
    ||| s == "where"@
    ||| s == "while"@
    ||| s == "yield"@
}

/// Whether `s` is a Rust keyword.
pub fn keyword(s: &String) -> (b: bool)
    ensures
        b == is_keyword(s@),
{
    text_is(s, "_") || text_is(s, "abstract") || text_is(s, "as") || text_is(s, "async")
        || text_is(s, "await") || text_is(s, "become") || text_is(s, "box") || text_is(s, "break")
        || text_is(s, "const") || text_is(s, "continue") || text_is(s, "crate") || text_is(s, "do")
        || text_is(s, "dyn") || text_is(s, "else") || text_is(s, "enum") || text_is(s, "extern")
        || text_is(s, "false") || text_is(s, "final") || text_is(s, "fn") || text_is(s, "for")
        || text_is(s, "if") || text_is(s, "impl") || text_is(s, "in") || text_is(s, "let")
        || text_is(s, "loop") || text_is(s, "macro") || text_is(s, "match") || text_is(s, "mod")
        || text_is(s, "move") || text_is(s, "mut") || text_is(s, "override") || text_is(s, "priv")
        || text_is(s, "pub") || text_is(s, "ref") || text_is(s, "return") || text_is(s, "Self")
        || text_is(s, "self") || text_is(s, "static") || text_is(s, "struct") || text_is(s, "super")
        || text_is(s, "trait") || text_is(s, "true") || text_is(s, "try") || text_is(s, "type")
        || text_is(s, "typeof") || text_is(s, "unsafe") || text_is(s, "unsized") || text_is(s, "use")
        || text_is(s, "virtual") || text_is(s, "where") || text_is(s, "while") || text_is(s, "yield")
}

fn push_open(d: Delimiter, out: &mut String)
    ensures
        final(out)@ == old(out)@ + open_text(d),
{
    match d {
        Delimiter::Parenthesis => string_push(out, '('),
        Delimiter::Brace => string_push(out, '{'),
        Delimiter::Bracket => string_push(out, '['),
        Delimiter::Invisible => {},
    }
    assert(out@ =~= old(out)@ + open_text(d));
}

fn push_close(d: Delimiter, out: &mut String)
    ensures
        final(out)@ == old(out)@ + close_text(d),
{
    match d {
        Delimiter::Parenthesis => string_push(out, ')'),
        Delimiter::Brace => string_push(out, '}'),
        Delimiter::Bracket => string_push(out, ']'),
        Delimiter::Invisible => {},
    }
    assert(out@ =~= old(out)@ + close_text(d));
}

/// An invisible group with nothing but such groups inside: a reader of the
/// tokens passes over it as if it were not there.
pub open spec fn tok_ignorable(t: Tok) -> bool
    decreases t,
{
    match t {
        Tok::Group(Delimiter::Invisible, inner) => all_ignorable(inner@),
        _ => false,
    }
}

/// Every token of `ts` is passed over.
pub open spec fn all_ignorable(ts: Seq<Tok>) -> bool
    decreases ts,
{
    if ts.len() == 0 {
        true
    } else {
        proof {
            vstd::seq::axiom_seq_subrange_decreases(ts, 0, ts.len() - 1);
        }
        all_ignorable(ts.drop_last()) && tok_ignorable(ts.last())
    }
}

/// The first token of `ts`, from `ts[k]` on, that is not passed over; the
/// length of `ts` when there is none.
pub open spec fn leftover_at(ts: Seq<Tok>, k: int) -> int
    decreases ts.len() - k,
{
    if k < 0 || k >= ts.len() {
        ts.len() as int
    } else if tok_ignorable(ts[k]) {
        leftover_at(ts, k + 1)
    } else {
        k
    }
}

/// Whether `t` is passed over.
pub fn ignorable(t: &Tok) -> (b: bool)
    ensures
        b == tok_ignorable(*t),
    decreases t,
{
    match t {
        Tok::Group(Delimiter::Invisible, inner) => all_ignorable_of(inner),
        _ => false,
    }
}

/// Whether every token of `ts` is passed over.
pub fn all_ignorable_of(ts: &Vec<Tok>) -> (b: bool)
    ensures
        b == all_ignorable(ts@),
    decreases ts, 0nat,
{
    let mut k: usize = 0;
    while k < ts.len()
        invariant
            k <= ts@.len(),
            all_ignorable(ts@.subrange(0, k as int)),
        decreases ts@.len() - k,
    {
        let ghost s = ts@.subrange(0, k + 1);
        assert(s.drop_last() =~= ts@.subrange(0, k as int));
        assert(s.last() == ts@[k as int]);
        if !ignorable(&ts[k]) {
            proof {
                assert(ts@.subrange(0, ts@.len() as int) =~= ts@);
                if all_ignorable(ts@) {
                    lemma_all_ignorable_prefix(ts@, k + 1, ts@.len() as int);
                }
            }
            return false;
        }
        k = k + 1;
    }
    assert(ts@.subrange(0, ts@.len() as int) =~= ts@);
    true
}

/// A sequence whose tokens are all passed over has only such prefixes.
proof fn lemma_all_ignorable_prefix(ts: Seq<Tok>, j: int, n: int)
    requires
        0 <= j <= n <= ts.len(),
        all_ignorable(ts.subrange(0, n)),
    ensures
        all_ignorable(ts.subrange(0, j)),
    decreases n - j,
{
    if j < n {
        assert(ts.subrange(0, n).drop_last() =~= ts.subrange(0, n - 1));
        lemma_all_ignorable_prefix(ts, j, n - 1);
    }
}

/// The first token of `ts`, from `ts[k]` on, that is not passed over.
pub fn leftover_index(ts: &Vec<Tok>, k: usize) -> (r: usize)
    requires
        k <= ts@.len(),
    ensures
        r as int == leftover_at(ts@, k as int),
        k <= r <= ts@.len(),
{
    let mut j = k;
    while j < ts.len() && ignorable(&ts[j])
        invariant
            k <= j <= ts@.len(),
            leftover_at(ts@, k as int) == leftover_at(ts@, j as int),
        decreases ts@.len() - j,
    {
        j = j + 1;
    }
    j
}

/// Appends the text of `t` to `out`.
pub fn push_tok_text(t: &Tok, out: &mut String)
    ensures
        final(out)@ == old(out)@ + tok_text(*t),
    decreases t,
{
    match t {
        Tok::Ident(s) => append_string(out, s),
        Tok::Punct(c, _) => {
            string_push(out, *c);
            assert(out@ =~= old(out)@ + tok_text(*t));
        },
        Tok::Literal(_, raw) => append_string(out, raw),
        Tok::Group(d, inner) => {
            push_open(*d, out);
            push_toks_text(inner, 0, inner.len(), out);
            assert(inner@.subrange(0, inner@.len() as int) =~= inner@);
            push_close(*d, out);
            assert(out@ =~= old(out)@ + tok_text(*t));
        },
    }
}

/// Appends the text of `ts[lo..hi]` to `out`.
pub fn push_toks_text(ts: &Vec<Tok>, lo: usize, hi: usize, out: &mut String)
    requires
        lo <= hi <= ts@.len(),
    ensures
        final(out)@ == old(out)@ + toks_text(ts@.subrange(lo as int, hi as int)),
    decreases ts, 0nat,
{
    let mut k: usize = lo;
    while k < hi
        invariant
            lo <= k <= hi <= ts@.len(),
            out@ == old(out)@ + toks_text(ts@.subrange(lo as int, k as int)),
        decreases hi - k,
    {
        let ghost before = out@;
        if k > lo {
            match &ts[k - 1] {
                Tok::Punct(_, true) => {},
                _ => string_push(out, ' '),
            }
        }
        assert(out@ == before + if k > lo {
            sep_after(ts@[k - 1])
        } else {
            Seq::empty()
        }) by {
            if k > lo {
                match ts@[k - 1] {
                    Tok::Punct(_, true) => {
                        assert(out@ =~= before + sep_after(ts@[k - 1]));
                    },
                    _ => {
                        assert(out@ =~= before + sep_after(ts@[k - 1]));
                    },
                }
            } else {
                assert(out@ =~= before);
            }
        }
        push_tok_text(&ts[k], out);
        proof {
            let s = ts@.subrange(lo as int, k + 1);
            if k > lo {
                assert(s.drop_last() =~= ts@.subrange(lo as int, k as int));
                assert(s[s.len() - 2] == ts@[k - 1]);
                assert(s.last() == ts@[k as int]);
            } else {
                assert(s.len() == 1);
                assert(s[0] == ts@[k as int]);
                assert(ts@.subrange(lo as int, k as int).len() == 0);
            }
        }
        k = k + 1;
    }
}

/// The text of `ts[lo..hi]`.
pub fn toks_text_of(ts: &Vec<Tok>, lo: usize, hi: usize) -> (r: String)
    requires
        lo <= hi <= ts@.len(),
    ensures
        r@ == toks_text(ts@.subrange(lo as int, hi as int)),
{
    let mut out = String::new();
    push_toks_text(ts, lo, hi, &mut out);
    assert(out@ =~= toks_text(ts@.subrange(lo as int, hi as int)));
    out
}

} // verus!
