//! The token model of attribute argument lists: a flat run of words, string
//! literals, punctuation and delimited groups, with deterministic rendering
//! back to text and splitting on top-level commas.

use vstd::prelude::*;
use vstd::string::*;

verus! {

/// A delimiter of a token group.
#[derive(Clone, Copy, PartialEq, Eq, Structural, Debug)]
pub enum Delim {
    Paren,
    Bracket,
    Brace,
}

/// One token of an attribute argument list.
#[derive(Debug)]
pub enum AttrTok {
    /// A word: an identifier or keyword.
    Ident(String),
    /// A string literal, holding its unquoted value.
    StrLit(String),
    /// The `=` punctuation.
    Eq,
    /// A top-level-significant `,` punctuation.
    Comma,
    /// A delimited group of tokens.
    Group(Delim, Vec<AttrTok>),
    /// Any other token, carried as its text.
    Other(String),
}

/// The opening text of a delimiter.
pub open spec fn spec_open(d: Delim) -> Seq<char> {
    match d {
        Delim::Paren => "("@,
        Delim::Bracket => "["@,
        Delim::Brace => "{"@,
    }
}

/// The closing text of a delimiter.
pub open spec fn spec_close(d: Delim) -> Seq<char> {
    match d {
        Delim::Paren => ")"@,
        Delim::Bracket => "]"@,
        Delim::Brace => "}"@,
    }
}

/// Rendered text of one token. A string literal is wrapped in plain double
/// quotes; a group wraps its rendered content in its delimiters.
pub open spec fn spec_render_tok(t: AttrTok) -> Seq<char>
    decreases t,
{
    match t {
        AttrTok::Ident(s) => s@,
        AttrTok::StrLit(s) => "\""@ + s@ + "\""@,
        AttrTok::Eq => "="@,
        AttrTok::Comma => ","@,
        AttrTok::Group(d, c) => spec_open(d) + spec_render_toks(c@) + spec_close(d),
        AttrTok::Other(s) => s@,
    }
}

/// Rendered text of a token run: the tokens' texts joined by single spaces.
pub open spec fn spec_render_toks(s: Seq<AttrTok>) -> Seq<char>
    decreases s,
{
    if s.len() == 0 {
        Seq::empty()
    } else if s.len() == 1 {
        spec_render_tok(s[0])
    } else {
        spec_render_tok(s[0]) + " "@ + spec_render_toks(s.subrange(1, s.len() as int))
    }
}

/// Rendered text of the first `n` tokens of a run.
pub open spec fn spec_render_toks_prefix(s: Seq<AttrTok>, n: int) -> Seq<char>
    decreases n,
{
    if n <= 0 {
        Seq::empty()
    } else if n == 1 {
        spec_render_tok(s[0])
    } else {
        spec_render_toks_prefix(s, n - 1) + " "@ + spec_render_tok(s[n - 1])
    }
}

/// One step of the prefix rendering.
proof fn lemma_render_toks_prefix_step(s: Seq<AttrTok>, i: int)
    requires
        0 <= i < s.len(),
    ensures
        i == 0 ==> spec_render_toks_prefix(s, 1) == spec_render_toks_prefix(s, 0)
            + spec_render_tok(s[0]),
        i > 0 ==> spec_render_toks_prefix(s, i + 1) == spec_render_toks_prefix(s, i) + " "@
            + spec_render_tok(s[i]),
{
    if i == 0 {
        assert(spec_render_toks_prefix(s, 1) =~= spec_render_toks_prefix(s, 0) + spec_render_tok(
            s[0],
        ));
    }
}

/// The full prefix rendering coincides with the run rendering.
proof fn lemma_render_toks_prefix_all(s: Seq<AttrTok>)
    ensures
        spec_render_toks_prefix(s, s.len() as int) == spec_render_toks(s),
    decreases s.len(),
{
    if s.len() == 0 {
        assert(spec_render_toks_prefix(s, 0) =~= spec_render_toks(s));
    } else if s.len() == 1 {
    } else {
        let t = s.subrange(1, s.len() as int);
        lemma_render_toks_prefix_all(t);
        lemma_render_toks_prefix_shift(s, s.len() as int);
    }
}

/// Shifting a prefix rendering past the head token.
proof fn lemma_render_toks_prefix_shift(s: Seq<AttrTok>, n: int)
    requires
        s.len() >= 2,
        2 <= n <= s.len(),
    ensures
        spec_render_toks_prefix(s, n) == spec_render_tok(s[0]) + " "@ + spec_render_toks_prefix(
            s.subrange(1, s.len() as int),
            n - 1,
        ),
    decreases n,
{
    let t = s.subrange(1, s.len() as int);
    if n == 2 {
        assert(t[0] == s[1]);
        assert(spec_render_toks_prefix(s, 1) == spec_render_tok(s[0]));
        assert(spec_render_toks_prefix(s, 2) == spec_render_toks_prefix(s, 1) + " "@
            + spec_render_tok(s[1]));
        assert(spec_render_toks_prefix(t, 1) == spec_render_tok(t[0]));
        assert(spec_render_toks_prefix(s, 2) =~= spec_render_tok(s[0]) + " "@
            + spec_render_toks_prefix(t, 1));
    } else {
        lemma_render_toks_prefix_shift(s, n - 1);
        assert(t[n - 2] == s[n - 1]);
        assert(spec_render_toks_prefix(s, n) =~= spec_render_tok(s[0]) + " "@
            + spec_render_toks_prefix(t, n - 1));
    }
}

/// Renders one token as text.
pub fn render_tok(t: &AttrTok) -> (r: String)
    ensures
        r@ == spec_render_tok(*t),
    decreases *t,
{
    match t {
        AttrTok::Ident(s) => s.clone(),
        AttrTok::StrLit(s) => {
            let mut out = String::from_str("\"");
            out.append(s.as_str());
            out.append("\"");
            out
        },
        AttrTok::Eq => String::from_str("="),
        AttrTok::Comma => String::from_str(","),
        AttrTok::Group(d, c) => {
            let mut out = match d {
                Delim::Paren => String::from_str("("),
                Delim::Bracket => String::from_str("["),
                Delim::Brace => String::from_str("{"),
            };
            let inner = render_toks(c);
            out.append(inner.as_str());
            match d {
                Delim::Paren => out.append(")"),
                Delim::Bracket => out.append("]"),
                Delim::Brace => out.append("}"),
            }
            out
        },
        AttrTok::Other(s) => s.clone(),
    }
}

/// Renders a token run as text.
pub fn render_toks(toks: &Vec<AttrTok>) -> (r: String)
    ensures
        r@ == spec_render_toks(toks@),
    decreases toks@,
{
    let mut out = String::new();
    let mut i: usize = 0;
    proof {
        assert(out@ =~= spec_render_toks_prefix(toks@, 0));
    }
    while i < toks.len()
        invariant
            0 <= i <= toks.len(),
            out@ == spec_render_toks_prefix(toks@, i as int),
        decreases toks.len() - i,
    {
        if i > 0 {
            out.append(" ");
        }
        let piece = render_tok(&toks[i]);
        out.append(piece.as_str());
        proof {
            lemma_render_toks_prefix_step(toks@, i as int);
        }
        i = i + 1;
    }
    proof {
        lemma_render_toks_prefix_all(toks@);
    }
    out
}

/// Renders the tail of a token run, from position `from` on, as text.
pub fn render_toks_from(toks: &Vec<AttrTok>, from: usize) -> (r: String)
    requires
        from <= toks@.len(),
    ensures
        r@ == spec_render_toks(toks@.subrange(from as int, toks@.len() as int)),
{
    let ghost sub = toks@.subrange(from as int, toks@.len() as int);
    let mut out = String::new();
    let mut i: usize = from;
    proof {
        assert(out@ =~= spec_render_toks_prefix(sub, 0));
    }
    while i < toks.len()
        invariant
            from <= i <= toks.len(),
            sub == toks@.subrange(from as int, toks@.len() as int),
            out@ == spec_render_toks_prefix(sub, i - from),
        decreases toks.len() - i,
    {
        if i > from {
            out.append(" ");
        }
        let piece = render_tok(&toks[i]);
        proof {
            assert(sub[i - from] == toks@[i as int]);
            lemma_render_toks_prefix_step(sub, i - from);
        }
        out.append(piece.as_str());
        i = i + 1;
    }
    proof {
        lemma_render_toks_prefix_all(sub);
    }
    out
}

/// The runs of tokens between top-level commas, in order. A run stands
/// between every pair of adjacent commas, before the first and after the
/// last; the empty input is one empty run.
pub open spec fn spec_split(s: Seq<AttrTok>) -> Seq<Seq<AttrTok>>
    decreases s,
{
    if s.len() == 0 {
        seq![Seq::<AttrTok>::empty()]
    } else {
        let rest = spec_split(s.subrange(1, s.len() as int));
        if s[0] is Comma {
            seq![Seq::<AttrTok>::empty()] + rest
        } else {
            seq![seq![s[0]] + rest[0]] + rest.subrange(1, rest.len() as int)
        }
    }
}

/// A split always yields at least one run.
pub proof fn lemma_split_len(s: Seq<AttrTok>)
    ensures
        spec_split(s).len() >= 1,
    decreases s,
{
    if s.len() > 0 {
        lemma_split_len(s.subrange(1, s.len() as int));
    }
}

/// Splits a token list on its top-level commas.
pub fn split_top(toks: Vec<AttrTok>) -> (r: Vec<Vec<AttrTok>>)
    ensures
        segs_view(r@) == spec_split(toks@),
{
    let ghost full = toks@;
    let mut out: Vec<Vec<AttrTok>> = Vec::new();
    let mut cur: Vec<AttrTok> = Vec::new();
    let mut rest = toks;
    proof {
        lemma_split_len(full);
        assert(segs_view(out@) =~= Seq::<Seq<AttrTok>>::empty());
        assert(cur@ =~= Seq::<AttrTok>::empty());
        assert(rest@ =~= full);
        lemma_split_merge_trivial(full);
    }
    while rest.len() > 0
        invariant
            spec_split(full) == segs_view(out@) + seq![cur@ + spec_split(rest@)[0]] + spec_split(
                rest@,
            ).subrange(1, spec_split(rest@).len() as int),
        decreases rest@.len(),
    {
        let ghost pre = rest@;
        let ghost split_pre = spec_split(pre);
        let t = rest.remove(0);
        proof {
            assert(t == pre[0]);
            assert(rest@ =~= pre.subrange(1, pre.len() as int));
            lemma_split_len(rest@);
        }
        let ghost split_rest = spec_split(rest@);
        let is_comma = match &t {
            AttrTok::Comma => true,
            _ => false,
        };
        if is_comma {
            proof {
                assert(split_pre == seq![Seq::<AttrTok>::empty()] + split_rest);
                assert(split_pre[0] =~= Seq::<AttrTok>::empty());
            }
            let ghost out_pre = out@;
            let ghost curv = cur@;
            out.push(cur);
            cur = Vec::new();
            proof {
                assert(out@ == out_pre.push(out@.last()));
                assert(out@.last()@ == curv);
                assert forall|j: int| 0 <= j < out@.len() implies segs_view(out@)[j] == segs_view(
                    out_pre,
                ).push(curv)[j] by {
                    if j < out_pre.len() {
                        assert(out@[j] == out_pre[j]);
                    } else {
                        assert(out@[j] == out@.last());
                    }
                }
                assert(segs_view(out@) =~= segs_view(out_pre).push(curv));
                assert(curv + split_pre[0] =~= curv);
                assert(split_pre.subrange(1, split_pre.len() as int) =~= split_rest);
                assert(segs_view(out@) + seq![cur@ + split_rest[0]] + split_rest.subrange(
                    1,
                    split_rest.len() as int,
                ) =~= segs_view(out_pre) + seq![curv + split_pre[0]] + split_pre.subrange(
                    1,
                    split_pre.len() as int,
                ));
            }
        } else {
            proof {
                assert(split_pre == seq![seq![pre[0]] + split_rest[0]] + split_rest.subrange(
                    1,
                    split_rest.len() as int,
                ));
            }
            let ghost curv = cur@;
            cur.push(t);
            proof {
                assert(cur@ == curv.push(pre[0]));
                assert(cur@ + split_rest[0] =~= curv + (seq![pre[0]] + split_rest[0]));
                assert(split_pre[0] == seq![pre[0]] + split_rest[0]);
                assert(split_pre.subrange(1, split_pre.len() as int) =~= split_rest.subrange(
                    1,
                    split_rest.len() as int,
                ));
                assert(segs_view(out@) + seq![cur@ + split_rest[0]] + split_rest.subrange(
                    1,
                    split_rest.len() as int,
                ) =~= segs_view(out@) + seq![curv + split_pre[0]] + split_pre.subrange(
                    1,
                    split_pre.len() as int,
                ));
            }
        }
    }
    proof {
        assert(spec_split(rest@) =~= seq![Seq::<AttrTok>::empty()]);
        assert(cur@ + spec_split(rest@)[0] =~= cur@);
    }
    let ghost out_pre = out@;
    let ghost curv = cur@;
    out.push(cur);
    proof {
        assert(out@ == out_pre.push(out@.last()));
        assert(out@.last()@ == curv);
        assert forall|j: int| 0 <= j < out@.len() implies segs_view(out@)[j] == segs_view(
            out_pre,
        ).push(curv)[j] by {
            if j < out_pre.len() {
                assert(out@[j] == out_pre[j]);
            } else {
                assert(out@[j] == out@.last());
            }
        }
        assert(segs_view(out@) =~= segs_view(out_pre).push(curv));
        assert(spec_split(full).subrange(1, spec_split(full).len() as int).len() == 0 ==> true);
        assert(segs_view(out@) =~= spec_split(full));
    }
    out
}

/// View of a list of token runs.
pub open spec fn segs_view(s: Seq<Vec<AttrTok>>) -> Seq<Seq<AttrTok>> {
    s.map_values(|v: Vec<AttrTok>| v@)
}

/// The trivial merge at the start of a split.
proof fn lemma_split_merge_trivial(s: Seq<AttrTok>)
    ensures
        spec_split(s) == Seq::<Seq<AttrTok>>::empty() + seq![
            Seq::<AttrTok>::empty() + spec_split(s)[0],
        ] + spec_split(s).subrange(1, spec_split(s).len() as int),
{
    lemma_split_len(s);
    assert(Seq::<AttrTok>::empty() + spec_split(s)[0] =~= spec_split(s)[0]);
    assert(Seq::<Seq<AttrTok>>::empty() + seq![Seq::<AttrTok>::empty() + spec_split(s)[0]]
        + spec_split(s).subrange(1, spec_split(s).len() as int) =~= spec_split(s));
}


/// Renders a middle range of a token run as text.
pub fn render_toks_range(toks: &Vec<AttrTok>, from: usize, to: usize) -> (r: String)
    requires
        from <= to <= toks@.len(),
    ensures
        r@ == spec_render_toks(toks@.subrange(from as int, to as int)),
{
    let ghost sub = toks@.subrange(from as int, to as int);
    let mut out = String::new();
    let mut i: usize = from;
    proof {
        assert(out@ =~= spec_render_toks_prefix(sub, 0));
    }
    while i < to
        invariant
            from <= i <= to <= toks@.len(),
            sub == toks@.subrange(from as int, to as int),
            out@ == spec_render_toks_prefix(sub, i - from),
        decreases to - i,
    {
        if i > from {
            out.append(" ");
        }
        let piece = render_tok(&toks[i]);
        proof {
            assert(sub[i - from] == toks@[i as int]);
            lemma_render_toks_prefix_step(sub, i - from);
        }
        out.append(piece.as_str());
        i = i + 1;
    }
    proof {
        lemma_render_toks_prefix_all(sub);
    }
    out
}

} // verus!
