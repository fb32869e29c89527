//! Nominal type trees and pattern trees: the shapes read off handler
//! signatures, with the payload-extraction rules used by the link-wrapping
//! transform and the documentation synthesizer.

use vstd::prelude::*;
use vstd::string::*;

use crate::text::str_eq;
use crate::parse::strs_view;

verus! {

/// A nominal type: the final name of the type path and its ordered type
/// arguments. Used only for shape matching, never evaluated.
#[derive(Debug)]
pub struct TypeTree {
    pub name: String,
    pub args: Vec<TypeTree>,
}

/// Mathematical view of a [`TypeTree`].
#[verifier::ext_equal]
pub ghost struct TypeTreeV {
    pub name: Seq<char>,
    pub args: Seq<TypeTreeV>,
}

/// View of a type tree.
pub open spec fn type_view(t: TypeTree) -> TypeTreeV
    decreases t,
{
    TypeTreeV { name: t.name@, args: types_view(t.args@) }
}

/// View of a sequence of type trees.
pub open spec fn types_view(s: Seq<TypeTree>) -> Seq<TypeTreeV>
    decreases s,
{
    if s.len() == 0 {
        Seq::empty()
    } else {
        seq![type_view(s[0])] + types_view(s.subrange(1, s.len() as int))
    }
}

/// Length and indexing of [`types_view`].
pub proof fn lemma_types_view(s: Seq<TypeTree>)
    ensures
        types_view(s).len() == s.len(),
        forall|i: int| 0 <= i < s.len() ==> types_view(s)[i] == type_view(#[trigger] s[i]),
    decreases s,
{
    if s.len() > 0 {
        let t = s.subrange(1, s.len() as int);
        lemma_types_view(t);
        assert forall|i: int| 0 <= i < s.len() implies types_view(s)[i] == type_view(
            #[trigger] s[i],
        ) by {
            if i > 0 {
                assert(t[i - 1] == s[i]);
                assert(types_view(s)[i] == types_view(t)[i - 1]);
            }
        }
    }
}

/// A view-preserving copy of a type tree.
pub fn clone_type(t: &TypeTree) -> (r: TypeTree)
    ensures
        type_view(r) == type_view(*t),
    decreases *t,
{
    let name = t.name.clone();
    let mut args: Vec<TypeTree> = Vec::new();
    let mut i: usize = 0;
    while i < t.args.len()
        invariant
            0 <= i <= t.args.len(),
            args@.len() == i,
            forall|k: int| 0 <= k < i ==> type_view(#[trigger] args@[k]) == type_view(t.args@[k]),
        decreases t.args.len() - i,
    {
        let a = clone_type(&t.args[i]);
        args.push(a);
        i = i + 1;
    }
    let r = TypeTree { name, args };
    proof {
        lemma_types_view(r.args@);
        lemma_types_view(t.args@);
        assert forall|k: int| 0 <= k < r.args@.len() implies types_view(r.args@)[k] == types_view(
            t.args@,
        )[k] by {
            assert(type_view(r.args@[k]) == type_view(t.args@[k]));
        }
        assert(types_view(r.args@) =~= types_view(t.args@));
        assert(type_view(r) =~= type_view(*t));
    }
    r
}

impl Clone for TypeTree {
    /// A view-preserving copy.
    fn clone(&self) -> (r: Self)
        ensures
            type_view(r) == type_view(*self),
    {
        clone_type(self)
    }
}

/// Payload of a `Json`-shaped wrapper: `Json<T>` yields `T`.
pub open spec fn spec_extract_json(t: TypeTreeV) -> Option<TypeTreeV> {
    if t.name == "Json"@ && t.args.len() > 0 {
        Some(t.args[0])
    } else {
        None
    }
}

/// Payload of a recognized response shape: `Result<Json<T>>` or `Json<T>`
/// yields `T`; any other shape yields nothing.
pub open spec fn spec_extract_inner(t: TypeTreeV) -> Option<TypeTreeV> {
    if t.name == "Result"@ {
        if t.args.len() > 0 {
            spec_extract_json(t.args[0])
        } else {
            None
        }
    } else {
        spec_extract_json(t)
    }
}

/// Payload of the hyperlink envelope: `HateoasResponse<T>` yields `T`.
pub open spec fn spec_extract_hateoas(t: TypeTreeV) -> Option<TypeTreeV> {
    if t.name == "HateoasResponse"@ && t.args.len() > 0 {
        Some(t.args[0])
    } else {
        None
    }
}

/// Extracts `T` from a `Json<T>`-shaped tree.
pub fn extract_json_type<'a>(t: &'a TypeTree) -> (r: Option<&'a TypeTree>)
    ensures
        match r {
            Some(x) => spec_extract_json(type_view(*t)) == Some(type_view(*x)),
            None => spec_extract_json(type_view(*t)) is None,
        },
{
    proof {
        lemma_types_view(t.args@);
    }
    if str_eq(t.name.as_str(), "Json") && t.args.len() > 0 {
        Some(&t.args[0])
    } else {
        None
    }
}

/// Extracts `T` from a `Result<Json<T>>`- or `Json<T>`-shaped tree.
pub fn extract_inner_type<'a>(t: &'a TypeTree) -> (r: Option<&'a TypeTree>)
    ensures
        match r {
            Some(x) => spec_extract_inner(type_view(*t)) == Some(type_view(*x)),
            None => spec_extract_inner(type_view(*t)) is None,
        },
{
    proof {
        lemma_types_view(t.args@);
    }
    if str_eq(t.name.as_str(), "Result") {
        if t.args.len() > 0 {
            extract_json_type(&t.args[0])
        } else {
            None
        }
    } else {
        extract_json_type(t)
    }
}

/// Extracts `T` from a `HateoasResponse<T>`-shaped tree.
pub fn extract_hateoas_inner_type<'a>(t: &'a TypeTree) -> (r: Option<&'a TypeTree>)
    ensures
        match r {
            Some(x) => spec_extract_hateoas(type_view(*t)) == Some(type_view(*x)),
            None => spec_extract_hateoas(type_view(*t)) is None,
        },
{
    proof {
        lemma_types_view(t.args@);
    }
    if str_eq(t.name.as_str(), "HateoasResponse") && t.args.len() > 0 {
        Some(&t.args[0])
    } else {
        None
    }
}

/// Rendered text of a type tree: the name, then the comma-separated
/// arguments in angle brackets when there are any.
pub open spec fn spec_render_type(t: TypeTreeV) -> Seq<char>
    decreases t,
{
    if t.args.len() == 0 {
        t.name
    } else {
        t.name + "<"@ + spec_render_types(t.args) + ">"@
    }
}

/// Rendered text of a comma-separated list of type trees.
pub open spec fn spec_render_types(s: Seq<TypeTreeV>) -> Seq<char>
    decreases s,
{
    if s.len() == 0 {
        Seq::empty()
    } else if s.len() == 1 {
        spec_render_type(s[0])
    } else {
        spec_render_type(s[0]) + ", "@ + spec_render_types(s.subrange(1, s.len() as int))
    }
}

/// Renders a type tree as text.
pub fn render_type(t: &TypeTree) -> (r: String)
    ensures
        r@ == spec_render_type(type_view(*t)),
    decreases *t,
{
    proof {
        lemma_types_view(t.args@);
    }
    let mut out = t.name.clone();
    if t.args.len() == 0 {
        return out;
    }
    out.append("<");
    let mut i: usize = 0;
    while i < t.args.len()
        invariant
            0 < t.args.len(),
            0 <= i <= t.args.len(),
            types_view(t.args@).len() == t.args@.len(),
            forall|k: int| 0 <= k < t.args@.len()
                ==> types_view(t.args@)[k] == type_view(#[trigger] t.args@[k]),
            out@ == type_view(*t).name + "<"@ + spec_render_types_prefix(types_view(t.args@), i as int),
        decreases t.args.len() - i,
    {
        if i > 0 {
            out.append(", ");
        }
        let piece = render_type(&t.args[i]);
        out.append(piece.as_str());
        proof {
            lemma_render_types_prefix_step(types_view(t.args@), i as int);
        }
        i = i + 1;
    }
    out.append(">");
    proof {
        lemma_render_types_prefix_all(types_view(t.args@));
    }
    out
}

/// Rendered text of the first `n` elements of a type list, comma-separated.
pub open spec fn spec_render_types_prefix(s: Seq<TypeTreeV>, n: int) -> Seq<char>
    decreases n,
{
    if n <= 0 {
        Seq::empty()
    } else if n == 1 {
        spec_render_type(s[0])
    } else {
        spec_render_types_prefix(s, n - 1) + ", "@ + spec_render_type(s[n - 1])
    }
}

/// One step of the prefix rendering.
proof fn lemma_render_types_prefix_step(s: Seq<TypeTreeV>, i: int)
    requires
        0 <= i < s.len(),
    ensures
        i == 0 ==> spec_render_types_prefix(s, 1) == spec_render_types_prefix(s, 0) + spec_render_type(s[0]),
        i > 0 ==> spec_render_types_prefix(s, i + 1) == spec_render_types_prefix(s, i) + ", "@
            + spec_render_type(s[i]),
{
    if i == 0 {
        assert(spec_render_types_prefix(s, 1) =~= spec_render_types_prefix(s, 0)
            + spec_render_type(s[0]));
    }
}

/// The full prefix rendering coincides with the list rendering.
proof fn lemma_render_types_prefix_all(s: Seq<TypeTreeV>)
    requires
        s.len() > 0,
    ensures
        spec_render_types_prefix(s, s.len() as int) == spec_render_types(s),
    decreases s.len(),
{
    if s.len() == 1 {
    } else {
        let t = s.subrange(1, s.len() as int);
        lemma_render_types_prefix_all(t);
        lemma_prefix_shift(s, s.len() as int);
        assert(spec_render_types(s) == spec_render_type(s[0]) + ", "@ + spec_render_types(t));
    }
}

/// Shifting a prefix rendering past the head element.
proof fn lemma_prefix_shift(s: Seq<TypeTreeV>, n: int)
    requires
        s.len() >= 2,
        2 <= n <= s.len(),
    ensures
        spec_render_types_prefix(s, n) == spec_render_type(s[0]) + ", "@
            + spec_render_types_prefix(s.subrange(1, s.len() as int), n - 1),
    decreases n,
{
    let t = s.subrange(1, s.len() as int);
    if n == 2 {
        assert(spec_render_types_prefix(s, 2) == spec_render_types_prefix(s, 1) + ", "@
            + spec_render_type(s[1]));
        assert(spec_render_types_prefix(t, 1) == spec_render_type(t[0]));
        assert(t[0] == s[1]);
        assert(spec_render_types_prefix(s, 2) =~= spec_render_type(s[0]) + ", "@
            + spec_render_types_prefix(t, 1));
    } else {
        lemma_prefix_shift(s, n - 1);
        assert(t[n - 2] == s[n - 1]);
        assert(spec_render_types_prefix(s, n) =~= spec_render_type(s[0]) + ", "@
            + spec_render_types_prefix(t, n - 1));
    }
}

/// A pattern in a handler parameter position, reduced to the shape that
/// identifier collection reads.
#[derive(Debug)]
pub enum PatTree {
    /// A plain binding.
    Ident(String),
    /// A tuple-struct pattern such as an extractor destructuring.
    TupleStruct(Vec<PatTree>),
    /// A tuple pattern.
    Tuple(Vec<PatTree>),
    /// A pattern with an ascribed type.
    Typed(Box<PatTree>),
    /// A reference pattern.
    Ref(Box<PatTree>),
    /// Any other pattern, which binds nothing.
    Wild,
}

/// Mathematical view of a [`PatTree`].
#[verifier::ext_equal]
pub ghost enum PatTreeV {
    Ident(Seq<char>),
    TupleStruct(Seq<PatTreeV>),
    Tuple(Seq<PatTreeV>),
    Typed(Box<PatTreeV>),
    Ref(Box<PatTreeV>),
    Wild,
}

/// View of a pattern tree.
pub open spec fn pat_view(p: PatTree) -> PatTreeV
    decreases p,
{
    match p {
        PatTree::Ident(s) => PatTreeV::Ident(s@),
        PatTree::TupleStruct(es) => PatTreeV::TupleStruct(pats_view(es@)),
        PatTree::Tuple(es) => PatTreeV::Tuple(pats_view(es@)),
        PatTree::Typed(b) => PatTreeV::Typed(Box::new(pat_view(*b))),
        PatTree::Ref(b) => PatTreeV::Ref(Box::new(pat_view(*b))),
        PatTree::Wild => PatTreeV::Wild,
    }
}

/// View of a sequence of pattern trees.
pub open spec fn pats_view(s: Seq<PatTree>) -> Seq<PatTreeV>
    decreases s,
{
    if s.len() == 0 {
        Seq::empty()
    } else {
        seq![pat_view(s[0])] + pats_view(s.subrange(1, s.len() as int))
    }
}

/// Length and indexing of [`pats_view`].
pub proof fn lemma_pats_view(s: Seq<PatTree>)
    ensures
        pats_view(s).len() == s.len(),
        forall|i: int| 0 <= i < s.len() ==> pats_view(s)[i] == pat_view(#[trigger] s[i]),
    decreases s,
{
    if s.len() > 0 {
        let t = s.subrange(1, s.len() as int);
        lemma_pats_view(t);
        assert forall|i: int| 0 <= i < s.len() implies pats_view(s)[i] == pat_view(
            #[trigger] s[i],
        ) by {
            if i > 0 {
                assert(t[i - 1] == s[i]);
                assert(pats_view(s)[i] == pats_view(t)[i - 1]);
            }
        }
    }
}

/// A view-preserving copy of a pattern tree.
pub fn clone_pat(p: &PatTree) -> (r: PatTree)
    ensures
        pat_view(r) == pat_view(*p),
    decreases *p,
{
    match p {
        PatTree::Ident(s) => PatTree::Ident(s.clone()),
        PatTree::TupleStruct(es) => PatTree::TupleStruct(clone_pats(es)),
        PatTree::Tuple(es) => PatTree::Tuple(clone_pats(es)),
        PatTree::Typed(b) => PatTree::Typed(Box::new(clone_pat(b))),
        PatTree::Ref(b) => PatTree::Ref(Box::new(clone_pat(b))),
        PatTree::Wild => PatTree::Wild,
    }
}

/// A view-preserving copy of a list of pattern trees.
pub fn clone_pats(es: &Vec<PatTree>) -> (r: Vec<PatTree>)
    ensures
        pats_view(r@) == pats_view(es@),
    decreases es@,
{
    let mut out: Vec<PatTree> = Vec::new();
    let mut i: usize = 0;
    while i < es.len()
        invariant
            0 <= i <= es.len(),
            out@.len() == i,
            forall|k: int| 0 <= k < i ==> pat_view(#[trigger] out@[k]) == pat_view(es@[k]),
        decreases es.len() - i,
    {
        let c = clone_pat(&es[i]);
        out.push(c);
        i = i + 1;
    }
    proof {
        lemma_pats_view(out@);
        lemma_pats_view(es@);
        assert forall|k: int| 0 <= k < out@.len() implies pats_view(out@)[k] == pats_view(
            es@,
        )[k] by {
            assert(pat_view(out@[k]) == pat_view(es@[k]));
        }
        assert(pats_view(out@) =~= pats_view(es@));
    }
    out
}

impl Clone for PatTree {
    /// A view-preserving copy.
    fn clone(&self) -> (r: Self)
        ensures
            pat_view(r) == pat_view(*self),
    {
        clone_pat(self)
    }
}


/// The identifiers a pattern binds, in reading order.
pub open spec fn spec_pat_idents(p: PatTreeV) -> Seq<Seq<char>>
    decreases p,
{
    match p {
        PatTreeV::Ident(s) => seq![s],
        PatTreeV::TupleStruct(es) => spec_pats_idents(es),
        PatTreeV::Tuple(es) => spec_pats_idents(es),
        PatTreeV::Typed(b) => spec_pat_idents(*b),
        PatTreeV::Ref(b) => spec_pat_idents(*b),
        PatTreeV::Wild => Seq::empty(),
    }
}

/// The identifiers a pattern list binds, in reading order.
pub open spec fn spec_pats_idents(s: Seq<PatTreeV>) -> Seq<Seq<char>>
    decreases s,
{
    if s.len() == 0 {
        Seq::empty()
    } else {
        spec_pat_idents(s[0]) + spec_pats_idents(s.subrange(1, s.len() as int))
    }
}

/// Collects the identifiers bound by a pattern, in reading order.
pub fn collect_pat_idents(p: &PatTree) -> (r: Vec<String>)
    ensures
        strs_view(r@) == spec_pat_idents(pat_view(*p)),
    decreases *p,
{
    match p {
        PatTree::Ident(s) => {
            let mut out: Vec<String> = Vec::new();
            out.push(s.clone());
            proof {
                assert(strs_view(out@) =~= spec_pat_idents(pat_view(*p)));
            }
            out
        },
        PatTree::TupleStruct(es) => collect_pats_idents(es),
        PatTree::Tuple(es) => collect_pats_idents(es),
        PatTree::Typed(b) => collect_pat_idents(b),
        PatTree::Ref(b) => collect_pat_idents(b),
        PatTree::Wild => {
            let out: Vec<String> = Vec::new();
            proof {
                assert(strs_view(out@) =~= spec_pat_idents(pat_view(*p)));
            }
            out
        },
    }
}

/// Collects the identifiers bound by a list of patterns, in reading order.
pub fn collect_pats_idents(es: &Vec<PatTree>) -> (r: Vec<String>)
    ensures
        strs_view(r@) == spec_pats_idents(pats_view(es@)),
    decreases es@,
{
    let mut out: Vec<String> = Vec::new();
    let mut i: usize = 0;
    proof {
        lemma_pats_view(es@);
        assert(strs_view(out@) =~= spec_pats_prefix(pats_view(es@), 0));
    }
    while i < es.len()
        invariant
            0 <= i <= es.len(),
            pats_view(es@).len() == es@.len(),
            forall|k: int| 0 <= k < es@.len() ==> pats_view(es@)[k] == pat_view(#[trigger] es@[k]),
            strs_view(out@) == spec_pats_prefix(pats_view(es@), i as int),
        decreases es.len() - i,
    {
        let mut piece = collect_pat_idents(&es[i]);
        proof {
            let ghost a = strs_view(out@);
            let ghost b = strs_view(piece@);
            assert(strs_view(out@ + piece@) =~= a + b);
        }
        out.append(&mut piece);
        proof {
            lemma_pats_prefix_step(pats_view(es@), i as int);
        }
        i = i + 1;
    }
    proof {
        lemma_pats_prefix_all(pats_view(es@));
    }
    out
}

/// The identifiers bound by the first `n` patterns of a list.
pub open spec fn spec_pats_prefix(s: Seq<PatTreeV>, n: int) -> Seq<Seq<char>>
    decreases n,
{
    if n <= 0 {
        Seq::empty()
    } else {
        spec_pats_prefix(s, n - 1) + spec_pat_idents(s[n - 1])
    }
}

/// One step of the prefix identifier collection.
proof fn lemma_pats_prefix_step(s: Seq<PatTreeV>, i: int)
    requires
        0 <= i < s.len(),
    ensures
        spec_pats_prefix(s, i + 1) == spec_pats_prefix(s, i) + spec_pat_idents(s[i]),
{
}

/// The full prefix collection coincides with the list collection.
pub proof fn lemma_pats_prefix_all(s: Seq<PatTreeV>)
    ensures
        spec_pats_prefix(s, s.len() as int) == spec_pats_idents(s),
    decreases s.len(),
{
    if s.len() == 0 {
        assert(spec_pats_prefix(s, 0) =~= spec_pats_idents(s));
    } else {
        let t = s.subrange(1, s.len() as int);
        lemma_pats_prefix_all(t);
        lemma_pats_prefix_shift(s, s.len() as int);
        assert(spec_pats_prefix(s, s.len() as int) =~= spec_pats_idents(s));
    }
}

/// Shifting a prefix collection past the head element.
proof fn lemma_pats_prefix_shift(s: Seq<PatTreeV>, n: int)
    requires
        s.len() >= 1,
        1 <= n <= s.len(),
    ensures
        spec_pats_prefix(s, n) == spec_pat_idents(s[0]) + spec_pats_prefix(
            s.subrange(1, s.len() as int),
            n - 1,
        ),
    decreases n,
{
    let t = s.subrange(1, s.len() as int);
    if n == 1 {
        assert(spec_pats_prefix(s, 0) == Seq::<Seq<char>>::empty());
        assert(spec_pats_prefix(t, 0) == Seq::<Seq<char>>::empty());
        assert(spec_pats_prefix(s, 1) == spec_pats_prefix(s, 0) + spec_pat_idents(s[0]));
        assert(spec_pats_prefix(s, 1) =~= spec_pat_idents(s[0]) + spec_pats_prefix(t, 0));
    } else {
        lemma_pats_prefix_shift(s, n - 1);
        assert(t[n - 2] == s[n - 1]);
        assert(spec_pats_prefix(s, n) =~= spec_pat_idents(s[0]) + spec_pats_prefix(t, n - 1));
    }
}

} // verus!
