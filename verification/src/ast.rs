//! The query syntax tree and its mathematical model.
//!
//! A query is a tree of terms; a term is `[tag, [args...], {opts...}]` on the
//! wire, with the options slot omitted when no option is set. Leaves are JSON
//! datums. The model (`AstV`) mirrors the tree over `int`, `Seq<char>` and
//! `Seq`, and every builder contract and the serializer speak in terms of it.
use vstd::prelude::*;

verus! {

/// Option arguments attached to a term node: one slot for each optional
/// argument the operators offered by this builder accept on the wire
/// (`index`, `left_bound`, `right_bound`).
pub struct OptArgs {
    pub index: Option<Box<Ast>>,
    pub left_bound: Option<Box<Ast>>,
    pub right_bound: Option<Box<Ast>>,
}

/// A query syntax tree: a JSON datum leaf or an operator node.
pub enum Ast {
    Null,
    Bool(bool),
    Int(i64),
    UInt(u64),
    Str(String),
    /// A raw JSON array (not a MAKE_ARRAY term); used for the tag-only
    /// encodings of the minimum/maximum key markers.
    Arr(Vec<Ast>),
    Term(u32, Vec<Ast>, OptArgs),
}

/// Mathematical model of a syntax tree.
pub enum AstV {
    Null,
    Bool(bool),
    Num(int),
    Str(Seq<char>),
    Arr(Seq<AstV>),
    Term(int, Seq<AstV>, OptsV),
}

/// Model of the option slots of a term node. A slot is empty when the option
/// is unset and a singleton when it is set.
pub struct OptsV {
    pub index: Seq<AstV>,
    pub left_bound: Seq<AstV>,
    pub right_bound: Seq<AstV>,
}

impl OptsV {
    /// All slots unset.
    pub open spec fn empty() -> OptsV {
        OptsV { index: Seq::empty(), left_bound: Seq::empty(), right_bound: Seq::empty() }
    }

    pub open spec fn is_empty(self) -> bool {
        self.index.len() == 0 && self.left_bound.len() == 0 && self.right_bound.len() == 0
    }
}

/// Model of a syntax tree.
pub open spec fn ast_view(a: Ast) -> AstV
    decreases a,
{
    match a {
        Ast::Null => AstV::Null,
        Ast::Bool(b) => AstV::Bool(b),
        Ast::Int(i) => AstV::Num(i as int),
        Ast::UInt(u) => AstV::Num(u as int),
        Ast::Str(s) => AstV::Str(s@),
        Ast::Arr(items) => AstV::Arr(asts_view(items@)),
        Ast::Term(tag, args, opts) => AstV::Term(tag as int, asts_view(args@), opts_view(opts)),
    }
}

/// Model of a list of syntax trees.
pub open spec fn asts_view(s: Seq<Ast>) -> Seq<AstV>
    decreases s,
{
    if s.len() == 0 {
        Seq::empty()
    } else {
        asts_view(s.subrange(0, s.len() - 1)).push(ast_view(s[s.len() - 1]))
    }
}

/// Model of the option slots of a term node.
pub open spec fn opts_view(o: OptArgs) -> OptsV
    decreases o,
{
    OptsV {
        index: match o.index {
            Some(a) => seq![ast_view(*a)],
            None => seq![],
        },
        left_bound: match o.left_bound {
            Some(a) => seq![ast_view(*a)],
            None => seq![],
        },
        right_bound: match o.right_bound {
            Some(a) => seq![ast_view(*a)],
            None => seq![],
        },
    }
}

pub proof fn lemma_asts_view_push(s: Seq<Ast>, x: Ast)
    ensures
        asts_view(s.push(x)) == asts_view(s).push(ast_view(x)),
{
    let p = s.push(x);
    assert(p.subrange(0, p.len() - 1) =~= s);
    assert(p[p.len() - 1] == x);
}

pub proof fn lemma_asts_view_concat(x: Seq<Ast>, y: Seq<Ast>)
    ensures
        asts_view(x + y) == asts_view(x) + asts_view(y),
    decreases y.len(),
{
    if y.len() == 0 {
        assert(x + y =~= x);
        assert(asts_view(x) + asts_view(y) =~= asts_view(x));
    } else {
        lemma_asts_view_concat(x, y.drop_last());
        assert((x + y).subrange(0, x.len() + y.len() - 1) =~= x + y.drop_last());
        assert((x + y)[x.len() + y.len() - 1] == y.last());
        assert(y.subrange(0, y.len() - 1) =~= y.drop_last());
        assert(asts_view(x) + asts_view(y) =~= (asts_view(x) + asts_view(y.drop_last())).push(
            ast_view(y.last()),
        ));
    }
}

pub proof fn lemma_asts_view_index(s: Seq<Ast>)
    ensures
        asts_view(s).len() == s.len(),
        forall|i: int| 0 <= i < s.len() ==> asts_view(s)[i] == ast_view(s[i]),
    decreases s,
{
    if s.len() > 0 {
        let pre = s.subrange(0, s.len() - 1);
        lemma_asts_view_index(pre);
        assert(forall|i: int| 0 <= i < pre.len() ==> pre[i] == s[i]);
    }
}

impl View for Ast {
    type V = AstV;

    open spec fn view(&self) -> AstV {
        ast_view(*self)
    }
}

impl View for OptArgs {
    type V = OptsV;

    open spec fn view(&self) -> OptsV {
        opts_view(*self)
    }
}

impl OptArgs {
    /// A term node with no options set.
    pub fn none() -> (r: OptArgs)
        ensures
            r@ == OptsV::empty(),
    {
        OptArgs { index: None, left_bound: None, right_bound: None }
    }
}

/// Model of a term node whose options are all unset.
pub open spec fn term_v(tag: int, args: Seq<AstV>) -> AstV {
    AstV::Term(tag, args, OptsV::empty())
}

/// A term node with the given tag and positional arguments and no options.
pub fn term(tag: u32, args: Vec<Ast>) -> (r: Ast)
    ensures
        r@ == term_v(tag as int, asts_view(args@)),
{
    Ast::Term(tag, args, OptArgs::none())
}

/// Model of setting the `index` option slot of a term node; any other node
/// is left unchanged.
pub open spec fn spec_set_index(a: AstV, v: AstV) -> AstV {
    match a {
        AstV::Term(t, args, o) => AstV::Term(
            t,
            args,
            OptsV { index: seq![v], left_bound: o.left_bound, right_bound: o.right_bound },
        ),
        x => x,
    }
}

/// Model of setting the `left_bound` option slot of a term node.
pub open spec fn spec_set_left_bound(a: AstV, v: AstV) -> AstV {
    match a {
        AstV::Term(t, args, o) => AstV::Term(
            t,
            args,
            OptsV { index: o.index, left_bound: seq![v], right_bound: o.right_bound },
        ),
        x => x,
    }
}

/// Model of setting the `right_bound` option slot of a term node.
pub open spec fn spec_set_right_bound(a: AstV, v: AstV) -> AstV {
    match a {
        AstV::Term(t, args, o) => AstV::Term(
            t,
            args,
            OptsV { index: o.index, left_bound: o.left_bound, right_bound: seq![v] },
        ),
        x => x,
    }
}

/// Set the `index` option slot of a term node.
pub fn set_index(a: Ast, v: Ast) -> (r: Ast)
    ensures
        r@ == spec_set_index(a@, v@),
{
    match a {
        Ast::Term(t, args, o) => {
            let o2 = OptArgs { index: Some(Box::new(v)), left_bound: o.left_bound, right_bound: o.right_bound };
            Ast::Term(t, args, o2)
        },
        x => x,
    }
}

/// Set the `left_bound` option slot of a term node.
pub fn set_left_bound(a: Ast, v: Ast) -> (r: Ast)
    ensures
        r@ == spec_set_left_bound(a@, v@),
{
    match a {
        Ast::Term(t, args, o) => {
            let o2 = OptArgs { index: o.index, left_bound: Some(Box::new(v)), right_bound: o.right_bound };
            Ast::Term(t, args, o2)
        },
        x => x,
    }
}

/// Set the `right_bound` option slot of a term node.
pub fn set_right_bound(a: Ast, v: Ast) -> (r: Ast)
    ensures
        r@ == spec_set_right_bound(a@, v@),
{
    match a {
        Ast::Term(t, args, o) => {
            let o2 = OptArgs { index: o.index, left_bound: o.left_bound, right_bound: Some(Box::new(v)) };
            Ast::Term(t, args, o2)
        },
        x => x,
    }
}

/// A term node with no positional arguments.
pub fn term0(tag: u32) -> (r: Ast)
    ensures
        r@ == term_v(tag as int, seq![]),
{
    let args: Vec<Ast> = Vec::new();
    term(tag, args)
}

/// A term node with one positional argument.
pub fn term1(tag: u32, a: Ast) -> (r: Ast)
    ensures
        r@ == term_v(tag as int, seq![a@]),
{
    let ghost av = a@;
    let mut args: Vec<Ast> = Vec::new();
    args.push(a);
    proof {
        lemma_asts_view_index(args@);
        assert(asts_view(args@) =~= seq![av]);
    }
    term(tag, args)
}

/// A term node with two positional arguments.
pub fn term2(tag: u32, a: Ast, b: Ast) -> (r: Ast)
    ensures
        r@ == term_v(tag as int, seq![a@, b@]),
{
    let ghost av = a@;
    let ghost bv = b@;
    let mut args: Vec<Ast> = Vec::new();
    args.push(a);
    args.push(b);
    proof {
        lemma_asts_view_index(args@);
        assert(asts_view(args@) =~= seq![av, bv]);
    }
    term(tag, args)
}

/// A term node with three positional arguments.
pub fn term3(tag: u32, a: Ast, b: Ast, c: Ast) -> (r: Ast)
    ensures
        r@ == term_v(tag as int, seq![a@, b@, c@]),
{
    let ghost av = a@;
    let ghost bv = b@;
    let ghost cv = c@;
    let mut args: Vec<Ast> = Vec::new();
    args.push(a);
    args.push(b);
    args.push(c);
    proof {
        lemma_asts_view_index(args@);
        assert(asts_view(args@) =~= seq![av, bv, cv]);
    }
    term(tag, args)
}

} // verus!
