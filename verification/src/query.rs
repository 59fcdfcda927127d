//! The typed query-expression builder.
//!
//! An expression pairs a syntax tree with a phantom *output category*
//! (table, stream, object, string, ...) and a phantom record of which option
//! slots its head term has set. Both exist only at build time: operators are
//! gated on the category through marker traits, so applying a sequence
//! operator to a scalar, comparing incompatible categories, or setting the
//! same option twice does not compile. Every builder's contract pins the
//! resulting tree exactly, so the serialized form follows from `json_of`.
//!
//! Function variables are minted from a [`VarSource`] the query's author
//! owns: one source per query hands out the ids 0, 1, 2, ... in order, so
//! every variable a query binds is distinct by construction and the wire
//! form of a query depends on the query alone.
use vstd::prelude::*;
use core::marker::PhantomData;
use crate::ast::{Ast, AstV, OptArgs, asts_view, term_v, term0, term1, term2, term3};
use crate::term;

verus! {

// Output categories. They carry no data; expressions mention them only in
// phantom position.
pub struct StringOut;

pub struct ObjectOut;

pub struct BoolOut;

pub struct NumberOut;

pub struct NullOut;

pub struct AnyOut;

pub struct TableOut;

pub struct DbOut;

#[verifier::reject_recursive_types(OfT)]
pub struct ArrayOut<OfT>(PhantomData<OfT>);

#[verifier::reject_recursive_types(OfT)]
pub struct SelectionOut<OfT>(PhantomData<OfT>);

#[verifier::reject_recursive_types(OfT)]
pub struct SingleSelectionOut<OfT>(PhantomData<OfT>);

#[verifier::reject_recursive_types(OfT)]
pub struct StreamOut<OfT>(PhantomData<OfT>);

#[verifier::reject_recursive_types(ArgsT)]
#[verifier::reject_recursive_types(ReturnT)]
pub struct FunctionOut<ArgsT, ReturnT>(PhantomData<(ArgsT, ReturnT)>);

#[verifier::reject_recursive_types(OfT)]
pub struct NullOr<OfT>(PhantomData<OfT>);

/// A typed query expression: a syntax tree together with the phantom
/// output category and option record.
#[verifier::reject_recursive_types(OutT)]
#[verifier::reject_recursive_types(OptsT)]
pub struct Expr<OutT, OptsT> {
    pub ast: Ast,
    pub _marker: PhantomData<(OutT, OptsT)>,
}

impl<OutT, OptsT> View for Expr<OutT, OptsT> {
    type V = AstV;

    open spec fn view(&self) -> AstV {
        self.ast@
    }
}

/// Values that lower to a syntax tree: expressions and plain datums.
pub trait IntoAst: Sized {
    /// Model of the tree this value lowers to.
    spec fn ast_v(&self) -> AstV;

    fn into_ast(self) -> (r: Ast)
        ensures
            r@ == self.ast_v(),
    ;
}

/// Values that lower to an expression of a known output category.
pub trait IntoExpr: IntoAst {
    type Out;
}

/// Wrap a value as a typed expression.
pub fn expr<OfT: IntoExpr>(of: OfT) -> (r: Expr<OfT::Out, NoOptions>)
    ensures
        r@ == of.ast_v(),
{
    Expr { ast: of.into_ast(), _marker: PhantomData }
}

impl<OutT, OptsT> IntoAst for Expr<OutT, OptsT> {
    open spec fn ast_v(&self) -> AstV {
        self.ast@
    }

    fn into_ast(self) -> Ast {
        self.ast
    }
}

impl<OutT, OptsT> IntoExpr for Expr<OutT, OptsT> {
    type Out = OutT;
}

/// The JSON `null` datum.
pub struct Null;

impl IntoAst for Null {
    open spec fn ast_v(&self) -> AstV {
        AstV::Null
    }

    fn into_ast(self) -> Ast {
        Ast::Null
    }
}

impl IntoExpr for Null {
    type Out = NullOut;
}

impl IntoAst for String {
    open spec fn ast_v(&self) -> AstV {
        AstV::Str(self@)
    }

    fn into_ast(self) -> Ast {
        Ast::Str(self)
    }
}

impl IntoExpr for String {
    type Out = StringOut;
}

impl<'a> IntoAst for &'a str {
    open spec fn ast_v(&self) -> AstV {
        AstV::Str(self@)
    }

    fn into_ast(self) -> Ast {
        Ast::Str(self.to_owned())
    }
}

impl<'a> IntoExpr for &'a str {
    type Out = StringOut;
}

impl IntoAst for bool {
    open spec fn ast_v(&self) -> AstV {
        AstV::Bool(*self)
    }

    fn into_ast(self) -> Ast {
        Ast::Bool(self)
    }
}

impl IntoExpr for bool {
    type Out = BoolOut;
}

impl IntoAst for u64 {
    open spec fn ast_v(&self) -> AstV {
        AstV::Num(*self as int)
    }

    fn into_ast(self) -> Ast {
        Ast::UInt(self)
    }
}

impl IntoExpr for u64 {
    type Out = NumberOut;
}

impl IntoAst for u32 {
    open spec fn ast_v(&self) -> AstV {
        AstV::Num(*self as int)
    }

    fn into_ast(self) -> Ast {
        Ast::UInt(self as u64)
    }
}

impl IntoExpr for u32 {
    type Out = NumberOut;
}

impl IntoAst for i64 {
    open spec fn ast_v(&self) -> AstV {
        AstV::Num(*self as int)
    }

    fn into_ast(self) -> Ast {
        Ast::Int(self)
    }
}

impl IntoExpr for i64 {
    type Out = NumberOut;
}

impl IntoAst for i32 {
    open spec fn ast_v(&self) -> AstV {
        AstV::Num(*self as int)
    }

    fn into_ast(self) -> Ast {
        Ast::Int(self as i64)
    }
}

impl IntoExpr for i32 {
    type Out = NumberOut;
}

// Capability predicates over the output categories.
pub trait IsDb {

}

impl IsDb for DbOut {

}

pub trait IsTable {

}

impl IsTable for TableOut {

}

// Option records: which option slots the head term offers, and which are
// already set. Setting a slot refines the record's type, so a second set of
// the same slot does not compile.
pub struct OptUnset;

pub struct OptSet;

/// Head term carries no option slots.
pub struct NoOptions;

/// Head term accepts the `index` option.
#[verifier::reject_recursive_types(IndexT)]
pub struct GetAllOptions<IndexT>(PhantomData<IndexT>);

/// Head term accepts `index`, `left_bound` and `right_bound`.
#[verifier::reject_recursive_types(IndexT)]
#[verifier::reject_recursive_types(LeftT)]
#[verifier::reject_recursive_types(RightT)]
pub struct BetweenOptions<IndexT, LeftT, RightT>(PhantomData<(IndexT, LeftT, RightT)>);

// Builder entry points.
/// Reference a database.
pub fn db<NameT: IntoExpr<Out = StringOut>>(name: NameT) -> (r: Expr<DbOut, NoOptions>)
    ensures
        r@ == term_v(term::DB as int, seq![name.ast_v()]),
{
    Expr { ast: term1(term::DB, name.into_ast()), _marker: PhantomData }
}

/// Create a database.
pub fn db_create<NameT: IntoExpr<Out = StringOut>>(name: NameT) -> (r: Expr<ObjectOut, NoOptions>)
    ensures
        r@ == term_v(term::DB_CREATE as int, seq![name.ast_v()]),
{
    Expr { ast: term1(term::DB_CREATE, name.into_ast()), _marker: PhantomData }
}

/// List all database names in the cluster.
pub fn db_list() -> (r: Expr<ArrayOut<StringOut>, NoOptions>)
    ensures
        r@ == term_v(term::DB_LIST as int, seq![]),
{
    Expr { ast: term0(term::DB_LIST), _marker: PhantomData }
}

/// Drop a database and everything in it.
pub fn db_drop<NameT: IntoExpr<Out = StringOut>>(name: NameT) -> (r: Expr<ObjectOut, NoOptions>)
    ensures
        r@ == term_v(term::DB_DROP as int, seq![name.ast_v()]),
{
    Expr { ast: term1(term::DB_DROP, name.into_ast()), _marker: PhantomData }
}

impl<OutT, OptsT> Expr<OutT, OptsT> {
    /// All documents of a table of this database.
    pub fn table<NameT: IntoExpr<Out = StringOut>>(self, name: NameT) -> (r: Expr<
        TableOut,
        NoOptions,
    >) where OutT: IsDb
        ensures
            r@ == term_v(term::TABLE as int, seq![self@, name.ast_v()]),
    {
        Expr { ast: term2(term::TABLE, self.ast, name.into_ast()), _marker: PhantomData }
    }

    /// Get a document by primary key.
    pub fn get<KeyT: IntoExpr>(self, key: KeyT) -> (r: Expr<
        SingleSelectionOut<ObjectOut>,
        NoOptions,
    >) where OutT: IsTable, KeyT::Out: IsKey
        ensures
            r@ == term_v(term::GET as int, seq![self@, key.ast_v()]),
    {
        Expr { ast: term2(term::GET, self.ast, key.into_ast()), _marker: PhantomData }
    }
}

// Remaining capability predicates, mirroring which categories each operator
// accepts. The `AnyOut` category composes with every operator family.
pub trait IsObject {

}

impl IsObject for ObjectOut {

}

impl IsObject for SingleSelectionOut<ObjectOut> {

}

impl IsObject for AnyOut {

}

pub trait IsString {

}

impl IsString for StringOut {

}

impl IsString for SingleSelectionOut<StringOut> {

}

impl IsString for AnyOut {

}

pub trait IsNumber {

}

impl IsNumber for NumberOut {

}

impl IsNumber for SingleSelectionOut<NumberOut> {

}

impl IsNumber for AnyOut {

}

pub trait IsBool {

}

impl IsBool for BoolOut {

}

impl IsBool for SingleSelectionOut<BoolOut> {

}

impl IsBool for AnyOut {

}

pub trait IsKey {

}

impl IsKey for StringOut {

}

impl IsKey for NumberOut {

}

impl IsKey for SingleSelectionOut<StringOut> {

}

impl IsKey for SingleSelectionOut<NumberOut> {

}

impl IsKey for AnyOut {

}

pub trait IsSelector {

}

impl IsSelector for StringOut {

}

impl IsSelector for ObjectOut {

}

impl IsSelector for AnyOut {

}

pub trait IsIndexKey {

}

impl<OfT> IsIndexKey for ArrayOut<OfT> {

}

impl<OfT> IsIndexKey for SelectionOut<OfT> {

}

impl<OfT> IsIndexKey for SingleSelectionOut<OfT> {

}

impl<OfT> IsIndexKey for StreamOut<OfT> {

}

impl IsIndexKey for BoolOut {

}

impl IsIndexKey for NumberOut {

}

impl IsIndexKey for StringOut {

}

impl IsIndexKey for AnyOut {

}

pub trait IsObjectOrObjectSequence {
    type AnyOrAnySequence;
}

impl IsObjectOrObjectSequence for ObjectOut {
    type AnyOrAnySequence = AnyOut;
}

impl<OfT: IsObject> IsObjectOrObjectSequence for SingleSelectionOut<OfT> {
    type AnyOrAnySequence = AnyOut;
}

impl<OfT: IsObject> IsObjectOrObjectSequence for SelectionOut<OfT> {
    type AnyOrAnySequence = SelectionOut<AnyOut>;
}

impl<OfT: IsObject> IsObjectOrObjectSequence for StreamOut<OfT> {
    type AnyOrAnySequence = StreamOut<AnyOut>;
}

impl<OfT: IsObject> IsObjectOrObjectSequence for ArrayOut<OfT> {
    type AnyOrAnySequence = ArrayOut<AnyOut>;
}

impl IsObjectOrObjectSequence for TableOut {
    type AnyOrAnySequence = SelectionOut<AnyOut>;
}

impl IsObjectOrObjectSequence for AnyOut {
    type AnyOrAnySequence = AnyOut;
}

pub trait IsSequence {
    type SequenceItem;

    type Select;
}

pub trait Rebind<ToT>: IsSequence {
    type Rebound;
}

impl IsSequence for TableOut {
    type SequenceItem = ObjectOut;

    type Select = SingleSelectionOut<ObjectOut>;
}

impl<ToT> Rebind<ToT> for TableOut {
    type Rebound = StreamOut<ToT>;
}

impl<OfT> IsSequence for ArrayOut<OfT> {
    type SequenceItem = OfT;

    type Select = OfT;
}

impl<ToT, OfT> Rebind<ToT> for ArrayOut<OfT> {
    type Rebound = ArrayOut<ToT>;
}

impl<OfT> IsSequence for StreamOut<OfT> {
    type SequenceItem = OfT;

    type Select = OfT;
}

impl<ToT, OfT> Rebind<ToT> for StreamOut<OfT> {
    type Rebound = StreamOut<ToT>;
}

impl<OfT> IsSequence for SelectionOut<OfT> {
    type SequenceItem = OfT;

    type Select = SingleSelectionOut<OfT>;
}

impl<ToT, OfT> Rebind<ToT> for SelectionOut<OfT> {
    type Rebound = StreamOut<ToT>;
}

impl IsSequence for AnyOut {
    type SequenceItem = AnyOut;

    type Select = AnyOut;
}

impl<ToT> Rebind<ToT> for AnyOut {
    type Rebound = AnyOut;
}

pub trait IsEqualComparable<WithT> {

}

impl IsEqualComparable<BoolOut> for BoolOut {

}

impl IsEqualComparable<NumberOut> for NumberOut {

}

impl IsEqualComparable<StringOut> for StringOut {

}

impl IsEqualComparable<ObjectOut> for ObjectOut {

}

impl<WithT, OfT: IsEqualComparable<WithT>> IsEqualComparable<ArrayOut<WithT>> for ArrayOut<OfT> {

}

impl<WithT> IsEqualComparable<WithT> for AnyOut {

}

impl IsEqualComparable<AnyOut> for BoolOut {

}

impl IsEqualComparable<AnyOut> for NumberOut {

}

impl IsEqualComparable<AnyOut> for StringOut {

}

impl IsEqualComparable<AnyOut> for ObjectOut {

}

impl<OfT> IsEqualComparable<AnyOut> for ArrayOut<OfT> {

}

pub trait IsSelection<OfT> {

}

impl<OfT> IsSelection<OfT> for SelectionOut<OfT> {

}

impl<OfT> IsSelection<OfT> for SingleSelectionOut<OfT> {

}

impl<ObjectT> IsSelection<ObjectT> for TableOut {

}

impl<ObjectT> IsSelection<ObjectT> for AnyOut {

}

pub trait CanAdd<WithT> {
    type Output;
}

impl CanAdd<NumberOut> for NumberOut {
    type Output = NumberOut;
}

impl CanAdd<StringOut> for StringOut {
    type Output = StringOut;
}

impl<WithT, OfT> CanAdd<ArrayOut<WithT>> for ArrayOut<OfT> {
    type Output = ArrayOut<AnyOut>;
}

impl<WithT> CanAdd<WithT> for AnyOut {
    type Output = AnyOut;
}

impl CanAdd<AnyOut> for NumberOut {
    type Output = AnyOut;
}

impl CanAdd<AnyOut> for StringOut {
    type Output = AnyOut;
}

// The minimum and maximum key markers, usable as range endpoints.
/// The smallest possible key; serializes as a bare `[tag]` term.
pub struct MinVal;

/// The largest possible key; serializes as a bare `[tag]` term.
pub struct MaxVal;

impl IntoAst for MinVal {
    open spec fn ast_v(&self) -> AstV {
        AstV::Arr(seq![AstV::Num(term::MINVAL as int)])
    }

    fn into_ast(self) -> (r: Ast)
        ensures
            r@ == self.ast_v(),
    {
        let mut items: Vec<Ast> = Vec::new();
        items.push(Ast::UInt(term::MINVAL as u64));
        proof {
            crate::ast::lemma_asts_view_index(items@);
            assert(asts_view(items@) =~= seq![AstV::Num(term::MINVAL as int)]);
        }
        Ast::Arr(items)
    }
}

impl IntoAst for MaxVal {
    open spec fn ast_v(&self) -> AstV {
        AstV::Arr(seq![AstV::Num(term::MAXVAL as int)])
    }

    fn into_ast(self) -> (r: Ast)
        ensures
            r@ == self.ast_v(),
    {
        let mut items: Vec<Ast> = Vec::new();
        items.push(Ast::UInt(term::MAXVAL as u64));
        proof {
            crate::ast::lemma_asts_view_index(items@);
            assert(asts_view(items@) =~= seq![AstV::Num(term::MAXVAL as int)]);
        }
        Ast::Arr(items)
    }
}

/// Values usable as the lower end of a `between` range over keys of
/// category `OutT`.
pub trait MinLimitFor<OutT>: IntoAst {

}

/// Values usable as the upper end of a `between` range over keys of
/// category `OutT`.
pub trait MaxLimitFor<OutT>: IntoAst {

}

impl<ExprT: IntoExpr> MinLimitFor<ExprT::Out> for ExprT {

}

impl<ExprT: IntoExpr> MaxLimitFor<ExprT::Out> for ExprT {

}

impl<OutT> MinLimitFor<OutT> for MinVal {

}

impl<OutT> MaxLimitFor<OutT> for MaxVal {

}

// Argument splicing: `args` wraps a runtime-computed array so variadic
// operators receive its elements as positional arguments.
/// A positional-argument pack for a variadic operator.
#[verifier::reject_recursive_types(OfT)]
pub struct Args<OfT> {
    pub ast: Ast,
    pub _marker: PhantomData<OfT>,
}

/// Values accepted where a variadic operator expects arguments of category
/// `OfT`: a single expression of that category, or an `args(...)` pack.
pub trait IntoArgs<OfT>: Sized {
    /// Model of the tree spliced into the argument list.
    spec fn args_ast_v(&self) -> AstV;

    fn into_args_ast(self) -> (r: Ast)
        ensures
            r@ == self.args_ast_v(),
    ;
}

impl<ExprT: IntoExpr> IntoArgs<<ExprT as IntoExpr>::Out> for ExprT {
    open spec fn args_ast_v(&self) -> AstV {
        self.ast_v()
    }

    fn into_args_ast(self) -> Ast {
        self.into_ast()
    }
}

impl<OfT> IntoArgs<OfT> for Args<OfT> {
    open spec fn args_ast_v(&self) -> AstV {
        self.ast@
    }

    fn into_args_ast(self) -> Ast {
        self.ast
    }
}

/// Splice a runtime-computed array into a variadic operator's argument list.
pub fn args<OutT, OfT: IntoExpr<Out = ArrayOut<OutT>>>(of: OfT) -> (r: Args<OutT>)
    ensures
        r.ast@ == term_v(term::ARGS as int, seq![of.ast_v()]),
{
    Args { ast: term1(term::ARGS, of.into_ast()), _marker: PhantomData }
}

// Option kinds and the slot-refinement relation. Once a slot is set its
// marker moves from `OptUnset` to `OptSet`, and no refinement applies to a
// set slot, so a second set does not compile.
pub struct IndexOption;

pub struct LeftBoundOption;

pub struct RightBoundOption;

pub trait WithOption<OptionT> {
    type Refined;
}

impl WithOption<IndexOption> for GetAllOptions<OptUnset> {
    type Refined = GetAllOptions<OptSet>;
}

impl<LeftT, RightT> WithOption<IndexOption> for BetweenOptions<OptUnset, LeftT, RightT> {
    type Refined = BetweenOptions<OptSet, LeftT, RightT>;
}

impl<IndexT, RightT> WithOption<LeftBoundOption> for BetweenOptions<IndexT, OptUnset, RightT> {
    type Refined = BetweenOptions<IndexT, OptSet, RightT>;
}

impl<IndexT, LeftT> WithOption<RightBoundOption> for BetweenOptions<IndexT, LeftT, OptUnset> {
    type Refined = BetweenOptions<IndexT, LeftT, OptSet>;
}

// Function lowering: an operator that binds a variable takes the fresh
// variable and the body built from it, and lowers them to
// `[FUNC,[[MAKE_ARRAY,[id]],body]]`.
/// A free variable of a function body, minted by a [`VarSource`].
#[verifier::reject_recursive_types(OutT)]
pub struct Var<OutT> {
    pub id: u64,
    pub _marker: PhantomData<OutT>,
}

impl<OutT> Clone for Var<OutT> {
    fn clone(&self) -> (r: Var<OutT>)
        ensures
            r == *self,
    {
        Var { id: self.id, _marker: PhantomData }
    }
}

impl<OutT> Copy for Var<OutT> {

}

impl<OutT> IntoAst for Var<OutT> {
    open spec fn ast_v(&self) -> AstV {
        var_v(self.id as int)
    }

    fn into_ast(self) -> (r: Ast)
        ensures
            r@ == self.ast_v(),
    {
        term1(term::VAR, Ast::UInt(self.id))
    }
}

impl<OutT> IntoExpr for Var<OutT> {
    type Out = OutT;
}

/// Hands out the function-variable ids of one query: 0, 1, 2, ... in the
/// order they are asked for. Minting every variable of a query from one
/// source makes their ids distinct by construction, whatever the bodies
/// capture.
pub struct VarSource {
    next: u64,
}

impl VarSource {
    /// The id the next fresh variable will get.
    pub closed spec fn next_id(&self) -> u64 {
        self.next
    }

    /// A source whose first variable gets id 0.
    pub fn new() -> (r: VarSource)
        ensures
            r.next_id() == 0,
    {
        VarSource { next: 0 }
    }

    /// Mint a fresh variable of the wanted category.
    pub fn fresh<OutT>(&mut self) -> (r: Var<OutT>)
        requires
            old(self).next_id() < u64::MAX,
        ensures
            r.id == old(self).next_id(),
            final(self).next_id() == old(self).next_id() + 1,
    {
        let id = self.next;
        self.next = self.next + 1;
        Var { id, _marker: PhantomData }
    }
}

/// Ids minted one after another from one source strictly increase, so
/// every variable a query binds from one source is distinct, whatever its
/// bodies capture.
pub proof fn lemma_fresh_ids_distinct(before: VarSource, after: VarSource, id: u64)
    requires
        id == before.next_id(),
        after.next_id() == before.next_id() + 1,
    ensures
        id < after.next_id(),
{
}

/// Model of a variable reference term.
pub open spec fn var_v(id: int) -> AstV {
    term_v(term::VAR as int, seq![AstV::Num(id)])
}

/// Model of a lowered one-argument function term.
pub open spec fn func_v(id: int, body: AstV) -> AstV {
    term_v(
        term::FUNC as int,
        seq![term_v(term::MAKE_ARRAY as int, seq![AstV::Num(id)]), body],
    )
}

/// Lower a variable and the body built from it to a function term.
fn func_ast(id: u64, body: Ast) -> (r: Ast)
    ensures
        r@ == func_v(id as int, body@),
{
    term2(term::FUNC, term1(term::MAKE_ARRAY, Ast::UInt(id)), body)
}

impl<OutT, OptsT> Expr<OutT, OptsT> {
    /// Create a table in this database.
    pub fn table_create<NameT: IntoExpr<Out = StringOut>>(self, name: NameT) -> (r: Expr<
        ObjectOut,
        NoOptions,
    >) where OutT: IsDb
        ensures
            r@ == term_v(term::TABLE_CREATE as int, seq![self@, name.ast_v()]),
    {
        Expr { ast: term2(term::TABLE_CREATE, self.ast, name.into_ast()), _marker: PhantomData }
    }

    /// Drop a table of this database and all its data.
    pub fn table_drop<NameT: IntoExpr<Out = StringOut>>(self, name: NameT) -> (r: Expr<
        ObjectOut,
        NoOptions,
    >) where OutT: IsDb
        ensures
            r@ == term_v(term::TABLE_DROP as int, seq![self@, name.ast_v()]),
    {
        Expr { ast: term2(term::TABLE_DROP, self.ast, name.into_ast()), _marker: PhantomData }
    }

    /// List all table names of this database.
    pub fn table_list(self) -> (r: Expr<ArrayOut<StringOut>, NoOptions>) where OutT: IsDb
        ensures
            r@ == term_v(term::TABLE_LIST as int, seq![self@]),
    {
        Expr { ast: term1(term::TABLE_LIST, self.ast), _marker: PhantomData }
    }

    /// Create a secondary index on this table.
    pub fn index_create<NameT: IntoExpr<Out = StringOut>>(self, name: NameT) -> (r: Expr<
        ObjectOut,
        NoOptions,
    >) where OutT: IsTable
        ensures
            r@ == term_v(term::INDEX_CREATE as int, seq![self@, name.ast_v()]),
    {
        Expr { ast: term2(term::INDEX_CREATE, self.ast, name.into_ast()), _marker: PhantomData }
    }

    /// Drop a secondary index of this table.
    pub fn index_drop<NameT: IntoExpr<Out = StringOut>>(self, name: NameT) -> (r: Expr<
        ObjectOut,
        NoOptions,
    >) where OutT: IsTable
        ensures
            r@ == term_v(term::INDEX_DROP as int, seq![self@, name.ast_v()]),
    {
        Expr { ast: term2(term::INDEX_DROP, self.ast, name.into_ast()), _marker: PhantomData }
    }

    /// List the secondary indexes of this database's tables.
    pub fn index_list(self) -> (r: Expr<ArrayOut<StringOut>, NoOptions>) where OutT: IsDb
        ensures
            r@ == term_v(term::INDEX_LIST as int, seq![self@]),
    {
        Expr { ast: term1(term::INDEX_LIST, self.ast), _marker: PhantomData }
    }

    /// Rename a secondary index of this table.
    pub fn index_rename<SourceT: IntoExpr<Out = StringOut>, DestinationT: IntoExpr<Out = StringOut>>(
        self,
        source: SourceT,
        destination: DestinationT,
    ) -> (r: Expr<ObjectOut, NoOptions>) where OutT: IsTable
        ensures
            r@ == term_v(
                term::INDEX_RENAME as int,
                seq![self@, source.ast_v(), destination.ast_v()],
            ),
    {
        Expr {
            ast: term3(term::INDEX_RENAME, self.ast, source.into_ast(), destination.into_ast()),
            _marker: PhantomData,
        }
    }

    /// Status of the given secondary indexes of this table.
    pub fn index_status<NameT: IsString, KeysT: IntoArgs<NameT>>(self, key: KeysT) -> (r: Expr<
        SelectionOut<ObjectOut>,
        GetAllOptions<OptUnset>,
    >) where OutT: IsTable
        ensures
            r@ == term_v(term::INDEX_STATUS as int, seq![self@, key.args_ast_v()]),
    {
        Expr { ast: term2(term::INDEX_STATUS, self.ast, key.into_args_ast()), _marker: PhantomData }
    }

    /// Wait for the given secondary indexes of this table to be ready.
    pub fn index_wait<NameT: IsString, KeysT: IntoArgs<NameT>>(self, key: KeysT) -> (r: Expr<
        SelectionOut<ObjectOut>,
        NoOptions,
    >) where OutT: IsTable
        ensures
            r@ == term_v(term::INDEX_WAIT as int, seq![self@, key.args_ast_v()]),
    {
        Expr { ast: term2(term::INDEX_WAIT, self.ast, key.into_args_ast()), _marker: PhantomData }
    }

    /// Insert a document, or an array of documents, into this table.
    pub fn insert<ObjectsT: IntoExpr>(self, objects: ObjectsT) -> (r: Expr<ObjectOut, NoOptions>)
        where OutT: IsTable, ObjectsT::Out: IsObjectOrObjectSequence
        ensures
            r@ == term_v(term::INSERT as int, seq![self@, objects.ast_v()]),
    {
        Expr { ast: term2(term::INSERT, self.ast, objects.into_ast()), _marker: PhantomData }
    }

    /// Update the selected documents with the given document.
    pub fn update<ObjectT: IntoExpr<Out = ObjectOut>>(self, object: ObjectT) -> (r: Expr<
        ObjectOut,
        NoOptions,
    >) where OutT: IsSelection<ObjectOut>
        ensures
            r@ == term_v(term::UPDATE as int, seq![self@, object.ast_v()]),
    {
        Expr { ast: term2(term::UPDATE, self.ast, object.into_ast()), _marker: PhantomData }
    }

    /// Update the selected documents through a function of each row: the
    /// fresh variable stands for the row inside the body.
    pub fn update_with<ReturnT: IntoExpr<Out = ObjectOut>>(
        self,
        row: Var<ObjectOut>,
        with: ReturnT,
    ) -> (r: Expr<ObjectOut, NoOptions>) where OutT: IsSelection<ObjectOut>
        ensures
            r@ == term_v(
                term::UPDATE as int,
                seq![self@, func_v(row.id as int, with.ast_v())],
            ),
    {
        Expr {
            ast: term2(term::UPDATE, self.ast, func_ast(row.id, with.into_ast())),
            _marker: PhantomData,
        }
    }

    /// Delete the selected documents.
    pub fn delete(self) -> (r: Expr<ObjectOut, NoOptions>) where OutT: IsSelection<ObjectOut>
        ensures
            r@ == term_v(term::DELETE as int, seq![self@]),
    {
        Expr { ast: term1(term::DELETE, self.ast), _marker: PhantomData }
    }

    /// Wait until all previous writes on this table are persisted.
    pub fn sync(self) -> (r: Expr<ObjectOut, NoOptions>) where OutT: IsTable
        ensures
            r@ == term_v(term::SYNC as int, seq![self@]),
    {
        Expr { ast: term1(term::SYNC, self.ast), _marker: PhantomData }
    }

    /// All documents of this table whose index value matches the given key,
    /// or one of the keys of an argument pack.
    pub fn get_all<KeyT: IsIndexKey, KeysT: IntoArgs<KeyT>>(self, key: KeysT) -> (r: Expr<
        SelectionOut<ObjectOut>,
        GetAllOptions<OptUnset>,
    >) where OutT: IsTable
        ensures
            r@ == term_v(term::GET_ALL as int, seq![self@, key.args_ast_v()]),
    {
        Expr { ast: term2(term::GET_ALL, self.ast, key.into_args_ast()), _marker: PhantomData }
    }

    /// All documents of this table whose key lies between the two bounds.
    pub fn between<MinT, MaxT, KeysOutT>(self, min_key: MinT, max_key: MaxT) -> (r: Expr<
        SelectionOut<ObjectOut>,
        BetweenOptions<OptUnset, OptUnset, OptUnset>,
    >) where
        OutT: IsTable,
        KeysOutT: IsIndexKey,
        MinT: MinLimitFor<KeysOutT>,
        MaxT: MaxLimitFor<KeysOutT>,
        ensures
            r@ == term_v(term::BETWEEN as int, seq![self@, min_key.ast_v(), max_key.ast_v()]),
    {
        Expr {
            ast: term3(term::BETWEEN, self.ast, min_key.into_ast(), max_key.into_ast()),
            _marker: PhantomData,
        }
    }

    /// Set the `index` option: the secondary index the operator works with.
    pub fn in_index<NameT: IntoExpr<Out = StringOut>>(self, index: NameT) -> (r: Expr<
        OutT,
        <OptsT as WithOption<IndexOption>>::Refined,
    >) where OptsT: WithOption<IndexOption>
        ensures
            r@ == crate::ast::spec_set_index(self@, index.ast_v()),
    {
        Expr { ast: crate::ast::set_index(self.ast, index.into_ast()), _marker: PhantomData }
    }

    /// Set the `left_bound` option: `"open"` or `"closed"`.
    pub fn with_left_bound<BoundT: IntoExpr<Out = StringOut>>(self, bound: BoundT) -> (r: Expr<
        OutT,
        <OptsT as WithOption<LeftBoundOption>>::Refined,
    >) where OptsT: WithOption<LeftBoundOption>
        ensures
            r@ == crate::ast::spec_set_left_bound(self@, bound.ast_v()),
    {
        Expr { ast: crate::ast::set_left_bound(self.ast, bound.into_ast()), _marker: PhantomData }
    }

    /// Set the `right_bound` option: `"open"` or `"closed"`.
    pub fn with_right_bound<BoundT: IntoExpr<Out = StringOut>>(self, bound: BoundT) -> (r: Expr<
        OutT,
        <OptsT as WithOption<RightBoundOption>>::Refined,
    >) where OptsT: WithOption<RightBoundOption>
        ensures
            r@ == crate::ast::spec_set_right_bound(self@, bound.ast_v()),
    {
        Expr { ast: crate::ast::set_right_bound(self.ast, bound.into_ast()), _marker: PhantomData }
    }

    /// Keep the elements of this sequence for which the predicate holds:
    /// the fresh variable stands for the element inside the predicate.
    pub fn filter<ReturnT: IntoExpr>(
        self,
        element: Var<OutT::SequenceItem>,
        predicate: ReturnT,
    ) -> (r: Expr<OutT, NoOptions>) where OutT: IsSequence, ReturnT::Out: IsBool
        ensures
            r@ == term_v(
                term::FILTER as int,
                seq![self@, func_v(element.id as int, predicate.ast_v())],
            ),
    {
        Expr {
            ast: term2(term::FILTER, self.ast, func_ast(element.id, predicate.into_ast())),
            _marker: PhantomData,
        }
    }

    /// Merge the `right` fields into the `left` fields of each element of a
    /// joined sequence.
    pub fn zip(self) -> (r: Expr<ObjectOut, NoOptions>)
        where OutT: IsSequence, OutT::SequenceItem: IsObject
        ensures
            r@ == term_v(term::ZIP as int, seq![self@]),
    {
        Expr { ast: term1(term::ZIP, self.ast), _marker: PhantomData }
    }

    /// Transform each element of this sequence with a mapping function:
    /// the fresh variable stands for the element inside the body.
    pub fn map<ReturnT: IntoExpr>(
        self,
        element: Var<OutT::SequenceItem>,
        body: ReturnT,
    ) -> (r: Expr<OutT::Rebound, NoOptions>) where OutT: Rebind<ReturnT::Out>
        ensures
            r@ == term_v(
                term::MAP as int,
                seq![self@, func_v(element.id as int, body.ast_v())],
            ),
    {
        Expr {
            ast: term2(term::MAP, self.ast, func_ast(element.id, body.into_ast())),
            _marker: PhantomData,
        }
    }

    /// Project the given fields out of each element, dropping elements that
    /// lack one of them.
    pub fn with_fields<SelectorT, KeysT>(self, selectors: KeysT) -> (r: Expr<
        OutT::Rebound,
        NoOptions,
    >) where OutT: Rebind<ObjectOut>, SelectorT: IsSelector, KeysT: IntoArgs<SelectorT>
        ensures
            r@ == term_v(term::WITH_FIELDS as int, seq![self@, selectors.args_ast_v()]),
    {
        Expr { ast: term2(term::WITH_FIELDS, self.ast, selectors.into_args_ast()), _marker: PhantomData }
    }

    /// Map each element to a sequence and concatenate the results: the
    /// fresh variable stands for the element inside the body.
    pub fn concat_map<ReturnT: IntoExpr>(
        self,
        element: Var<OutT::SequenceItem>,
        body: ReturnT,
    ) -> (r: Expr<OutT::Rebound, NoOptions>)
        where
            OutT: Rebind<<ReturnT::Out as IsSequence>::SequenceItem>,
            ReturnT::Out: IsSequence,
        ensures
            r@ == term_v(
                term::CONCAT_MAP as int,
                seq![self@, func_v(element.id as int, body.ast_v())],
            ),
    {
        Expr {
            ast: term2(term::CONCAT_MAP, self.ast, func_ast(element.id, body.into_ast())),
            _marker: PhantomData,
        }
    }

    /// Skip the first `n` elements of this sequence.
    pub fn skip<NumT: IntoExpr<Out = NumberOut>>(self, n: NumT) -> (r: Expr<OutT, NoOptions>)
        where OutT: IsSequence
        ensures
            r@ == term_v(term::SKIP as int, seq![self@, n.ast_v()]),
    {
        Expr { ast: term2(term::SKIP, self.ast, n.into_ast()), _marker: PhantomData }
    }

    /// End this sequence after `n` elements.
    pub fn limit<NumT: IntoExpr<Out = NumberOut>>(self, n: NumT) -> (r: Expr<OutT, NoOptions>)
        where OutT: IsSequence
        ensures
            r@ == term_v(term::LIMIT as int, seq![self@, n.ast_v()]),
    {
        Expr { ast: term2(term::LIMIT, self.ast, n.into_ast()), _marker: PhantomData }
    }

    /// The elements of this sequence from the given position on.
    pub fn slice_after<NumT: IntoExpr<Out = NumberOut>>(self, start: NumT) -> (r: Expr<
        OutT,
        NoOptions,
    >) where OutT: IsSequence
        ensures
            r@ == term_v(term::SLICE as int, seq![self@, start.ast_v()]),
    {
        Expr { ast: term2(term::SLICE, self.ast, start.into_ast()), _marker: PhantomData }
    }

    /// The elements of this sequence within the given range.
    pub fn slice<StartT: IntoExpr<Out = NumberOut>, EndT: IntoExpr<Out = NumberOut>>(
        self,
        start: StartT,
        end: EndT,
    ) -> (r: Expr<OutT, NoOptions>) where OutT: IsSequence
        ensures
            r@ == term_v(term::SLICE as int, seq![self@, start.ast_v(), end.ast_v()]),
    {
        Expr {
            ast: term3(term::SLICE, self.ast, start.into_ast(), end.into_ast()),
            _marker: PhantomData,
        }
    }

    /// The `n`-th element of this sequence, counting from zero.
    pub fn nth<NumT: IntoExpr<Out = NumberOut>>(self, n: NumT) -> (r: Expr<OutT::Select, NoOptions>)
        where OutT: IsSequence
        ensures
            r@ == term_v(term::NTH as int, seq![self@, n.ast_v()]),
    {
        Expr { ast: term2(term::NTH, self.ast, n.into_ast()), _marker: PhantomData }
    }

    /// Whether this sequence is empty.
    pub fn is_empty(self) -> (r: Expr<BoolOut, NoOptions>) where OutT: IsSequence
        ensures
            r@ == term_v(term::IS_EMPTY as int, seq![self@]),
    {
        Expr { ast: term1(term::IS_EMPTY, self.ast), _marker: PhantomData }
    }

    /// Sum of this sequence of numbers.
    pub fn sum(self) -> (r: Expr<NumberOut, NoOptions>)
        where OutT: IsSequence, OutT::SequenceItem: IsNumber
        ensures
            r@ == term_v(term::SUM as int, seq![self@]),
    {
        Expr { ast: term1(term::SUM, self.ast), _marker: PhantomData }
    }

    /// Average of this sequence of numbers.
    pub fn avg(self) -> (r: Expr<NumberOut, NoOptions>)
        where OutT: IsSequence, OutT::SequenceItem: IsNumber
        ensures
            r@ == term_v(term::AVG as int, seq![self@]),
    {
        Expr { ast: term1(term::AVG, self.ast), _marker: PhantomData }
    }

    /// Smallest element of this sequence.
    pub fn min(self) -> (r: Expr<OutT::SequenceItem, NoOptions>) where OutT: IsSequence
        ensures
            r@ == term_v(term::MIN as int, seq![self@]),
    {
        Expr { ast: term1(term::MIN, self.ast), _marker: PhantomData }
    }

    /// Largest element of this sequence.
    pub fn max(self) -> (r: Expr<OutT::SequenceItem, NoOptions>) where OutT: IsSequence
        ensures
            r@ == term_v(term::MAX as int, seq![self@]),
    {
        Expr { ast: term1(term::MAX, self.ast), _marker: PhantomData }
    }

    /// This sequence with duplicate elements removed.
    pub fn distinct(self) -> (r: Expr<OutT, NoOptions>) where OutT: IsSequence
        ensures
            r@ == term_v(term::DISTINCT as int, seq![self@]),
    {
        Expr { ast: term1(term::DISTINCT, self.ast), _marker: PhantomData }
    }

    /// Whether this sequence contains the given value.
    pub fn contains<ValueT: IntoExpr>(self, value: ValueT) -> (r: Expr<BoolOut, NoOptions>)
        where OutT: IsSequence, OutT::SequenceItem: IsEqualComparable<ValueT::Out>
        ensures
            r@ == term_v(term::CONTAINS as int, seq![self@, value.ast_v()]),
    {
        Expr { ast: term2(term::CONTAINS, self.ast, value.into_ast()), _marker: PhantomData }
    }

    /// A single field of an object, or of every object of a sequence.
    pub fn get_field<KeyT: IntoExpr<Out = StringOut>>(self, key: KeyT) -> (r: Expr<
        OutT::AnyOrAnySequence,
        NoOptions,
    >) where OutT: IsObjectOrObjectSequence
        ensures
            r@ == term_v(term::GET_FIELD as int, seq![self@, key.ast_v()]),
    {
        Expr { ast: term2(term::GET_FIELD, self.ast, key.into_ast()), _marker: PhantomData }
    }

    /// Alias for `get_field`.
    pub fn g<KeyT: IntoExpr<Out = StringOut>>(self, key: KeyT) -> (r: Expr<
        OutT::AnyOrAnySequence,
        NoOptions,
    >) where OutT: IsObjectOrObjectSequence
        ensures
            r@ == term_v(term::GET_FIELD as int, seq![self@, key.ast_v()]),
    {
        Expr { ast: term2(term::GET_FIELD, self.ast, key.into_ast()), _marker: PhantomData }
    }

    /// `get_field`, asserting that the field holds an object.
    pub fn get_object<KeyT: IntoExpr<Out = StringOut>>(self, key: KeyT) -> (r: Expr<
        ObjectOut,
        NoOptions,
    >) where OutT: IsObjectOrObjectSequence
        ensures
            r@ == term_v(term::GET_FIELD as int, seq![self@, key.ast_v()]),
    {
        Expr { ast: term2(term::GET_FIELD, self.ast, key.into_ast()), _marker: PhantomData }
    }

    /// Sum two numbers, or concatenate two strings or two arrays.
    pub fn add<OtherT: IntoExpr>(self, other: OtherT) -> (r: Expr<OutT::Output, NoOptions>)
        where OutT: CanAdd<OtherT::Out>
        ensures
            r@ == term_v(term::ADD as int, seq![self@, other.ast_v()]),
    {
        Expr { ast: term2(term::ADD, self.ast, other.into_ast()), _marker: PhantomData }
    }

    /// Difference of two numbers.
    pub fn sub<OtherT: IntoExpr>(self, other: OtherT) -> (r: Expr<NumberOut, NoOptions>)
        where OutT: IsNumber, OtherT::Out: IsNumber
        ensures
            r@ == term_v(term::SUB as int, seq![self@, other.ast_v()]),
    {
        Expr { ast: term2(term::SUB, self.ast, other.into_ast()), _marker: PhantomData }
    }

    /// Product of two numbers.
    pub fn mul<OtherT: IntoExpr>(self, other: OtherT) -> (r: Expr<NumberOut, NoOptions>)
        where OutT: IsNumber, OtherT::Out: IsNumber
        ensures
            r@ == term_v(term::MUL as int, seq![self@, other.ast_v()]),
    {
        Expr { ast: term2(term::MUL, self.ast, other.into_ast()), _marker: PhantomData }
    }

    /// Quotient of two numbers.
    pub fn div<OtherT: IntoExpr>(self, other: OtherT) -> (r: Expr<NumberOut, NoOptions>)
        where OutT: IsNumber, OtherT::Out: IsNumber
        ensures
            r@ == term_v(term::DIV as int, seq![self@, other.ast_v()]),
    {
        Expr { ast: term2(term::DIV, self.ast, other.into_ast()), _marker: PhantomData }
    }

    /// Remainder of two numbers.
    pub fn modulo<OtherT: IntoExpr>(self, other: OtherT) -> (r: Expr<NumberOut, NoOptions>)
        where OutT: IsNumber, OtherT::Out: IsNumber
        ensures
            r@ == term_v(term::MOD as int, seq![self@, other.ast_v()]),
    {
        Expr { ast: term2(term::MOD, self.ast, other.into_ast()), _marker: PhantomData }
    }

    /// Logical conjunction.
    pub fn and<OtherT: IntoExpr>(self, other: OtherT) -> (r: Expr<BoolOut, NoOptions>)
        where OutT: IsBool, OtherT::Out: IsBool
        ensures
            r@ == term_v(term::AND as int, seq![self@, other.ast_v()]),
    {
        Expr { ast: term2(term::AND, self.ast, other.into_ast()), _marker: PhantomData }
    }

    /// Logical disjunction.
    pub fn or<OtherT: IntoExpr>(self, other: OtherT) -> (r: Expr<BoolOut, NoOptions>)
        where OutT: IsBool, OtherT::Out: IsBool
        ensures
            r@ == term_v(term::OR as int, seq![self@, other.ast_v()]),
    {
        Expr { ast: term2(term::OR, self.ast, other.into_ast()), _marker: PhantomData }
    }

    /// Whether two values of comparable categories are equal.
    pub fn eq<OtherT: IntoExpr>(self, other: OtherT) -> (r: Expr<BoolOut, NoOptions>)
        where OutT: IsEqualComparable<OtherT::Out>
        ensures
            r@ == term_v(term::EQ as int, seq![self@, other.ast_v()]),
    {
        Expr { ast: term2(term::EQ, self.ast, other.into_ast()), _marker: PhantomData }
    }

    /// Whether two values of comparable categories differ.
    pub fn ne<OtherT: IntoExpr>(self, other: OtherT) -> (r: Expr<BoolOut, NoOptions>)
        where OutT: IsEqualComparable<OtherT::Out>
        ensures
            r@ == term_v(term::NE as int, seq![self@, other.ast_v()]),
    {
        Expr { ast: term2(term::NE, self.ast, other.into_ast()), _marker: PhantomData }
    }

    /// Coerce this expression to the number category.
    pub fn as_number(self) -> (r: Expr<NumberOut, OptsT>)
        ensures
            r@ == self@,
    {
        Expr { ast: self.ast, _marker: PhantomData }
    }

    /// Coerce this expression to the string category.
    pub fn as_string(self) -> (r: Expr<StringOut, OptsT>)
        ensures
            r@ == self@,
    {
        Expr { ast: self.ast, _marker: PhantomData }
    }

    /// Coerce this expression to the boolean category.
    pub fn as_bool(self) -> (r: Expr<BoolOut, OptsT>)
        ensures
            r@ == self@,
    {
        Expr { ast: self.ast, _marker: PhantomData }
    }

    /// Coerce this expression to the object category.
    pub fn as_object(self) -> (r: Expr<ObjectOut, OptsT>)
        ensures
            r@ == self@,
    {
        Expr { ast: self.ast, _marker: PhantomData }
    }

    /// Coerce the element category of this sequence.
    pub fn items_as<OtherT>(self) -> (r: Expr<OutT::Rebound, OptsT>) where OutT: Rebind<OtherT>
        ensures
            r@ == self@,
    {
        Expr { ast: self.ast, _marker: PhantomData }
    }
}

impl<OfT, OptsT> Expr<NullOr<OfT>, OptsT> {
    /// Assert that a possibly-null value is not null.
    pub fn assert_not_null(self) -> (r: Expr<OfT, OptsT>)
        ensures
            r@ == self@,
    {
        Expr { ast: self.ast, _marker: PhantomData }
    }
}


// Fixed-size arrays and tuples of datums lower to MAKE_ARRAY terms.
/// Model of a list of values lowered elementwise.
pub open spec fn elems_view<OfT: IntoAst>(s: Seq<OfT>) -> Seq<AstV>
    decreases s.len(),
{
    if s.len() == 0 {
        Seq::empty()
    } else {
        elems_view(s.drop_last()).push(s.last().ast_v())
    }
}

proof fn lemma_elems_snoc<OfT: IntoAst>(s: Seq<OfT>, x: OfT)
    ensures
        elems_view(s.push(x)) == elems_view(s).push(x.ast_v()),
{
    assert(s.push(x).drop_last() =~= s);
    assert(s.push(x).last() == x);
}

impl<OfT: IntoAst + Copy, const N: usize> IntoAst for [OfT; N] {
    open spec fn ast_v(&self) -> AstV {
        term_v(term::MAKE_ARRAY as int, elems_view(self@))
    }

    fn into_ast(self) -> (r: Ast)
        ensures
            r@ == self.ast_v(),
    {
        let mut items: Vec<Ast> = Vec::new();
        let mut i: usize = 0;
        proof {
            assert(self@.subrange(0, 0) =~= Seq::<OfT>::empty());
            assert(asts_view(items@) =~= Seq::<AstV>::empty());
        }
        while i < N
            invariant
                i <= N,
                N == self@.len(),
                asts_view(items@) == elems_view(self@.subrange(0, i as int)),
            decreases N - i,
        {
            proof {
                assert(self@.subrange(0, i as int).push(self@[i as int]) =~= self@.subrange(
                    0,
                    i as int + 1,
                ));
                lemma_elems_snoc(self@.subrange(0, i as int), self@[i as int]);
            }
            let ghost pre = items@;
            let a = self[i].into_ast();
            proof {
                crate::ast::lemma_asts_view_push(pre, a);
            }
            items.push(a);
            i += 1;
        }
        proof {
            assert(self@.subrange(0, N as int) =~= self@);
        }
        crate::ast::term(term::MAKE_ARRAY, items)
    }
}

impl<OfT: IntoExpr + Copy, const N: usize> IntoExpr for [OfT; N] {
    type Out = ArrayOut<OfT::Out>;
}

impl<A: IntoAst> IntoAst for (A,) {
    open spec fn ast_v(&self) -> AstV {
        term_v(term::MAKE_ARRAY as int, seq![self.0.ast_v()])
    }

    fn into_ast(self) -> Ast {
        term1(term::MAKE_ARRAY, self.0.into_ast())
    }
}

impl<A: IntoAst> IntoExpr for (A,) {
    type Out = ArrayOut<AnyOut>;
}

impl<A: IntoAst, B: IntoAst> IntoAst for (A, B) {
    open spec fn ast_v(&self) -> AstV {
        term_v(term::MAKE_ARRAY as int, seq![self.0.ast_v(), self.1.ast_v()])
    }

    fn into_ast(self) -> Ast {
        term2(term::MAKE_ARRAY, self.0.into_ast(), self.1.into_ast())
    }
}

impl<A: IntoAst, B: IntoAst> IntoExpr for (A, B) {
    type Out = ArrayOut<AnyOut>;
}

impl<A: IntoAst, B: IntoAst, C: IntoAst> IntoAst for (A, B, C) {
    open spec fn ast_v(&self) -> AstV {
        term_v(term::MAKE_ARRAY as int, seq![self.0.ast_v(), self.1.ast_v(), self.2.ast_v()])
    }

    fn into_ast(self) -> Ast {
        term3(term::MAKE_ARRAY, self.0.into_ast(), self.1.into_ast(), self.2.into_ast())
    }
}

impl<A: IntoAst, B: IntoAst, C: IntoAst> IntoExpr for (A, B, C) {
    type Out = ArrayOut<AnyOut>;
}

} // verus!
