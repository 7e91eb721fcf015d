//! The abstract syntax tree built by the parser and consumed by both back
//! ends, together with its mathematical model (the `..V` types) and a size
//! measure used for termination of the evaluator and the compiler.

use vstd::prelude::*;

verus! {

broadcast use vstd::seq::group_seq_axioms, vstd::std_specs::vec::group_vec_axioms;

/// An identifier occurring in a program.
#[derive(PartialEq, Debug, Eq, Hash)]
pub struct Ident(pub String);

/// A position into an ordered collection.
#[derive(PartialEq, Debug, Eq, Clone, Hash)]
pub struct Index(pub usize);

/// A literal value in source text.
#[derive(PartialEq, Debug)]
pub enum Literal {
    Int(i64),
    Bool(bool),
    Str(String),
    /// A hash literal: an ordered list of key/value expression pairs.
    Hash(Vec<(Expr, Expr)>),
}

/// A prefix operator.
#[derive(PartialEq, Debug, Eq, Clone, Copy, Structural)]
pub enum Prefix {
    Plus,
    Minus,
    Not,
}

/// An infix operator, including the call and index continuations.
#[derive(PartialEq, Debug, Eq, Clone, Copy, Structural)]
pub enum Infix {
    Plus,
    Minus,
    Divide,
    Multiply,
    GT,
    LT,
    Equal,
    NotEqual,
    Call,
    Index,
}

/// An expression.
#[derive(PartialEq, Debug)]
pub enum Expr {
    IdentExpr(Ident),
    LiteralExpr(Literal),
    Prefix(Prefix, Box<Expr>),
    Infix(Box<Expr>, Infix, Box<Expr>),
    If(Box<Expr>, Block, Option<Block>),
    Fn(Params, Block),
    Call(Box<Expr>, Args),
    Array(Vec<Expr>),
    IndexExpr(Box<Expr>, Box<Expr>),
}

/// A statement.
#[derive(PartialEq, Debug)]
pub enum Stmt {
    LetStmt(Ident, Expr),
    ReturnStmt(Expr),
    ExprStmt(Expr),
}

pub type Args = Vec<Expr>;

pub type Params = Vec<Ident>;

pub type Block = Vec<Stmt>;

pub type Program = Block;

/// The model of a literal.
#[verifier::ext_equal]
pub enum LiteralV {
    Int(i64),
    Bool(bool),
    Str(Seq<char>),
    Hash(Seq<(ExprV, ExprV)>),
}

/// The model of an expression.
#[verifier::ext_equal]
pub enum ExprV {
    IdentExpr(Seq<char>),
    LiteralExpr(LiteralV),
    Prefix(Prefix, Box<ExprV>),
    Infix(Box<ExprV>, Infix, Box<ExprV>),
    If(Box<ExprV>, Seq<StmtV>, Option<Seq<StmtV>>),
    Fn(Seq<Seq<char>>, Seq<StmtV>),
    Call(Box<ExprV>, Seq<ExprV>),
    Array(Seq<ExprV>),
    IndexExpr(Box<ExprV>, Box<ExprV>),
}

/// The model of a statement.
#[verifier::ext_equal]
pub enum StmtV {
    LetStmt(Seq<char>, ExprV),
    ReturnStmt(ExprV),
    ExprStmt(ExprV),
}

/// The model of an identifier.
pub open spec fn ident_view(id: Ident) -> Seq<char> {
    id.0@
}

/// The model of a literal.
pub open spec fn literal_view(l: Literal) -> LiteralV
    decreases l, 0int,
{
    match l {
        Literal::Int(x) => LiteralV::Int(x),
        Literal::Bool(b) => LiteralV::Bool(b),
        Literal::Str(s) => LiteralV::Str(s@),
        Literal::Hash(ps) => LiteralV::Hash(pair_views(ps@)),
    }
}

/// The model of an expression.
pub open spec fn expr_view(e: Expr) -> ExprV
    decreases e, 0int,
{
    match e {
        Expr::IdentExpr(id) => ExprV::IdentExpr(ident_view(id)),
        Expr::LiteralExpr(l) => ExprV::LiteralExpr(literal_view(l)),
        Expr::Prefix(p, inner) => ExprV::Prefix(p, Box::new(expr_view(*inner))),
        Expr::Infix(l, op, r) => ExprV::Infix(
            Box::new(expr_view(*l)),
            op,
            Box::new(expr_view(*r)),
        ),
        Expr::If(c, cons, alt) => ExprV::If(
            Box::new(expr_view(*c)),
            block_view(cons@),
            match alt {
                Some(a) => Some(block_view(a@)),
                None => None,
            },
        ),
        Expr::Fn(ps, b) => ExprV::Fn(param_views(ps@), block_view(b@)),
        Expr::Call(f, args) => ExprV::Call(Box::new(expr_view(*f)), expr_views(args@)),
        Expr::Array(es) => ExprV::Array(expr_views(es@)),
        Expr::IndexExpr(a, i) => ExprV::IndexExpr(
            Box::new(expr_view(*a)),
            Box::new(expr_view(*i)),
        ),
    }
}

/// The model of a statement.
pub open spec fn stmt_view(s: Stmt) -> StmtV
    decreases s, 0int,
{
    match s {
        Stmt::LetStmt(id, e) => StmtV::LetStmt(ident_view(id), expr_view(e)),
        Stmt::ReturnStmt(e) => StmtV::ReturnStmt(expr_view(e)),
        Stmt::ExprStmt(e) => StmtV::ExprStmt(expr_view(e)),
    }
}

/// The models of the identifiers of a parameter list.
pub open spec fn param_views(ps: Seq<Ident>) -> Seq<Seq<char>> {
    Seq::new(ps.len(), |i: int| ident_view(ps[i]))
}

/// The models of the statements of a block.
pub open spec fn block_view(b: Seq<Stmt>) -> Seq<StmtV>
    decreases b, 1int,
{
    if b.len() == 0 {
        Seq::empty()
    } else {
        block_view(b.drop_last()).push(stmt_view(b.last()))
    }
}

/// The models of the expressions of a list.
pub open spec fn expr_views(es: Seq<Expr>) -> Seq<ExprV>
    decreases es, 1int,
{
    if es.len() == 0 {
        Seq::empty()
    } else {
        expr_views(es.drop_last()).push(expr_view(es.last()))
    }
}

/// The models of the expression pairs of a hash literal.
pub open spec fn pair_views(ps: Seq<(Expr, Expr)>) -> Seq<(ExprV, ExprV)>
    decreases ps, 1int,
{
    if ps.len() == 0 {
        Seq::empty()
    } else {
        pair_views(ps.drop_last()).push(
            (expr_view(ps.last().0), expr_view(ps.last().1)),
        )
    }
}

/// A block's model has one statement model per statement.
pub broadcast proof fn lemma_block_view_len(b: Seq<Stmt>)
    ensures
        #[trigger] block_view(b).len() == b.len(),
    decreases b.len(),
{
    if b.len() > 0 {
        lemma_block_view_len(b.drop_last());
    }
}

/// A block's model holds, position by position, the model of the statement
/// at that position.
pub broadcast proof fn lemma_block_view_index(b: Seq<Stmt>, i: int)
    requires
        0 <= i < b.len(),
    ensures
        #[trigger] block_view(b)[i] == stmt_view(b[i]),
    decreases b.len(),
{
    lemma_block_view_len(b.drop_last());
    if i < b.len() - 1 {
        lemma_block_view_index(b.drop_last(), i);
    }
}

pub broadcast proof fn lemma_expr_views_len(es: Seq<Expr>)
    ensures
        #[trigger] expr_views(es).len() == es.len(),
    decreases es.len(),
{
    if es.len() > 0 {
        lemma_expr_views_len(es.drop_last());
    }
}

pub broadcast proof fn lemma_expr_views_index(es: Seq<Expr>, i: int)
    requires
        0 <= i < es.len(),
    ensures
        #[trigger] expr_views(es)[i] == expr_view(es[i]),
    decreases es.len(),
{
    lemma_expr_views_len(es.drop_last());
    if i < es.len() - 1 {
        lemma_expr_views_index(es.drop_last(), i);
    }
}

pub broadcast proof fn lemma_pair_views_len(ps: Seq<(Expr, Expr)>)
    ensures
        #[trigger] pair_views(ps).len() == ps.len(),
    decreases ps.len(),
{
    if ps.len() > 0 {
        lemma_pair_views_len(ps.drop_last());
    }
}

pub broadcast proof fn lemma_pair_views_index(ps: Seq<(Expr, Expr)>, i: int)
    requires
        0 <= i < ps.len(),
    ensures
        #[trigger] pair_views(ps)[i] == (expr_view(ps[i].0), expr_view(ps[i].1)),
    decreases ps.len(),
{
    lemma_pair_views_len(ps.drop_last());
    if i < ps.len() - 1 {
        lemma_pair_views_index(ps.drop_last(), i);
    }
}

/// Appending a statement appends its model.
pub broadcast proof fn lemma_block_view_push(b: Seq<Stmt>, s: Stmt)
    ensures
        #[trigger] block_view(b.push(s)) == block_view(b).push(stmt_view(s)),
{
    assert(b.push(s).drop_last() =~= b);
    assert(b.push(s).last() == s);
}

/// Appending an expression appends its model.
pub broadcast proof fn lemma_expr_views_push(es: Seq<Expr>, e: Expr)
    ensures
        #[trigger] expr_views(es.push(e)) == expr_views(es).push(expr_view(e)),
{
    assert(es.push(e).drop_last() =~= es);
    assert(es.push(e).last() == e);
}

/// Appending an expression pair appends its model.
pub broadcast proof fn lemma_pair_views_push(ps: Seq<(Expr, Expr)>, kv: (Expr, Expr))
    ensures
        #[trigger] pair_views(ps.push(kv)) == pair_views(ps).push(
            (expr_view(kv.0), expr_view(kv.1)),
        ),
{
    assert(ps.push(kv).drop_last() =~= ps);
    assert(ps.push(kv).last() == kv);
}

/// Appending an identifier appends its model.
pub broadcast proof fn lemma_param_views_push(ps: Seq<Ident>, id: Ident)
    ensures
        #[trigger] param_views(ps.push(id)) == param_views(ps).push(ident_view(id)),
{
    assert(param_views(ps.push(id)) =~= param_views(ps).push(ident_view(id)));
}

/// The model of the empty list is empty.
pub broadcast proof fn lemma_views_empty(b: Seq<Stmt>, es: Seq<Expr>, ps: Seq<(Expr, Expr)>)
    requires
        b.len() == 0,
        es.len() == 0,
        ps.len() == 0,
    ensures
        #[trigger] block_view(b) == Seq::<StmtV>::empty(),
        #[trigger] expr_views(es) == Seq::<ExprV>::empty(),
        #[trigger] pair_views(ps) == Seq::<(ExprV, ExprV)>::empty(),
{
}

/// The broadcast group tying the list models to their elements.
pub broadcast group group_ast_views {
    lemma_block_view_len,
    lemma_block_view_index,
    lemma_expr_views_len,
    lemma_expr_views_index,
    lemma_pair_views_len,
    lemma_pair_views_index,
    lemma_block_view_push,
    lemma_expr_views_push,
    lemma_pair_views_push,
    lemma_param_views_push,
}

impl DeepView for Ident {
    type V = Seq<char>;

    open spec fn deep_view(&self) -> Seq<char> {
        ident_view(*self)
    }
}

impl DeepView for Literal {
    type V = LiteralV;

    open spec fn deep_view(&self) -> LiteralV {
        literal_view(*self)
    }
}

impl DeepView for Expr {
    type V = ExprV;

    open spec fn deep_view(&self) -> ExprV {
        expr_view(*self)
    }
}

impl DeepView for Stmt {
    type V = StmtV;

    open spec fn deep_view(&self) -> StmtV {
        stmt_view(*self)
    }
}

/// The deep view of a vector of statements (or expressions, or parameters)
/// agrees with the elementwise model.
pub broadcast proof fn lemma_block_deep_view(b: Vec<Stmt>)
    ensures
        #[trigger] b.deep_view() == block_view(b@),
{
    lemma_block_view_len(b@);
    assert forall|i: int| 0 <= i < b@.len() implies block_view(b@)[i] == b@[i].deep_view() by {
        lemma_block_view_index(b@, i);
    }
    assert(b.deep_view() =~= block_view(b@));
}

pub broadcast proof fn lemma_exprs_deep_view(es: Vec<Expr>)
    ensures
        #[trigger] es.deep_view() == expr_views(es@),
{
    lemma_expr_views_len(es@);
    assert forall|i: int| 0 <= i < es@.len() implies expr_views(es@)[i] == es@[i].deep_view() by {
        lemma_expr_views_index(es@, i);
    }
    assert(es.deep_view() =~= expr_views(es@));
}

pub broadcast proof fn lemma_params_deep_view(ps: Vec<Ident>)
    ensures
        #[trigger] ps.deep_view() == param_views(ps@),
{
    assert(ps.deep_view() =~= param_views(ps@));
}

/// The broadcast group tying the deep views of vectors of syntax nodes to
/// the elementwise models. Meant for modules downstream of this one.
pub broadcast group group_ast_deep_views {
    lemma_block_deep_view,
    lemma_exprs_deep_view,
    lemma_params_deep_view,
}

/// The size of an expression model: at least one, and strictly larger than
/// the sizes of its parts.
pub open spec fn expr_size(e: ExprV) -> nat
    decreases e, 0int,
{
    match e {
        ExprV::IdentExpr(_) => 1,
        ExprV::LiteralExpr(l) => 1 + literal_size(l),
        ExprV::Prefix(_, inner) => 1 + expr_size(*inner),
        ExprV::Infix(l, _, r) => 1 + expr_size(*l) + expr_size(*r),
        ExprV::If(c, cons, alt) => 1 + expr_size(*c) + block_size(cons, 0) + match alt {
            Some(a) => block_size(a, 0),
            None => 0,
        },
        ExprV::Fn(_, b) => 1 + block_size(b, 0),
        ExprV::Call(f, args) => 1 + expr_size(*f) + exprs_size(args, 0),
        ExprV::Array(es) => 1 + exprs_size(es, 0),
        ExprV::IndexExpr(a, i) => 1 + expr_size(*a) + expr_size(*i),
    }
}

/// The size of a literal model.
pub open spec fn literal_size(l: LiteralV) -> nat
    decreases l, 0int,
{
    match l {
        LiteralV::Hash(ps) => 1 + pairs_size(ps, 0),
        _ => 1,
    }
}

/// The size of a statement model.
pub open spec fn stmt_size(s: StmtV) -> nat
    decreases s, 0int,
{
    match s {
        StmtV::LetStmt(_, e) => 1 + expr_size(e),
        StmtV::ReturnStmt(e) => 1 + expr_size(e),
        StmtV::ExprStmt(e) => 1 + expr_size(e),
    }
}

/// The summed size of the statements of `b` from position `i` on.
pub open spec fn block_size(b: Seq<StmtV>, i: int) -> nat
    decreases b, b.len() - i,
{
    if 0 <= i < b.len() {
        stmt_size(b[i]) + block_size(b, i + 1)
    } else {
        0
    }
}

/// The summed size of the expressions of `es` from position `i` on.
pub open spec fn exprs_size(es: Seq<ExprV>, i: int) -> nat
    decreases es, es.len() - i,
{
    if 0 <= i < es.len() {
        expr_size(es[i]) + exprs_size(es, i + 1)
    } else {
        0
    }
}

/// The summed size of the expression pairs of `ps` from position `i` on.
pub open spec fn pairs_size(ps: Seq<(ExprV, ExprV)>, i: int) -> nat
    decreases ps, ps.len() - i,
{
    if 0 <= i < ps.len() {
        expr_size(ps[i].0) + expr_size(ps[i].1) + pairs_size(ps, i + 1)
    } else {
        0
    }
}

/// Every expression weighs at least one.
pub broadcast proof fn lemma_expr_size_pos(e: ExprV)
    ensures
        #[trigger] expr_size(e) >= 1,
{
}

/// Every statement weighs at least one.
pub broadcast proof fn lemma_stmt_size_pos(s: StmtV)
    ensures
        #[trigger] stmt_size(s) >= 1,
{
}

/// Every literal weighs at least one.
pub broadcast proof fn lemma_literal_size_pos(l: LiteralV)
    ensures
        #[trigger] literal_size(l) >= 1,
{
}

/// The broadcast group giving the size measures their positivity.
pub broadcast group group_ast_sizes {
    lemma_expr_size_pos,
    lemma_stmt_size_pos,
    lemma_literal_size_pos,
}

/// Every statement of a block weighs no more than the whole tail it sits in.
pub proof fn lemma_block_size_at(b: Seq<StmtV>, j: int, i: int)
    requires
        0 <= j <= i < b.len(),
    ensures
        stmt_size(b[i]) <= block_size(b, j),
    decreases i - j,
{
    if j < i {
        lemma_block_size_at(b, j + 1, i);
    }
}

/// Every expression of a list weighs no more than the whole tail it sits in.
pub proof fn lemma_exprs_size_at(es: Seq<ExprV>, j: int, i: int)
    requires
        0 <= j <= i < es.len(),
    ensures
        expr_size(es[i]) <= exprs_size(es, j),
    decreases i - j,
{
    if j < i {
        lemma_exprs_size_at(es, j + 1, i);
    }
}

/// Both expressions of a pair weigh no more than the whole tail they sit in.
pub proof fn lemma_pairs_size_at(ps: Seq<(ExprV, ExprV)>, j: int, i: int)
    requires
        0 <= j <= i < ps.len(),
    ensures
        expr_size(ps[i].0) <= pairs_size(ps, j),
        expr_size(ps[i].1) <= pairs_size(ps, j),
    decreases i - j,
{
    if j < i {
        lemma_pairs_size_at(ps, j + 1, i);
    }
}

impl Clone for Ident {
    /// Cloning preserves the identifier's model.
    fn clone(&self) -> (res: Self)
        ensures
            res.deep_view() == self.deep_view(),
    {
        Ident(self.0.clone())
    }
}

/// Copies a list of identifiers, preserving its model.
pub fn clone_params(ps: &Params) -> (res: Params)
    ensures
        res.deep_view() == ps.deep_view(),
        param_views(res@) == param_views(ps@),
{
    let mut out: Params = Vec::new();
    let mut i: usize = 0;
    while i < ps.len()
        invariant
            i <= ps@.len(),
            out@.len() == i,
            forall|j: int| 0 <= j < i ==> #[trigger] out@[j].deep_view() == ps@[j].deep_view(),
        decreases ps@.len() - i,
    {
        out.push(ps[i].clone());
        i = i + 1;
    }
    proof {
        assert(out.deep_view() =~= ps.deep_view());
        assert forall|j: int| 0 <= j < ps@.len() implies param_views(out@)[j] == param_views(
            ps@,
        )[j] by {
            assert(out@[j].deep_view() == ps@[j].deep_view());
        }
        assert(param_views(out@) =~= param_views(ps@));
    }
    out
}

impl Clone for Expr {
    /// Cloning preserves the expression's model.
    #[verifier::rlimit(50)]
    fn clone(&self) -> (res: Self)
        ensures
            res.deep_view() == self.deep_view(),
        decreases expr_size(self.deep_view()), 3int,
    {
        match self {
            Expr::IdentExpr(id) => Expr::IdentExpr(id.clone()),
            Expr::LiteralExpr(l) => Expr::LiteralExpr(l.clone()),
            Expr::Prefix(p, e) => Expr::Prefix(*p, Box::new((&**e).clone())),
            Expr::Infix(l, op, r) => Expr::Infix(
                Box::new((&**l).clone()),
                *op,
                Box::new((&**r).clone()),
            ),
            Expr::If(c, cons, alt) => Expr::If(
                Box::new((&**c).clone()),
                clone_block(cons),
                match alt {
                    Some(a) => Some(clone_block(a)),
                    None => None,
                },
            ),
            Expr::Fn(ps, b) => Expr::Fn(clone_params(ps), clone_block(b)),
            Expr::Call(f, args) => Expr::Call(Box::new((&**f).clone()), clone_exprs(args)),
            Expr::Array(es) => Expr::Array(clone_exprs(es)),
            Expr::IndexExpr(a, i) => Expr::IndexExpr(
                Box::new((&**a).clone()),
                Box::new((&**i).clone()),
            ),
        }
    }
}

impl Clone for Literal {
    /// Cloning preserves the literal's model.
    fn clone(&self) -> (res: Self)
        ensures
            res.deep_view() == self.deep_view(),
        decreases literal_size(self.deep_view()), 3int,
    {
        match self {
            Literal::Int(x) => Literal::Int(*x),
            Literal::Bool(b) => Literal::Bool(*b),
            Literal::Str(s) => Literal::Str(s.clone()),
            Literal::Hash(ps) => {
                let ps2 = clone_pairs(ps);
                proof {
                    lemma_pair_views_len(ps@);
                    lemma_pair_views_len(ps2@);
                    assert forall|i: int| 0 <= i < ps@.len() implies pair_views(ps2@)[i]
                        == pair_views(ps@)[i] by {
                        lemma_pair_views_index(ps@, i);
                        lemma_pair_views_index(ps2@, i);
                        assert(ps2@[i].0.deep_view() == ps@[i].0.deep_view());
                        assert(ps2@[i].1.deep_view() == ps@[i].1.deep_view());
                    }
                    assert(pair_views(ps2@) =~= pair_views(ps@));
                }
                Literal::Hash(ps2)
            },
        }
    }
}

impl Clone for Stmt {
    /// Cloning preserves the statement's model.
    fn clone(&self) -> (res: Self)
        ensures
            res.deep_view() == self.deep_view(),
        decreases stmt_size(self.deep_view()), 3int,
    {
        match self {
            Stmt::LetStmt(id, e) => Stmt::LetStmt(id.clone(), e.clone()),
            Stmt::ReturnStmt(e) => Stmt::ReturnStmt(e.clone()),
            Stmt::ExprStmt(e) => Stmt::ExprStmt(e.clone()),
        }
    }
}

/// Copies a block of statements, preserving its model.
pub fn clone_block(b: &Block) -> (res: Block)
    ensures
        res.deep_view() == b.deep_view(),
        block_view(res@) == block_view(b@),
    decreases block_size(block_view(b@), 0), 4int,
{
    let mut out: Block = Vec::new();
    let mut i: usize = 0;
    while i < b.len()
        invariant
            i <= b@.len(),
            out@.len() == i,
            forall|j: int| 0 <= j < i ==> #[trigger] out@[j].deep_view() == b@[j].deep_view(),
        decreases b@.len() - i,
    {
        proof {
            lemma_block_view_len(b@);
            lemma_block_view_index(b@, i as int);
            lemma_block_size_at(block_view(b@), 0, i as int);
        }
        out.push(b[i].clone());
        i = i + 1;
    }
    proof {
        assert(out.deep_view() =~= b.deep_view());
        lemma_block_view_len(out@);
        lemma_block_view_len(b@);
        assert forall|j: int| 0 <= j < b@.len() implies block_view(out@)[j] == block_view(b@)[j]
        by {
            lemma_block_view_index(out@, j);
            lemma_block_view_index(b@, j);
            assert(out@[j].deep_view() == b@[j].deep_view());
        }
        assert(block_view(out@) =~= block_view(b@));
    }
    out
}

/// Copies a list of expressions, preserving its model.
pub fn clone_exprs(es: &Vec<Expr>) -> (res: Vec<Expr>)
    ensures
        res.deep_view() == es.deep_view(),
        expr_views(res@) == expr_views(es@),
    decreases exprs_size(expr_views(es@), 0), 4int,
{
    let mut out: Vec<Expr> = Vec::new();
    let mut i: usize = 0;
    while i < es.len()
        invariant
            i <= es@.len(),
            out@.len() == i,
            forall|j: int| 0 <= j < i ==> #[trigger] out@[j].deep_view() == es@[j].deep_view(),
        decreases es@.len() - i,
    {
        proof {
            lemma_expr_views_len(es@);
            lemma_expr_views_index(es@, i as int);
            lemma_exprs_size_at(expr_views(es@), 0, i as int);
        }
        out.push(es[i].clone());
        i = i + 1;
    }
    proof {
        assert(out.deep_view() =~= es.deep_view());
        lemma_expr_views_len(out@);
        lemma_expr_views_len(es@);
        assert forall|j: int| 0 <= j < es@.len() implies expr_views(out@)[j] == expr_views(es@)[j]
        by {
            lemma_expr_views_index(out@, j);
            lemma_expr_views_index(es@, j);
            assert(out@[j].deep_view() == es@[j].deep_view());
        }
        assert(expr_views(out@) =~= expr_views(es@));
    }
    out
}

/// Copies a list of expression pairs, preserving the model of each side.
pub fn clone_pairs(ps: &Vec<(Expr, Expr)>) -> (res: Vec<(Expr, Expr)>)
    ensures
        res@.len() == ps@.len(),
        forall|i: int|
            0 <= i < ps@.len() ==> #[trigger] res@[i].0.deep_view() == ps@[i].0.deep_view()
                && res@[i].1.deep_view() == ps@[i].1.deep_view(),
    decreases pairs_size(pair_views(ps@), 0), 4int,
{
    let mut out: Vec<(Expr, Expr)> = Vec::new();
    let mut i: usize = 0;
    while i < ps.len()
        invariant
            i <= ps@.len(),
            out@.len() == i,
            forall|j: int|
                0 <= j < i ==> #[trigger] out@[j].0.deep_view() == ps@[j].0.deep_view()
                    && out@[j].1.deep_view() == ps@[j].1.deep_view(),
        decreases ps@.len() - i,
    {
        proof {
            lemma_pair_views_len(ps@);
            lemma_pair_views_index(ps@, i as int);
            lemma_pairs_size_at(pair_views(ps@), 0, i as int);
        }
        let k = ps[i].0.clone();
        let v = ps[i].1.clone();
        out.push((k, v));
        i = i + 1;
    }
    out
}

} // verus!
