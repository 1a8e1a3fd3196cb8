use vstd::prelude::*;

verus! {

/// A lexical token of the source language. The language's entire surface
/// syntax is built from these nine symbols; whitespace is discarded by the
/// tokenizer and every other character is a tokenize-time failure.
#[derive(Clone, Copy, PartialEq, Eq, Structural, Debug)]
pub enum Token {
    /// `(`
    OpenParen,
    /// `)`
    CloseParen,
    /// `[`
    OpenSquare,
    /// `]`
    CloseSquare,
    /// `{`
    OpenCurly,
    /// `}`
    CloseCurly,
    /// `|`
    Pipe,
    /// `&`, the increment operator
    Inc,
    /// `*`, the decrement operator
    Dec,
}

/// An identifier. User-written identifiers are balanced runs of parenthesis
/// characters such as `(()())`; the built-in operators use the reserved names
/// `*` and `&`, which no balanced run can collide with. Two identifiers are
/// the same exactly when their character sequences are equal.
#[derive(Debug, PartialEq, Eq)]
pub struct Var(pub String);

impl View for Var {
    type V = Seq<char>;

    open spec fn view(&self) -> Seq<char> {
        self.0@
    }
}

impl Clone for Var {
    fn clone(&self) -> (r: Self)
        ensures
            r == *self,
    {
        Var(self.0.clone())
    }
}

/// An expression tree node.
///
/// The surface grammar has no dedicated syntax for `TryCatch`, `PrintChar`
/// and `PrintNum`; this crate reserves the otherwise-illegal leading `(` for
/// them: `(|[try][catch])`, `(*[body])` and `(&[body])`. Every branch or body
/// that syntactically came from a `[...]` list is normalized into a
/// `ListExp`, even when it held exactly one statement.
#[derive(Debug, PartialEq, Eq)]
pub enum Expression {
    /// A resolved integer constant, e.g. `[()()]` is `Val(2)`.
    Val(u32),
    /// `If(cond, then, else)`: if `cond` is non-zero, `then`, else `else`.
    If(Box<Expression>, Box<Expression>, Box<Expression>),
    /// `FunctionDef(name, params, body)`. An empty parameter list denotes a
    /// one-time variable binding whose body runs immediately.
    FunctionDef(Var, Vec<Var>, Box<Expression>),
    /// `FunctionCall(name, args)`: `args` is a `ListExp` as produced by the
    /// parser; an empty one denotes a read of the variable `name`.
    FunctionCall(Var, Box<Expression>),
    /// A group of statements whose value is the last statement's value.
    ListExp(Vec<Expression>),
    /// `TryCatch(try_body, catch_body)`: runtime errors in the try body are
    /// reported to the output sink and rerouted to the catch body.
    TryCatch(Box<Expression>, Box<Expression>),
    /// Evaluate the inner expression, print it as a character, return it.
    PrintChar(Box<Expression>),
    /// Evaluate the inner expression, print it as a decimal, return it.
    PrintNum(Box<Expression>),
}

/// Mathematical model of an expression tree: identifiers become character
/// sequences, vectors become sequences.
#[verifier::ext_equal]
pub ghost enum ExprModel {
    Val(u32),
    If(Box<ExprModel>, Box<ExprModel>, Box<ExprModel>),
    FunctionDef(Seq<char>, Seq<Seq<char>>, Box<ExprModel>),
    FunctionCall(Seq<char>, Box<ExprModel>),
    ListExp(Seq<ExprModel>),
    TryCatch(Box<ExprModel>, Box<ExprModel>),
    PrintChar(Box<ExprModel>),
    PrintNum(Box<ExprModel>),
}

/// The models of a sequence of identifiers.
pub open spec fn vars_model(vs: Seq<Var>) -> Seq<Seq<char>> {
    Seq::new(vs.len(), |i: int| vs[i]@)
}

/// The models of a sequence of expressions.
pub open spec fn exprs_model(items: Seq<Expression>) -> Seq<ExprModel>
    decreases items,
{
    if items.len() == 0 {
        Seq::empty()
    } else {
        seq![expr_model(items[0])] + exprs_model(items.drop_first())
    }
}

/// The model of one expression.
pub open spec fn expr_model(e: Expression) -> ExprModel
    decreases e,
{
    match e {
        Expression::Val(n) => ExprModel::Val(n),
        Expression::If(c, t, els) => ExprModel::If(
            Box::new(expr_model(*c)),
            Box::new(expr_model(*t)),
            Box::new(expr_model(*els)),
        ),
        Expression::FunctionDef(name, params, body) => ExprModel::FunctionDef(
            name@,
            vars_model(params@),
            Box::new(expr_model(*body)),
        ),
        Expression::FunctionCall(name, args) => ExprModel::FunctionCall(
            name@,
            Box::new(expr_model(*args)),
        ),
        Expression::ListExp(items) => ExprModel::ListExp(exprs_model(items@)),
        Expression::TryCatch(t, c) => ExprModel::TryCatch(
            Box::new(expr_model(*t)),
            Box::new(expr_model(*c)),
        ),
        Expression::PrintChar(inner) => ExprModel::PrintChar(Box::new(expr_model(*inner))),
        Expression::PrintNum(inner) => ExprModel::PrintNum(Box::new(expr_model(*inner))),
    }
}

impl View for Expression {
    type V = ExprModel;

    open spec fn view(&self) -> ExprModel {
        expr_model(*self)
    }
}

/// `exprs_model` maps `expr_model` over the sequence, element by element.
pub proof fn lemma_exprs_model(items: Seq<Expression>)
    ensures
        exprs_model(items).len() == items.len(),
        forall|i: int|
            0 <= i < items.len() ==> exprs_model(items)[i] == expr_model(#[trigger] items[i]),
    decreases items,
{
    if items.len() > 0 {
        lemma_exprs_model(items.drop_first());
        assert forall|i: int| 0 <= i < items.len() implies exprs_model(items)[i] == expr_model(
            #[trigger] items[i],
        ) by {
            if i > 0 {
                assert(exprs_model(items)[i] == exprs_model(items.drop_first())[i - 1]);
                assert(items.drop_first()[i - 1] == items[i]);
            }
        }
    }
}

/// Appending one expression appends its model.
pub proof fn lemma_exprs_model_push(items: Seq<Expression>, e: Expression)
    ensures
        exprs_model(items.push(e)) =~= exprs_model(items).push(expr_model(e)),
{
    lemma_exprs_model(items);
    lemma_exprs_model(items.push(e));
    assert forall|i: int| 0 <= i < items.len() + 1 implies #[trigger] exprs_model(items.push(e))[i]
        == exprs_model(items).push(expr_model(e))[i] by {
        if i < items.len() {
            assert(items.push(e)[i] == items[i]);
        } else {
            assert(items.push(e)[i] == e);
        }
    }
}

/// Appending one identifier appends its model.
pub proof fn lemma_vars_model_push(vs: Seq<Var>, v: Var)
    ensures
        vars_model(vs.push(v)) =~= vars_model(vs).push(v@),
{
}

impl Clone for Expression {
    /// A deep copy whose model equals the original's.
    fn clone(&self) -> (r: Self)
        ensures
            r@ == self@,
        decreases *self,
    {
        match self {
            Expression::Val(n) => Expression::Val(*n),
            Expression::If(c, t, els) => Expression::If(
                Box::new((&**c).clone()),
                Box::new((&**t).clone()),
                Box::new((&**els).clone()),
            ),
            Expression::FunctionDef(name, params, body) => {
                let ps = clone_vars(params);
                Expression::FunctionDef(name.clone(), ps, Box::new((&**body).clone()))
            },
            Expression::FunctionCall(name, args) => Expression::FunctionCall(
                name.clone(),
                Box::new((&**args).clone()),
            ),
            Expression::ListExp(items) => Expression::ListExp(clone_exprs(items)),
            Expression::TryCatch(t, c) => Expression::TryCatch(
                Box::new((&**t).clone()),
                Box::new((&**c).clone()),
            ),
            Expression::PrintChar(inner) => Expression::PrintChar(Box::new((&**inner).clone())),
            Expression::PrintNum(inner) => Expression::PrintNum(Box::new((&**inner).clone())),
        }
    }
}

/// A deep copy of a vector of identifiers.
pub(crate) fn clone_vars(vs: &Vec<Var>) -> (r: Vec<Var>)
    ensures
        r@ == vs@,
{
    let mut r: Vec<Var> = Vec::new();
    let mut i: usize = 0;
    while i < vs.len()
        invariant
            i <= vs.len(),
            r@ =~= vs@.take(i as int),
        decreases vs.len() - i,
    {
        r.push(vs[i].clone());
        i = i + 1;
        proof {
            assert(r@ =~= vs@.take(i as int));
        }
    }
    proof {
        assert(vs@.take(vs@.len() as int) =~= vs@);
    }
    r
}

/// A deep copy of a vector of expressions: the models agree element-wise.
fn clone_exprs(items: &Vec<Expression>) -> (r: Vec<Expression>)
    ensures
        exprs_model(r@) == exprs_model(items@),
    decreases items@,
{
    let mut r: Vec<Expression> = Vec::new();
    let mut i: usize = 0;
    while i < items.len()
        invariant
            i <= items.len(),
            r@.len() == i,
            forall|j: int| 0 <= j < i ==> expr_model(#[trigger] r@[j]) == expr_model(items@[j]),
        decreases items@.len() - i,
    {
        r.push(items[i].clone());
        i = i + 1;
    }
    proof {
        lemma_exprs_model(r@);
        lemma_exprs_model(items@);
        assert forall|j: int| 0 <= j < items@.len() implies #[trigger] exprs_model(r@)[j]
            == exprs_model(items@)[j] by {
            assert(exprs_model(r@)[j] == expr_model(r@[j]));
            assert(exprs_model(items@)[j] == expr_model(items@[j]));
        }
        assert(exprs_model(r@) =~= exprs_model(items@));
    }
    r
}

} // verus!
