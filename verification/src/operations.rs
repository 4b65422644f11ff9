use vstd::prelude::*;

use crate::ast::{exprs_view, ExprModel, Expression};
use crate::numeric::{
    add_bits, add_values, div_bits, div_values, mul_bits, mul_values, sub_bits, sub_values,
};

verus! {

/// A first-class reference to one of the four built-in binary arithmetic
/// functions.
#[derive(Clone, Copy, Debug, PartialEq, Eq, Structural)]
pub enum Operation {
    Add,
    Subtract,
    Multiply,
    Divide,
}

/// Failure of evaluation: the operands of a binary operation have different
/// shapes, or an operand reached evaluation as an unresolved identifier.
#[derive(Clone, Copy, Debug, PartialEq, Eq, Structural)]
pub enum EvalError {
    TypeMismatch,
    IdentOp,
}

/// The IEEE-754 binary64 bit pattern of applying `op` to two numbers.
pub open spec fn apply_bits(op: Operation, l: u64, r: u64) -> u64 {
    match op {
        Operation::Add => add_bits(l, r),
        Operation::Subtract => sub_bits(l, r),
        Operation::Multiply => mul_bits(l, r),
        Operation::Divide => div_bits(l, r),
    }
}

/// Whether two expressions are the same variant of the tree.
pub open spec fn same_variant(l: ExprModel, r: ExprModel) -> bool {
    match (l, r) {
        (ExprModel::Ident(_), ExprModel::Ident(_)) => true,
        (ExprModel::Number(_), ExprModel::Number(_)) => true,
        (ExprModel::List(_), ExprModel::List(_)) => true,
        (ExprModel::Op(_), ExprModel::Op(_)) => true,
        _ => false,
    }
}

/// The length of a truncating zip: the shorter operand list decides.
pub open spec fn zip_len(ls: Seq<ExprModel>, rs: Seq<ExprModel>) -> int {
    if ls.len() <= rs.len() {
        ls.len() as int
    } else {
        rs.len() as int
    }
}

/// Applying `op` to two already-evaluated operands: operands of different
/// variants are a `TypeMismatch`; identifiers can never be operands
/// (`IdentOp`); two numbers combine by IEEE-754 binary64 arithmetic; two
/// lists combine element-wise, truncating at the shorter list. Operation
/// values themselves are not combinable operands.
pub open spec fn eval_op_spec(op: Operation, l: ExprModel, r: ExprModel) -> Result<
    ExprModel,
    EvalError,
>
    decreases l, 0int, 0int,
{
    if !same_variant(l, r) {
        Err(EvalError::TypeMismatch)
    } else if l is Ident {
        Err(EvalError::IdentOp)
    } else {
        match (l, r) {
            (ExprModel::Number(a), ExprModel::Number(b)) => Ok(
                ExprModel::Number(apply_bits(op, a, b)),
            ),
            (ExprModel::List(ls), ExprModel::List(rs)) => match eval_zip_spec(op, ls, rs, 0) {
                Ok(es) => Ok(ExprModel::List(es)),
                Err(e) => Err(e),
            },
            _ => Err(EvalError::TypeMismatch),
        }
    }
}

/// The element-wise results of `op` over the paired elements of `ls` and
/// `rs` from position `k` on, stopping at the shorter list; the first
/// failing pair decides the error.
pub open spec fn eval_zip_spec(
    op: Operation,
    ls: Seq<ExprModel>,
    rs: Seq<ExprModel>,
    k: int,
) -> Result<Seq<ExprModel>, EvalError>
    decreases ls, 1int, zip_len(ls, rs) - k,
{
    if k < 0 || k >= zip_len(ls, rs) {
        Ok(Seq::empty())
    } else {
        match eval_op_spec(op, ls[k], rs[k]) {
            Ok(e) => match eval_zip_spec(op, ls, rs, k + 1) {
                Ok(rest) => Ok(seq![e] + rest),
                Err(err) => Err(err),
            },
            Err(err) => Err(err),
        }
    }
}

/// Reducing a whole tree: a list headed by an operation value evaluates all
/// remaining children first, depth first and left to right, then requires
/// exactly two evaluated operands and applies the operation; any other list
/// evaluates element-wise; numbers, identifiers and operation values are
/// already reduced.
pub open spec fn eval_tree_spec(e: ExprModel) -> Result<ExprModel, EvalError>
    decreases e, 0int, 0int,
{
    match e {
        ExprModel::List(xs) => {
            if xs.len() > 0 && xs[0] is Op {
                match eval_args_spec(xs, 1) {
                    Ok(args) => {
                        if args.len() == 2 {
                            eval_op_spec(xs[0]->Op_0, args[0], args[1])
                        } else {
                            // Applying an operation to any other operand
                            // count is unsupported.
                            Err(EvalError::TypeMismatch)
                        }
                    },
                    Err(err) => Err(err),
                }
            } else {
                match eval_args_spec(xs, 0) {
                    Ok(cs) => Ok(ExprModel::List(cs)),
                    Err(err) => Err(err),
                }
            }
        },
        _ => Ok(e),
    }
}

/// The reduced forms of the elements of `xs` from position `k` on; the first
/// failing element decides the error.
pub open spec fn eval_args_spec(xs: Seq<ExprModel>, k: int) -> Result<Seq<ExprModel>, EvalError>
    decreases xs, 1int, xs.len() - k,
{
    if k < 0 || k >= xs.len() {
        Ok(Seq::empty())
    } else {
        match eval_tree_spec(xs[k]) {
            Ok(v) => match eval_args_spec(xs, k + 1) {
                Ok(rest) => Ok(seq![v] + rest),
                Err(err) => Err(err),
            },
            Err(err) => Err(err),
        }
    }
}

/// The element-wise shape of a successful zip: from position `k` on, every
/// pair evaluates successfully and lands at its own position of the result.
proof fn lemma_eval_zip_props(op: Operation, ls: Seq<ExprModel>, rs: Seq<ExprModel>, k: int)
    requires
        0 <= k <= zip_len(ls, rs),
    ensures
        (match eval_zip_spec(op, ls, rs, k) {
            Ok(es) => {
                &&& es.len() == zip_len(ls, rs) - k
                &&& forall|m: int|
                    k <= m < zip_len(ls, rs) ==> (#[trigger] eval_op_spec(op, ls[m], rs[m])) is Ok
                        && es[m - k] == eval_op_spec(op, ls[m], rs[m])->Ok_0
            },
            Err(_) => true,
        }),
    decreases zip_len(ls, rs) - k,
{
    if k < zip_len(ls, rs) {
        lemma_eval_zip_props(op, ls, rs, k + 1);
    }
}

/// The truncating-zip law: applying an operation to two lists that combine
/// successfully yields a list exactly as long as the shorter operand, whose
/// elements are the element-wise results; unmatched trailing elements of the
/// longer operand are dropped.
pub proof fn lemma_truncating_zip(op: Operation, ls: Seq<ExprModel>, rs: Seq<ExprModel>)
    ensures
        (match eval_op_spec(op, ExprModel::List(ls), ExprModel::List(rs)) {
            Ok(v) => {
                &&& v is List
                &&& v->List_0.len() == zip_len(ls, rs)
                &&& forall|m: int|
                    0 <= m < zip_len(ls, rs) ==> (#[trigger] eval_op_spec(op, ls[m], rs[m])) is Ok
                        && v->List_0[m] == eval_op_spec(op, ls[m], rs[m])->Ok_0
            },
            Err(_) => true,
        }),
{
    lemma_eval_zip_props(op, ls, rs, 0);
}

/// The fixed-point law: an already-reduced value — a number or the empty
/// list — evaluates to itself, unchanged.
pub proof fn lemma_eval_fixed_point(e: ExprModel)
    requires
        e is Number || (e is List && e->List_0.len() == 0),
    ensures
        eval_tree_spec(e) == Ok::<ExprModel, EvalError>(e),
{
    if e is List {
        let xs = e->List_0;
        assert(eval_args_spec(xs, 0) == Ok::<Seq<ExprModel>, EvalError>(Seq::empty()));
        assert(xs =~= Seq::<ExprModel>::empty());
        assert(eval_tree_spec(e) == Ok::<ExprModel, EvalError>(ExprModel::List(xs)));
    }
}

/// Appending an expression models as appending its model.
proof fn lemma_exprs_view_push(es: Seq<Expression>, e: Expression)
    ensures
        exprs_view(es.push(e)) == exprs_view(es) + seq![e@],
    decreases es.len(),
{
    crate::ast::lemma_exprs_view(es.push(e));
    crate::ast::lemma_exprs_view(es);
    assert(exprs_view(es.push(e)) =~= exprs_view(es) + seq![e@]);
}

impl Operation {
    /// Applies the scalar arithmetic of this operation to two numbers given
    /// as bit patterns.
    fn apply_values(self, a: u64, b: u64) -> (r: u64)
        ensures
            r == apply_bits(self, a, b),
    {
        match self {
            Operation::Add => add_values(a, b),
            Operation::Subtract => sub_values(a, b),
            Operation::Multiply => mul_values(a, b),
            Operation::Divide => div_values(a, b),
        }
    }

    /// Applies this operation to two already-evaluated operands held by
    /// reference, building a fresh result tree.
    fn eval_ref(self, l: &Expression, r: &Expression) -> (res: Result<Expression, EvalError>)
        ensures
            (match res {
                Ok(e) => eval_op_spec(self, l@, r@) matches Ok(m) && e@ == m,
                Err(err) => eval_op_spec(self, l@, r@) == Err::<ExprModel, EvalError>(err),
            }),
        decreases *l, 1int,
    {
        match (l, r) {
            (Expression::Number(a), Expression::Number(b)) => Ok(
                Expression::Number(self.apply_values(*a, *b)),
            ),
            (Expression::List(ls), Expression::List(rs)) => {
                let ghost lsm = exprs_view(ls@);
                let ghost rsm = exprs_view(rs@);
                proof {
                    crate::ast::lemma_exprs_view(ls@);
                    crate::ast::lemma_exprs_view(rs@);
                }
                let n = if ls.len() <= rs.len() {
                    ls.len()
                } else {
                    rs.len()
                };
                let mut out: Vec<Expression> = Vec::new();
                let mut k: usize = 0;
                while k < n
                    invariant
                        lsm == exprs_view(ls@),
                        rsm == exprs_view(rs@),
                        lsm.len() == ls@.len(),
                        rsm.len() == rs@.len(),
                        forall|m: int| 0 <= m < ls@.len() ==> lsm[m] == ls@[m]@,
                        forall|m: int| 0 <= m < rs@.len() ==> rsm[m] == rs@[m]@,
                        l@ == ExprModel::List(lsm),
                        r@ == ExprModel::List(rsm),
                        n as int == zip_len(lsm, rsm),
                        k <= n,
                        *l == Expression::List(*ls),
                        match (eval_zip_spec(self, lsm, rsm, 0), eval_zip_spec(
                            self,
                            lsm,
                            rsm,
                            k as int,
                        )) {
                            (Ok(all), Ok(rest)) => all == exprs_view(out@) + rest,
                            (Err(e1), Err(e2)) => e1 == e2,
                            _ => false,
                        },
                    decreases n - k,
                {
                    proof {
                        assert(decreases_to!(ls@ => ls@[k as int]));
                    }
                    let step = self.eval_ref(&ls[k], &rs[k]);
                    match step {
                        Ok(e) => {
                            let ghost out0 = out@;
                            out.push(e);
                            proof {
                                lemma_exprs_view_push(out0, e);
                                let rest = eval_zip_spec(self, lsm, rsm, k as int);
                                let rest1 = eval_zip_spec(self, lsm, rsm, k + 1int);
                                match (rest, rest1) {
                                    (Ok(a), Ok(b)) => {
                                        assert(a == seq![e@] + b);
                                        assert(exprs_view(out0) + (seq![e@] + b) =~= exprs_view(
                                            out@,
                                        ) + b);
                                    },
                                    _ => {},
                                }
                            }
                            k = k + 1;
                        },
                        Err(err) => {
                            proof {
                                assert(eval_zip_spec(self, lsm, rsm, k as int) == Err::<
                                    Seq<ExprModel>,
                                    EvalError,
                                >(err));
                            }
                            return Err(err);
                        },
                    }
                }
                proof {
                    assert(eval_zip_spec(self, lsm, rsm, n as int) == Ok::<
                        Seq<ExprModel>,
                        EvalError,
                    >(Seq::empty()));
                    assert(exprs_view(out@) + Seq::<ExprModel>::empty() =~= exprs_view(out@));
                }
                Ok(Expression::List(out))
            },
            (Expression::Ident(_), Expression::Ident(_)) => Err(EvalError::IdentOp),
            _ => Err(EvalError::TypeMismatch),
        }
    }

    /// Applies this operation to two already-evaluated operands, as
    /// `eval_op_spec` prescribes: a `TypeMismatch` for operands of different
    /// variants, `IdentOp` for identifier operands, IEEE-754 arithmetic on
    /// numbers, and a truncating element-wise zip on lists.
    pub fn eval(&self, lhs: Expression, rhs: Expression) -> (r: Result<Expression, EvalError>)
        ensures
            (match r {
                Ok(e) => eval_op_spec(*self, lhs@, rhs@) matches Ok(m) && e@ == m,
                Err(err) => eval_op_spec(*self, lhs@, rhs@) == Err::<ExprModel, EvalError>(err),
            }),
    {
        (*self).eval_ref(&lhs, &rhs)
    }
}

/// The reduced forms of the children of `xs` from position `start` on, depth
/// first and left to right.
fn eval_args(xs: &Vec<Expression>, start: usize) -> (r: Result<Vec<Expression>, EvalError>)
    requires
        start <= xs@.len(),
    ensures
        (match r {
            Ok(vs) => eval_args_spec(exprs_view(xs@), start as int) matches Ok(ms) && ms
                == exprs_view(vs@),
            Err(err) => eval_args_spec(exprs_view(xs@), start as int) == Err::<
                Seq<ExprModel>,
                EvalError,
            >(err),
        }),
    decreases *xs, 0int,
{
    let ghost xsm = exprs_view(xs@);
    proof {
        crate::ast::lemma_exprs_view(xs@);
    }
    let mut out: Vec<Expression> = Vec::new();
    let mut k: usize = start;
    while k < xs.len()
        invariant
            xsm == exprs_view(xs@),
            xsm.len() == xs@.len(),
            forall|m: int| 0 <= m < xs@.len() ==> xsm[m] == xs@[m]@,
            start <= k <= xs@.len(),
            match (eval_args_spec(xsm, start as int), eval_args_spec(xsm, k as int)) {
                (Ok(all), Ok(rest)) => all == exprs_view(out@) + rest,
                (Err(e1), Err(e2)) => e1 == e2,
                _ => false,
            },
        decreases xs@.len() - k,
    {
        proof {
            assert(decreases_to!(xs@ => xs@[k as int]));
        }
        let step = eval_expression(&xs[k]);
        match step {
            Ok(v) => {
                let ghost out0 = out@;
                out.push(v);
                proof {
                    lemma_exprs_view_push(out0, v);
                    let rest = eval_args_spec(xsm, k as int);
                    let rest1 = eval_args_spec(xsm, k + 1int);
                    match (rest, rest1) {
                        (Ok(a), Ok(b)) => {
                            assert(a == seq![v@] + b);
                            assert(exprs_view(out0) + (seq![v@] + b) =~= exprs_view(out@) + b);
                        },
                        _ => {},
                    }
                }
                k = k + 1;
            },
            Err(err) => {
                proof {
                    assert(eval_args_spec(xsm, k as int) == Err::<Seq<ExprModel>, EvalError>(err));
                }
                return Err(err);
            },
        }
    }
    proof {
        assert(eval_args_spec(xsm, k as int) == Ok::<Seq<ExprModel>, EvalError>(Seq::empty()));
        assert(exprs_view(out@) + Seq::<ExprModel>::empty() =~= exprs_view(out@));
    }
    Ok(out)
}

/// Reduces a whole expression tree, as `eval_tree_spec` prescribes: a list
/// headed by an operation value evaluates its remaining children and then
/// applies the operation to exactly two evaluated operands; any other list
/// evaluates element-wise; every other expression is already reduced and
/// comes back unchanged.
pub fn eval_expression(e: &Expression) -> (r: Result<Expression, EvalError>)
    ensures
        (match r {
            Ok(v) => eval_tree_spec(e@) matches Ok(m) && v@ == m,
            Err(err) => eval_tree_spec(e@) == Err::<ExprModel, EvalError>(err),
        }),
    decreases *e, 1int,
{
    match e {
        Expression::List(xs) => {
            let ghost xsm = exprs_view(xs@);
            proof {
                crate::ast::lemma_exprs_view(xs@);
            }
            let op_head: Option<Operation> = if xs.len() > 0 {
                match &xs[0] {
                    Expression::Op(op) => Some(*op),
                    _ => None,
                }
            } else {
                None
            };
            match op_head {
                Some(op) => {
                    proof {
                        assert(e@ == ExprModel::List(xsm));
                        assert(xsm.len() > 0 && xsm[0] is Op && xsm[0]->Op_0 == op);
                    }
                    let mut args = match eval_args(xs, 1) {
                        Ok(args) => args,
                        Err(err) => {
                            return Err(err);
                        },
                    };
                    if args.len() == 2 {
                        let ghost args0 = args@;
                        let b = match args.pop() {
                            Some(b) => b,
                            None => {
                                return Err(EvalError::TypeMismatch);
                            },
                        };
                        let a = match args.pop() {
                            Some(a) => a,
                            None => {
                                return Err(EvalError::TypeMismatch);
                            },
                        };
                        proof {
                            crate::ast::lemma_exprs_view(args0);
                            assert(b == args0[1]);
                            assert(a == args0.drop_last()[0]);
                            assert(a == args0[0]);
                            let ms = eval_args_spec(xsm, 1)->Ok_0;
                            assert(ms == exprs_view(args0));
                            assert(ms[0] == a@);
                            assert(ms[1] == b@);
                        }
                        op.eval(a, b)
                    } else {
                        proof {
                            crate::ast::lemma_exprs_view(args@);
                        }
                        Err(EvalError::TypeMismatch)
                    }
                },
                None => {
                    proof {
                        assert(e@ == ExprModel::List(xsm));
                        assert(!(xsm.len() > 0 && xsm[0] is Op));
                    }
                    match eval_args(xs, 0) {
                        Ok(cs) => Ok(Expression::List(cs)),
                        Err(err) => Err(err),
                    }
                },
            }
        },
        Expression::Ident(name) => Ok(Expression::Ident(name.clone())),
        Expression::Number(bits) => Ok(Expression::Number(*bits)),
        Expression::Op(op) => Ok(Expression::Op(*op)),
    }
}

} // verus!
