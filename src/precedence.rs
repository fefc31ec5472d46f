//! Grouping an operand chain into an expression tree by operator precedence.
use vstd::prelude::*;
use crate::ast::{AstNode, BinaryExprNode};
use crate::token::{prec, BinOp};

verus! {

/// The index of the right-most operator of lowest precedence in `ops`.
pub open spec fn root_index(ops: Seq<BinOp>) -> int
    decreases ops.len(),
{
    if ops.len() <= 1 {
        0
    } else {
        let k = root_index(ops.drop_last());
        if prec(ops.last()) <= prec(ops[k]) {
            ops.len() - 1
        } else {
            k
        }
    }
}

pub proof fn lemma_root_index_in_range(ops: Seq<BinOp>)
    requires
        ops.len() >= 1,
    ensures
        0 <= root_index(ops) < ops.len(),
    decreases ops.len(),
{
    if ops.len() > 1 {
        lemma_root_index_in_range(ops.drop_last());
    }
}

/// The expression tree over the operand chain `operands[0] ops[0] operands[1] ops[1] ...`:
/// higher precedence binds tighter and operators of equal precedence group to the left, so
/// the root is the right-most operator of lowest precedence.
pub open spec fn prec_tree(operands: Seq<AstNode>, ops: Seq<BinOp>) -> AstNode
    decreases ops.len(),
{
    if ops.len() == 0 {
        operands[0]
    } else {
        let m = root_index(ops);
        let k = if 0 <= m < ops.len() {
            m
        } else {
            0
        };
        AstNode::BinaryExpr(
            Box::new(
                BinaryExprNode {
                    lhs: prec_tree(operands.subrange(0, k + 1), ops.subrange(0, k)),
                    rhs: prec_tree(
                        operands.subrange(k + 1, operands.len() as int),
                        ops.subrange(k + 1, ops.len() as int),
                    ),
                    op: ops[k],
                },
            ),
        )
    }
}

/// `a OP1 b OP2 c` groups as `(a OP1 b) OP2 c` when OP1 binds at least as tightly as OP2,
/// and as `a OP1 (b OP2 c)` when OP2 binds tighter.
pub proof fn lemma_three_operand_grouping(
    a: AstNode,
    b: AstNode,
    c: AstNode,
    op1: BinOp,
    op2: BinOp,
)
    ensures
        prec(op1) >= prec(op2) ==> prec_tree(seq![a, b, c], seq![op1, op2]) == AstNode::BinaryExpr(
            Box::new(
                BinaryExprNode {
                    lhs: AstNode::BinaryExpr(Box::new(BinaryExprNode { lhs: a, rhs: b, op: op1 })),
                    rhs: c,
                    op: op2,
                },
            ),
        ),
        prec(op2) > prec(op1) ==> prec_tree(seq![a, b, c], seq![op1, op2]) == AstNode::BinaryExpr(
            Box::new(
                BinaryExprNode {
                    lhs: a,
                    rhs: AstNode::BinaryExpr(Box::new(BinaryExprNode { lhs: b, rhs: c, op: op2 })),
                    op: op1,
                },
            ),
        ),
{
    reveal_with_fuel(prec_tree, 3);
    reveal_with_fuel(root_index, 3);
    let operands = seq![a, b, c];
    let ops = seq![op1, op2];
    assert(ops.drop_last() =~= seq![op1]);
    assert(root_index(seq![op1]) == 0);
    if prec(op1) >= prec(op2) {
        assert(root_index(ops) == 1);
        assert(operands.subrange(0, 2) =~= seq![a, b]);
        assert(ops.subrange(0, 1) =~= seq![op1]);
        assert(operands.subrange(2, 3) =~= seq![c]);
        assert(ops.subrange(2, 2) =~= Seq::<BinOp>::empty());
        assert(seq![a, b].subrange(0, 1) =~= seq![a]);
        assert(seq![a, b].subrange(1, 2) =~= seq![b]);
        assert(seq![op1].subrange(0, 0) =~= Seq::<BinOp>::empty());
        assert(seq![op1].subrange(1, 1) =~= Seq::<BinOp>::empty());
    } else {
        assert(root_index(ops) == 0);
        assert(operands.subrange(0, 1) =~= seq![a]);
        assert(ops.subrange(0, 0) =~= Seq::<BinOp>::empty());
        assert(operands.subrange(1, 3) =~= seq![b, c]);
        assert(ops.subrange(1, 2) =~= seq![op2]);
        assert(seq![b, c].subrange(0, 1) =~= seq![b]);
        assert(seq![b, c].subrange(1, 2) =~= seq![c]);
        assert(seq![op2].drop_last() =~= Seq::<BinOp>::empty());
        assert(seq![op2].subrange(0, 0) =~= Seq::<BinOp>::empty());
        assert(seq![op2].subrange(1, 1) =~= Seq::<BinOp>::empty());
    }
}

/// The right-most operator of lowest precedence.
fn find_root(ops: &Vec<BinOp>) -> (k: usize)
    requires
        ops.len() >= 1,
    ensures
        k == root_index(ops@),
{
    let mut k: usize = 0;
    let mut i: usize = 1;
    while i < ops.len()
        invariant
            1 <= i <= ops.len(),
            k == root_index(ops@.subrange(0, i as int)),
            k < i,
        decreases ops.len() - i,
    {
        let ghost next = ops@.subrange(0, i as int + 1);
        assert(next.drop_last() =~= ops@.subrange(0, i as int));
        proof {
            lemma_root_index_in_range(next.drop_last());
        }
        if ops[i].precedence() <= ops[k].precedence() {
            k = i;
        }
        i = i + 1;
    }
    assert(ops@.subrange(0, ops.len() as int) =~= ops@);
    k
}

/// Builds the expression tree of an operand chain by operator precedence.
pub fn fold_by_precedence(operands: Vec<AstNode>, ops: Vec<BinOp>) -> (r: AstNode)
    requires
        operands.len() == ops.len() + 1,
    ensures
        r == prec_tree(operands@, ops@),
    decreases ops.len(),
{
    let mut operands = operands;
    let mut ops = ops;
    if ops.len() == 0 {
        let r = operands.pop().unwrap();
        assert(operands@.len() == 0);
        return r;
    }
    let k = find_root(&ops);
    proof {
        lemma_root_index_in_range(ops@);
    }
    let ghost all_ops = ops@;
    let right_operands = operands.split_off(k + 1);
    let right_ops = ops.split_off(k + 1);
    let op = ops.pop().unwrap();
    assert(ops@ =~= all_ops.subrange(0, k as int));
    let lhs = fold_by_precedence(operands, ops);
    let rhs = fold_by_precedence(right_operands, right_ops);
    AstNode::BinaryExpr(Box::new(BinaryExprNode { lhs, rhs, op }))
}


/// Whether `t` is an operator node.
pub open spec fn is_op_node(t: AstNode) -> bool {
    t is BinaryExpr
}

/// Every operator node of `t` binds no tighter than an operator at the root of its left
/// operand and strictly looser than one at the root of its right operand.
pub open spec fn grouped(t: AstNode) -> bool
    decreases t,
{
    match t {
        AstNode::BinaryExpr(b) => {
            &&& (b.lhs is BinaryExpr ==> prec(b.lhs->BinaryExpr_0.op) >= prec(b.op))
            &&& (b.rhs is BinaryExpr ==> prec(b.rhs->BinaryExpr_0.op) > prec(b.op))
            &&& grouped(b.lhs)
            &&& grouped(b.rhs)
        },
        _ => true,
    }
}

/// The leaves of `t` from left to right, taking operator nodes apart.
pub open spec fn leaves(t: AstNode) -> Seq<AstNode>
    decreases t,
{
    match t {
        AstNode::BinaryExpr(b) => leaves(b.lhs) + leaves(b.rhs),
        _ => seq![t],
    }
}

/// The operators of `t` from left to right.
pub open spec fn operators(t: AstNode) -> Seq<BinOp>
    decreases t,
{
    match t {
        AstNode::BinaryExpr(b) => operators(b.lhs) + seq![b.op] + operators(b.rhs),
        _ => Seq::empty(),
    }
}

/// The root is the right-most operator of lowest precedence.
pub proof fn lemma_root_index_is_min(ops: Seq<BinOp>)
    requires
        ops.len() >= 1,
    ensures
        forall|i: int| 0 <= i < ops.len() ==> prec(#[trigger] ops[i]) >= prec(ops[root_index(ops)]),
        forall|i: int| root_index(ops) < i < ops.len() ==> prec(#[trigger] ops[i]) > prec(ops[root_index(ops)]),
    decreases ops.len(),
{
    lemma_root_index_in_range(ops);
    if ops.len() > 1 {
        let d = ops.drop_last();
        lemma_root_index_is_min(d);
        lemma_root_index_in_range(d);
        let kd = root_index(d);
        assert(d.last() == ops[ops.len() - 2]);
        assert(ops.last() == ops[ops.len() - 1]);
        assert(d[kd] == ops[kd]);
        let k = root_index(ops);
        assert forall|i: int| 0 <= i < ops.len() implies prec(#[trigger] ops[i]) >= prec(ops[k]) by {
            if i < d.len() {
                assert(d[i] == ops[i]);
                assert(prec(d[i]) >= prec(d[kd]));
            }
        }
        assert forall|i: int| k < i < ops.len() implies prec(#[trigger] ops[i]) > prec(ops[k]) by {
            if i < d.len() {
                assert(d[i] == ops[i]);
                assert(prec(d[i]) > prec(d[kd]));
            }
        }
    } else {
        assert(root_index(ops) == 0);
    }
}

/// The tree a chain of lone operands folds to takes them and the operators apart again in
/// their order, and at every node respects precedence: an operator binds no tighter than
/// the one at the root of its left operand, and strictly looser than the one at the root of
/// its right operand (so equal precedence groups to the left).
pub proof fn lemma_prec_tree_shape(operands: Seq<AstNode>, ops: Seq<BinOp>)
    requires
        operands.len() == ops.len() + 1,
        forall|i: int| 0 <= i < operands.len() ==> !(#[trigger] operands[i] is BinaryExpr),
    ensures
        leaves(prec_tree(operands, ops)) == operands,
        operators(prec_tree(operands, ops)) == ops,
        grouped(prec_tree(operands, ops)),
        ops.len() > 0 ==> prec_tree(operands, ops) is BinaryExpr && prec_tree(operands, ops)->BinaryExpr_0.op
            == ops[root_index(ops)],
    decreases ops.len(),
{
    if ops.len() == 0 {
        assert(seq![operands[0]] =~= operands);
    } else {
        lemma_root_index_in_range(ops);
        lemma_root_index_is_min(ops);
        let k = root_index(ops);
        let lo = operands.subrange(0, k + 1);
        let lp = ops.subrange(0, k);
        let ro = operands.subrange(k + 1, operands.len() as int);
        let rp = ops.subrange(k + 1, ops.len() as int);
        lemma_prec_tree_shape(lo, lp);
        lemma_prec_tree_shape(ro, rp);
        assert(lo + ro =~= operands);
        assert(lp + seq![ops[k]] + rp =~= ops);
        if lp.len() > 0 {
            lemma_root_index_in_range(lp);
            assert(lp[root_index(lp)] == ops[root_index(lp)]);
        }
        if rp.len() > 0 {
            lemma_root_index_in_range(rp);
            assert(rp[root_index(rp)] == ops[k + 1 + root_index(rp)]);
        }
    }
}

} // verus!
