//! The recursive-descent parser: items, statements, expressions and types.
use vstd::prelude::*;
use crate::ast::{
    BinaryExprNode, AdtImpl, ArrayInst, ArrayInstList, ArrayInstShort, ArrayTy, AstNode, Block, BlockModifiers,
    CallExprNode, ConstValNode, Crate, FunctionHeader, FunctionModifiers, FunctionNode, Generic,
    GenericConstant, GenericLifetime, GenericType, ItemKind, LAssign, LDecAssign, Lifetime,
    LocalAssign, NumberType, OwnedTy, RefTy, StaticValNode, StmtKind, StructConstructor, StructDef,
    StructFieldDef, TraitDef, Ty, TyKind, TyOrConstVal,
};
use crate::attrs::{Constness, Mutability, Visibility};
use crate::diagnostics::DiagnosticBuilder;
use crate::keyword::Keyword;
use crate::precedence::{
    fold_by_precedence, grouped, leaves, lemma_prec_tree_shape, lemma_three_operand_grouping, operators, prec_tree,
};
use crate::span::{FixedTokenSpan, Span};
use crate::token::{prec, BinOp, Token, TokenType};
use crate::token_stream::TokenStream;

verus! {

/// The token the parser sees once the stream is used up.
pub open spec fn eof_sentinel() -> Token {
    Token::EOF(FixedTokenSpan((usize::MAX - 1) as usize))
}

/// The token at `i`, or the end-of-input sentinel past the end.
pub open spec fn tok_at(toks: Seq<Token>, i: int) -> Token {
    if 0 <= i < toks.len() {
        toks[i]
    } else {
        eof_sentinel()
    }
}

/// The value of a run of decimal digits.
pub open spec fn digits_value(s: Seq<char>) -> nat
    decreases s.len(),
{
    if s.len() == 0 {
        0
    } else {
        digits_value(s.drop_last()) * 10 + ((s.last() as u32 - '0' as u32) as nat)
    }
}

pub open spec fn all_digits(s: Seq<char>) -> bool {
    forall|i: int| 0 <= i < s.len() ==> '0' <= #[trigger] s[i] <= '9'
}

/// The value of a number literal: an integer where it is all digits and fits in 128 bits,
/// else its spelling.
pub open spec fn number_spec(text: String) -> NumberType {
    if all_digits(text@) && digits_value(text@) <= u128::MAX {
        NumberType::Int(digits_value(text@) as u128)
    } else {
        NumberType::Decimal(text)
    }
}

/// A prefix of a run of digits has no greater value than the run.
proof fn lemma_digits_prefix(s: Seq<char>, k: int)
    requires
        all_digits(s),
        0 <= k <= s.len(),
    ensures
        digits_value(s.subrange(0, k)) <= digits_value(s),
    decreases s.len() - k,
{
    if k < s.len() {
        let next = s.subrange(0, k + 1);
        assert(next.drop_last() =~= s.subrange(0, k));
        assert('0' <= s[k] <= '9');
        assert(next.last() == s[k]);
        lemma_digits_prefix(s, k + 1);
    } else {
        assert(s.subrange(0, k) =~= s);
    }
}

fn number_of(text: &String) -> (r: NumberType)
    ensures
        r == number_spec(*text),
{
    let s = text.as_str();
    let n = s.unicode_len();
    let mut v: u128 = 0;
    let mut i: usize = 0;
    while i < n
        invariant
            n == s@.len(),
            s@ == text@,
            i <= n,
            all_digits(s@.subrange(0, i as int)),
            v == digits_value(s@.subrange(0, i as int)),
        decreases n - i,
    {
        let c = s.get_char(i);
        let ghost next = s@.subrange(0, i as int + 1);
        assert(next.drop_last() =~= s@.subrange(0, i as int));
        if c < '0' || c > '9' {
            assert(!all_digits(text@)) by {
                assert(text@[i as int] == c);
            }
            return NumberType::Decimal(text.clone());
        }
        let d = (c as u32 - '0' as u32) as u128;
        assert(next.last() == c);
        let step = match v.checked_mul(10) {
            Some(t) => t.checked_add(d),
            None => None,
        };
        match step {
            Some(w) => {
                v = w;
            },
            None => {
                proof {
                    if all_digits(text@) {
                        lemma_digits_prefix(text@, i as int + 1);
                    }
                }
                return NumberType::Decimal(text.clone());
            },
        }
        i = i + 1;
        assert(all_digits(s@.subrange(0, i as int))) by {
            assert forall|j: int| 0 <= j < i implies '0' <= #[trigger] s@.subrange(
                0,
                i as int,
            )[j] <= '9' by {
                if j < i - 1 {
                    assert(s@.subrange(0, i as int)[j] == s@.subrange(0, i - 1)[j]);
                }
            }
        }
    }
    assert(s@.subrange(0, n as int) =~= s@);
    NumberType::Int(v)
}

fn is_open_paren(token: &Token) -> (b: bool)
    ensures
        b == (token.kind() == TokenType::OpenParen),
{
    token.to_type() == TokenType::OpenParen
}

fn is_open_curly(token: &Token) -> (b: bool)
    ensures
        b == (token.kind() == TokenType::OpenCurly),
{
    token.to_type() == TokenType::OpenCurly
}

fn is_ident(token: &Token) -> (b: bool)
    ensures
        b == (token.kind() == TokenType::Ident),
{
    token.to_type() == TokenType::Ident
}

/// The lifetime named `name`.
pub open spec fn lifetime_from(name: String) -> Lifetime {
    if name@ == seq!['s', 't', 'a', 't', 'i', 'c'] {
        Lifetime::Static
    } else if name@ == seq!['_'] {
        Lifetime::Inferred
    } else {
        Lifetime::Custom(name)
    }
}

/// `seps` are the positions of the commas that separate the entries of a list opened at
/// `open`: in increasing order, each entry before a comma at least one token long.
pub open spec fn separators(toks: Seq<Token>, open: int, seps: Seq<int>) -> bool {
    &&& forall|k: int| 0 <= k < seps.len() ==> open < #[trigger] seps[k] < toks.len() && toks[seps[k]].kind()
        == TokenType::Comma
    &&& seps.len() > 0 ==> seps[0] > open + 1
    &&& forall|k: int| 0 <= k < seps.len() - 1 ==> #[trigger] seps[k] + 1 < seps[k + 1]
}

/// `toks[open..=close]` is `<`, entries separated by the commas at `seps`, `>`.
pub open spec fn comma_separated(toks: Seq<Token>, open: int, close: int, seps: Seq<int>) -> bool {
    &&& 0 <= open < close < toks.len()
    &&& toks[open].kind() == TokenType::OpenAngle
    &&& toks[close].kind() == TokenType::ClosedAngle
    &&& separators(toks, open, seps)
    &&& seps.len() > 0 ==> seps.last() < close
}

/// How many entries a list from `open` to `close` with separating commas at `seps` holds:
/// none in `<>`; otherwise one more than its commas, a trailing comma not counting.
pub open spec fn entry_count(open: int, close: int, seps: Seq<int>) -> nat {
    if close == open + 1 {
        0
    } else if seps.len() > 0 && seps.last() == close - 1 {
        seps.len()
    } else {
        seps.len() + 1
    }
}

/// Whether `val` is the precedence tree of an operand chain that starts with a name, as the
/// value of a static or constant item is: `NAME = EXPR`, or the bare `NAME`.
pub open spec fn chain_named(val: AstNode) -> bool {
    exists|operands: Seq<AstNode>, ops: Seq<BinOp>|
        #[trigger] prec_tree(operands, ops) == val && operands.len() == ops.len() + 1 && operands[0] is Ident
}

/// The expression a lone identifier (one not opening a call or a struct literal) or number
/// literal at `i` stands for.
pub open spec fn simple_primary(toks: Seq<Token>, i: int) -> Option<AstNode> {
    match tok_at(toks, i) {
        Token::Ident(_, name) => if tok_at(toks, i + 1).kind() != TokenType::OpenParen && tok_at(
            toks,
            i + 1,
        ).kind() != TokenType::OpenCurly {
            Some(AstNode::Ident(name))
        } else {
            None
        },
        Token::NumLit(_, text) => Some(AstNode::Number(number_spec(text))),
        _ => None,
    }
}

/// Whether `t` is an operator that binds at least as tightly as `min`.
pub open spec fn binds_at_least(t: Token, min: int) -> bool {
    t is BinOp && prec(t->BinOp_1) >= min
}

/// The tokens from `pos` are `OP1 p1 ... OPn pn`, each operator binding at least as tightly
/// as `min` and each `pi` a lone identifier or number literal, and no such operator follows.
pub open spec fn simple_chain(toks: Seq<Token>, pos: int, min: int, n: nat) -> bool {
    &&& forall|k: int| 0 <= k < n ==> binds_at_least(#[trigger] tok_at(toks, pos + 2 * k), min)
        && simple_primary(toks, pos + 2 * k + 1) is Some
    &&& !binds_at_least(tok_at(toks, pos + 2 * n), min)
}

/// The operators of a chain of `n` links from `pos`.
pub open spec fn chain_ops(toks: Seq<Token>, pos: int, n: nat) -> Seq<BinOp> {
    Seq::new(n, |k: int| tok_at(toks, pos + 2 * k)->BinOp_1)
}

/// The operands after the operators of a chain of `n` links from `pos`.
pub open spec fn chain_operands(toks: Seq<Token>, pos: int, n: nat) -> Seq<AstNode> {
    Seq::new(n, |k: int| simple_primary(toks, pos + 2 * k + 1)->Some_0)
}

/// A lone type name at `i`: an identifier with no generic arguments after it.
pub open spec fn simple_ty_at(toks: Seq<Token>, i: int) -> bool {
    tok_at(toks, i) is Ident && tok_at(toks, i + 1).kind() != TokenType::OpenAngle
}

/// `t` is the named type `name` without generic arguments.
pub open spec fn named_simply(t: Ty, name: String) -> bool {
    t.kind is Owned && t.kind->Owned_0.name == name && t.kind->Owned_0.generics@.len() == 0
}

/// `NAME: TYPE` at `i`, the type a lone type name.
pub open spec fn simple_param_at(toks: Seq<Token>, i: int) -> bool {
    tok_at(toks, i) is Ident && tok_at(toks, i + 1).kind() == TokenType::Colon && simple_ty_at(toks, i + 2)
}

/// How many tokens the struct field at `i` spans: `pub NAME: TYPE` or `NAME: TYPE`.
pub open spec fn field_len(toks: Seq<Token>, i: int) -> int {
    if tok_at(toks, i) matches Token::Keyword(_, Keyword::Pub) {
        4
    } else {
        3
    }
}

/// Where the name of the struct field at `i` stands.
pub open spec fn field_name_pos(toks: Seq<Token>, i: int) -> int {
    i + field_len(toks, i) - 3
}

/// A struct field `[pub] NAME: TYPE` at `i`, the type a lone type name.
pub open spec fn field_at(toks: Seq<Token>, i: int) -> bool {
    simple_param_at(toks, field_name_pos(toks, i))
}

/// A parsed field (visibility, name, type) is the one written at `i`.
pub open spec fn field_matches(f: (Visibility, String, Ty), toks: Seq<Token>, i: int) -> bool {
    &&& f.0 == (if field_len(toks, i) == 4 {
        Visibility::Public
    } else {
        Visibility::Private
    })
    &&& f.1 == tok_at(toks, field_name_pos(toks, i))->Ident_1
    &&& named_simply(f.2, tok_at(toks, field_name_pos(toks, i) + 2)->Ident_1)
}

pub open spec fn def_field_matches(f: StructFieldDef, toks: Seq<Token>, i: int) -> bool {
    field_matches((f.visibility, f.name, f.ty), toks, i)
}

/// From `i`, exactly `n` fields separated by commas (a trailing comma allowed) and then `}`.
pub open spec fn field_list(toks: Seq<Token>, i: int, n: nat) -> bool
    decreases n,
{
    if n == 0 {
        tok_at(toks, i).kind() == TokenType::ClosedCurly
    } else {
        &&& field_at(toks, i)
        &&& ((n == 1 && tok_at(toks, i + field_len(toks, i)).kind() == TokenType::ClosedCurly) || (tok_at(
            toks,
            i + field_len(toks, i),
        ).kind() == TokenType::Comma && field_list(toks, i + field_len(toks, i) + 1, (n - 1) as nat)))
    }
}

/// Where the `k`-th field of a list starting at `i` starts.
pub open spec fn field_pos(toks: Seq<Token>, i: int, k: nat) -> int
    decreases k,
{
    if k == 0 {
        i
    } else {
        field_pos(toks, i + field_len(toks, i) + 1, (k - 1) as nat)
    }
}

proof fn lemma_field_pos_next(toks: Seq<Token>, i: int, k: nat)
    ensures
        field_pos(toks, i, k + 1) == field_pos(toks, i, k) + field_len(toks, field_pos(toks, i, k)) + 1,
    decreases k,
{
    if k > 0 {
        lemma_field_pos_next(toks, i + field_len(toks, i) + 1, (k - 1) as nat);
    } else {
        assert(field_pos(toks, i + field_len(toks, i) + 1, 0) == i + field_len(toks, i) + 1);
    }
}

/// `struct NAME { FIELDS }` at `pos` with no generics and `n` fields of lone type names.
pub open spec fn simple_struct(toks: Seq<Token>, pos: int, n: nat) -> bool {
    &&& tok_at(toks, pos + 1) is Ident
    &&& tok_at(toks, pos + 2).kind() == TokenType::OpenCurly
    &&& field_list(toks, pos + 3, n)
}

/// `item` is the struct written at `pos` as `simple_struct` describes, with visibility `vis`.
pub open spec fn struct_written(item: ItemKind, toks: Seq<Token>, pos: int, n: nat, vis: Visibility) -> bool {
    item matches ItemKind::StructDef(d) && d.name == tok_at(toks, pos + 1)->Ident_1 && d.visibility == vis
        && d.generics@.len() == 0 && d.fields@.len() == n && forall|k: int|
        0 <= k < n ==> #[trigger] def_field_matches(d.fields@[k], toks, field_pos(toks, pos + 3, k as nat))
}

/// The tokens at `pos` are `[pub] struct NAME { FIELDS }` as `simple_struct` describes.
pub open spec fn struct_item_at(toks: Seq<Token>, pos: int, n: nat) -> bool {
    if tok_at(toks, pos) matches Token::Keyword(_, Keyword::Pub) {
        tok_at(toks, pos + 1) matches Token::Keyword(_, Keyword::Struct) && simple_struct(toks, pos + 1, n)
    } else {
        tok_at(toks, pos) matches Token::Keyword(_, Keyword::Struct) && simple_struct(toks, pos, n)
    }
}

/// The struct item `struct_item_at` describes.
pub open spec fn struct_item(item: ItemKind, toks: Seq<Token>, pos: int, n: nat) -> bool {
    if tok_at(toks, pos) matches Token::Keyword(_, Keyword::Pub) {
        struct_written(item, toks, pos + 1, n, Visibility::Public)
    } else {
        struct_written(item, toks, pos, n, Visibility::Private)
    }
}

/// Whether `t` can follow the apostrophe of a lifetime: a name or `static`.
pub open spec fn lifetime_token(t: Token) -> bool {
    t is Ident || t matches Token::Keyword(_, Keyword::Static)
}

/// The lifetime named by the token after an apostrophe.
pub open spec fn lifetime_of(t: Token) -> Lifetime {
    match t {
        Token::Ident(_, name) => lifetime_from(name),
        _ => Lifetime::Static,
    }
}

/// Whether `t` is the `+` operator.
pub open spec fn is_plus(t: Token) -> bool {
    t matches Token::BinOp(_, BinOp::Add)
}

/// How many `+ BOUND` (each bound a lone type name) follow at `i`.
pub open spec fn bound_run(toks: Seq<Token>, i: int) -> nat
    decreases toks.len() - i,
{
    if 0 <= i < toks.len() && is_plus(toks[i]) && simple_ty_at(toks, i + 1) {
        1 + bound_run(toks, i + 2)
    } else {
        0
    }
}

/// How many tokens the generic parameter at `i` spans.
pub open spec fn entry_len(toks: Seq<Token>, i: int) -> int {
    if tok_at(toks, i) matches Token::Keyword(_, Keyword::Const) {
        4
    } else if tok_at(toks, i) is Ident {
        if tok_at(toks, i + 1).kind() == TokenType::Colon {
            3 + 2 * (bound_run(toks, i + 3) as int)
        } else {
            1
        }
    } else {
        2
    }
}

/// A generic parameter at `i`, its types lone type names: `const NAME: TYPE`, `'name`,
/// `NAME`, or `NAME: B1 + ... + Bk`.
pub open spec fn entry_at(toks: Seq<Token>, i: int) -> bool {
    if tok_at(toks, i) matches Token::Keyword(_, Keyword::Const) {
        tok_at(toks, i + 1) is Ident && tok_at(toks, i + 2).kind() == TokenType::Colon && simple_ty_at(toks, i + 3)
    } else if tok_at(toks, i) is Ident {
        tok_at(toks, i + 1).kind() == TokenType::Colon ==> simple_ty_at(toks, i + 2) && !is_plus(
            tok_at(toks, i + entry_len(toks, i)),
        )
    } else {
        tok_at(toks, i).kind() == TokenType::Apostrophe && lifetime_token(tok_at(toks, i + 1))
    }
}

/// The parsed parameter `g` is the one written at `i`.
pub open spec fn generic_matches(g: Generic, toks: Seq<Token>, i: int) -> bool {
    if tok_at(toks, i) matches Token::Keyword(_, Keyword::Const) {
        g matches Generic::Constant(c) && c.name == tok_at(toks, i + 1)->Ident_1 && named_simply(
            c.ty,
            tok_at(toks, i + 3)->Ident_1,
        )
    } else if tok_at(toks, i) is Ident {
        g matches Generic::Type(t) && t.name == tok_at(toks, i)->Ident_1 && t.required_traits@.len() == (if tok_at(
            toks,
            i + 1,
        ).kind() == TokenType::Colon {
            1 + bound_run(toks, i + 3)
        } else {
            0
        })
    } else {
        g matches Generic::Lifetime(l) && l.lt == lifetime_of(tok_at(toks, i + 1))
    }
}

/// From `i`, exactly `n` generic parameters separated by commas (a trailing comma
/// allowed) and then `>`.
pub open spec fn generic_list(toks: Seq<Token>, i: int, n: nat) -> bool
    decreases n,
{
    if n == 0 {
        tok_at(toks, i).kind() == TokenType::ClosedAngle
    } else {
        &&& entry_at(toks, i)
        &&& ((n == 1 && tok_at(toks, i + entry_len(toks, i)).kind() == TokenType::ClosedAngle) || (tok_at(
            toks,
            i + entry_len(toks, i),
        ).kind() == TokenType::Comma && generic_list(toks, i + entry_len(toks, i) + 1, (n - 1) as nat)))
    }
}

/// Where the `k`-th parameter of a list starting at `i` starts.
pub open spec fn generic_pos(toks: Seq<Token>, i: int, k: nat) -> int
    decreases k,
{
    if k == 0 {
        i
    } else {
        generic_pos(toks, i + entry_len(toks, i) + 1, (k - 1) as nat)
    }
}

proof fn lemma_generic_pos_next(toks: Seq<Token>, i: int, k: nat)
    ensures
        generic_pos(toks, i, k + 1) == generic_pos(toks, i, k) + entry_len(toks, generic_pos(toks, i, k)) + 1,
    decreases k,
{
    if k > 0 {
        lemma_generic_pos_next(toks, i + entry_len(toks, i) + 1, (k - 1) as nat);
    } else {
        assert(generic_pos(toks, i + entry_len(toks, i) + 1, 0) == i + entry_len(toks, i) + 1);
    }
}

/// `<g1, ..., gN>` at `pos` with `N >= 1` parameters as `entry_at` describes.
pub open spec fn simple_generics(toks: Seq<Token>, pos: int, n: nat) -> bool {
    &&& tok_at(toks, pos).kind() == TokenType::OpenAngle
    &&& n >= 1
    &&& generic_list(toks, pos + 1, n)
}

/// What `parse_bin_op_rhs` makes of a chain of lone operands: its leaves are the operands
/// and its operators the chain's operators, both in order, and every node respects
/// precedence (see `grouped`).
pub proof fn lemma_parsed_chain_shape(toks: Seq<Token>, pos: int, min: int, n: nat, lhs: AstNode)
    requires
        simple_chain(toks, pos, min, n),
        !(lhs is BinaryExpr),
    ensures
        leaves(prec_tree(seq![lhs] + chain_operands(toks, pos, n), chain_ops(toks, pos, n))) == seq![lhs]
            + chain_operands(toks, pos, n),
        operators(prec_tree(seq![lhs] + chain_operands(toks, pos, n), chain_ops(toks, pos, n))) == chain_ops(
            toks,
            pos,
            n,
        ),
        grouped(prec_tree(seq![lhs] + chain_operands(toks, pos, n), chain_ops(toks, pos, n))),
{
    let operands = seq![lhs] + chain_operands(toks, pos, n);
    assert forall|i: int| 0 <= i < operands.len() implies !(#[trigger] operands[i] is BinaryExpr) by {
        if i > 0 {
            let k = i - 1;
            assert(binds_at_least(tok_at(toks, pos + 2 * k), min));
            assert(simple_primary(toks, pos + 2 * k + 1) is Some);
            assert(operands[i] == chain_operands(toks, pos, n)[k]);
        }
    }
    lemma_prec_tree_shape(operands, chain_ops(toks, pos, n));
}

/// The tree `parse_bin_op_rhs` makes of `a OP1 b OP2 c` (`a` the left operand handed in, `b`
/// and `c` lone operands): `(a OP1 b) OP2 c` where OP1 binds at least as tightly as OP2, and
/// `a OP1 (b OP2 c)` where OP2 binds tighter.
pub proof fn lemma_parsed_three_operands(toks: Seq<Token>, pos: int, min: int, a: AstNode)
    requires
        simple_chain(toks, pos, min, 2),
    ensures
        ({
            let op1 = tok_at(toks, pos)->BinOp_1;
            let op2 = tok_at(toks, pos + 2)->BinOp_1;
            let b = simple_primary(toks, pos + 1)->Some_0;
            let c = simple_primary(toks, pos + 3)->Some_0;
            let t = prec_tree(seq![a] + chain_operands(toks, pos, 2), chain_ops(toks, pos, 2));
            &&& prec(op1) >= prec(op2) ==> t == AstNode::BinaryExpr(
                Box::new(
                    BinaryExprNode {
                        lhs: AstNode::BinaryExpr(Box::new(BinaryExprNode { lhs: a, rhs: b, op: op1 })),
                        rhs: c,
                        op: op2,
                    },
                ),
            )
            &&& prec(op2) > prec(op1) ==> t == AstNode::BinaryExpr(
                Box::new(
                    BinaryExprNode {
                        lhs: a,
                        rhs: AstNode::BinaryExpr(Box::new(BinaryExprNode { lhs: b, rhs: c, op: op2 })),
                        op: op1,
                    },
                ),
            )
        }),
{
    let b = simple_primary(toks, pos + 1)->Some_0;
    let c = simple_primary(toks, pos + 3)->Some_0;
    let op1 = tok_at(toks, pos)->BinOp_1;
    let op2 = tok_at(toks, pos + 2)->BinOp_1;
    assert(chain_operands(toks, pos, 2)[0] == b);
    assert(chain_operands(toks, pos, 2)[1] == c);
    assert(seq![a] + chain_operands(toks, pos, 2) =~= seq![a, b, c]);
    assert(chain_ops(toks, pos, 2) =~= seq![op1, op2]);
    lemma_three_operand_grouping(a, b, c, op1, op2);
}

/// Where the `)` closing a list of `n` parameters (each `NAME: TYPE`, four tokens with its
/// comma) starting at `ps` stands.
pub open spec fn params_close(ps: int, n: nat) -> int {
    if n == 0 {
        ps
    } else {
        ps + 4 * n - 1
    }
}

/// `fn NAME(p1: T1, ..., pn: Tn) [-> R]` at `pos`: no generics, no trailing comma, every type
/// a lone type name.
pub open spec fn simple_header(toks: Seq<Token>, pos: int, n: nat) -> bool {
    &&& tok_at(toks, pos + 1) is Ident
    &&& tok_at(toks, pos + 2).kind() == TokenType::OpenParen
    &&& forall|k: int| 0 <= k < n ==> #[trigger] simple_param_at(toks, pos + 3 + 4 * k)
    &&& forall|k: int| 0 <= k < n - 1 ==> #[trigger] tok_at(toks, pos + 3 + 4 * k + 3).kind() == TokenType::Comma
    &&& tok_at(toks, params_close(pos + 3, n)).kind() == TokenType::ClosedParen
    &&& tok_at(toks, params_close(pos + 3, n) + 1).kind() == TokenType::Arrow ==> simple_ty_at(
        toks,
        params_close(pos + 3, n) + 2,
    )
}

/// A parsed parameter is the one written at `i`.
pub open spec fn arg_written(arg: (String, Ty), toks: Seq<Token>, i: int) -> bool {
    arg.0 == tok_at(toks, i)->Ident_1 && named_simply(arg.1, tok_at(toks, i + 2)->Ident_1)
}

/// `h` is the header written at `pos` as `simple_header` describes.
pub open spec fn header_written(h: FunctionHeader, toks: Seq<Token>, pos: int, n: nat) -> bool {
    let c = params_close(pos + 3, n);
    &&& h.name == tok_at(toks, pos + 1)->Ident_1
    &&& h.generics@.len() == 0
    &&& h.args@.len() == n
    &&& forall|k: int| 0 <= k < n ==> #[trigger] arg_written(h.args@[k], toks, pos + 3 + 4 * k)
    &&& (h.ret is Some <==> tok_at(toks, c + 1).kind() == TokenType::Arrow)
    &&& h.ret is Some ==> named_simply(h.ret->Some_0, tok_at(toks, c + 2)->Ident_1)
}

/// A lone operand at `i`: a lone identifier or number literal with no operator after it.
pub open spec fn lone_operand(toks: Seq<Token>, i: int) -> bool {
    simple_primary(toks, i) is Some && !(tok_at(toks, i + 1) is BinOp)
}

/// `[e1, ..., en]` at `pos` with `n >= 1` lone operands and no trailing comma.
pub open spec fn simple_array(toks: Seq<Token>, pos: int, n: nat) -> bool {
    &&& tok_at(toks, pos).kind() == TokenType::OpenBracket
    &&& n >= 1
    &&& forall|k: int| 0 <= k < n ==> #[trigger] simple_primary(toks, pos + 1 + 2 * k) is Some
    &&& forall|k: int| 0 <= k < n - 1 ==> #[trigger] tok_at(toks, pos + 2 + 2 * k).kind() == TokenType::Comma
    &&& tok_at(toks, pos + 2 * n).kind() == TokenType::ClosedBracket
}

/// The first `n` elements of an array literal at `pos` as `simple_array` describes.
pub open spec fn array_elems(toks: Seq<Token>, pos: int, n: nat) -> Seq<AstNode> {
    Seq::new(n, |k: int| simple_primary(toks, pos + 1 + 2 * k)->Some_0)
}

/// `[val; N]` at `pos`, `val` a lone operand and `N` a number literal.
pub open spec fn simple_short_array(toks: Seq<Token>, pos: int) -> bool {
    &&& tok_at(toks, pos).kind() == TokenType::OpenBracket
    &&& simple_primary(toks, pos + 1) is Some
    &&& tok_at(toks, pos + 2).kind() == TokenType::Semi
    &&& tok_at(toks, pos + 3) is NumLit
    &&& tok_at(toks, pos + 4).kind() == TokenType::ClosedBracket
}

/// How many tokens the header at `q` with `n` parameters spans (see `simple_header`).
pub open spec fn header_len(toks: Seq<Token>, q: int, n: nat) -> int {
    let c = params_close(q + 3, n);
    if tok_at(toks, c + 1).kind() == TokenType::Arrow {
        c + 3 - q
    } else {
        c + 1 - q
    }
}

/// From `i`, method headers `fn ...;` with the given parameter counts, then `}`.
pub open spec fn method_list(toks: Seq<Token>, i: int, ms: Seq<nat>) -> bool
    decreases ms.len(),
{
    if ms.len() == 0 {
        tok_at(toks, i).kind() == TokenType::ClosedCurly
    } else {
        &&& tok_at(toks, i) matches Token::Keyword(_, Keyword::Fn)
        &&& simple_header(toks, i, ms[0])
        &&& tok_at(toks, i + header_len(toks, i, ms[0])).kind() == TokenType::Semi
        &&& method_list(toks, i + header_len(toks, i, ms[0]) + 1, ms.drop_first())
    }
}

/// Where the `k`-th method header of a list starting at `i` starts.
pub open spec fn method_pos(toks: Seq<Token>, i: int, ms: Seq<nat>, k: nat) -> int
    decreases k,
{
    if k == 0 || ms.len() == 0 {
        i
    } else {
        method_pos(toks, i + header_len(toks, i, ms[0]) + 1, ms.drop_first(), (k - 1) as nat)
    }
}

proof fn lemma_method_pos_next(toks: Seq<Token>, i: int, ms: Seq<nat>, k: nat)
    requires
        k < ms.len(),
    ensures
        method_pos(toks, i, ms, k + 1) == method_pos(toks, i, ms, k) + header_len(
            toks,
            method_pos(toks, i, ms, k),
            ms[k as int],
        ) + 1,
    decreases k,
{
    if k > 0 {
        lemma_method_pos_next(toks, i + header_len(toks, i, ms[0]) + 1, ms.drop_first(), (k - 1) as nat);
        assert(ms.drop_first()[k - 1] == ms[k as int]);
    } else {
        assert(method_pos(toks, i + header_len(toks, i, ms[0]) + 1, ms.drop_first(), 0) == i + header_len(toks, i, ms[0]) + 1);
    }
}

/// `trait NAME { (fn-header;)* }` at `pos`: no generics, no required traits, and method
/// headers as `simple_header` describes with the parameter counts `ms`.
pub open spec fn simple_trait(toks: Seq<Token>, pos: int, ms: Seq<nat>) -> bool {
    &&& tok_at(toks, pos + 1) is Ident
    &&& tok_at(toks, pos + 2).kind() == TokenType::OpenCurly
    &&& method_list(toks, pos + 3, ms)
}

/// The keyword an item at `pos` starts with, after an optional `pub`.
pub open spec fn keyword_after_pub(toks: Seq<Token>, pos: int) -> Option<Keyword> {
    let t = if tok_at(toks, pos) matches Token::Keyword(_, Keyword::Pub) {
        tok_at(toks, pos + 1)
    } else {
        tok_at(toks, pos)
    };
    match t {
        Token::Keyword(_, k) => Some(k),
        _ => None,
    }
}

/// The keyword the item at the parser's position starts with, after an optional `pub`.
pub open spec fn item_keyword(p: Parser) -> Option<Keyword> {
    keyword_after_pub(p.tokens(), p.pos())
}

/// Whether some item keyword at or after `from` introduces the kind of `item`.
pub open spec fn introduced_at(item: ItemKind, toks: Seq<Token>, from: int) -> bool {
    exists|p: int| from <= p && #[trigger] keyword_after_pub(toks, p) is Some && introduced_by(
        item,
        keyword_after_pub(toks, p)->Some_0,
    )
}

/// Whether every item is of the kind an item keyword at or after `from` introduces.
pub open spec fn all_introduced(items: Seq<ItemKind>, toks: Seq<Token>, from: int) -> bool {
    forall|i: int| 0 <= i < items.len() ==> introduced_at(#[trigger] items[i], toks, from)
}

/// `items` were parsed, in this order, at the increasing item starts `starts` at or after
/// `from`, each of the kind its keyword introduces.
pub open spec fn items_in_order(items: Seq<ItemKind>, toks: Seq<Token>, from: int, starts: Seq<int>) -> bool {
    &&& starts.len() == items.len()
    &&& forall|i: int| 0 <= i < starts.len() ==> from <= #[trigger] starts[i]
    &&& forall|i: int, j: int| 0 <= i < j < starts.len() ==> #[trigger] starts[i] < #[trigger] starts[j]
    &&& forall|i: int| 0 <= i < items.len() ==> keyword_after_pub(toks, #[trigger] starts[i]) is Some && introduced_by(
        items[i],
        keyword_after_pub(toks, starts[i])->Some_0,
    )
}

/// Whether `item` is the kind of item that `kw` introduces.
pub open spec fn introduced_by(item: ItemKind, kw: Keyword) -> bool {
    match kw {
        Keyword::Static => item is StaticVal,
        Keyword::Const => item is ConstVal,
        Keyword::Fn => item is FunctionDef,
        Keyword::Struct => item is StructDef,
        Keyword::Impl => item is StructImpl,
        Keyword::Trait => item is TraitDef,
        _ => false,
    }
}

/// The visibility an item gets: the one written, else private.
pub open spec fn vis_or_private(v: Option<Visibility>) -> Visibility {
    match v {
        Some(v) => v,
        None => Visibility::Private,
    }
}

/// Turns a token sequence into a `Crate` by recursive descent, with one token of lookahead
/// (`curr`) and arbitrary peeking into the stream behind it.
pub struct Parser {
    token_stream: TokenStream,
    curr: Token,
    diagnostics: DiagnosticBuilder,
}

/// `after` is a well-formed parser over the same tokens as `before`, not behind it.
pub open spec fn moved(before: Parser, after: Parser) -> bool {
    &&& after.wf()
    &&& after.tokens() == before.tokens()
    &&& before.pos() <= after.pos()
}

impl Parser {
    /// The tokens being parsed.
    pub closed spec fn tokens(&self) -> Seq<Token> {
        self.token_stream@.0
    }

    /// The index of the current token.
    pub closed spec fn pos(&self) -> int {
        self.token_stream@.1 - 1
    }

    pub closed spec fn wf(&self) -> bool {
        &&& 0 <= self.pos() <= self.tokens().len()
        &&& self.tokens().len() < usize::MAX
        &&& self.curr == self.current()
    }

    /// The current token: the one at `pos()`, or the end-of-input sentinel.
    pub open spec fn current(&self) -> Token {
        tok_at(self.tokens(), self.pos())
    }

    /// The token after the current one.
    pub open spec fn peek(&self) -> Token {
        tok_at(self.tokens(), self.pos() + 1)
    }

    /// How many tokens are left, the current one included.
    pub open spec fn rem(&self) -> nat {
        (self.tokens().len() - self.pos()) as nat
    }

    /// Makes the stream's next token the current one.
    pub fn new(token_stream: TokenStream) -> (r: Self)
        requires
            token_stream@.1 < token_stream@.0.len() < usize::MAX,
            token_stream@.1 >= 0,
        ensures
            r.wf(),
            r.tokens() == token_stream@.0,
            r.pos() == token_stream@.1,
    {
        let mut token_stream = token_stream;
        let curr = token_stream.get_next_and_advance().unwrap().clone();
        Parser { token_stream, curr, diagnostics: DiagnosticBuilder::new() }
    }

    /// Parses items until the end of input, skipping one token wherever no item could be
    /// parsed.
    pub fn parse_crate(&mut self) -> (r: Result<Crate, ()>)
        requires
            old(self).wf(),
        ensures
            moved(*old(self), *final(self)),
            r is Ok,
            final(self).current().kind() == TokenType::EOF || final(self).pos() + 1 >= final(self).tokens().len(),
            r matches Ok(c) ==> all_introduced(c.items@, old(self).tokens(), old(self).pos()),
            r matches Ok(c) ==> exists|starts: Seq<int>| #[trigger] items_in_order(
                c.items@,
                old(self).tokens(),
                old(self).pos(),
                starts,
            ),
            forall|n: nat| #[trigger] struct_item_at(old(self).tokens(), old(self).pos(), n) ==> r is Ok
                && r->Ok_0.items@.len() >= 1 && struct_item(r->Ok_0.items@[0], old(self).tokens(), old(self).pos(), n),
    {
        let mut items: Vec<ItemKind> = Vec::new();
        let ghost mut starts: Seq<int> = Seq::empty();
        while self.curr.to_type() != TokenType::EOF && self.token_stream.can_advance()
            invariant
                moved(*old(self), *self),
                all_introduced(items@, old(self).tokens(), old(self).pos()),
                items_in_order(items@, old(self).tokens(), old(self).pos(), starts),
                starts.len() > 0 ==> starts.last() < self.pos(),
                forall|n: nat| #[trigger] struct_item_at(old(self).tokens(), old(self).pos(), n) ==> (items.len() == 0
                    && self.pos() == old(self).pos()) || (items.len() >= 1 && struct_item(items@[0], old(self).tokens(), old(self).pos(), n)),
            ensures
                moved(*old(self), *self),
                self.current().kind() == TokenType::EOF || self.pos() + 1 >= self.tokens().len(),
                all_introduced(items@, old(self).tokens(), old(self).pos()),
                items_in_order(items@, old(self).tokens(), old(self).pos(), starts),
                forall|n: nat| #[trigger] struct_item_at(old(self).tokens(), old(self).pos(), n) ==> (items.len() == 0
                    && self.pos() == old(self).pos()) || (items.len() >= 1 && struct_item(items@[0], old(self).tokens(), old(self).pos(), n)),
            decreases self.rem(),
        {
            let ghost here = self.pos();
            match self.parse_item() {
                Ok(val) => {
                    let ghost before = items@;
                    assert(keyword_after_pub(old(self).tokens(), here) is Some && introduced_by(
                        val,
                        keyword_after_pub(old(self).tokens(), here)->Some_0,
                    ));
                    assert(introduced_at(val, old(self).tokens(), old(self).pos()));
                    items.push(val);
                    proof {
                        let old_starts = starts;
                        starts = starts.push(here);
                        assert forall|i: int| 0 <= i < items.len() implies keyword_after_pub(
                            old(self).tokens(),
                            #[trigger] starts[i],
                        ) is Some && introduced_by(items@[i], keyword_after_pub(old(self).tokens(), starts[i])->Some_0) by {
                            if i < before.len() {
                                assert(items@[i] == before[i]);
                                assert(starts[i] == old_starts[i]);
                            }
                        }
                    }
                    assert forall|i: int| 0 <= i < items.len() implies introduced_at(
                        #[trigger] items@[i],
                        old(self).tokens(),
                        old(self).pos(),
                    ) by {
                        if i < before.len() {
                            assert(items@[i] == before[i]);
                        }
                    }
                },
                Err(_) => {
                    if self.curr.to_type() == TokenType::EOF {
                        break;
                    }
                    self.advance();
                },
            }
        }
        assert(items_in_order(items@, old(self).tokens(), old(self).pos(), starts));
        Ok(Crate { items })
    }

    /// Moves to the next token.
    fn advance(&mut self)
        requires
            old(self).wf(),
            old(self).pos() < old(self).tokens().len(),
        ensures
            final(self).wf(),
            final(self).tokens() == old(self).tokens(),
            final(self).pos() == old(self).pos() + 1,
    {
        let next = match self.token_stream.get_next() {
            Some(next) => next.clone(),
            None => Token::EOF(FixedTokenSpan::none()),
        };
        self.curr = next;
        self.token_stream.advance();
    }

    fn check(&self, token: TokenType) -> (r: bool)
        requires
            self.wf(),
        ensures
            r == (self.current().kind() == token),
    {
        self.curr.to_type() == token
    }

    fn check_kw(&self, kw: Keyword) -> (r: bool)
        requires
            self.wf(),
        ensures
            r == (self.current() matches Token::Keyword(_, k) && k == kw),
    {
        match &self.curr {
            Token::Keyword(_, actual) => *actual == kw,
            _ => false,
        }
    }

    /// Moves over the current token if it is of kind `token`.
    fn eat(&mut self, token: TokenType) -> (r: bool)
        requires
            old(self).wf(),
            token != TokenType::EOF,
        ensures
            r == (old(self).current().kind() == token),
            final(self).wf(),
            final(self).tokens() == old(self).tokens(),
            final(self).pos() == old(self).pos() + if r {
                1int
            } else {
                0int
            },
    {
        if self.curr.to_type() == token {
            self.advance();
            true
        } else {
            false
        }
    }

    fn eat_kw(&mut self, kw: Keyword) -> (r: bool)
        requires
            old(self).wf(),
        ensures
            r == (old(self).current() matches Token::Keyword(_, k) && k == kw),
            final(self).wf(),
            final(self).tokens() == old(self).tokens(),
            final(self).pos() == old(self).pos() + if r {
                1int
            } else {
                0int
            },
    {
        if self.check_kw(kw) {
            self.advance();
            true
        } else {
            false
        }
    }

    fn eat_bin_op(&mut self, bin_op: BinOp) -> (r: bool)
        requires
            old(self).wf(),
        ensures
            r == (old(self).current() matches Token::BinOp(_, op) && op == bin_op),
            final(self).wf(),
            final(self).tokens() == old(self).tokens(),
            final(self).pos() == old(self).pos() + if r {
                1int
            } else {
                0int
            },
    {
        let found = match &self.curr {
            Token::BinOp(_, op) => *op == bin_op,
            _ => false,
        };
        if found {
            self.advance();
        }
        found
    }

    /// The current token's operator, if it is one.
    fn current_bin_op(&self) -> (r: Option<BinOp>)
        requires
            self.wf(),
        ensures
            self.current() matches Token::BinOp(_, op) ==> r == Some(op),
            !(self.current() is BinOp) ==> r is None,
    {
        match &self.curr {
            Token::BinOp(_, op) => Some(*op),
            _ => None,
        }
    }

    fn parse_ident(&mut self) -> (r: Option<(Span, String)>)
        requires
            old(self).wf(),
        ensures
            final(self).wf(),
            final(self).tokens() == old(self).tokens(),
            old(self).current() matches Token::Ident(sp, s) ==> r == Some((sp, s)) && final(self).pos() == old(self).pos() + 1,
            !(old(self).current() is Ident) ==> r is None && final(self).pos() == old(self).pos(),
    {
        let found = match &self.curr {
            Token::Ident(sp, val) => Some((*sp, val.clone())),
            _ => None,
        };
        if found.is_some() {
            self.advance();
        }
        found
    }

    fn parse_visibility(&mut self) -> (r: Option<Visibility>)
        requires
            old(self).wf(),
        ensures
            final(self).wf(),
            final(self).tokens() == old(self).tokens(),
            (old(self).current() matches Token::Keyword(_, Keyword::Pub)) ==> r == Some(
                Visibility::Public,
            ) && final(self).pos() == old(self).pos() + 1,
            !(old(self).current() matches Token::Keyword(_, Keyword::Pub)) ==> r is None && final(self).pos() == old(self).pos(),
    {
        if self.eat_kw(Keyword::Pub) {
            Some(Visibility::Public)
        } else {
            None
        }
    }

    fn parse_mutability(&mut self) -> (r: Option<Mutability>)
        requires
            old(self).wf(),
        ensures
            final(self).wf(),
            final(self).tokens() == old(self).tokens(),
            (old(self).current() matches Token::Keyword(_, Keyword::Mut)) ==> r == Some(
                Mutability::Mut,
            ) && final(self).pos() == old(self).pos() + 1,
            !(old(self).current() matches Token::Keyword(_, Keyword::Mut)) ==> r is None && final(self).pos() == old(self).pos(),
    {
        if self.eat_kw(Keyword::Mut) {
            Some(Mutability::Mut)
        } else {
            None
        }
    }

    /// An optional lifetime: an apostrophe and a name, with `'static` and `'_` reserved.
    fn parse_maybe_lt(&mut self) -> (r: Result<Option<Lifetime>, ()>)
        requires
            old(self).wf(),
        ensures
            moved(*old(self), *final(self)),
            old(self).current().kind() != TokenType::Apostrophe ==> r == Ok::<Option<Lifetime>, ()>(
                None,
            ) && final(self).pos() == old(self).pos(),
            old(self).current().kind() == TokenType::Apostrophe ==> (r is Ok <==> (
            old(self).peek() is Ident || old(self).peek() matches Token::Keyword(
                _,
                Keyword::Static,
            ))),
            r matches Ok(Some(_)) ==> final(self).pos() == old(self).pos() + 2,
            old(self).current().kind() == TokenType::Apostrophe ==> ((old(self).peek() matches Token::Keyword(
                _,
                Keyword::Static,
            )) ==> r == Ok::<Option<Lifetime>, ()>(Some(Lifetime::Static))),
            old(self).current().kind() == TokenType::Apostrophe && old(self).peek() is Ident ==> r
                == Ok::<Option<Lifetime>, ()>(Some(lifetime_from(old(self).peek()->Ident_1))),
    {
        if !self.eat(TokenType::Apostrophe) {
            return Ok(None);
        }
        if self.eat_kw(Keyword::Static) {
            return Ok(Some(Lifetime::Static));
        }
        match self.parse_ident() {
            Some((_, name)) => {
                proof {
                    reveal_strlit("static");
                    reveal_strlit("_");
                }
                if crate::text::same_text(name.as_str(), "static") {
                    assert("static"@ =~= seq!['s', 't', 'a', 't', 'i', 'c']);
                    Ok(Some(Lifetime::Static))
                } else if crate::text::same_text(name.as_str(), "_") {
                    assert("_"@ =~= seq!['_']);
                    Ok(Some(Lifetime::Inferred))
                } else {
                    assert("static"@ =~= seq!['s', 't', 'a', 't', 'i', 'c']);
                    assert("_"@ =~= seq!['_']);
                    Ok(Some(Lifetime::Custom(name)))
                }
            },
            None => Err(()),
        }
    }

    fn parse_lt(&mut self) -> (r: Result<Lifetime, ()>)
        requires
            old(self).wf(),
        ensures
            moved(*old(self), *final(self)),
            r is Ok ==> final(self).pos() == old(self).pos() + 2,
            old(self).current().kind() != TokenType::Apostrophe ==> r is Err,
            old(self).current().kind() == TokenType::Apostrophe && lifetime_token(old(self).peek()) ==> r
                == Ok::<Lifetime, ()>(lifetime_of(old(self).peek())),
    {
        match self.parse_maybe_lt() {
            Ok(Some(lt)) => Ok(lt),
            _ => Err(()),
        }
    }

    fn parse_number_expr(&mut self) -> (r: Result<AstNode, ()>)
        requires
            old(self).wf(),
        ensures
            moved(*old(self), *final(self)),
            r is Ok <==> old(self).current() is NumLit,
            r is Ok ==> final(self).pos() == old(self).pos() + 1 && r->Ok_0 == AstNode::Number(
                number_spec(old(self).current()->NumLit_1),
            ),
            r is Err ==> final(self).pos() == old(self).pos(),
    {
        let number = match &self.curr {
            Token::NumLit(_, content) => Some(number_of(content)),
            _ => None,
        };
        match number {
            Some(number) => {
                self.advance();
                Ok(AstNode::Number(number))
            },
            None => Err(()),
        }
    }

    fn parse_paren_expr(&mut self) -> (r: Result<AstNode, ()>)
        requires
            old(self).wf(),
        ensures
            moved(*old(self), *final(self)),
            r is Ok ==> final(self).pos() > old(self).pos(),
        decreases old(self).rem(), 1nat,
    {
        if !self.eat(TokenType::OpenParen) {
            return Err(());
        }
        let expr = self.parse_expr()?;
        if !self.eat(TokenType::ClosedParen) {
            return Err(());
        }
        Ok(expr)
    }

    /// Expressions separated by commas, as many as parse.
    fn parse_comma_separated(&mut self) -> (r: Vec<AstNode>)
        requires
            old(self).wf(),
        ensures
            moved(*old(self), *final(self)),
        decreases old(self).rem(), 5nat,
    {
        let mut ret: Vec<AstNode> = Vec::new();
        let ghost start = *self;
        loop
            invariant
                moved(start, *self),
                moved(*old(self), *self),
                start.rem() == old(self).rem(),
            decreases self.rem(),
        {
            match self.parse_expr() {
                Ok(item) => {
                    ret.push(item);
                    if !self.eat(TokenType::Comma) {
                        break;
                    }
                },
                Err(_) => {
                    break;
                },
            }
        }
        ret
    }

    fn parse_call(&mut self) -> (r: Result<AstNode, ()>)
        requires
            old(self).wf(),
        ensures
            moved(*old(self), *final(self)),
            r is Ok ==> final(self).pos() > old(self).pos() && r->Ok_0 is CallExpr,
        decreases old(self).rem(), 1nat,
    {
        if let Some((_, name)) = self.parse_ident() {
            if self.eat(TokenType::OpenParen) {
                let args = self.parse_comma_separated();
                if self.eat(TokenType::ClosedParen) {
                    return Ok(AstNode::CallExpr(CallExprNode { callee: name, args }));
                }
            }
        }
        Err(())
    }

    fn parse_bin_op(&mut self) -> (r: Result<AstNode, ()>)
        requires
            old(self).wf(),
        ensures
            moved(*old(self), *final(self)),
            r is Ok ==> final(self).pos() > old(self).pos(),
            lone_operand(old(self).tokens(), old(self).pos()) ==> r == Ok::<AstNode, ()>(
                simple_primary(old(self).tokens(), old(self).pos())->Some_0,
            ) && final(self).pos() == old(self).pos() + 1,
        decreases old(self).rem(), 3nat,
    {
        let ghost toks = old(self).tokens();
        let ghost p = old(self).pos();
        let lhs = self.parse_primary()?;
        proof {
            if lone_operand(toks, p) {
                assert(simple_chain(toks, p + 1, 0, 0));
                assert(seq![lhs] + chain_operands(toks, p + 1, 0) =~= seq![lhs]);
                assert(chain_ops(toks, p + 1, 0) =~= Seq::<BinOp>::empty());
            }
        }
        self.parse_bin_op_rhs(0, lhs)
    }

    /// Reads `(OP primary)*` while each operator binds at least as tightly as `prec`, and
    /// combines `lhs` with what it read by operator precedence (see `prec_tree`).
    fn parse_bin_op_rhs(&mut self, prec: usize, lhs: AstNode) -> (r: Result<AstNode, ()>)
        requires
            old(self).wf(),
        ensures
            moved(*old(self), *final(self)),
            r matches Ok(node) ==> exists|operands: Seq<AstNode>, ops: Seq<BinOp>|
                {
                    &&& operands.len() == ops.len() + 1
                    &&& operands[0] == lhs
                    &&& forall|i: int| 0 <= i < ops.len() ==> crate::token::prec(#[trigger] ops[i]) >= prec
                    &&& node == prec_tree(operands, ops)
                },
            r is Ok ==> !(final(self).current() is BinOp && crate::token::prec(
                final(self).current()->BinOp_1,
            ) >= prec),
            old(self).current() matches Token::BinOp(_, op) && crate::token::prec(op) < prec ==> r == Ok::<AstNode, ()>(lhs) && final(self).pos() == old(self).pos(),
            !(old(self).current() is BinOp) ==> r == Ok::<AstNode, ()>(lhs) && final(self).pos() == old(self).pos(),
            forall|n: nat| #[trigger] simple_chain(old(self).tokens(), old(self).pos(), prec as int, n) ==> r
                == Ok::<AstNode, ()>(prec_tree(
                    seq![lhs] + chain_operands(old(self).tokens(), old(self).pos(), n),
                    chain_ops(old(self).tokens(), old(self).pos(), n),
                )) && final(self).pos() == old(self).pos() + 2 * n,
        decreases old(self).rem(), 1nat,
    {
        let mut operands: Vec<AstNode> = Vec::new();
        let mut ops: Vec<BinOp> = Vec::new();
        operands.push(lhs);
        let ghost start = *self;
        loop
            invariant
                moved(start, *self),
                moved(*old(self), *self),
                start.rem() == old(self).rem(),
                start == *old(self),
                operands.len() == ops.len() + 1,
                operands@[0] == lhs,
                forall|i: int| 0 <= i < ops.len() ==> crate::token::prec(#[trigger] ops@[i]) >= prec,
                ops.len() == 0 ==> self.pos() == start.pos(),
                ops.len() > 0 ==> old(self).current() is BinOp && crate::token::prec(
                    old(self).current()->BinOp_1,
                ) >= prec,
                forall|n: nat| #[trigger] simple_chain(old(self).tokens(), old(self).pos(), prec as int, n) ==> ops.len()
                    <= n && self.pos() == old(self).pos() + 2 * ops.len() && ops@ == chain_ops(
                    old(self).tokens(),
                    old(self).pos(),
                    ops.len() as nat,
                ) && operands@ == seq![lhs] + chain_operands(old(self).tokens(), old(self).pos(), ops.len() as nat),
            ensures
                forall|n: nat| #[trigger] simple_chain(old(self).tokens(), old(self).pos(), prec as int, n) ==> ops.len()
                    == n && self.pos() == old(self).pos() + 2 * ops.len() && ops@ == chain_ops(
                    old(self).tokens(),
                    old(self).pos(),
                    ops.len() as nat,
                ) && operands@ == seq![lhs] + chain_operands(old(self).tokens(), old(self).pos(), ops.len() as nat),
                moved(*old(self), *self),
                operands.len() == ops.len() + 1,
                operands@[0] == lhs,
                forall|i: int| 0 <= i < ops.len() ==> crate::token::prec(#[trigger] ops@[i]) >= prec,
                ops.len() == 0 ==> self.pos() == start.pos(),
                ops.len() > 0 ==> old(self).current() is BinOp && crate::token::prec(
                    old(self).current()->BinOp_1,
                ) >= prec,
                !(self.current() is BinOp && crate::token::prec(self.current()->BinOp_1) >= prec),
            decreases self.rem(),
        {
            let bin_op = match self.current_bin_op() {
                Some(op) => {
                    if op.precedence() < prec {
                        break;
                    }
                    op
                },
                None => {
                    break;
                },
            };
            let ghost k = ops.len() as int;
            let ghost before_ops = ops@;
            let ghost before_operands = operands@;
            self.advance();
            let rhs = self.parse_primary()?;
            operands.push(rhs);
            ops.push(bin_op);
            proof {
                let toks = old(self).tokens();
                let s0 = old(self).pos();
                assert forall|n: nat| #[trigger] simple_chain(toks, s0, prec as int, n) implies ops.len() <= n
                    && self.pos() == s0 + 2 * ops.len() && ops@ == chain_ops(toks, s0, ops.len() as nat)
                    && operands@ == seq![lhs] + chain_operands(toks, s0, ops.len() as nat) by {
                    assert(k < n) by {
                        if k >= n {
                            assert(k == n);
                        }
                    }
                    assert(binds_at_least(tok_at(toks, s0 + 2 * k), prec as int));
                    assert(simple_primary(toks, s0 + 2 * k + 1) is Some);
                    assert(ops@ =~= chain_ops(toks, s0, ops.len() as nat));
                    assert(operands@ =~= seq![lhs] + chain_operands(toks, s0, ops.len() as nat));
                }
            }
        }
        let ghost operands_seq = operands@;
        let ghost ops_seq = ops@;
        proof {
            assert forall|n: nat| #[trigger] simple_chain(old(self).tokens(), old(self).pos(), prec as int, n) implies
                ops_seq.len() == n by {
            }
        }
        let node = fold_by_precedence(operands, ops);
        proof {
            if ops_seq.len() == 0 {
                assert(node == operands_seq[0]);
            }
        }
        Ok(node)
    }

    fn parse_struct_constructor(&mut self) -> (r: Result<AstNode, ()>)
        requires
            old(self).wf(),
        ensures
            moved(*old(self), *final(self)),
            r is Ok ==> final(self).pos() > old(self).pos() && r->Ok_0 is StructConstructor,
        decreases old(self).rem(), 1nat,
    {
        let name = match self.parse_ident() {
            Some((_, name)) => name,
            None => {
                return Err(());
            },
        };
        if !self.eat(TokenType::OpenCurly) {
            return Err(());
        }
        let mut fields: Vec<(String, AstNode)> = Vec::new();
        let ghost start = *self;
        loop
            invariant
                moved(start, *self),
                moved(*old(self), *self),
                start.rem() < old(self).rem(),
            decreases self.rem(),
        {
            let field = match self.parse_ident() {
                Some((_, field)) => field,
                None => {
                    break;
                },
            };
            if !self.eat(TokenType::Colon) {
                return Err(());
            }
            let val = self.parse_expr()?;
            fields.push((field, val));
            if !self.eat(TokenType::Comma) {
                break;
            }
        }
        if !self.eat(TokenType::ClosedCurly) {
            return Err(());
        }
        Ok(AstNode::StructConstructor(StructConstructor { name, fields }))
    }

    /// `[a, b, c]` or `[val; count]`.
    fn parse_array_constructor(&mut self) -> (r: Result<AstNode, ()>)
        requires
            old(self).wf(),
        ensures
            moved(*old(self), *final(self)),
            r is Ok ==> final(self).pos() > old(self).pos() && r->Ok_0 is ArrayInst,
            old(self).current().kind() != TokenType::OpenBracket ==> r is Err,
            r matches Ok(AstNode::ArrayInst(ArrayInst::List(l))) ==> l.vals.len() >= 1,
            r matches Ok(AstNode::ArrayInst(ArrayInst::Short(s))) ==> s.amount is Number,
            forall|n: nat| #[trigger] simple_array(old(self).tokens(), old(self).pos(), n) ==> (r matches Ok(
                AstNode::ArrayInst(ArrayInst::List(l)),
            ) && l.vals@ == array_elems(old(self).tokens(), old(self).pos(), n)),
            simple_short_array(old(self).tokens(), old(self).pos()) ==> (r matches Ok(
                AstNode::ArrayInst(ArrayInst::Short(sh)),
            ) && sh.val == simple_primary(old(self).tokens(), old(self).pos() + 1)->Some_0 && sh.amount
                == simple_primary(old(self).tokens(), old(self).pos() + 3)->Some_0),
        decreases old(self).rem(), 1nat,
    {
        let ghost toks = old(self).tokens();
        let ghost p = old(self).pos();
        if !self.eat(TokenType::OpenBracket) {
            return Err(());
        }
        proof {
            assert forall|n: nat| #[trigger] simple_array(toks, p, n) implies lone_operand(toks, p + 1) && (n == 1
                ==> tok_at(toks, p + 2).kind() == TokenType::ClosedBracket) && (n >= 2 ==> tok_at(toks, p + 2).kind()
                == TokenType::Comma) by {
                assert(simple_primary(toks, p + 1 + 2 * 0) is Some);
                if n >= 2 {
                    assert(tok_at(toks, p + 2 + 2 * 0).kind() == TokenType::Comma);
                }
            }
        }
        assert(simple_short_array(toks, p) ==> lone_operand(toks, p + 1));
        let val = self.parse_bin_op()?;
        let kind = self.curr.to_type();
        proof {
            assert forall|n: nat| #[trigger] simple_array(toks, p, n) implies val == array_elems(toks, p, 1)[0] by {
            }
        }
        let inst = if kind == TokenType::Comma {
            let mut vals: Vec<AstNode> = Vec::new();
            vals.push(val);
            // skip the `,`
            self.advance();
            let ghost start = *self;
            proof {
                assert forall|n: nat| #[trigger] simple_array(toks, p, n) implies n >= 2 && vals@ =~= array_elems(
                    toks,
                    p,
                    1,
                ) && self.pos() == p + 3 by {
                    if n == 1 {
                        assert(tok_at(toks, p + 2).kind() == TokenType::ClosedBracket);
                    }
                }
            }
            while !self.check(TokenType::ClosedBracket)
                invariant_except_break
                    forall|n: nat| #[trigger] simple_array(toks, p, n) ==> 1 <= vals.len() < n && self.pos() == p + 1 + 2
                        * vals.len() && vals@ == array_elems(toks, p, vals.len() as nat),
                invariant
                    vals.len() >= 1,
                    moved(start, *self),
                    moved(*old(self), *self),
                    start.rem() < old(self).rem(),
                    toks == old(self).tokens(),
                    p == old(self).pos(),
                    !simple_short_array(toks, p),
                ensures
                    vals.len() >= 1,
                    moved(*old(self), *self),
                    forall|n: nat| #[trigger] simple_array(toks, p, n) ==> vals@ == array_elems(toks, p, n)
                        && self.pos() == p + 2 * n,
                decreases self.rem(),
            {
                let ghost m = vals.len();
                let ghost here = self.pos();
                proof {
                    assert forall|n: nat| #[trigger] simple_array(toks, p, n) implies lone_operand(toks, here) by {
                        assert(simple_primary(toks, p + 1 + 2 * m) is Some);
                        if m < n - 1 {
                            assert(tok_at(toks, p + 2 + 2 * m).kind() == TokenType::Comma);
                        }
                    }
                }
                let val = self.parse_bin_op()?;
                vals.push(val);
                let more = self.eat(TokenType::Comma);
                proof {
                    assert forall|n: nat| #[trigger] simple_array(toks, p, n) implies vals@ =~= array_elems(
                        toks,
                        p,
                        vals.len() as nat,
                    ) && (more ==> vals.len() < n && self.pos() == p + 1 + 2 * vals.len()) && (!more ==> vals.len() == n
                        && self.pos() == p + 2 * n) by {
                        if m < n - 1 {
                            assert(tok_at(toks, p + 2 + 2 * m).kind() == TokenType::Comma);
                        }
                    }
                }
                if !more {
                    break;
                }
            }
            if !self.eat(TokenType::ClosedBracket) {
                return Err(());
            }
            ArrayInst::List(ArrayInstList { vals })
        } else if kind == TokenType::ClosedBracket {
            // skip the `]`
            self.advance();
            let mut vals: Vec<AstNode> = Vec::new();
            vals.push(val);
            proof {
                assert forall|n: nat| #[trigger] simple_array(toks, p, n) implies vals@ =~= array_elems(toks, p, n) by {
                    assert(n == 1) by {
                        if n >= 2 {
                            assert(tok_at(toks, p + 2 + 2 * 0).kind() == TokenType::Comma);
                        }
                    }
                }
            }
            ArrayInst::List(ArrayInstList { vals })
        } else if kind == TokenType::Semi {
            // skip the `;`
            self.advance();
            let cnt = self.parse_number_expr()?;
            if !self.eat(TokenType::ClosedBracket) {
                return Err(());
            }
            ArrayInst::Short(Box::new(ArrayInstShort { val, amount: cnt }))
        } else {
            return Err(());
        };
        Ok(AstNode::ArrayInst(inst))
    }

    /// An identifier, a number, a call, a struct literal, a parenthesised expression or an
    /// array literal.
    fn parse_primary(&mut self) -> (r: Result<AstNode, ()>)
        requires
            old(self).wf(),
        ensures
            moved(*old(self), *final(self)),
            r is Ok ==> final(self).pos() > old(self).pos(),
            old(self).current() is Ident && old(self).peek().kind() != TokenType::OpenParen
                && old(self).peek().kind() != TokenType::OpenCurly ==> r == Ok::<AstNode, ()>(
                AstNode::Ident(old(self).current()->Ident_1),
            ) && final(self).pos() == old(self).pos() + 1,
            old(self).current() is NumLit ==> r == Ok::<AstNode, ()>(
                AstNode::Number(number_spec(old(self).current()->NumLit_1)),
            ) && final(self).pos() == old(self).pos() + 1,
        decreases old(self).rem(), 2nat,
    {
        let kind = self.curr.to_type();
        if kind == TokenType::Ident {
            let is_call = self.token_stream.look_ahead(
                1,
                is_open_paren,
            );
            if is_call {
                return self.parse_call();
            }
            let is_constructor = self.token_stream.look_ahead(
                1,
                is_open_curly,
            );
            if is_constructor {
                return self.parse_struct_constructor();
            }
            match self.parse_ident() {
                Some((_, content)) => Ok(AstNode::Ident(content)),
                None => Err(()),
            }
        } else if kind == TokenType::NumLit {
            self.parse_number_expr()
        } else if kind == TokenType::OpenParen {
            self.parse_paren_expr()
        } else if kind == TokenType::OpenBracket {
            self.parse_array_constructor()
        } else {
            Err(())
        }
    }

    /// A block, or an operator expression over primaries.
    fn parse_expr(&mut self) -> (r: Result<AstNode, ()>)
        requires
            old(self).wf(),
        ensures
            moved(*old(self), *final(self)),
            r is Ok ==> final(self).pos() > old(self).pos(),
        decreases old(self).rem(), 4nat,
    {
        if self.check(TokenType::OpenCurly) {
            return match self.parse_block_no_attr() {
                Ok(block) => Ok(AstNode::Block(block)),
                Err(e) => Err(e),
            };
        }
        self.parse_bin_op()
    }

    /// `let [mut] NAME [: TYPE] = EXPR;`, the `let` already read.
    fn parse_let(&mut self) -> (r: Result<StmtKind, ()>)
        requires
            old(self).wf(),
        ensures
            moved(*old(self), *final(self)),
            r is Ok ==> final(self).pos() > old(self).pos(),
            r matches Ok(s) ==> s is LocalAssign,
        decreases old(self).rem(), 1nat,
    {
        let mutability = self.parse_mutability();
        let name = match self.parse_ident() {
            Some((_, name)) => name,
            None => {
                return Err(());
            },
        };
        let ty = if self.eat(TokenType::Colon) {
            Some(self.parse_ty()?)
        } else {
            None
        };
        if !self.eat_bin_op(BinOp::Eq) {
            return Err(());
        }
        let val = self.parse_expr()?;
        if !self.eat(TokenType::Semi) {
            return Err(());
        }
        Ok(StmtKind::LocalAssign(LocalAssign::DecAssign(LDecAssign { mutability, ty, val: LAssign { name, val } })))
    }

    /// A `let` statement, or an expression with (`Semi`) or without (`Expr`) a closing `;`.
    fn parse_stmt_or_expr(&mut self) -> (r: Result<StmtKind, ()>)
        requires
            old(self).wf(),
        ensures
            moved(*old(self), *final(self)),
            r is Ok ==> final(self).pos() > old(self).pos(),
            r matches Ok(s) ==> !(s is Item),
        decreases old(self).rem(), 5nat,
    {
        if self.eat_kw(Keyword::Let) {
            return self.parse_let();
        }
        let expr = self.parse_expr()?;
        if self.eat(TokenType::Semi) {
            return Ok(StmtKind::Semi(expr));
        }
        Ok(StmtKind::Expr(expr))
    }

    /// `{ stmt* [expr] }`: only the last statement may lack its `;`.
    fn parse_block_no_attr(&mut self) -> (r: Result<Block, ()>)
        requires
            old(self).wf(),
        ensures
            moved(*old(self), *final(self)),
            r is Ok ==> final(self).pos() > old(self).pos(),
            old(self).current().kind() != TokenType::OpenCurly ==> r is Err,
            r matches Ok(b) ==> forall|i: int| 0 <= i < b.stmts.len() - 1 ==> !(#[trigger] b.stmts@[i] is Expr),
            r matches Ok(b) ==> forall|i: int| 0 <= i < b.stmts.len() ==> !(#[trigger] b.stmts@[i] is Item),
            r is Ok ==> tok_at(final(self).tokens(), final(self).pos() - 1).kind() == TokenType::ClosedCurly,
        decreases old(self).rem(), 1nat,
    {
        if !self.eat(TokenType::OpenCurly) {
            return Err(());
        }
        let mut stmts: Vec<StmtKind> = Vec::new();
        let ghost start = *self;
        while self.curr.to_type() != TokenType::ClosedCurly
            invariant_except_break
                forall|i: int| 0 <= i < stmts.len() ==> !(#[trigger] stmts@[i] is Expr),
            invariant
                moved(start, *self),
                moved(*old(self), *self),
                start.rem() < old(self).rem(),
                forall|i: int| 0 <= i < stmts.len() ==> !(#[trigger] stmts@[i] is Item),
            ensures
                moved(start, *self),
                forall|i: int| 0 <= i < stmts.len() - 1 ==> !(#[trigger] stmts@[i] is Expr),
                forall|i: int| 0 <= i < stmts.len() ==> !(#[trigger] stmts@[i] is Item),
            decreases self.rem(),
        {
            let combined = self.parse_stmt_or_expr()?;
            if matches!(combined, StmtKind::Expr(_)) {
                // only the last statement of a block may be an expression without `;`
                stmts.push(combined);
                break;
            }
            stmts.push(combined);
        }
        if self.eat(TokenType::ClosedCurly) {
            Ok(Block { modifiers: BlockModifiers {}, stmts })
        } else {
            Err(())
        }
    }

    /// A reference (`&`), array (`[`) or named type.
    fn parse_ty(&mut self) -> (r: Result<Ty, ()>)
        requires
            old(self).wf(),
        ensures
            moved(*old(self), *final(self)),
            r is Ok ==> final(self).pos() > old(self).pos(),
            r matches Ok(t) ==> (t.kind is Ref <==> old(self).current().kind() == TokenType::And)
                && (t.kind is Array <==> old(self).current().kind() == TokenType::OpenBracket),
            simple_ty_at(old(self).tokens(), old(self).pos()) ==> r is Ok && named_simply(
                r->Ok_0,
                old(self).current()->Ident_1,
            ) && final(self).pos() == old(self).pos() + 1,
        decreases old(self).rem(), 2nat,
    {
        if self.eat(TokenType::And) {
            match self.parse_ref_ty() {
                Ok(rf) => Ok(Ty { kind: TyKind::Ref(Box::new(rf)) }),
                Err(e) => Err(e),
            }
        } else if self.eat(TokenType::OpenBracket) {
            match self.parse_array_ty() {
                Ok(array) => Ok(Ty { kind: TyKind::Array(Box::new(array)) }),
                Err(e) => Err(e),
            }
        } else {
            match self.parse_owned_ty() {
                Ok(owned) => Ok(Ty { kind: TyKind::Owned(Box::new(owned)) }),
                Err(e) => Err(e),
            }
        }
    }

    /// A name with optional generic arguments.
    fn parse_owned_ty(&mut self) -> (r: Result<OwnedTy, ()>)
        requires
            old(self).wf(),
        ensures
            moved(*old(self), *final(self)),
            r is Ok ==> final(self).pos() > old(self).pos(),
            r is Ok ==> old(self).current() is Ident,
            r matches Ok(o) ==> o.name == old(self).current()->Ident_1,
            simple_ty_at(old(self).tokens(), old(self).pos()) ==> r is Ok && r->Ok_0.generics@.len() == 0
                && final(self).pos() == old(self).pos() + 1,
        decreases old(self).rem(), 1nat,
    {
        if let Some((_, name)) = self.parse_ident() {
            let generics = self.parse_maybe_const_generic_vals_and_tys()?;
            return Ok(OwnedTy { name, generics });
        }
        Err(())
    }

    /// The rest of a reference type after `&`: optional lifetime, optional `mut`, the type.
    fn parse_ref_ty(&mut self) -> (r: Result<RefTy, ()>)
        requires
            old(self).wf(),
        ensures
            moved(*old(self), *final(self)),
        decreases old(self).rem(), 3nat,
    {
        let lt = self.parse_maybe_lt()?;
        let mutability = match self.parse_mutability() {
            Some(m) => m,
            None => Mutability::Immut,
        };
        let ty = self.parse_ty()?;
        Ok(RefTy { lt, mutability, ty: Box::new(ty) })
    }

    /// The rest of an array type after `[`: element type, optional `; count`, `]`.
    fn parse_array_ty(&mut self) -> (r: Result<ArrayTy, ()>)
        requires
            old(self).wf(),
        ensures
            moved(*old(self), *final(self)),
        decreases old(self).rem(), 3nat,
    {
        let ty = self.parse_ty()?;
        let amount = if self.eat(TokenType::Semi) {
            Some(self.parse_number_expr()?)
        } else {
            None
        };
        if !self.eat(TokenType::ClosedBracket) {
            return Err(());
        }
        Ok(ArrayTy { ty, amount })
    }

    /// Optional generic arguments `<...>` of a named type.
    fn parse_maybe_const_generic_vals_and_tys(&mut self) -> (r: Result<Vec<TyOrConstVal>, ()>)
        requires
            old(self).wf(),
        ensures
            moved(*old(self), *final(self)),
            old(self).current().kind() != TokenType::OpenAngle ==> r is Ok && r->Ok_0.len() == 0
                && final(self).pos() == old(self).pos(),
        decreases old(self).rem(), 1nat,
    {
        if !self.eat(TokenType::OpenAngle) {
            return Ok(Vec::new());
        }
        self.parse_const_generic_vals_and_tys()
    }

    /// Comma-separated types and constant values up to `>`; the `<` already read.
    fn parse_const_generic_vals_and_tys(&mut self) -> (r: Result<Vec<TyOrConstVal>, ()>)
        requires
            old(self).wf(),
        ensures
            moved(*old(self), *final(self)),
            r is Ok ==> final(self).pos() > old(self).pos(),
        decreases old(self).rem(), 6nat,
    {
        let mut generics: Vec<TyOrConstVal> = Vec::new();
        let ghost start = *self;
        while !self.check(TokenType::ClosedAngle)
            invariant
                moved(start, *self),
                moved(*old(self), *self),
                start == *old(self),
            decreases self.rem(),
        {
            let ty_or_expr = self.parse_ty_or_expr(&[TokenType::Comma, TokenType::ClosedAngle])?;
            match ty_or_expr {
                (Some(ty), _) => {
                    generics.push(TyOrConstVal::Ty(ty));
                },
                (None, Some(expr)) => {
                    generics.push(TyOrConstVal::ConstVal(expr));
                },
                (None, None) => {
                    return Err(());
                },
            }
            if !self.eat(TokenType::Comma) {
                break;
            }
        }
        if !self.eat(TokenType::ClosedAngle) {
            return Err(());
        }
        Ok(generics)
    }

    /// A type where the current token is an identifier followed by one of `next_expected` or
    /// by `<`; an expression otherwise. Exactly one side of the result is set.
    fn parse_ty_or_expr(&mut self, next_expected: &[TokenType]) -> (r: Result<
        (Option<Ty>, Option<AstNode>),
        (),
    >)
        requires
            old(self).wf(),
        ensures
            moved(*old(self), *final(self)),
            r is Ok ==> final(self).pos() > old(self).pos(),
            r matches Ok(pair) ==> (pair.0 is Some <==> pair.1 is None),
        decreases old(self).rem(), 5nat,
    {
        let mut is_ty = false;
        if self.check(TokenType::Ident) {
            if let Some(next) = self.token_stream.get_next() {
                let kind = next.to_type();
                is_ty = kind == TokenType::OpenAngle;
                let mut i: usize = 0;
                while i < next_expected.len()
                    decreases next_expected.len() - i,
                {
                    if next_expected[i] == kind {
                        is_ty = true;
                    }
                    i = i + 1;
                }
            }
        }
        if is_ty {
            match self.parse_ty() {
                Ok(ty) => Ok((Some(ty), None)),
                Err(e) => Err(e),
            }
        } else {
            match self.parse_expr() {
                Ok(node) => Ok((None, Some(node))),
                Err(e) => Err(e),
            }
        }
    }

    /// Optional generic parameters `<...>` of a definition: `const NAME: TYPE`, a lifetime, or
    /// a type parameter with optional `: BOUND (+ BOUND)*`. An empty list is rejected; a list
    /// of `N` comma-separated entries gives `N` parameters.
    fn parse_maybe_generics_definition(&mut self) -> (r: Result<Vec<Generic>, ()>)
        requires
            old(self).wf(),
        ensures
            moved(*old(self), *final(self)),
            old(self).current().kind() != TokenType::OpenAngle ==> r is Ok && r->Ok_0.len() == 0
                && final(self).pos() == old(self).pos(),
            old(self).current().kind() == TokenType::OpenAngle && old(self).peek().kind()
                == TokenType::ClosedAngle ==> r is Err,
            old(self).current().kind() == TokenType::OpenAngle && r is Ok ==> exists|seps: Seq<int>|
                #[trigger] comma_separated(final(self).tokens(), old(self).pos(), final(self).pos() - 1, seps)
                    && r->Ok_0.len() == entry_count(old(self).pos(), final(self).pos() - 1, seps)
                    && r->Ok_0.len() >= 1,
            forall|n: nat| #[trigger] simple_generics(old(self).tokens(), old(self).pos(), n) ==> r is Ok
                && r->Ok_0.len() == n && tok_at(old(self).tokens(), final(self).pos() - 1).kind()
                == TokenType::ClosedAngle && forall|k: int| 0 <= k < n ==> #[trigger] generic_matches(
                r->Ok_0@[k],
                old(self).tokens(),
                generic_pos(old(self).tokens(), old(self).pos() + 1, k as nat),
            ),
        decreases old(self).rem(), 1nat,
    {
        if !self.eat(TokenType::OpenAngle) {
            return Ok(Vec::new());
        }
        let mut generics: Vec<Generic> = Vec::new();
        let ghost start = *self;
        let ghost toks = old(self).tokens();
        let ghost gs = old(self).pos() + 1;
        let ghost mut seps: Seq<int> = Seq::empty();
        while !self.check(TokenType::ClosedAngle)
            invariant_except_break
                generics.len() == seps.len(),
                seps.len() > 0 ==> seps.last() == self.pos() - 1,
                seps.len() == 0 ==> self.pos() == start.pos(),
                forall|n: nat| #[trigger] simple_generics(toks, old(self).pos(), n) ==> generics.len() <= n
                    && self.pos() == generic_pos(toks, gs, generics.len() as nat) && generic_list(
                    toks,
                    self.pos(),
                    (n - generics.len()) as nat,
                ) && forall|k: int| 0 <= k < generics.len() ==> #[trigger] generic_matches(
                    generics@[k],
                    toks,
                    generic_pos(toks, gs, k as nat),
                ),
            invariant
                moved(start, *self),
                moved(*old(self), *self),
                start.pos() == old(self).pos() + 1,
                toks == old(self).tokens(),
                gs == old(self).pos() + 1,
                old(self).current().kind() == TokenType::OpenAngle,
                old(self).peek().kind() == TokenType::ClosedAngle ==> self.pos() == start.pos(),
                separators(self.tokens(), old(self).pos(), seps),
                seps.len() > 0 ==> seps.last() < self.pos(),
            ensures
                moved(*old(self), *self),
                separators(self.tokens(), old(self).pos(), seps),
                seps.len() > 0 ==> seps.last() < self.pos(),
                (generics.len() == seps.len() && self.current().kind() == TokenType::ClosedAngle && (seps.len() > 0
                    ==> seps.last() == self.pos() - 1) && (seps.len() == 0 ==> self.pos() == old(self).pos() + 1))
                    || (generics.len() == seps.len() + 1 && self.pos() > (if seps.len() > 0 {
                    seps.last() + 1
                } else {
                    old(self).pos() + 1
                })),
                forall|n: nat| #[trigger] simple_generics(toks, old(self).pos(), n) ==> generics.len() == n
                    && tok_at(toks, self.pos()).kind() == TokenType::ClosedAngle && forall|k: int|
                    0 <= k < generics.len() ==> #[trigger] generic_matches(
                    generics@[k],
                    toks,
                    generic_pos(toks, gs, k as nat),
                ),
            decreases self.rem(),
        {
            let ghost entry_start = self.pos();
            let ghost m = generics.len() as nat;
            let ghost good = entry_at(toks, entry_start);
            if self.eat_kw(Keyword::Const) {
                let name = match self.parse_ident() {
                    Some((_, name)) => name,
                    None => {
                        return Err(());
                    },
                };
                if !self.eat(TokenType::Colon) {
                    return Err(());
                }
                let ty = self.parse_ty()?;
                generics.push(Generic::Constant(GenericConstant { name, ty }));
            } else if let Some((_, name)) = self.parse_ident() {
                let mut traits: Vec<Ty> = Vec::new();
                if self.eat(TokenType::Colon) {
                    traits.push(self.parse_ty()?);
                    let ghost bounds_start = *self;
                    let ghost j: nat = 0;
                    proof {
                        assert forall|n: nat| #[trigger] simple_generics(toks, old(self).pos(), n) implies good by {
                            assert(generic_list(toks, entry_start, (n - m) as nat));
                        }
                    }
                    while self.eat_bin_op(BinOp::Add)
                        invariant
                            old(self).current().kind() == TokenType::OpenAngle,
                            moved(bounds_start, *self),
                            moved(*old(self), *self),
                            bounds_start.pos() > old(self).pos(),
                            toks == old(self).tokens(),
                            good == entry_at(toks, entry_start),
                            tok_at(toks, entry_start) is Ident,
                            tok_at(toks, entry_start + 1).kind() == TokenType::Colon,
                            good ==> traits.len() == 1 + j && self.pos() == entry_start + 3 + 2 * j && bound_run(
                                toks,
                                entry_start + 3,
                            ) == j + bound_run(toks, self.pos()),
                            forall|n: nat| #[trigger] simple_generics(toks, old(self).pos(), n) ==> good,
                        decreases self.rem(),
                    {
                        proof {
                            if good {
                                assert(is_plus(tok_at(toks, self.pos() - 1)));
                                if !simple_ty_at(toks, self.pos()) {
                                    assert(bound_run(toks, self.pos() - 1) == 0);
                                    assert(entry_len(toks, entry_start) == 3 + 2 * (j as int));
                                    assert(!entry_at(toks, entry_start));
                                }
                            }
                        }
                        let ty = self.parse_ty()?;
                        traits.push(ty);
                        proof {
                            j = j + 1;
                        }
                    }
                }
                generics.push(Generic::Type(GenericType { name, required_traits: traits }));
            } else {
                let lt = self.parse_lt()?;
                generics.push(Generic::Lifetime(GenericLifetime { lt }));
            }
            assert(self.pos() > entry_start);
            let ghost after_entry = self.pos();
            proof {
                if good {
                    assert(after_entry == entry_start + entry_len(toks, entry_start));
                    assert(generic_matches(generics@[m as int], toks, entry_start));
                }
            }
            let ghost comma_at = self.pos();
            let more = self.eat(TokenType::Comma);
            proof {
                assert forall|n: nat| #[trigger] simple_generics(toks, old(self).pos(), n) implies generics.len() <= n
                    && (more ==> self.pos() == generic_pos(toks, gs, generics.len() as nat) && generic_list(
                    toks,
                    self.pos(),
                    (n - generics.len()) as nat,
                )) && (!more ==> generics.len() == n && tok_at(toks, self.pos()).kind() == TokenType::ClosedAngle)
                    && forall|k: int| 0 <= k < generics.len() ==> #[trigger] generic_matches(
                    generics@[k],
                    toks,
                    generic_pos(toks, gs, k as nat),
                ) by {
                    assert(generic_list(toks, entry_start, (n - m) as nat));
                    assert(n - m > 0);
                    assert(good);
                    lemma_generic_pos_next(toks, gs, m);
                }
            }
            if !more {
                break;
            }
            proof {
                seps = seps.push(comma_at);
            }
        }
        if !self.eat(TokenType::ClosedAngle) {
            return Err(());
        }
        if generics.len() == 0 {
            return Err(());
        }
        assert(comma_separated(self.tokens(), old(self).pos(), self.pos() - 1, seps));
        Ok(generics)
    }

    /// `fn NAME<GENERICS>(PARAMS) [-> TYPE]`, the current token being `fn`.
    fn parse_function_header(&mut self) -> (r: Result<FunctionHeader, ()>)
        requires
            old(self).wf(),
            old(self).current().kind() != TokenType::EOF,
        ensures
            moved(*old(self), *final(self)),
            final(self).pos() > old(self).pos(),
            r is Ok ==> old(self).peek() is Ident,
            r matches Ok(h) ==> h.name == old(self).peek()->Ident_1,
            forall|n: nat| #[trigger] simple_header(old(self).tokens(), old(self).pos(), n) ==> r is Ok
                && header_written(r->Ok_0, old(self).tokens(), old(self).pos(), n) && final(self).pos()
                == old(self).pos() + header_len(old(self).tokens(), old(self).pos(), n),
    {
        let ghost toks = old(self).tokens();
        let ghost ps = old(self).pos() + 3;
        // skip the `fn` keyword
        self.advance();
        let name = match self.parse_ident() {
            Some((_, name)) => name,
            None => {
                return Err(());
            },
        };
        let generics = self.parse_maybe_generics_definition()?;
        if !self.eat(TokenType::OpenParen) {
            return Err(());
        }
        let mut args: Vec<(String, Ty)> = Vec::new();
        let ghost start = *self;
        loop
            invariant_except_break
                forall|n: nat| #[trigger] simple_header(toks, old(self).pos(), n) ==> args.len() <= n
                    && self.pos() == ps + 4 * args.len() && (args.len() == n ==> n == 0),
            invariant
                moved(start, *self),
                moved(*old(self), *self),
                start.pos() > old(self).pos(),
                toks == old(self).tokens(),
                ps == old(self).pos() + 3,
                forall|n: nat| #[trigger] simple_header(toks, old(self).pos(), n) ==> generics@.len() == 0
                    && forall|k: int| 0 <= k < args.len() ==> #[trigger] arg_written(args@[k], toks, ps + 4 * k),
            ensures
                moved(*old(self), *self),
                forall|n: nat| #[trigger] simple_header(toks, old(self).pos(), n) ==> args.len() == n
                    && generics@.len() == 0 && self.pos() == params_close(ps, n) && forall|k: int|
                    0 <= k < args.len() ==> #[trigger] arg_written(args@[k], toks, ps + 4 * k),
            decreases self.rem(),
        {
            let ghost m = args.len();
            let ghost here = self.pos();
            match self.parse_param()? {
                Some(param) => {
                    let ghost p = param;
                    args.push(param);
                    let more = self.eat(TokenType::Comma);
                    proof {
                        assert forall|n: nat| #[trigger] simple_header(toks, old(self).pos(), n) implies args.len() <= n
                            && (more ==> self.pos() == ps + 4 * args.len() && args.len() < n)
                            && (!more ==> args.len() == n && self.pos() == params_close(ps, n))
                            && forall|k: int| 0 <= k < args.len() ==> #[trigger] arg_written(args@[k], toks, ps + 4 * k) by {
                            assert(m < n);
                            assert(simple_param_at(toks, ps + 4 * m));
                            if m + 1 < n {
                                assert(tok_at(toks, ps + 4 * m + 3).kind() == TokenType::Comma);
                            }
                            assert forall|k: int| 0 <= k < args.len() implies #[trigger] arg_written(args@[k], toks, ps + 4 * k) by {
                                if k == m {
                                    assert(args@[k] == p);
                                }
                            }
                        }
                    }
                    if !more {
                        break;
                    }
                },
                None => {
                    proof {
                        assert forall|n: nat| #[trigger] simple_header(toks, old(self).pos(), n) implies args.len() == n
                            && self.pos() == params_close(ps, n) by {
                            if m < n {
                                assert(simple_param_at(toks, ps + 4 * m));
                            }
                        }
                    }
                    break;
                },
            }
        }
        if !self.eat(TokenType::ClosedParen) {
            return Err(());
        }
        let ret = if self.eat(TokenType::Arrow) {
            Some(self.parse_ty()?)
        } else {
            None
        };
        Ok(FunctionHeader { name, generics, args, ret })
    }

    /// A function definition, the current token being `fn`.
    fn parse_function(&mut self, visibility: Option<Visibility>) -> (r: Result<ItemKind, ()>)
        requires
            old(self).wf(),
            old(self).current().kind() != TokenType::EOF,
        ensures
            moved(*old(self), *final(self)),
            final(self).pos() > old(self).pos(),
            r matches Ok(item) ==> item is FunctionDef,
            r is Ok ==> old(self).peek() is Ident,
            r matches Ok(ItemKind::FunctionDef(f)) ==> f.header.name == old(self).peek()->Ident_1
                && f.modifiers.visibility == vis_or_private(visibility),
            forall|n: nat| #[trigger] simple_header(old(self).tokens(), old(self).pos(), n) ==> (r matches Ok(
                ItemKind::FunctionDef(f),
            ) ==> header_written(f.header, old(self).tokens(), old(self).pos(), n)),
    {
        let header = self.parse_function_header()?;
        let body = self.parse_block_no_attr()?;
        let visibility = match visibility {
            Some(v) => v,
            None => Visibility::Private,
        };
        Ok(
            ItemKind::FunctionDef(
                Box::new(
                    FunctionNode {
                        modifiers: FunctionModifiers { constness: Constness::Undefined, visibility },
                        header,
                        body,
                    },
                ),
            ),
        )
    }

    /// `NAME: TYPE`, or nothing where no identifier comes.
    fn parse_param(&mut self) -> (r: Result<Option<(String, Ty)>, ()>)
        requires
            old(self).wf(),
        ensures
            moved(*old(self), *final(self)),
            r matches Ok(Some(_)) ==> final(self).pos() > old(self).pos(),
            r matches Ok(None) ==> final(self).pos() == old(self).pos(),
            !(old(self).current() is Ident) ==> r == Ok::<Option<(String, Ty)>, ()>(None),
            simple_param_at(old(self).tokens(), old(self).pos()) ==> r is Ok && r->Ok_0 is Some
                && r->Ok_0->Some_0.0 == old(self).current()->Ident_1 && named_simply(
                r->Ok_0->Some_0.1,
                tok_at(old(self).tokens(), old(self).pos() + 2)->Ident_1,
            ) && final(self).pos() == old(self).pos() + 3,
    {
        if let Some((_, name)) = self.parse_ident() {
            if !self.eat(TokenType::Colon) {
                return Err(());
            }
            let ty = self.parse_ty()?;
            Ok(Some((name, ty)))
        } else {
            Ok(None)
        }
    }

    /// A struct field: optional `pub`, then `NAME: TYPE`; nothing where neither comes.
    fn parse_param_with_vis(&mut self) -> (r: Result<Option<(Visibility, String, Ty)>, ()>)
        requires
            old(self).wf(),
        ensures
            moved(*old(self), *final(self)),
            r matches Ok(Some(_)) ==> final(self).pos() > old(self).pos(),
            old(self).current().kind() == TokenType::ClosedCurly ==> r == Ok::<
                Option<(Visibility, String, Ty)>,
                (),
            >(None),
            r matches Ok(None) ==> final(self).pos() == old(self).pos(),
            field_at(old(self).tokens(), old(self).pos()) ==> r is Ok && r->Ok_0 is Some
                && field_matches(r->Ok_0->Some_0, old(self).tokens(), old(self).pos()) && final(self).pos()
                == old(self).pos() + field_len(old(self).tokens(), old(self).pos()),
    {
        let vis = self.parse_visibility();
        match self.parse_param()? {
            Some(param) => {
                let vis = match vis {
                    Some(v) => v,
                    None => Visibility::Private,
                };
                Ok(Some((vis, param.0, param.1)))
            },
            None => {
                if vis.is_none() {
                    Ok(None)
                } else {
                    Err(())
                }
            },
        }
    }

    /// `static [mut] NAME: TYPE = EXPR;`, the current token being `static`.
    fn parse_static(&mut self, visibility: Option<Visibility>) -> (r: Result<ItemKind, ()>)
        requires
            old(self).wf(),
            old(self).current().kind() != TokenType::EOF,
        ensures
            moved(*old(self), *final(self)),
            final(self).pos() > old(self).pos(),
            r matches Ok(item) ==> item is StaticVal,
            r matches Ok(ItemKind::StaticVal(sv)) ==> sv.visibility == visibility && chain_named(sv.val),
    {
        // skip the `static` keyword
        self.advance();
        let mutability = self.parse_mutability();
        let name = match self.parse_ident() {
            Some((_, name)) => name,
            None => {
                return Err(());
            },
        };
        if !self.eat(TokenType::Colon) {
            return Err(());
        }
        let ty = self.parse_ty()?;
        let rhs = self.parse_bin_op_rhs(0, AstNode::Ident(name))?;
        if !self.eat(TokenType::Semi) {
            return Err(());
        }
        Ok(ItemKind::StaticVal(Box::new(StaticValNode { ty, val: rhs, visibility, mutability })))
    }

    /// `const NAME: TYPE = EXPR;`, the current token being `const`.
    fn parse_const(&mut self, visibility: Option<Visibility>) -> (r: Result<ItemKind, ()>)
        requires
            old(self).wf(),
            old(self).current().kind() != TokenType::EOF,
        ensures
            moved(*old(self), *final(self)),
            final(self).pos() > old(self).pos(),
            r matches Ok(item) ==> item is ConstVal,
            r matches Ok(ItemKind::ConstVal(cv)) ==> cv.visibility == visibility && chain_named(cv.val),
    {
        // skip the `const` keyword
        self.advance();
        let name = match self.parse_ident() {
            Some((_, name)) => name,
            None => {
                return Err(());
            },
        };
        if !self.eat(TokenType::Colon) {
            return Err(());
        }
        let ty = self.parse_ty()?;
        let rhs = self.parse_bin_op_rhs(0, AstNode::Ident(name))?;
        if !self.eat(TokenType::Semi) {
            return Err(());
        }
        Ok(ItemKind::ConstVal(Box::new(ConstValNode { ty, val: rhs, visibility })))
    }

    /// `struct NAME<GENERICS> { [pub] NAME: TYPE, ... }`, the current token being `struct`.
    fn parse_struct_def(&mut self, visibility: Option<Visibility>) -> (r: Result<ItemKind, ()>)
        requires
            old(self).wf(),
            old(self).current().kind() != TokenType::EOF,
        ensures
            moved(*old(self), *final(self)),
            final(self).pos() > old(self).pos(),
            r matches Ok(item) ==> item is StructDef,
            r is Ok ==> old(self).peek() is Ident,
            r matches Ok(ItemKind::StructDef(d)) ==> d.name == old(self).peek()->Ident_1
                && d.visibility == vis_or_private(visibility),
            forall|n: nat| #[trigger] simple_struct(old(self).tokens(), old(self).pos(), n) ==> r is Ok
                && struct_written(r->Ok_0, old(self).tokens(), old(self).pos(), n, vis_or_private(visibility)),
    {
        // skip the `struct` keyword
        self.advance();
        let name = match self.parse_ident() {
            Some((_, name)) => name,
            None => {
                return Err(());
            },
        };
        let generics = self.parse_maybe_generics_definition()?;
        if !self.eat(TokenType::OpenCurly) {
            return Err(());
        }
        let mut fields: Vec<StructFieldDef> = Vec::new();
        let ghost start = *self;
        let ghost toks = old(self).tokens();
        let ghost fs = old(self).pos() + 3;
        proof {
            assert forall|n: nat| #[trigger] simple_struct(toks, old(self).pos(), n) implies self.pos() == fs
                && generics@.len() == 0 by {
            }
        }
        loop
            invariant_except_break
                forall|n: nat| #[trigger] simple_struct(toks, old(self).pos(), n) ==> fields.len() <= n
                    && generics@.len() == 0 && self.pos() == field_pos(toks, fs, fields.len() as nat)
                    && field_list(toks, self.pos(), (n - fields.len()) as nat) && forall|k: int|
                    0 <= k < fields.len() ==> #[trigger] def_field_matches(fields@[k], toks, field_pos(toks, fs, k as nat)),
            invariant
                moved(start, *self),
                moved(*old(self), *self),
                start.pos() > old(self).pos(),
                toks == old(self).tokens(),
                fs == old(self).pos() + 3,
            ensures
                moved(*old(self), *self),
                forall|n: nat| #[trigger] simple_struct(toks, old(self).pos(), n) ==> fields.len() == n
                    && generics@.len() == 0 && tok_at(toks, self.pos()).kind() == TokenType::ClosedCurly
                    && forall|k: int|
                    0 <= k < fields.len() ==> #[trigger] def_field_matches(fields@[k], toks, field_pos(toks, fs, k as nat)),
            decreases self.rem(),
        {
            let ghost m = fields.len() as nat;
            let ghost here = self.pos();
            match self.parse_param_with_vis()? {
                Some((visibility, name, ty)) => {
                    let ghost f = (visibility, name, ty);
                    fields.push(StructFieldDef { visibility, name, ty });
                    let ghost after_field = self.pos();
                    let more = self.eat(TokenType::Comma);
                    proof {
                        assert forall|n: nat| #[trigger] simple_struct(toks, old(self).pos(), n) implies fields.len() <= n
                            && (more ==> self.pos() == field_pos(toks, fs, fields.len() as nat) && field_list(toks, self.pos(), (n - fields.len()) as nat))
                            && (!more ==> fields.len() == n && tok_at(toks, self.pos()).kind() == TokenType::ClosedCurly)
                            && forall|k: int| 0 <= k < fields.len() ==> #[trigger] def_field_matches(fields@[k], toks, field_pos(toks, fs, k as nat)) by {
                            assert(field_list(toks, here, (n - m) as nat));
                            assert(n - m > 0);
                            lemma_field_pos_next(toks, fs, m);
                            assert forall|k: int| 0 <= k < fields.len() implies #[trigger] def_field_matches(fields@[k], toks, field_pos(toks, fs, k as nat)) by {
                                if k == m {
                                    assert(fields@[k].name == f.1);
                                }
                            }
                        }
                    }
                    if !more {
                        break;
                    }
                },
                None => {
                    proof {
                        assert forall|n: nat| #[trigger] simple_struct(toks, old(self).pos(), n) implies fields.len() == n
                            && tok_at(toks, self.pos()).kind() == TokenType::ClosedCurly by {
                            assert(field_list(toks, here, (n - m) as nat));
                            if n - m > 0 {
                                assert(field_at(toks, here));
                            }
                        }
                    }
                    break;
                },
            }
        }
        if !self.eat(TokenType::ClosedCurly) {
            return Err(());
        }
        let visibility = match visibility {
            Some(v) => v,
            None => Visibility::Private,
        };
        Ok(ItemKind::StructDef(StructDef { visibility, name, generics, fields }))
    }

    /// `trait NAME<GENERICS> [: BOUND (+ BOUND)*] { (fn-header;)* }`, the current token being
    /// `trait`.
    fn parse_trait_def(&mut self, visibility: Option<Visibility>) -> (r: Result<ItemKind, ()>)
        requires
            old(self).wf(),
            old(self).current().kind() != TokenType::EOF,
        ensures
            moved(*old(self), *final(self)),
            final(self).pos() > old(self).pos(),
            r matches Ok(item) ==> item is TraitDef,
            r is Ok ==> old(self).peek() is Ident,
            r matches Ok(ItemKind::TraitDef(d)) ==> d.name == old(self).peek()->Ident_1
                && d.visibility == vis_or_private(visibility),
            forall|ms: Seq<nat>| #[trigger] simple_trait(old(self).tokens(), old(self).pos(), ms) ==> r is Ok && (
            r->Ok_0 matches ItemKind::TraitDef(d) && d.generics@.len() == 0 && d.req_sub_traits@.len() == 0
                && d.methods@.len() == ms.len() && forall|k: int| 0 <= k < ms.len() ==> #[trigger] header_written(
                d.methods@[k],
                old(self).tokens(),
                method_pos(old(self).tokens(), old(self).pos() + 3, ms, k as nat),
                ms[k],
            )),
    {
        let ghost toks = old(self).tokens();
        let ghost ts = old(self).pos() + 3;
        // skip the `trait` keyword
        self.advance();
        let name = match self.parse_ident() {
            Some((_, name)) => name,
            None => {
                return Err(());
            },
        };
        let generics = self.parse_maybe_generics_definition()?;
        let mut req_sub_traits: Vec<Ty> = Vec::new();
        let ghost at_generics = self.pos();
        if self.eat(TokenType::Colon) {
            proof {
                assert(tok_at(toks, old(self).pos() + 2).kind() != TokenType::OpenCurly) by {
                    if at_generics == old(self).pos() + 2 {
                        assert(tok_at(toks, at_generics).kind() == TokenType::Colon);
                    }
                }
            }
            req_sub_traits.push(self.parse_ty()?);
            let ghost start = *self;
            while self.eat_bin_op(BinOp::Add)
                invariant
                    moved(start, *self),
                    moved(*old(self), *self),
                    start.pos() > old(self).pos(),
                    toks == old(self).tokens(),
                    tok_at(toks, old(self).pos() + 2).kind() != TokenType::OpenCurly,
                decreases self.rem(),
            {
                req_sub_traits.push(self.parse_ty()?);
            }
        }
        if !self.eat(TokenType::OpenCurly) {
            return Err(());
        }
        let mut methods: Vec<FunctionHeader> = Vec::new();
        let ghost start = *self;
        proof {
            assert forall|ms: Seq<nat>| #[trigger] simple_trait(toks, old(self).pos(), ms) implies self.pos() == ts
                && generics@.len() == 0 && req_sub_traits@.len() == 0 && method_pos(toks, ts, ms, 0) == ts
                && method_list(toks, self.pos(), ms.subrange(0, ms.len() as int)) by {
                assert(ms.subrange(0, ms.len() as int) =~= ms);
            }
        }
        while self.check_kw(Keyword::Fn)
            invariant
                moved(start, *self),
                moved(*old(self), *self),
                start.pos() > old(self).pos(),
                toks == old(self).tokens(),
                ts == old(self).pos() + 3,
                forall|ms: Seq<nat>| #[trigger] simple_trait(toks, old(self).pos(), ms) ==> methods.len() <= ms.len()
                    && generics@.len() == 0 && req_sub_traits@.len() == 0 && self.pos() == method_pos(
                    toks,
                    ts,
                    ms,
                    methods.len() as nat,
                ) && method_list(toks, self.pos(), ms.subrange(methods.len() as int, ms.len() as int)) && forall|k: int|
                    0 <= k < methods.len() ==> #[trigger] header_written(
                    methods@[k],
                    toks,
                    method_pos(toks, ts, ms, k as nat),
                    ms[k],
                ),
            decreases self.rem(),
        {
            let ghost m = methods.len() as int;
            let ghost here = self.pos();
            proof {
                assert forall|ms: Seq<nat>| #[trigger] simple_trait(toks, old(self).pos(), ms) implies m < ms.len()
                    && simple_header(toks, here, ms[m]) by {
                    if m == ms.len() {
                        assert(ms.subrange(m, ms.len() as int).len() == 0);
                    } else {
                        assert(ms.subrange(m, ms.len() as int)[0] == ms[m]);
                    }
                }
            }
            let header = self.parse_function_header()?;
            if !self.eat(TokenType::Semi) {
                return Err(());
            }
            let ghost h = header;
            methods.push(header);
            proof {
                assert forall|ms: Seq<nat>| #[trigger] simple_trait(toks, old(self).pos(), ms) implies self.pos() == method_pos(
                    toks,
                    ts,
                    ms,
                    methods.len() as nat,
                ) && method_list(toks, self.pos(), ms.subrange(methods.len() as int, ms.len() as int)) && forall|k: int|
                    0 <= k < methods.len() ==> #[trigger] header_written(
                    methods@[k],
                    toks,
                    method_pos(toks, ts, ms, k as nat),
                    ms[k],
                ) by {
                    let rest = ms.subrange(m, ms.len() as int);
                    assert(rest[0] == ms[m]);
                    assert(rest.drop_first() =~= ms.subrange(m + 1, ms.len() as int));
                    lemma_method_pos_next(toks, ts, ms, m as nat);
                    assert forall|k: int| 0 <= k < methods.len() implies #[trigger] header_written(
                        methods@[k],
                        toks,
                        method_pos(toks, ts, ms, k as nat),
                        ms[k],
                    ) by {
                        if k == m {
                            assert(methods@[k] == h);
                        }
                    }
                }
            }
        }
        proof {
            assert forall|ms: Seq<nat>| #[trigger] simple_trait(toks, old(self).pos(), ms) implies methods.len() == ms.len() by {
                let rest = ms.subrange(methods.len() as int, ms.len() as int);
                if rest.len() > 0 {
                    assert(tok_at(toks, self.pos()) matches Token::Keyword(_, Keyword::Fn));
                }
            }
        }
        if !self.eat(TokenType::ClosedCurly) {
            return Err(());
        }
        let visibility = match visibility {
            Some(v) => v,
            None => Visibility::Private,
        };
        Ok(ItemKind::TraitDef(TraitDef { visibility, name, generics, req_sub_traits, methods }))
    }

    /// `impl<GENERICS> [TRAIT for] TYPE { ([pub] fn ...)* }`, the current token being `impl`.
    fn parse_impl_block(&mut self) -> (r: Result<ItemKind, ()>)
        requires
            old(self).wf(),
            old(self).current().kind() != TokenType::EOF,
        ensures
            moved(*old(self), *final(self)),
            final(self).pos() > old(self).pos(),
            r matches Ok(item) ==> item is StructImpl,
    {
        // skip the `impl` keyword
        self.advance();
        let generics = self.parse_maybe_generics_definition()?;
        let first = self.parse_ty()?;
        let (impl_trait, ty) = if self.eat_kw(Keyword::For) {
            let second = self.parse_ty()?;
            (Some(first), second)
        } else {
            (None, first)
        };
        if !self.eat(TokenType::OpenCurly) {
            return Err(());
        }
        let mut methods: Vec<ItemKind> = Vec::new();
        let mut visibility = self.parse_visibility();
        let ghost start = *self;
        // collect all functions inside the impl block
        while self.check_kw(Keyword::Fn)
            invariant
                moved(start, *self),
                moved(*old(self), *self),
                start.pos() > old(self).pos(),
            decreases self.rem(),
        {
            let function = self.parse_function(visibility)?;
            methods.push(function);
            visibility = self.parse_visibility();
        }
        // a visibility modifier with no function after it
        if visibility.is_some() {
            return Err(());
        }
        if !self.eat(TokenType::ClosedCurly) {
            return Err(());
        }
        Ok(ItemKind::StructImpl(AdtImpl { ty, impl_trait, generics, methods }))
    }

    /// An item: optional `pub`, then one of the item keywords.
    fn parse_glob(&mut self) -> (r: Result<ItemKind, ()>)
        requires
            old(self).wf(),
        ensures
            moved(*old(self), *final(self)),
            forall|ms: Seq<nat>| #[trigger] simple_trait(old(self).tokens(), old(self).pos(), ms) && (old(self).current() matches Token::Keyword(
                _,
                Keyword::Trait,
            )) ==> r is Ok && r->Ok_0 is TraitDef && r->Ok_0->TraitDef_0.methods@.len() == ms.len(),
            forall|n: nat| #[trigger] simple_header(old(self).tokens(), old(self).pos(), n) && (old(self).current() matches Token::Keyword(
                _,
                Keyword::Fn,
            )) ==> (r matches Ok(ItemKind::FunctionDef(f)) ==> header_written(f.header, old(self).tokens(), old(self).pos(), n)),
            forall|n: nat| #[trigger] struct_item_at(old(self).tokens(), old(self).pos(), n) ==> r is Ok
                && struct_item(r->Ok_0, old(self).tokens(), old(self).pos(), n),
            r is Ok ==> final(self).pos() > old(self).pos(),
            r is Ok ==> item_keyword(*old(self)) is Some,
            r matches Ok(item) ==> introduced_by(item, item_keyword(*old(self))->Some_0),
    {
        let visibility = self.parse_visibility();
        let kw = match &self.curr {
            Token::Keyword(_, kw) => *kw,
            _ => {
                return Err(());
            },
        };
        match kw {
            Keyword::Static => self.parse_static(visibility),
            Keyword::Const => {
                let named = self.token_stream.look_ahead(
                    1,
                    is_ident,
                );
                if named {
                    self.parse_const(visibility)
                } else {
                    Err(())
                }
            },
            Keyword::Fn => self.parse_function(visibility),
            Keyword::Struct => self.parse_struct_def(visibility),
            Keyword::Impl => self.parse_impl_block(),
            Keyword::Trait => self.parse_trait_def(visibility),
            _ => Err(()),
        }
    }

    fn parse_item(&mut self) -> (r: Result<ItemKind, ()>)
        requires
            old(self).wf(),
        ensures
            moved(*old(self), *final(self)),
            forall|n: nat| #[trigger] struct_item_at(old(self).tokens(), old(self).pos(), n) ==> r is Ok
                && struct_item(r->Ok_0, old(self).tokens(), old(self).pos(), n),
            r is Ok ==> final(self).pos() > old(self).pos(),
            r is Ok ==> item_keyword(*old(self)) is Some,
            r matches Ok(item) ==> introduced_by(item, item_keyword(*old(self))->Some_0),
            !(old(self).current() is Keyword) ==> r is Err && final(self).pos() == old(self).pos(),
    {
        match &self.curr {
            Token::Keyword(_, _) => self.parse_glob(),
            _ => Err(()),
        }
    }
}

} // verus!
