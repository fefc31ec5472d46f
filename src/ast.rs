//! The syntax tree the parser builds, and the shapes and spellings of written types.
use vstd::prelude::*;
use crate::attrs::{Constness, Mutability, Visibility};
use crate::text::push_text;
use crate::token::BinOp;

verus! {

/// A parsed source file: its top-level items in order.
#[derive(Debug, PartialEq, Eq)]
pub struct Crate {
    pub items: Vec<ItemKind>,
}

/// An expression.
#[derive(Debug, PartialEq, Eq)]
pub enum AstNode {
    Number(NumberType),
    Ident(String),
    BinaryExpr(Box<BinaryExprNode>),
    CallExpr(CallExprNode),
    Block(Block),
    StructConstructor(StructConstructor),
    ArrayInst(ArrayInst),
}

#[derive(Debug, PartialEq, Eq)]
pub struct Stmt {
    pub val: AstNode,
}

/// A statement of a block; `Expr` is the block's trailing value.
#[derive(Debug, PartialEq, Eq)]
pub enum StmtKind {
    Item(ItemKind),
    LocalAssign(LocalAssign),
    Expr(AstNode),
    Semi(AstNode),
    Empty,
}

/// A top-level item.
#[derive(Debug, PartialEq, Eq)]
pub enum ItemKind {
    StaticVal(Box<StaticValNode>),
    ConstVal(Box<ConstValNode>),
    FunctionDef(Box<FunctionNode>),
    StructDef(StructDef),
    TraitDef(TraitDef),
    StructImpl(AdtImpl),
}

#[derive(Debug, PartialEq, Eq)]
pub struct Block {
    pub modifiers: BlockModifiers,
    pub stmts: Vec<StmtKind>,
}

#[derive(Debug, Copy, Clone, PartialEq, Eq)]
pub struct BlockModifiers {}

#[derive(Debug, PartialEq, Eq)]
pub struct BinaryExprNode {
    pub lhs: AstNode,
    pub rhs: AstNode,
    pub op: BinOp,
}

#[derive(Debug, PartialEq, Eq)]
pub struct CallExprNode {
    pub callee: String,
    pub args: Vec<AstNode>,
}

/// `static [mut] NAME: TYPE = EXPR;`; the name is the left-most operand of `val`.
#[derive(Debug, PartialEq, Eq)]
pub struct StaticValNode {
    pub ty: Ty,
    pub val: AstNode,
    pub visibility: Option<Visibility>,
    pub mutability: Option<Mutability>,
}

/// `const NAME: TYPE = EXPR;`; the name is the left-most operand of `val`.
#[derive(Debug, PartialEq, Eq)]
pub struct ConstValNode {
    pub ty: Ty,
    pub val: AstNode,
    pub visibility: Option<Visibility>,
}

#[derive(Debug, Copy, Clone, PartialEq, Eq)]
pub struct FunctionModifiers {
    pub constness: Constness,
    pub visibility: Visibility,
}

#[derive(Debug, PartialEq, Eq)]
pub struct FunctionNode {
    pub modifiers: FunctionModifiers,
    pub header: FunctionHeader,
    pub body: Block,
}

#[derive(Debug, PartialEq, Eq)]
pub struct FunctionHeader {
    pub name: String,
    pub generics: Vec<Generic>,
    pub args: Vec<(String, Ty)>,
    pub ret: Option<Ty>,
}

#[derive(Debug, PartialEq, Eq)]
pub enum LocalAssign {
    Assign(LAssign),
    DecAssign(LDecAssign),
}

#[derive(Debug, PartialEq, Eq)]
pub struct LAssign {
    pub name: String,
    pub val: AstNode,
}

/// A local declaration with assignment: `let [mut] NAME [: TYPE] = EXPR;`.
#[derive(Debug, PartialEq, Eq)]
pub struct LDecAssign {
    pub mutability: Option<Mutability>,
    pub ty: Option<Ty>,
    pub val: LAssign,
}

#[derive(Debug, PartialEq, Eq)]
pub struct StructDef {
    pub visibility: Visibility,
    pub name: String,
    pub generics: Vec<Generic>,
    pub fields: Vec<StructFieldDef>,
}

#[derive(Debug, PartialEq, Eq)]
pub struct StructFieldDef {
    pub visibility: Visibility,
    pub name: String,
    pub ty: Ty,
}

#[derive(Debug, PartialEq, Eq)]
pub struct TraitDef {
    pub visibility: Visibility,
    pub name: String,
    pub generics: Vec<Generic>,
    pub req_sub_traits: Vec<Ty>,
    pub methods: Vec<FunctionHeader>,
}

#[derive(Debug, PartialEq, Eq)]
pub struct AdtImpl {
    pub ty: Ty,
    pub impl_trait: Option<Ty>,
    pub generics: Vec<Generic>,
    pub methods: Vec<ItemKind>,
}

#[derive(Debug, PartialEq, Eq)]
pub struct StructConstructor {
    pub name: String,
    pub fields: Vec<(String, AstNode)>,
}

/// A generic parameter of a definition.
#[derive(Debug, PartialEq, Eq)]
pub enum Generic {
    Constant(GenericConstant),
    Type(GenericType),
    Lifetime(GenericLifetime),
}

#[derive(Debug, PartialEq, Eq)]
pub struct GenericType {
    pub name: String,
    pub required_traits: Vec<Ty>,
}

#[derive(Debug, PartialEq, Eq)]
pub struct GenericLifetime {
    pub lt: Lifetime,
}

#[derive(Debug, PartialEq, Eq)]
pub enum Lifetime {
    Custom(String),
    Static,
    Inferred,
}

#[derive(Debug, PartialEq, Eq)]
pub struct GenericConstant {
    pub name: String,
    pub ty: Ty,
}

/// A type as written in the source.
#[derive(Debug, PartialEq, Eq)]
pub struct Ty {
    pub kind: TyKind,
}

#[derive(Debug, PartialEq, Eq)]
pub enum TyKind {
    Ref(Box<RefTy>),
    Array(Box<ArrayTy>),
    Owned(Box<OwnedTy>),
}

#[derive(Debug, PartialEq, Eq)]
pub struct RefTy {
    pub lt: Option<Lifetime>,
    pub mutability: Mutability,
    pub ty: Box<Ty>,
}

#[derive(Debug, PartialEq, Eq)]
pub struct OwnedTy {
    pub name: String,
    pub generics: Vec<TyOrConstVal>,
}

#[derive(Debug, PartialEq, Eq)]
pub struct ArrayTy {
    pub ty: Ty,
    pub amount: Option<AstNode>,
}

/// An array literal: `[a, b, c]` or `[val; count]`.
#[derive(Debug, PartialEq, Eq)]
pub enum ArrayInst {
    List(ArrayInstList),
    Short(Box<ArrayInstShort>),
}

#[derive(Debug, PartialEq, Eq)]
pub struct ArrayInstList {
    pub vals: Vec<AstNode>,
}

#[derive(Debug, PartialEq, Eq)]
pub struct ArrayInstShort {
    pub val: AstNode,
    pub amount: AstNode,
}

#[derive(Debug, PartialEq, Eq)]
pub struct ArrayIndexing {
    pub array: Path,
    pub idx_val: AstNode,
}

#[derive(Debug, Copy, Clone, PartialEq, Eq)]
pub struct Path {}

/// A generic argument: a type or a constant value.
#[derive(Debug, PartialEq, Eq)]
pub enum TyOrConstVal {
    Ty(Ty),
    ConstVal(AstNode),
}

/// The value of a number literal: an integer, or the spelling of a literal with a fractional part.
#[derive(Debug, PartialEq, Eq)]
pub enum NumberType {
    Int(u128),
    Decimal(String),
}

/// A lifetime as the contracts see it.
pub enum LifetimeView {
    Custom(Seq<char>),
    Static,
    Inferred,
}

/// A written type as the contracts see it: constant generic arguments and array lengths
/// count only by their presence.
pub enum TyView {
    Ref(Option<LifetimeView>, Mutability, Box<TyView>),
    Array(Box<TyView>, bool),
    Owned(Seq<char>, Seq<ArgView>),
}

/// A generic argument as the contracts see it.
pub enum ArgView {
    Ty(TyView),
    Const,
}

pub open spec fn lifetime_view(lt: Lifetime) -> LifetimeView {
    match lt {
        Lifetime::Custom(name) => LifetimeView::Custom(name@),
        Lifetime::Static => LifetimeView::Static,
        Lifetime::Inferred => LifetimeView::Inferred,
    }
}

pub open spec fn ty_view(t: Ty) -> TyView
    decreases t,
{
    match t.kind {
        TyKind::Ref(rf) => TyView::Ref(
            match rf.lt {
                Some(lt) => Some(lifetime_view(lt)),
                None => None,
            },
            rf.mutability,
            Box::new(ty_view(*rf.ty)),
        ),
        TyKind::Array(array) => TyView::Array(Box::new(ty_view(array.ty)), array.amount is Some),
        TyKind::Owned(owned) => TyView::Owned(owned.name@, args_view(owned.generics@)),
    }
}

pub open spec fn arg_view(a: TyOrConstVal) -> ArgView
    decreases a,
{
    match a {
        TyOrConstVal::Ty(t) => ArgView::Ty(ty_view(t)),
        TyOrConstVal::ConstVal(_) => ArgView::Const,
    }
}

pub open spec fn args_view(s: Seq<TyOrConstVal>) -> Seq<ArgView>
    decreases s,
{
    if s.len() == 0 {
        Seq::empty()
    } else {
        args_view(s.drop_last()).push(arg_view(s.last()))
    }
}

impl Lifetime {
    pub fn duplicate(&self) -> (r: Self)
        ensures
            r == *self,
    {
        match self {
            Lifetime::Custom(name) => Lifetime::Custom(name.clone()),
            Lifetime::Static => Lifetime::Static,
            Lifetime::Inferred => Lifetime::Inferred,
        }
    }

    /// The spelling of the lifetime without its apostrophe.
    pub fn to_string(&self) -> (r: String)
        ensures
            r@ == lifetime_text(*self),
    {
        match self {
            Lifetime::Custom(val) => val.clone(),
            Lifetime::Static => {
                proof {
                    reveal_strlit("static");
                }
                String::from_str("static")
            },
            Lifetime::Inferred => {
                proof {
                    reveal_strlit("_");
                }
                String::from_str("_")
            },
        }
    }
}

/// The spelling of a lifetime without its apostrophe.
pub open spec fn lifetime_text(lt: Lifetime) -> Seq<char> {
    match lt {
        Lifetime::Custom(name) => name@,
        Lifetime::Static => seq!['s', 't', 'a', 't', 'i', 'c'],
        Lifetime::Inferred => seq!['_'],
    }
}

impl Clone for Lifetime {
    fn clone(&self) -> (r: Self)
        ensures
            r == *self,
    {
        self.duplicate()
    }
}

impl NumberType {
    pub fn duplicate(&self) -> (r: Self)
        ensures
            r == *self,
    {
        match self {
            NumberType::Int(v) => NumberType::Int(*v),
            NumberType::Decimal(s) => NumberType::Decimal(s.clone()),
        }
    }
}

impl Clone for NumberType {
    fn clone(&self) -> (r: Self)
        ensures
            r == *self,
    {
        self.duplicate()
    }
}

impl GenericLifetime {
    pub fn duplicate(&self) -> (r: Self)
        ensures
            r == *self,
    {
        GenericLifetime { lt: self.lt.duplicate() }
    }
}

impl Clone for GenericLifetime {
    fn clone(&self) -> (r: Self)
        ensures
            r == *self,
    {
        self.duplicate()
    }
}

impl Ty {
    /// A copy of the type.
    pub fn duplicate(&self) -> (r: Self)
        ensures
            ty_view(r) == ty_view(*self),
        decreases self,
    {
        Ty { kind: self.kind.duplicate() }
    }
}

impl Clone for Ty {
    fn clone(&self) -> (r: Self)
        ensures
            ty_view(r) == ty_view(*self),
    {
        self.duplicate()
    }
}

impl TyKind {
    pub fn duplicate(&self) -> (r: Self)
        ensures
            ty_view(Ty { kind: r }) == ty_view(Ty { kind: *self }),
        decreases self,
    {
        match self {
            TyKind::Ref(rf) => TyKind::Ref(Box::new(rf.duplicate())),
            TyKind::Array(array) => TyKind::Array(Box::new(array.duplicate())),
            TyKind::Owned(owned) => TyKind::Owned(Box::new(owned.duplicate())),
        }
    }
}

impl Clone for TyKind {
    fn clone(&self) -> (r: Self)
        ensures
            ty_view(Ty { kind: r }) == ty_view(Ty { kind: *self }),
    {
        self.duplicate()
    }
}

impl RefTy {
    pub fn duplicate(&self) -> (r: Self)
        ensures
            r.lt == self.lt,
            r.mutability == self.mutability,
            ty_view(*r.ty) == ty_view(*self.ty),
        decreases self,
    {
        let lt = match &self.lt {
            Some(lt) => Some(lt.duplicate()),
            None => None,
        };
        RefTy { lt, mutability: self.mutability, ty: Box::new(self.ty.duplicate()) }
    }
}

impl OwnedTy {
    pub fn duplicate(&self) -> (r: Self)
        ensures
            r.name == self.name,
            args_view(r.generics@) == args_view(self.generics@),
        decreases self,
    {
        let mut generics: Vec<TyOrConstVal> = Vec::new();
        let mut i: usize = 0;
        while i < self.generics.len()
            invariant
                i <= self.generics.len(),
                args_view(generics@) == args_view(self.generics@.subrange(0, i as int)),
            decreases self.generics.len() - i,
        {
            let ghost prefix = self.generics@.subrange(0, i as int + 1);
            assert(prefix.drop_last() =~= self.generics@.subrange(0, i as int));
            let a = self.generics[i].duplicate();
            let ghost before = generics@;
            generics.push(a);
            assert(generics@.drop_last() =~= before);
            i = i + 1;
        }
        assert(self.generics@.subrange(0, self.generics.len() as int) =~= self.generics@);
        OwnedTy { name: self.name.clone(), generics }
    }
}

impl ArrayTy {
    pub fn duplicate(&self) -> (r: Self)
        ensures
            ty_view(r.ty) == ty_view(self.ty),
            r.amount is Some <==> self.amount is Some,
        decreases self,
    {
        let amount = match &self.amount {
            Some(x) => Some(x.duplicate()),
            None => None,
        };
        ArrayTy { ty: self.ty.duplicate(), amount }
    }
}

impl TyOrConstVal {
    pub fn duplicate(&self) -> (r: Self)
        ensures
            arg_view(r) == arg_view(*self),
        decreases self,
    {
        match self {
            TyOrConstVal::Ty(t) => TyOrConstVal::Ty(t.duplicate()),
            TyOrConstVal::ConstVal(v) => TyOrConstVal::ConstVal(v.duplicate()),
        }
    }
}

impl Clone for TyOrConstVal {
    fn clone(&self) -> (r: Self)
        ensures
            arg_view(r) == arg_view(*self),
    {
        self.duplicate()
    }
}

impl StructFieldDef {
    pub fn duplicate(&self) -> (r: Self)
        ensures
            r.visibility == self.visibility,
            r.name == self.name,
            ty_view(r.ty) == ty_view(self.ty),
        decreases self,
    {
        StructFieldDef { visibility: self.visibility, name: self.name.clone(), ty: self.ty.duplicate() }
    }
}

impl StructDef {
    pub fn duplicate(&self) -> (r: Self)
        ensures
            r.visibility == self.visibility,
            r.name == self.name,
            r.fields.len() == self.fields.len(),
            forall|i: int| 0 <= i < r.fields.len() ==> (#[trigger] r.fields@[i]).name == self.fields@[i].name
                && r.fields@[i].visibility == self.fields@[i].visibility && ty_view(r.fields@[i].ty) == ty_view(self.fields@[i].ty),
        decreases self,
    {
        let mut generics: Vec<Generic> = Vec::new();
        let mut i: usize = 0;
        while i < self.generics.len()
            decreases self.generics.len() - i,
        {
            generics.push(self.generics[i].duplicate());
            i = i + 1;
        }
        let mut fields: Vec<StructFieldDef> = Vec::new();
        let mut j: usize = 0;
        while j < self.fields.len()
            invariant
                j <= self.fields.len(),
                fields.len() == j,
                forall|i: int| 0 <= i < j ==> (#[trigger] fields@[i]).name == self.fields@[i].name
                    && fields@[i].visibility == self.fields@[i].visibility && ty_view(fields@[i].ty) == ty_view(self.fields@[i].ty),
            decreases self.fields.len() - j,
        {
            fields.push(self.fields[j].duplicate());
            j = j + 1;
        }
        StructDef { visibility: self.visibility, name: self.name.clone(), generics, fields }
    }
}

impl Clone for StructDef {
    fn clone(&self) -> Self {
        self.duplicate()
    }
}

impl Clone for StructFieldDef {
    fn clone(&self) -> Self {
        self.duplicate()
    }
}

impl Crate {
    /// A copy of the whole tree.
    pub(crate) fn duplicate(&self) -> (r: Self)
        decreases self,
    {
        let mut items: Vec<ItemKind> = Vec::new();
        let mut i: usize = 0;
        while i < self.items.len()
            decreases self.items.len() - i,
        {
            items.push(self.items[i].duplicate());
            i = i + 1;
        }
        Crate {
            items,
        }
    }
}

impl Clone for Crate {
    fn clone(&self) -> Self {
        self.duplicate()
    }
}

impl AstNode {
    /// A copy of the whole tree.
    pub(crate) fn duplicate(&self) -> (r: Self)
        decreases self,
    {
        match self {
            AstNode::Number(x) => AstNode::Number(x.duplicate()),
            AstNode::Ident(x) => AstNode::Ident(x.clone()),
            AstNode::BinaryExpr(x) => AstNode::BinaryExpr(Box::new(x.duplicate())),
            AstNode::CallExpr(x) => AstNode::CallExpr(x.duplicate()),
            AstNode::Block(x) => AstNode::Block(x.duplicate()),
            AstNode::StructConstructor(x) => AstNode::StructConstructor(x.duplicate()),
            AstNode::ArrayInst(x) => AstNode::ArrayInst(x.duplicate()),
        }
    }
}

impl Clone for AstNode {
    fn clone(&self) -> Self {
        self.duplicate()
    }
}

impl Stmt {
    /// A copy of the whole tree.
    pub(crate) fn duplicate(&self) -> (r: Self)
        decreases self,
    {
        Stmt {
            val: self.val.duplicate(),
        }
    }
}

impl Clone for Stmt {
    fn clone(&self) -> Self {
        self.duplicate()
    }
}

impl StmtKind {
    /// A copy of the whole tree.
    pub(crate) fn duplicate(&self) -> (r: Self)
        decreases self,
    {
        match self {
            StmtKind::Item(x) => StmtKind::Item(x.duplicate()),
            StmtKind::LocalAssign(x) => StmtKind::LocalAssign(x.duplicate()),
            StmtKind::Expr(x) => StmtKind::Expr(x.duplicate()),
            StmtKind::Semi(x) => StmtKind::Semi(x.duplicate()),
            StmtKind::Empty => StmtKind::Empty,
        }
    }
}

impl Clone for StmtKind {
    fn clone(&self) -> Self {
        self.duplicate()
    }
}

impl ItemKind {
    /// A copy of the whole tree.
    pub(crate) fn duplicate(&self) -> (r: Self)
        decreases self,
    {
        match self {
            ItemKind::StaticVal(x) => ItemKind::StaticVal(Box::new(x.duplicate())),
            ItemKind::ConstVal(x) => ItemKind::ConstVal(Box::new(x.duplicate())),
            ItemKind::FunctionDef(x) => ItemKind::FunctionDef(Box::new(x.duplicate())),
            ItemKind::StructDef(x) => ItemKind::StructDef(x.duplicate()),
            ItemKind::TraitDef(x) => ItemKind::TraitDef(x.duplicate()),
            ItemKind::StructImpl(x) => ItemKind::StructImpl(x.duplicate()),
        }
    }
}

impl Clone for ItemKind {
    fn clone(&self) -> Self {
        self.duplicate()
    }
}

impl Block {
    /// A copy of the whole tree.
    pub(crate) fn duplicate(&self) -> (r: Self)
        decreases self,
    {
        let mut stmts: Vec<StmtKind> = Vec::new();
        let mut i: usize = 0;
        while i < self.stmts.len()
            decreases self.stmts.len() - i,
        {
            stmts.push(self.stmts[i].duplicate());
            i = i + 1;
        }
        Block {
            modifiers: self.modifiers,
            stmts,
        }
    }
}

impl Clone for Block {
    fn clone(&self) -> Self {
        self.duplicate()
    }
}

impl BinaryExprNode {
    /// A copy of the whole tree.
    pub(crate) fn duplicate(&self) -> (r: Self)
        decreases self,
    {
        BinaryExprNode {
            lhs: self.lhs.duplicate(),
            rhs: self.rhs.duplicate(),
            op: self.op,
        }
    }
}

impl Clone for BinaryExprNode {
    fn clone(&self) -> Self {
        self.duplicate()
    }
}

impl CallExprNode {
    /// A copy of the whole tree.
    pub(crate) fn duplicate(&self) -> (r: Self)
        decreases self,
    {
        let mut args: Vec<AstNode> = Vec::new();
        let mut i: usize = 0;
        while i < self.args.len()
            decreases self.args.len() - i,
        {
            args.push(self.args[i].duplicate());
            i = i + 1;
        }
        CallExprNode {
            callee: self.callee.clone(),
            args,
        }
    }
}

impl Clone for CallExprNode {
    fn clone(&self) -> Self {
        self.duplicate()
    }
}

impl StaticValNode {
    /// A copy of the whole tree.
    pub(crate) fn duplicate(&self) -> (r: Self)
        decreases self,
    {
        StaticValNode {
            ty: self.ty.duplicate(),
            val: self.val.duplicate(),
            visibility: self.visibility,
            mutability: self.mutability,
        }
    }
}

impl Clone for StaticValNode {
    fn clone(&self) -> Self {
        self.duplicate()
    }
}

impl ConstValNode {
    /// A copy of the whole tree.
    pub(crate) fn duplicate(&self) -> (r: Self)
        decreases self,
    {
        ConstValNode {
            ty: self.ty.duplicate(),
            val: self.val.duplicate(),
            visibility: self.visibility,
        }
    }
}

impl Clone for ConstValNode {
    fn clone(&self) -> Self {
        self.duplicate()
    }
}

/// Whether two signatures have the same name, parameter names and shapes of the written
/// parameter and return types.
pub open spec fn same_signature(a: FunctionHeader, b: FunctionHeader) -> bool {
    &&& a.name == b.name
    &&& a.args@.len() == b.args@.len()
    &&& forall|i: int| 0 <= i < a.args@.len() ==> (#[trigger] a.args@[i]).0 == b.args@[i].0
        && ty_view(a.args@[i].1) == ty_view(b.args@[i].1)
    &&& a.ret is Some <==> b.ret is Some
    &&& a.ret is Some ==> ty_view(a.ret->Some_0) == ty_view(b.ret->Some_0)
}

impl FunctionNode {
    /// A copy of the whole tree.
    pub(crate) fn duplicate(&self) -> (r: Self)
        ensures
            r.modifiers == self.modifiers,
            same_signature(r.header, self.header),
        decreases self,
    {
        FunctionNode {
            modifiers: self.modifiers,
            header: self.header.duplicate(),
            body: self.body.duplicate(),
        }
    }
}

impl Clone for FunctionNode {
    fn clone(&self) -> Self {
        self.duplicate()
    }
}

impl FunctionHeader {
    /// A copy of the whole tree.
    pub(crate) fn duplicate(&self) -> (r: Self)
        ensures
            same_signature(r, *self),
        decreases self,
    {
        let mut generics: Vec<Generic> = Vec::new();
        let mut i: usize = 0;
        while i < self.generics.len()
            decreases self.generics.len() - i,
        {
            generics.push(self.generics[i].duplicate());
            i = i + 1;
        }
        let mut args: Vec<(String, Ty)> = Vec::new();
        let mut i: usize = 0;
        while i < self.args.len()
            invariant
                i <= self.args.len(),
                args@.len() == i,
                forall|j: int| 0 <= j < i ==> (#[trigger] args@[j]).0 == self.args@[j].0
                    && ty_view(args@[j].1) == ty_view(self.args@[j].1),
            decreases self.args.len() - i,
        {
            args.push((self.args[i].0.clone(), self.args[i].1.duplicate()));
            i = i + 1;
        }
        FunctionHeader {
            name: self.name.clone(),
            generics,
            args,
            ret: match &self.ret {
                Some(x) => Some(x.duplicate()),
                None => None,
            },
        }
    }
}

impl Clone for FunctionHeader {
    fn clone(&self) -> Self {
        self.duplicate()
    }
}

impl LocalAssign {
    /// A copy of the whole tree.
    pub(crate) fn duplicate(&self) -> (r: Self)
        decreases self,
    {
        match self {
            LocalAssign::Assign(x) => LocalAssign::Assign(x.duplicate()),
            LocalAssign::DecAssign(x) => LocalAssign::DecAssign(x.duplicate()),
        }
    }
}

impl Clone for LocalAssign {
    fn clone(&self) -> Self {
        self.duplicate()
    }
}

impl LAssign {
    /// A copy of the whole tree.
    pub(crate) fn duplicate(&self) -> (r: Self)
        decreases self,
    {
        LAssign {
            name: self.name.clone(),
            val: self.val.duplicate(),
        }
    }
}

impl Clone for LAssign {
    fn clone(&self) -> Self {
        self.duplicate()
    }
}

impl LDecAssign {
    /// A copy of the whole tree.
    pub(crate) fn duplicate(&self) -> (r: Self)
        decreases self,
    {
        LDecAssign {
            mutability: self.mutability,
            ty: match &self.ty {
                Some(x) => Some(x.duplicate()),
                None => None,
            },
            val: self.val.duplicate(),
        }
    }
}

impl Clone for LDecAssign {
    fn clone(&self) -> Self {
        self.duplicate()
    }
}

impl TraitDef {
    /// A copy of the whole tree.
    pub(crate) fn duplicate(&self) -> (r: Self)
        decreases self,
    {
        let mut generics: Vec<Generic> = Vec::new();
        let mut i: usize = 0;
        while i < self.generics.len()
            decreases self.generics.len() - i,
        {
            generics.push(self.generics[i].duplicate());
            i = i + 1;
        }
        let mut req_sub_traits: Vec<Ty> = Vec::new();
        let mut i: usize = 0;
        while i < self.req_sub_traits.len()
            decreases self.req_sub_traits.len() - i,
        {
            req_sub_traits.push(self.req_sub_traits[i].duplicate());
            i = i + 1;
        }
        let mut methods: Vec<FunctionHeader> = Vec::new();
        let mut i: usize = 0;
        while i < self.methods.len()
            decreases self.methods.len() - i,
        {
            methods.push(self.methods[i].duplicate());
            i = i + 1;
        }
        TraitDef {
            visibility: self.visibility,
            name: self.name.clone(),
            generics,
            req_sub_traits,
            methods,
        }
    }
}

impl Clone for TraitDef {
    fn clone(&self) -> Self {
        self.duplicate()
    }
}

impl AdtImpl {
    /// A copy of the whole tree.
    pub(crate) fn duplicate(&self) -> (r: Self)
        decreases self,
    {
        let mut generics: Vec<Generic> = Vec::new();
        let mut i: usize = 0;
        while i < self.generics.len()
            decreases self.generics.len() - i,
        {
            generics.push(self.generics[i].duplicate());
            i = i + 1;
        }
        let mut methods: Vec<ItemKind> = Vec::new();
        let mut i: usize = 0;
        while i < self.methods.len()
            decreases self.methods.len() - i,
        {
            methods.push(self.methods[i].duplicate());
            i = i + 1;
        }
        AdtImpl {
            ty: self.ty.duplicate(),
            impl_trait: match &self.impl_trait {
                Some(x) => Some(x.duplicate()),
                None => None,
            },
            generics,
            methods,
        }
    }
}

impl Clone for AdtImpl {
    fn clone(&self) -> Self {
        self.duplicate()
    }
}

impl StructConstructor {
    /// A copy of the whole tree.
    pub(crate) fn duplicate(&self) -> (r: Self)
        decreases self,
    {
        let mut fields: Vec<(String, AstNode)> = Vec::new();
        let mut i: usize = 0;
        while i < self.fields.len()
            decreases self.fields.len() - i,
        {
            fields.push((self.fields[i].0.clone(), self.fields[i].1.duplicate()));
            i = i + 1;
        }
        StructConstructor {
            name: self.name.clone(),
            fields,
        }
    }
}

impl Clone for StructConstructor {
    fn clone(&self) -> Self {
        self.duplicate()
    }
}

impl Generic {
    /// A copy of the whole tree.
    pub(crate) fn duplicate(&self) -> (r: Self)
        decreases self,
    {
        match self {
            Generic::Constant(x) => Generic::Constant(x.duplicate()),
            Generic::Type(x) => Generic::Type(x.duplicate()),
            Generic::Lifetime(x) => Generic::Lifetime(x.duplicate()),
        }
    }
}

impl Clone for Generic {
    fn clone(&self) -> Self {
        self.duplicate()
    }
}

impl GenericType {
    /// A copy of the whole tree.
    pub(crate) fn duplicate(&self) -> (r: Self)
        decreases self,
    {
        let mut required_traits: Vec<Ty> = Vec::new();
        let mut i: usize = 0;
        while i < self.required_traits.len()
            decreases self.required_traits.len() - i,
        {
            required_traits.push(self.required_traits[i].duplicate());
            i = i + 1;
        }
        GenericType {
            name: self.name.clone(),
            required_traits,
        }
    }
}

impl Clone for GenericType {
    fn clone(&self) -> Self {
        self.duplicate()
    }
}

impl GenericConstant {
    /// A copy of the whole tree.
    pub(crate) fn duplicate(&self) -> (r: Self)
        decreases self,
    {
        GenericConstant {
            name: self.name.clone(),
            ty: self.ty.duplicate(),
        }
    }
}

impl Clone for GenericConstant {
    fn clone(&self) -> Self {
        self.duplicate()
    }
}

impl ArrayInst {
    /// A copy of the whole tree.
    pub(crate) fn duplicate(&self) -> (r: Self)
        decreases self,
    {
        match self {
            ArrayInst::List(x) => ArrayInst::List(x.duplicate()),
            ArrayInst::Short(x) => ArrayInst::Short(Box::new(x.duplicate())),
        }
    }
}

impl Clone for ArrayInst {
    fn clone(&self) -> Self {
        self.duplicate()
    }
}

impl ArrayInstList {
    /// A copy of the whole tree.
    pub(crate) fn duplicate(&self) -> (r: Self)
        decreases self,
    {
        let mut vals: Vec<AstNode> = Vec::new();
        let mut i: usize = 0;
        while i < self.vals.len()
            decreases self.vals.len() - i,
        {
            vals.push(self.vals[i].duplicate());
            i = i + 1;
        }
        ArrayInstList {
            vals,
        }
    }
}

impl Clone for ArrayInstList {
    fn clone(&self) -> Self {
        self.duplicate()
    }
}

impl ArrayInstShort {
    /// A copy of the whole tree.
    pub(crate) fn duplicate(&self) -> (r: Self)
        decreases self,
    {
        ArrayInstShort {
            val: self.val.duplicate(),
            amount: self.amount.duplicate(),
        }
    }
}

impl Clone for ArrayInstShort {
    fn clone(&self) -> Self {
        self.duplicate()
    }
}

impl ArrayIndexing {
    /// A copy of the whole tree.
    pub(crate) fn duplicate(&self) -> (r: Self)
        decreases self,
    {
        ArrayIndexing {
            array: self.array,
            idx_val: self.idx_val.duplicate(),
        }
    }
}

impl Clone for ArrayIndexing {
    fn clone(&self) -> Self {
        self.duplicate()
    }
}


/// Whether an assignment node has a plain name on its left.
pub open spec fn has_named_lhs(val: AstNode) -> bool {
    val matches AstNode::BinaryExpr(b) && b.lhs is Ident
}

fn named_left(val: &AstNode) -> (r: &String)
    requires
        has_named_lhs(*val),
    ensures
        val->BinaryExpr_0.lhs == AstNode::Ident(*r),
{
    match val {
        AstNode::BinaryExpr(bin) => match &bin.lhs {
            AstNode::Ident(lhs) => lhs,
            _ => unreached(),
        },
        _ => unreached(),
    }
}

impl StaticValNode {
    /// The name the static binds: the left operand of its `NAME = EXPR` value.
    pub fn left(&self) -> (r: &String)
        requires
            has_named_lhs(self.val),
        ensures
            self.val->BinaryExpr_0.lhs == AstNode::Ident(*r),
    {
        named_left(&self.val)
    }
}

impl ConstValNode {
    /// The name the constant binds: the left operand of its `NAME = EXPR` value.
    pub fn left(&self) -> (r: &String)
        requires
            has_named_lhs(self.val),
        ensures
            self.val->BinaryExpr_0.lhs == AstNode::Ident(*r),
    {
        named_left(&self.val)
    }
}

/// The spelling of a written type: `&'a mut T`, `[T; ]`, `Name<A, B>`. A constant generic
/// argument spells as `_`, and an array length is not spelled.
pub open spec fn ty_text(t: Ty) -> Seq<char>
    decreases t,
{
    match t.kind {
        TyKind::Ref(rf) => seq!['&'] + match rf.lt {
            Some(lt) => seq![' ', '\''] + lifetime_text(lt),
            None => Seq::empty(),
        } + if rf.mutability == Mutability::Mut {
            seq!['m', 'u', 't', ' ']
        } else {
            Seq::empty()
        } + ty_text(*rf.ty),
        TyKind::Array(array) => seq!['['] + ty_text(array.ty) + if array.amount is Some {
            seq![';', ' ']
        } else {
            Seq::empty()
        } + seq![']'],
        TyKind::Owned(owned) => owned.name@ + if owned.generics@.len() == 0 {
            Seq::empty()
        } else {
            seq!['<'] + args_text(owned.generics@) + seq!['>']
        },
    }
}

pub open spec fn arg_text(a: TyOrConstVal) -> Seq<char>
    decreases a,
{
    match a {
        TyOrConstVal::Ty(t) => ty_text(t),
        TyOrConstVal::ConstVal(_) => seq!['_'],
    }
}

/// Generic arguments joined by `, `.
pub open spec fn args_text(s: Seq<TyOrConstVal>) -> Seq<char>
    decreases s,
{
    if s.len() == 0 {
        Seq::empty()
    } else if s.len() == 1 {
        arg_text(s[0])
    } else {
        args_text(s.drop_last()) + seq![',', ' '] + arg_text(s.last())
    }
}

/// The short name of a written type, by which traits are keyed and nominal clauses matched:
/// a named type's name without its generic arguments, behind `&` (with ` 'static` or ` '_`
/// for a lifetime, and ` mut`) or inside `[` `]`.
pub open spec fn simple_name(t: Ty) -> Seq<char>
    decreases t,
{
    match t.kind {
        TyKind::Ref(rf) => seq!['&'] + match rf.lt {
            Some(Lifetime::Static) => seq![' ', '\'', 's', 't', 'a', 't', 'i', 'c'],
            Some(_) => seq![' ', '\'', '_'],
            None => Seq::empty(),
        } + if rf.mutability == Mutability::Mut {
            seq![' ', 'm', 'u', 't']
        } else {
            Seq::empty()
        } + simple_name(*rf.ty),
        TyKind::Array(array) => seq!['['] + simple_name(array.ty) + if array.amount is Some {
            seq![';', ' ']
        } else {
            Seq::empty()
        } + seq![']'],
        TyKind::Owned(owned) => owned.name@,
    }
}

/// The generic arguments of the named type at the core of a written type.
pub open spec fn core_generics(k: TyKind) -> Vec<TyOrConstVal>
    decreases k,
{
    match k {
        TyKind::Ref(rf) => core_generics(rf.ty.kind),
        TyKind::Array(array) => core_generics(array.ty.kind),
        TyKind::Owned(owned) => owned.generics,
    }
}

impl Ty {
    pub fn to_string(&self) -> (r: String)
        ensures
            r@ == ty_text(*self),
        decreases self,
    {
        self.kind.to_string()
    }
}

impl TyKind {
    /// The generic arguments of the named type inside references and arrays.
    pub fn get_generics(&self) -> (r: &Vec<TyOrConstVal>)
        ensures
            *r == core_generics(*self),
        decreases self,
    {
        match self {
            TyKind::Ref(rf) => rf.ty.kind.get_generics(),
            TyKind::Array(array) => array.ty.kind.get_generics(),
            TyKind::Owned(ty) => &ty.generics,
        }
    }

    /// See `simple_name`.
    pub fn simple_ty_name(&self) -> (r: String)
        ensures
            r@ == simple_name(Ty { kind: *self }),
        decreases self,
    {
        proof {
            reveal_strlit("&");
            reveal_strlit(" 'static");
            reveal_strlit(" '_");
            reveal_strlit(" mut");
            reveal_strlit("[");
            reveal_strlit("; ");
            reveal_strlit("]");
        }
        match self {
            TyKind::Ref(rf) => {
                let mut raw = String::from_str("&");
                match &rf.lt {
                    Some(Lifetime::Static) => push_text(&mut raw, " 'static"),
                    Some(_) => push_text(&mut raw, " '_"),
                    None => {},
                }
                if rf.mutability == Mutability::Mut {
                    push_text(&mut raw, " mut");
                }
                let inner = rf.ty.kind.simple_ty_name();
                push_text(&mut raw, inner.as_str());
                assert(*rf.ty == Ty { kind: rf.ty.kind });
                assert(raw@ =~= simple_name(Ty { kind: *self }));
                raw
            },
            TyKind::Array(array) => {
                let mut raw = String::from_str("[");
                let inner = array.ty.kind.simple_ty_name();
                push_text(&mut raw, inner.as_str());
                if array.amount.is_some() {
                    push_text(&mut raw, "; ");
                }
                push_text(&mut raw, "]");
                assert(array.ty == Ty { kind: array.ty.kind });
                assert(raw@ =~= simple_name(Ty { kind: *self }));
                raw
            },
            TyKind::Owned(ty) => ty.name.clone(),
        }
    }

    pub fn get_owned(&self) -> (r: Option<&OwnedTy>)
        ensures
            self matches TyKind::Owned(o) ==> r matches Some(x) && *x == *o,
            !(self is Owned) ==> r is None,
    {
        match self {
            TyKind::Owned(ty) => Some(ty),
            _ => None,
        }
    }

    pub fn to_string(&self) -> (r: String)
        ensures
            r@ == ty_text(Ty { kind: *self }),
        decreases self,
    {
        match self {
            TyKind::Ref(ref_ty) => ref_ty.to_string(),
            TyKind::Array(array_ty) => array_ty.to_string(),
            TyKind::Owned(owned_ty) => owned_ty.to_string(),
        }
    }
}

impl RefTy {
    fn to_string(&self) -> (r: String)
        ensures
            r@ == ty_text(Ty { kind: TyKind::Ref(Box::new(*self)) }),
        decreases self,
    {
        proof {
            reveal_strlit("&");
            reveal_strlit(" '");
            reveal_strlit("mut ");
        }
        let mut raw = String::from_str("&");
        if let Some(lt) = &self.lt {
            push_text(&mut raw, " '");
            let name = lt.to_string();
            push_text(&mut raw, name.as_str());
        }
        if self.mutability == Mutability::Mut {
            push_text(&mut raw, "mut ");
        }
        let inner = self.ty.to_string();
        push_text(&mut raw, inner.as_str());
        assert(raw@ =~= ty_text(Ty { kind: TyKind::Ref(Box::new(*self)) }));
        raw
    }
}

impl ArrayTy {
    fn to_string(&self) -> (r: String)
        ensures
            r@ == ty_text(Ty { kind: TyKind::Array(Box::new(*self)) }),
        decreases self,
    {
        proof {
            reveal_strlit("[");
            reveal_strlit("; ");
            reveal_strlit("]");
        }
        let mut raw = String::from_str("[");
        let inner = self.ty.to_string();
        push_text(&mut raw, inner.as_str());
        if self.amount.is_some() {
            push_text(&mut raw, "; ");
        }
        push_text(&mut raw, "]");
        assert(raw@ =~= ty_text(Ty { kind: TyKind::Array(Box::new(*self)) }));
        raw
    }
}

impl OwnedTy {
    fn to_string(&self) -> (r: String)
        ensures
            r@ == ty_text(Ty { kind: TyKind::Owned(Box::new(*self)) }),
        decreases self,
    {
        proof {
            reveal_strlit("<");
            reveal_strlit(">");
        }
        let mut raw = self.name.clone();
        if self.generics.len() > 0 {
            push_text(&mut raw, "<");
            let args = args_to_string(&self.generics);
            push_text(&mut raw, args.as_str());
            push_text(&mut raw, ">");
        }
        assert(raw@ =~= ty_text(Ty { kind: TyKind::Owned(Box::new(*self)) }));
        raw
    }
}

/// Generic arguments joined by `, `.
fn args_to_string(generics: &Vec<TyOrConstVal>) -> (r: String)
    ensures
        r@ == args_text(generics@),
    decreases generics,
{
    let mut raw = String::new();
    let mut i: usize = 0;
    while i < generics.len()
        invariant
            i <= generics.len(),
            raw@ == args_text(generics@.subrange(0, i as int)),
        decreases generics.len() - i,
    {
        proof {
            reveal_strlit(", ");
        }
        let ghost next = generics@.subrange(0, i as int + 1);
        assert(next.drop_last() =~= generics@.subrange(0, i as int));
        if i > 0 {
            push_text(&mut raw, ", ");
        } else {
            assert(raw@ =~= Seq::<char>::empty());
        }
        let text = generics[i].to_string();
        push_text(&mut raw, text.as_str());
        assert(next.last() == generics@[i as int]);
        if i == 0 {
            assert(next[0] == next.last());
        }
        assert(raw@ =~= args_text(next));
        i = i + 1;
    }
    assert(generics@.subrange(0, generics.len() as int) =~= generics@);
    raw
}

impl TyOrConstVal {
    /// The spelling of the argument; a constant value spells as `_`.
    pub fn to_string(&self) -> (r: String)
        ensures
            r@ == arg_text(*self),
        decreases self,
    {
        match self {
            TyOrConstVal::Ty(ty) => ty.to_string(),
            TyOrConstVal::ConstVal(_) => {
                proof {
                    reveal_strlit("_");
                }
                let r = String::from_str("_");
                assert(r@ =~= seq!['_']);
                r
            },
        }
    }
}

} // verus!
