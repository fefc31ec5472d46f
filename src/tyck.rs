//! Scope-based name and type resolution over a parsed crate.
use vstd::prelude::*;
use crate::ast;
use crate::ast::{args_view, arg_view, ty_view, ArgView, LifetimeView, TyOrConstVal};
use crate::attrs::{Mutability, Visibility};
use crate::text::{push_text, same_text, text_of};

verus! {

/// A type as the resolver sees it. `Unresolved` is a placeholder for a named type that has
/// not been looked up yet.
#[derive(Debug, PartialEq)]
pub enum Ty {
    Empty,
    Enum(EnumTy),
    Struct(StructTy),
    Union(UnionTy),
    Tuple(TupleTy),
    Array(ArrayTy),
    Primitive(PrimitiveTy),
    Ref(RefTy),
    Unresolved(UnresolvedTy),
}

/// The kind of user type a written type may end up as.
#[derive(Copy, Clone, Debug, PartialEq, Eq, Structural)]
pub enum TyScaffolding {
    Struct,
    Enum,
    Union,
}

#[derive(Debug, PartialEq)]
pub struct EnumTy {
    pub name: String,
    pub vis: Visibility,
    pub variants: Vec<EnumVariant>,
}

#[derive(Debug, PartialEq)]
pub struct EnumVariant {
    pub name: String,
    pub ord: usize,
    pub fields: Vec<Ty>,
}

#[derive(Debug, PartialEq)]
pub struct StructTy {
    pub vis: Visibility,
    pub name: String,
    pub fields: Vec<StructField>,
}

#[derive(Debug, PartialEq)]
pub struct StructField {
    pub vis: Visibility,
    pub name: String,
    pub ty: Ty,
}

#[derive(Debug, PartialEq)]
pub struct UnionTy {
    pub vis: Visibility,
    pub name: String,
    pub fields: Vec<StructField>,
}

#[derive(Debug, PartialEq)]
pub struct TupleTy {
    pub fields: Vec<StructField>,
}

#[derive(Debug, PartialEq)]
pub struct ArrayTy {
    pub elem_ty: Box<Ty>,
}

#[derive(Copy, Clone, Debug, PartialEq, Eq, Structural)]
pub enum PrimitiveTy {
    Bool,
    Char,
    Str,
    MachineSizedInt(MachineSizedIntTy),
    SizedInt(SizedIntTy),
    /// An integer whose size was not fixed yet; the default size is used.
    UnsizedInt,
    SizedFloat(SizedFloatTy),
}

#[derive(Copy, Clone, Debug, PartialEq, Eq, Structural)]
pub struct MachineSizedIntTy {
    pub unsigned: bool,
}

/// An integer type of `16 * 2^exp` bits.
#[derive(Copy, Clone, Debug, PartialEq, Eq, Structural)]
pub struct SizedIntTy {
    pub unsigned: bool,
    pub exp: usize,
}

/// A float type of `64 * 2^exp` bits.
#[derive(Copy, Clone, Debug, PartialEq, Eq, Structural)]
pub struct SizedFloatTy {
    pub unsigned: bool,
    pub exp: usize,
}

#[derive(Debug, PartialEq)]
pub struct RefTy {
    pub lt: Option<Lifetime>,
    pub mutability: Mutability,
    pub ty: Box<Ty>,
}

#[derive(Debug, PartialEq, Eq)]
pub enum Lifetime {
    Custom(String),
    Static,
    Inferred,
}

#[derive(Debug, PartialEq)]
pub struct UnresolvedTy {
    pub name: String,
    pub generics: Vec<TyOrConstVal>,
}

/// A resolver type as the contracts see it: names as character sequences, the generic
/// arguments of an unresolved name as their written shape. Of an enum only its name and
/// visibility are seen.
pub enum SemTy {
    Empty,
    Enum(Visibility, Seq<char>),
    Struct(Visibility, Seq<char>, Seq<FieldView>),
    Union(Visibility, Seq<char>, Seq<FieldView>),
    Tuple(Seq<FieldView>),
    Array(Box<SemTy>),
    Primitive(PrimitiveTy),
    Ref(Option<LifetimeView>, Mutability, Box<SemTy>),
    Unresolved(Seq<char>, Seq<ArgView>),
}

/// A field: its visibility, name and type.
pub struct FieldView {
    pub vis: Visibility,
    pub name: Seq<char>,
    pub ty: SemTy,
}

pub open spec fn lt_view(lt: Lifetime) -> LifetimeView {
    match lt {
        Lifetime::Custom(name) => LifetimeView::Custom(name@),
        Lifetime::Static => LifetimeView::Static,
        Lifetime::Inferred => LifetimeView::Inferred,
    }
}

pub open spec fn sem_view(t: Ty) -> SemTy
    decreases t,
{
    match t {
        Ty::Empty => SemTy::Empty,
        Ty::Enum(e) => SemTy::Enum(e.vis, e.name@),
        Ty::Struct(s) => SemTy::Struct(s.vis, s.name@, fields_view(s.fields@)),
        Ty::Union(u) => SemTy::Union(u.vis, u.name@, fields_view(u.fields@)),
        Ty::Tuple(tu) => SemTy::Tuple(fields_view(tu.fields@)),
        Ty::Array(a) => SemTy::Array(Box::new(sem_view(*a.elem_ty))),
        Ty::Primitive(p) => SemTy::Primitive(p),
        Ty::Ref(rf) => SemTy::Ref(
            match rf.lt {
                Some(lt) => Some(lt_view(lt)),
                None => None,
            },
            rf.mutability,
            Box::new(sem_view(*rf.ty)),
        ),
        Ty::Unresolved(u) => SemTy::Unresolved(u.name@, args_view(u.generics@)),
    }
}

pub open spec fn field_view(f: StructField) -> FieldView
    decreases f,
{
    FieldView { vis: f.vis, name: f.name@, ty: sem_view(f.ty) }
}

pub open spec fn fields_view(s: Seq<StructField>) -> Seq<FieldView>
    decreases s,
{
    if s.len() == 0 {
        Seq::empty()
    } else {
        fields_view(s.drop_last()).push(field_view(s.last()))
    }
}

pub proof fn lemma_fields_view(s: Seq<StructField>)
    ensures
        fields_view(s).len() == s.len(),
        forall|i: int| 0 <= i < s.len() ==> #[trigger] fields_view(s)[i] == field_view(s[i]),
    decreases s.len(),
{
    if s.len() > 0 {
        lemma_fields_view(s.drop_last());
    }
}

pub proof fn lemma_args_view(s: Seq<TyOrConstVal>)
    ensures
        args_view(s).len() == s.len(),
        forall|i: int| 0 <= i < s.len() ==> #[trigger] args_view(s)[i] == arg_view(s[i]),
    decreases s.len(),
{
    if s.len() > 0 {
        lemma_args_view(s.drop_last());
    }
}

/// A copy of a field list.
fn copy_fields(fields: &Vec<StructField>) -> (r: Vec<StructField>)
    ensures
        fields_view(r@) == fields_view(fields@),
    decreases fields,
{
    let mut out: Vec<StructField> = Vec::new();
    let mut i: usize = 0;
    while i < fields.len()
        invariant
            i <= fields.len(),
            fields_view(out@) == fields_view(fields@.subrange(0, i as int)),
        decreases fields.len() - i,
    {
        let ghost prefix = fields@.subrange(0, i as int + 1);
        assert(prefix.drop_last() =~= fields@.subrange(0, i as int));
        let f = StructField {
            vis: fields[i].vis,
            name: fields[i].name.clone(),
            ty: fields[i].ty.duplicate(),
        };
        assert(field_view(f) == field_view(fields@[i as int]));
        let ghost before = out@;
        out.push(f);
        assert(out@.drop_last() =~= before);
        i = i + 1;
    }
    assert(fields@.subrange(0, fields.len() as int) =~= fields@);
    out
}

impl Lifetime {
    pub fn duplicate(&self) -> (r: Self)
        ensures
            r == *self,
    {
        match self {
            Lifetime::Custom(name) => Lifetime::Custom(name.clone()),
            Lifetime::Static => Lifetime::Static,
            Lifetime::Inferred => Lifetime::Inferred,
        }
    }

    /// The resolver's form of a written lifetime.
    pub fn from_ast_lt(ast_lt: ast::Lifetime) -> (r: Self)
        ensures
            lt_view(r) == crate::ast::lifetime_view(ast_lt),
    {
        match ast_lt {
            ast::Lifetime::Custom(name) => Lifetime::Custom(name),
            ast::Lifetime::Static => Lifetime::Static,
            ast::Lifetime::Inferred => Lifetime::Inferred,
        }
    }
}

impl Ty {
    /// A copy of the type.
    pub fn duplicate(&self) -> (r: Self)
        ensures
            sem_view(r) == sem_view(*self),
        decreases self,
    {
        match self {
            Ty::Empty => Ty::Empty,
            Ty::Enum(e) => Ty::Enum(
                EnumTy { name: e.name.clone(), vis: e.vis, variants: copy_variants(&e.variants) },
            ),
            Ty::Struct(s) => Ty::Struct(
                StructTy { vis: s.vis, name: s.name.clone(), fields: copy_fields(&s.fields) },
            ),
            Ty::Union(u) => Ty::Union(
                UnionTy { vis: u.vis, name: u.name.clone(), fields: copy_fields(&u.fields) },
            ),
            Ty::Tuple(tu) => Ty::Tuple(TupleTy { fields: copy_fields(&tu.fields) }),
            Ty::Array(a) => Ty::Array(ArrayTy { elem_ty: Box::new(a.elem_ty.duplicate()) }),
            Ty::Primitive(p) => Ty::Primitive(*p),
            Ty::Ref(rf) => {
                let lt = match &rf.lt {
                    Some(lt) => Some(lt.duplicate()),
                    None => None,
                };
                Ty::Ref(RefTy { lt, mutability: rf.mutability, ty: Box::new(rf.ty.duplicate()) })
            },
            Ty::Unresolved(u) => {
                let mut generics: Vec<TyOrConstVal> = Vec::new();
                let mut i: usize = 0;
                while i < u.generics.len()
                    invariant
                        i <= u.generics.len(),
                        args_view(generics@) == args_view(u.generics@.subrange(0, i as int)),
                    decreases u.generics.len() - i,
                {
                    let ghost prefix = u.generics@.subrange(0, i as int + 1);
                    assert(prefix.drop_last() =~= u.generics@.subrange(0, i as int));
                    let a = u.generics[i].duplicate();
                    let ghost before = generics@;
                    generics.push(a);
                    assert(generics@.drop_last() =~= before);
                    i = i + 1;
                }
                assert(u.generics@.subrange(0, u.generics.len() as int) =~= u.generics@);
                Ty::Unresolved(UnresolvedTy { name: u.name.clone(), generics })
            },
        }
    }
}

/// A copy of a variant list.
fn copy_variants(variants: &Vec<EnumVariant>) -> (r: Vec<EnumVariant>)
    decreases variants,
{
    let mut out: Vec<EnumVariant> = Vec::new();
    let mut i: usize = 0;
    while i < variants.len()
        decreases variants.len() - i,
    {
        out.push(variants[i].duplicate());
        i = i + 1;
    }
    out
}

impl EnumVariant {
    /// A copy of the variant.
    pub(crate) fn duplicate(&self) -> (r: Self)
        decreases self,
    {
        let mut fields: Vec<Ty> = Vec::new();
        let mut j: usize = 0;
        while j < self.fields.len()
            decreases self.fields.len() - j,
        {
            fields.push(self.fields[j].duplicate());
            j = j + 1;
        }
        EnumVariant { name: self.name.clone(), ord: self.ord, fields }
    }
}

impl Clone for Ty {
    fn clone(&self) -> (r: Self)
        ensures
            sem_view(r) == sem_view(*self),
    {
        self.duplicate()
    }
}


/// The decimal digit `d` as a character.
pub open spec fn digit_char(d: nat) -> char {
    if d == 0 {
        '0'
    } else if d == 1 {
        '1'
    } else if d == 2 {
        '2'
    } else if d == 3 {
        '3'
    } else if d == 4 {
        '4'
    } else if d == 5 {
        '5'
    } else if d == 6 {
        '6'
    } else if d == 7 {
        '7'
    } else if d == 8 {
        '8'
    } else {
        '9'
    }
}

/// The decimal spelling of `n`.
pub open spec fn decimal(n: nat) -> Seq<char>
    decreases n,
{
    if n < 10 {
        seq![digit_char(n)]
    } else {
        decimal(n / 10).push(digit_char(n % 10))
    }
}

fn digit_str(d: usize) -> (r: &'static str)
    requires
        d < 10,
    ensures
        r@ == seq![digit_char(d as nat)],
{
    proof {
        reveal_strlit("0");
        reveal_strlit("1");
        reveal_strlit("2");
        reveal_strlit("3");
        reveal_strlit("4");
        reveal_strlit("5");
        reveal_strlit("6");
        reveal_strlit("7");
        reveal_strlit("8");
        reveal_strlit("9");
    }
    let r = if d == 0 {
        "0"
    } else if d == 1 {
        "1"
    } else if d == 2 {
        "2"
    } else if d == 3 {
        "3"
    } else if d == 4 {
        "4"
    } else if d == 5 {
        "5"
    } else if d == 6 {
        "6"
    } else if d == 7 {
        "7"
    } else if d == 8 {
        "8"
    } else {
        "9"
    };
    assert(r@ =~= seq![digit_char(d as nat)]);
    r
}

/// The decimal spelling of `n` as a string.
pub fn decimal_text(n: usize) -> (r: String)
    ensures
        r@ == decimal(n as nat),
    decreases n,
{
    if n < 10 {
        text_of(digit_str(n))
    } else {
        let mut s = decimal_text(n / 10);
        push_text(&mut s, digit_str(n % 10));
        s
    }
}

pub open spec fn pow2(e: nat) -> nat
    decreases e,
{
    if e == 0 {
        1
    } else {
        2 * pow2((e - 1) as nat)
    }
}

pub proof fn lemma_pow2_monotonic(a: nat, b: nat)
    requires
        a <= b,
    ensures
        pow2(a) <= pow2(b),
    decreases b,
{
    if a < b {
        lemma_pow2_monotonic(a, (b - 1) as nat);
    }
}

/// `base * 2^exp`, where it fits in a `usize`; computed by doubling.
fn scaled(base: usize, exp: usize) -> (r: Option<usize>)
    requires
        base >= 1,
    ensures
        r is Some <==> base * pow2(exp as nat) <= usize::MAX,
        r matches Some(v) ==> v == base * pow2(exp as nat),
{
    let mut r = base;
    let mut i: usize = 0;
    assert(pow2(0) == 1);
    assert(r == base * pow2(0));
    while i < exp
        invariant
            i <= exp,
            base >= 1,
            r == base * pow2(i as nat),
        decreases exp - i,
    {
        assert(pow2(i as nat + 1) == 2 * pow2(i as nat));
        assert(r * 2 == base * pow2(i as nat + 1)) by (nonlinear_arith)
            requires
                r == base * pow2(i as nat),
                pow2(i as nat + 1) == 2 * pow2(i as nat),
        ;
        if r > usize::MAX / 2 {
            proof {
                lemma_pow2_monotonic(i as nat + 1, exp as nat);
                assert(base * pow2(i as nat + 1) <= base * pow2(exp as nat)) by (nonlinear_arith)
                    requires
                        pow2(i as nat + 1) <= pow2(exp as nat),
                        base >= 1,
                ;
            }
            return None;
        }
        r = r * 2;
        i = i + 1;
    }
    Some(r)
}

impl SizedIntTy {
    pub open spec fn bits_spec(&self) -> nat {
        16 * pow2(self.exp as nat)
    }

    /// The size in bits; it must fit in a `usize`.
    pub fn bits(&self) -> (r: usize)
        requires
            self.bits_spec() <= usize::MAX,
        ensures
            r == self.bits_spec(),
    {
        scaled(16, self.exp).unwrap()
    }
}

impl SizedFloatTy {
    pub open spec fn bits_spec(&self) -> nat {
        64 * pow2(self.exp as nat)
    }

    /// The size in bits; it must fit in a `usize`.
    pub fn bits(&self) -> (r: usize)
        requires
            self.bits_spec() <= usize::MAX,
        ensures
            r == self.bits_spec(),
    {
        scaled(64, self.exp).unwrap()
    }
}

/// Whether a primitive's size in bits fits in a `usize`.
pub open spec fn primitive_wf(p: PrimitiveTy) -> bool {
    match p {
        PrimitiveTy::SizedInt(si) => si.bits_spec() <= usize::MAX,
        PrimitiveTy::SizedFloat(sf) => sf.bits_spec() <= usize::MAX,
        _ => true,
    }
}

/// The spelling of a primitive type.
pub open spec fn primitive_text(p: PrimitiveTy) -> Seq<char> {
    match p {
        PrimitiveTy::Bool => seq!['b', 'o', 'o', 'l'],
        PrimitiveTy::Char => seq!['c', 'h', 'a', 'r'],
        PrimitiveTy::Str => seq!['s', 't', 'r'],
        PrimitiveTy::MachineSizedInt(ms) => if ms.unsigned {
            seq!['u', 's', 'i', 'z', 'e']
        } else {
            seq!['i', 's', 'i', 'z', 'e']
        },
        PrimitiveTy::SizedInt(si) => seq![
            if si.unsigned {
                'u'
            } else {
                'i'
            },
        ] + decimal(si.bits_spec()),
        PrimitiveTy::UnsizedInt => seq!['i', '3', '2'],
        PrimitiveTy::SizedFloat(sf) => seq!['f'] + decimal(sf.bits_spec()),
    }
}

impl PrimitiveTy {
    /// The spelling of the type; an integer whose size is not fixed spells as `i32`.
    pub fn to_string(&self) -> (r: String)
        requires
            primitive_wf(*self),
        ensures
            r@ == primitive_text(*self),
    {
        proof {
            reveal_strlit("bool");
            reveal_strlit("char");
            reveal_strlit("str");
            reveal_strlit("usize");
            reveal_strlit("isize");
            reveal_strlit("i32");
            reveal_strlit("u");
            reveal_strlit("i");
            reveal_strlit("f");
        }
        match self {
            PrimitiveTy::Bool => {
                let r = text_of("bool");
                assert(r@ =~= primitive_text(*self));
                r
            },
            PrimitiveTy::Char => {
                let r = text_of("char");
                assert(r@ =~= primitive_text(*self));
                r
            },
            PrimitiveTy::Str => {
                let r = text_of("str");
                assert(r@ =~= primitive_text(*self));
                r
            },
            PrimitiveTy::MachineSizedInt(ms) => {
                let r = if ms.unsigned {
                    text_of("usize")
                } else {
                    text_of("isize")
                };
                assert(r@ =~= primitive_text(*self));
                r
            },
            PrimitiveTy::SizedInt(si) => {
                let mut r = if si.unsigned {
                    text_of("u")
                } else {
                    text_of("i")
                };
                let digits = decimal_text(si.bits());
                push_text(&mut r, digits.as_str());
                assert(r@ =~= primitive_text(*self));
                r
            },
            PrimitiveTy::UnsizedInt => {
                let r = text_of("i32");
                assert(r@ =~= primitive_text(*self));
                r
            },
            PrimitiveTy::SizedFloat(sf) => {
                let mut r = text_of("f");
                let digits = decimal_text(sf.bits());
                push_text(&mut r, digits.as_str());
                assert(r@ =~= primitive_text(*self));
                r
            },
        }
    }
}


fn same_lifetime(a: &Lifetime, b: &Lifetime) -> (r: bool)
    ensures
        r == (lt_view(*a) == lt_view(*b)),
{
    match (a, b) {
        (Lifetime::Custom(x), Lifetime::Custom(y)) => same_text(x.as_str(), y.as_str()),
        (Lifetime::Static, Lifetime::Static) => true,
        (Lifetime::Inferred, Lifetime::Inferred) => true,
        _ => false,
    }
}

fn same_ast_lifetime(a: &ast::Lifetime, b: &ast::Lifetime) -> (r: bool)
    ensures
        r == (crate::ast::lifetime_view(*a) == crate::ast::lifetime_view(*b)),
{
    match (a, b) {
        (ast::Lifetime::Custom(x), ast::Lifetime::Custom(y)) => same_text(x.as_str(), y.as_str()),
        (ast::Lifetime::Static, ast::Lifetime::Static) => true,
        (ast::Lifetime::Inferred, ast::Lifetime::Inferred) => true,
        _ => false,
    }
}

/// Whether two written types have the same shape.
pub fn same_written_ty(a: &ast::Ty, b: &ast::Ty) -> (r: bool)
    ensures
        r == (ty_view(*a) == ty_view(*b)),
    decreases a,
{
    match (&a.kind, &b.kind) {
        (ast::TyKind::Ref(x), ast::TyKind::Ref(y)) => {
            let same_lt = match (&x.lt, &y.lt) {
                (Some(p), Some(q)) => same_ast_lifetime(p, q),
                (None, None) => true,
                _ => false,
            };
            same_lt && x.mutability == y.mutability && same_written_ty(&x.ty, &y.ty)
        },
        (ast::TyKind::Array(x), ast::TyKind::Array(y)) => {
            x.amount.is_some() == y.amount.is_some() && same_written_ty(&x.ty, &y.ty)
        },
        (ast::TyKind::Owned(x), ast::TyKind::Owned(y)) => {
            same_text(x.name.as_str(), y.name.as_str()) && same_written_args(&x.generics, &y.generics)
        },
        _ => false,
    }
}

/// Whether two generic argument lists have the same shape.
pub fn same_written_args(a: &Vec<TyOrConstVal>, b: &Vec<TyOrConstVal>) -> (r: bool)
    ensures
        r == (args_view(a@) == args_view(b@)),
    decreases a,
{
    proof {
        lemma_args_view(a@);
        lemma_args_view(b@);
    }
    if a.len() != b.len() {
        return false;
    }
    let mut i: usize = 0;
    while i < a.len()
        invariant
            a.len() == b.len(),
            i <= a.len(),
            args_view(a@).len() == a.len(),
            args_view(b@).len() == b.len(),
            forall|j: int| 0 <= j < a.len() ==> #[trigger] args_view(a@)[j] == arg_view(a@[j]),
            forall|j: int| 0 <= j < b.len() ==> #[trigger] args_view(b@)[j] == arg_view(b@[j]),
            forall|j: int| 0 <= j < i ==> arg_view(#[trigger] a@[j]) == arg_view(b@[j]),
        decreases a.len() - i,
    {
        let same = match (&a[i], &b[i]) {
            (TyOrConstVal::Ty(x), TyOrConstVal::Ty(y)) => same_written_ty(x, y),
            (TyOrConstVal::ConstVal(_), TyOrConstVal::ConstVal(_)) => true,
            _ => false,
        };
        if !same {
            assert(args_view(a@)[i as int] != args_view(b@)[i as int]);
            return false;
        }
        i = i + 1;
    }
    assert(args_view(a@) =~= args_view(b@));
    true
}

fn same_fields(a: &Vec<StructField>, b: &Vec<StructField>) -> (r: bool)
    ensures
        r == (fields_view(a@) == fields_view(b@)),
    decreases a,
{
    proof {
        lemma_fields_view(a@);
        lemma_fields_view(b@);
    }
    if a.len() != b.len() {
        return false;
    }
    let mut i: usize = 0;
    while i < a.len()
        invariant
            a.len() == b.len(),
            i <= a.len(),
            fields_view(a@).len() == a.len(),
            fields_view(b@).len() == b.len(),
            forall|j: int| 0 <= j < a.len() ==> #[trigger] fields_view(a@)[j] == field_view(a@[j]),
            forall|j: int| 0 <= j < b.len() ==> #[trigger] fields_view(b@)[j] == field_view(b@[j]),
            forall|j: int| 0 <= j < i ==> field_view(#[trigger] a@[j]) == field_view(b@[j]),
        decreases a.len() - i,
    {
        let same = a[i].vis == b[i].vis && same_text(a[i].name.as_str(), b[i].name.as_str())
            && same_ty(&a[i].ty, &b[i].ty);
        if !same {
            assert(fields_view(a@)[i as int] != fields_view(b@)[i as int]);
            return false;
        }
        i = i + 1;
    }
    assert(fields_view(a@) =~= fields_view(b@));
    true
}

/// Whether two resolver types are the same as the contracts see them.
pub fn same_ty(a: &Ty, b: &Ty) -> (r: bool)
    ensures
        r == (sem_view(*a) == sem_view(*b)),
    decreases a,
{
    match (a, b) {
        (Ty::Empty, Ty::Empty) => true,
        (Ty::Enum(x), Ty::Enum(y)) => x.vis == y.vis && same_text(x.name.as_str(), y.name.as_str()),
        (Ty::Struct(x), Ty::Struct(y)) => x.vis == y.vis && same_text(x.name.as_str(), y.name.as_str())
            && same_fields(&x.fields, &y.fields),
        (Ty::Union(x), Ty::Union(y)) => x.vis == y.vis && same_text(x.name.as_str(), y.name.as_str())
            && same_fields(&x.fields, &y.fields),
        (Ty::Tuple(x), Ty::Tuple(y)) => same_fields(&x.fields, &y.fields),
        (Ty::Array(x), Ty::Array(y)) => same_ty(&x.elem_ty, &y.elem_ty),
        (Ty::Primitive(x), Ty::Primitive(y)) => *x == *y,
        (Ty::Ref(x), Ty::Ref(y)) => {
            let same_lt = match (&x.lt, &y.lt) {
                (Some(p), Some(q)) => same_lifetime(p, q),
                (None, None) => true,
                _ => false,
            };
            same_lt && x.mutability == y.mutability && same_ty(&x.ty, &y.ty)
        },
        (Ty::Unresolved(x), Ty::Unresolved(y)) => same_text(x.name.as_str(), y.name.as_str())
            && same_written_args(&x.generics, &y.generics),
        _ => false,
    }
}

/// The field names of a tuple joined by commas.
pub open spec fn joined_names(fields: Seq<FieldView>) -> Seq<char>
    decreases fields.len(),
{
    if fields.len() == 0 {
        Seq::empty()
    } else if fields.len() == 1 {
        fields[0].name
    } else {
        joined_names(fields.drop_last()) + seq![','] + fields.last().name
    }
}

/// The spelling a tuple type is compared by: its field names in parentheses.
pub open spec fn tuple_text(fields: Seq<FieldView>) -> Seq<char> {
    seq!['('] + joined_names(fields) + seq![')']
}

/// Whether an unresolved type named `name` with generic arguments `gens` may stand for `t`:
/// by name for user types, by spelling for primitives, `()` for the empty type, and for a
/// reference by a leading `&` on the name and a match of the rest against the referenced type.
pub open spec fn unresolved_matches(name: Seq<char>, gens: Seq<ArgView>, t: SemTy) -> bool
    decreases t,
{
    match t {
        SemTy::Empty => name == seq!['(', ')'],
        SemTy::Enum(_, n) => name == n,
        SemTy::Struct(_, n, _) => name == n,
        SemTy::Union(_, n, _) => name == n,
        SemTy::Tuple(fields) => name == tuple_text(fields),
        SemTy::Array(_) => false,
        SemTy::Primitive(p) => primitive_wf(p) && name == primitive_text(p),
        SemTy::Ref(_, _, inner) => name.len() > 0 && name[0] == '&' && (*inner == SemTy::Unresolved(
            name.drop_first(),
            gens,
        ) || (!(*inner is Unresolved) && unresolved_matches(name.drop_first(), gens, *inner))),
        SemTy::Unresolved(_, _) => false,
    }
}

/// Whether two types are compatible: equal, or one is unresolved and may stand for the
/// other. Two unresolved types are compatible only when equal.
pub open spec fn could_be_spec(a: SemTy, b: SemTy) -> bool {
    ||| a == b
    ||| (a matches SemTy::Unresolved(name, gens) && unresolved_matches(name, gens, b))
    ||| (b matches SemTy::Unresolved(name, gens) && !(a is Unresolved) && unresolved_matches(
        name,
        gens,
        a,
    ))
}

fn tuple_name(fields: &Vec<StructField>) -> (r: String)
    ensures
        r@ == tuple_text(fields_view(fields@)),
{
    proof {
        lemma_fields_view(fields@);
        reveal_strlit("(");
        reveal_strlit(")");
        reveal_strlit(",");
    }
    let mut joined = String::new();
    let mut i: usize = 0;
    while i < fields.len()
        invariant
            i <= fields.len(),
            fields_view(fields@).len() == fields.len(),
            forall|j: int| 0 <= j < fields.len() ==> #[trigger] fields_view(fields@)[j] == field_view(fields@[j]),
            joined@ == joined_names(fields_view(fields@).subrange(0, i as int)),
        decreases fields.len() - i,
    {
        let ghost views = fields_view(fields@);
        let ghost next = views.subrange(0, i as int + 1);
        assert(next.drop_last() =~= views.subrange(0, i as int));
        assert(next.last() == field_view(fields@[i as int]));
        proof {
            reveal_strlit(",");
        }
        assert(","@ =~= seq![',']);
        if i > 0 {
            push_text(&mut joined, ",");
        } else {
            assert(joined@ =~= Seq::<char>::empty());
        }
        push_text(&mut joined, fields[i].name.as_str());
        assert(next.last().name == fields@[i as int].name@);
        if i == 0 {
            assert(next[0] == next.last());
            assert(joined@ =~= joined_names(next));
        } else {
            assert(joined@ =~= joined_names(next));
        }
        i = i + 1;
    }
    assert(fields_view(fields@).subrange(0, fields.len() as int) =~= fields_view(fields@));
    let mut r = text_of("(");
    push_text(&mut r, joined.as_str());
    push_text(&mut r, ")");
    assert("("@ =~= seq!['(']);
    assert(")"@ =~= seq![')']);
    assert(r@ =~= tuple_text(fields_view(fields@)));
    r
}

/// Exec form of `unresolved_matches`.
fn unresolved_could_be(name: &str, gens: &Vec<TyOrConstVal>, t: &Ty) -> (r: bool)
    ensures
        r == unresolved_matches(name@, args_view(gens@), sem_view(*t)),
    decreases t,
{
    proof {
        reveal_strlit("()");
    }
    match t {
        Ty::Empty => {
            assert("()"@ =~= seq!['(', ')']);
            let r = same_text(name, "()");
            assert(r == (name@ == seq!['(', ')']));
            r
        },
        Ty::Enum(e) => {
            let r = same_text(name, e.name.as_str());
            assert(r == unresolved_matches(name@, args_view(gens@), sem_view(*t)));
            r
        },
        Ty::Struct(s) => {
            let r = same_text(name, s.name.as_str());
            assert(r == unresolved_matches(name@, args_view(gens@), sem_view(*t)));
            r
        },
        Ty::Union(u) => {
            let r = same_text(name, u.name.as_str());
            assert(r == unresolved_matches(name@, args_view(gens@), sem_view(*t)));
            r
        },
        Ty::Tuple(tu) => {
            let text = tuple_name(&tu.fields);
            let r = same_text(name, text.as_str());
            assert(r == unresolved_matches(name@, args_view(gens@), sem_view(*t)));
            r
        },
        Ty::Array(_) => false,
        Ty::Primitive(p) => {
            let wf = match p {
                PrimitiveTy::SizedInt(si) => scaled(16, si.exp).is_some(),
                PrimitiveTy::SizedFloat(sf) => scaled(64, sf.exp).is_some(),
                _ => true,
            };
            if !wf {
                assert(!unresolved_matches(name@, args_view(gens@), sem_view(*t)));
                return false;
            }
            let text = p.to_string();
            let r = same_text(name, text.as_str());
            assert(r == unresolved_matches(name@, args_view(gens@), sem_view(*t)));
            r
        },
        Ty::Ref(rf) => {
            let n = name.unicode_len();
            if n == 0 || name.get_char(0) != '&' {
                return false;
            }
            let rest = name.substring_char(1, n);
            assert(rest@ =~= name@.drop_first());
            match &*rf.ty {
                Ty::Unresolved(inner) => {
                    let r = same_text(rest, inner.name.as_str()) && same_written_args(
                        gens,
                        &inner.generics,
                    );
                    assert(r == unresolved_matches(name@, args_view(gens@), sem_view(*t)));
                    r
                },
                _ => {
                    assert(!(sem_view(*rf.ty) is Unresolved));
                    let r = unresolved_could_be(rest, gens, &rf.ty);
                    assert(r == unresolved_matches(name@, args_view(gens@), sem_view(*t)));
                    r
                },
            }
        },
        Ty::Unresolved(_) => false,
    }
}

impl Ty {
    /// Whether a value of this type could be one of `other` (see `could_be_spec`).
    pub fn could_be(&self, other: &Ty) -> (r: bool)
        ensures
            r == could_be_spec(sem_view(*self), sem_view(*other)),
    {
        if same_ty(self, other) {
            return true;
        }
        if let Ty::Unresolved(unresolved) = self {
            return unresolved_could_be(unresolved.name.as_str(), &unresolved.generics, other);
        }
        match other {
            Ty::Unresolved(unresolved) => unresolved_could_be(
                unresolved.name.as_str(),
                &unresolved.generics,
                self,
            ),
            _ => false,
        }
    }

    /// The resolver's form of a written type: references and arrays keep their shape, a
    /// name that spells a primitive type becomes that type, and any other named type
    /// becomes `Unresolved` with its generic arguments.
    pub fn from_ast_ty(ast_ty: ast::TyKind, scaffolding: Option<TyScaffolding>) -> (r: Self)
        ensures
            sem_view(r) == sem_of_written(ty_view(ast::Ty { kind: ast_ty })),
        decreases ast_ty,
    {
        match ast_ty {
            ast::TyKind::Ref(rf) => {
                let rf = *rf;
                let lt = match rf.lt {
                    Some(lt) => Some(Lifetime::from_ast_lt(lt)),
                    None => None,
                };
                let inner = Self::from_ast_ty(rf.ty.kind, scaffolding);
                Ty::Ref(RefTy { lt, mutability: rf.mutability, ty: Box::new(inner) })
            },
            ast::TyKind::Array(array) => {
                let array = *array;
                Ty::Array(ArrayTy { elem_ty: Box::new(Self::from_ast_ty(array.ty.kind, scaffolding)) })
            },
            ast::TyKind::Owned(owned) => {
                let owned = *owned;
                if owned.generics.len() == 0 {
                    if let Some(p) = primitive_from_name(owned.name.as_str()) {
                        proof {
                            crate::tyck::lemma_args_view(owned.generics@);
                        }
                        return Ty::Primitive(p);
                    }
                }
                proof {
                    lemma_args_view(owned.generics@);
                }
                Ty::Unresolved(UnresolvedTy { name: owned.name, generics: owned.generics })
            },
        }
    }
}

/// The primitive type a written name spells, where it spells one whose size this resolver
/// can express.
pub open spec fn primitive_named(name: Seq<char>) -> Option<PrimitiveTy> {
    if name == seq!['b', 'o', 'o', 'l'] {
        Some(PrimitiveTy::Bool)
    } else if name == seq!['c', 'h', 'a', 'r'] {
        Some(PrimitiveTy::Char)
    } else if name == seq!['s', 't', 'r'] {
        Some(PrimitiveTy::Str)
    } else if name == seq!['u', 's', 'i', 'z', 'e'] {
        Some(PrimitiveTy::MachineSizedInt(MachineSizedIntTy { unsigned: true }))
    } else if name == seq!['i', 's', 'i', 'z', 'e'] {
        Some(PrimitiveTy::MachineSizedInt(MachineSizedIntTy { unsigned: false }))
    } else if name == seq!['u', '1', '6'] {
        Some(PrimitiveTy::SizedInt(SizedIntTy { unsigned: true, exp: 0 }))
    } else if name == seq!['i', '1', '6'] {
        Some(PrimitiveTy::SizedInt(SizedIntTy { unsigned: false, exp: 0 }))
    } else if name == seq!['u', '3', '2'] {
        Some(PrimitiveTy::SizedInt(SizedIntTy { unsigned: true, exp: 1 }))
    } else if name == seq!['i', '3', '2'] {
        Some(PrimitiveTy::SizedInt(SizedIntTy { unsigned: false, exp: 1 }))
    } else if name == seq!['u', '6', '4'] {
        Some(PrimitiveTy::SizedInt(SizedIntTy { unsigned: true, exp: 2 }))
    } else if name == seq!['i', '6', '4'] {
        Some(PrimitiveTy::SizedInt(SizedIntTy { unsigned: false, exp: 2 }))
    } else if name == seq!['u', '1', '2', '8'] {
        Some(PrimitiveTy::SizedInt(SizedIntTy { unsigned: true, exp: 3 }))
    } else if name == seq!['i', '1', '2', '8'] {
        Some(PrimitiveTy::SizedInt(SizedIntTy { unsigned: false, exp: 3 }))
    } else if name == seq!['f', '6', '4'] {
        Some(PrimitiveTy::SizedFloat(SizedFloatTy { unsigned: false, exp: 0 }))
    } else if name == seq!['f', '1', '2', '8'] {
        Some(PrimitiveTy::SizedFloat(SizedFloatTy { unsigned: false, exp: 1 }))
    } else {
        None
    }
}

/// The primitive type `name` spells (see `primitive_named`).
pub fn primitive_from_name(name: &str) -> (r: Option<PrimitiveTy>)
    ensures
        r == primitive_named(name@),
{
    proof {
        reveal_strlit("bool");
        assert("bool"@ =~= seq!['b', 'o', 'o', 'l']);
        reveal_strlit("char");
        assert("char"@ =~= seq!['c', 'h', 'a', 'r']);
        reveal_strlit("str");
        assert("str"@ =~= seq!['s', 't', 'r']);
        reveal_strlit("usize");
        assert("usize"@ =~= seq!['u', 's', 'i', 'z', 'e']);
        reveal_strlit("isize");
        assert("isize"@ =~= seq!['i', 's', 'i', 'z', 'e']);
        reveal_strlit("u16");
        assert("u16"@ =~= seq!['u', '1', '6']);
        reveal_strlit("i16");
        assert("i16"@ =~= seq!['i', '1', '6']);
        reveal_strlit("u32");
        assert("u32"@ =~= seq!['u', '3', '2']);
        reveal_strlit("i32");
        assert("i32"@ =~= seq!['i', '3', '2']);
        reveal_strlit("u64");
        assert("u64"@ =~= seq!['u', '6', '4']);
        reveal_strlit("i64");
        assert("i64"@ =~= seq!['i', '6', '4']);
        reveal_strlit("u128");
        assert("u128"@ =~= seq!['u', '1', '2', '8']);
        reveal_strlit("i128");
        assert("i128"@ =~= seq!['i', '1', '2', '8']);
        reveal_strlit("f64");
        assert("f64"@ =~= seq!['f', '6', '4']);
        reveal_strlit("f128");
        assert("f128"@ =~= seq!['f', '1', '2', '8']);
    }
    if same_text(name, "bool") {
        return Some(PrimitiveTy::Bool);
    }
    if same_text(name, "char") {
        return Some(PrimitiveTy::Char);
    }
    if same_text(name, "str") {
        return Some(PrimitiveTy::Str);
    }
    if same_text(name, "usize") {
        return Some(PrimitiveTy::MachineSizedInt(MachineSizedIntTy { unsigned: true }));
    }
    if same_text(name, "isize") {
        return Some(PrimitiveTy::MachineSizedInt(MachineSizedIntTy { unsigned: false }));
    }
    if same_text(name, "u16") {
        return Some(PrimitiveTy::SizedInt(SizedIntTy { unsigned: true, exp: 0 }));
    }
    if same_text(name, "i16") {
        return Some(PrimitiveTy::SizedInt(SizedIntTy { unsigned: false, exp: 0 }));
    }
    if same_text(name, "u32") {
        return Some(PrimitiveTy::SizedInt(SizedIntTy { unsigned: true, exp: 1 }));
    }
    if same_text(name, "i32") {
        return Some(PrimitiveTy::SizedInt(SizedIntTy { unsigned: false, exp: 1 }));
    }
    if same_text(name, "u64") {
        return Some(PrimitiveTy::SizedInt(SizedIntTy { unsigned: true, exp: 2 }));
    }
    if same_text(name, "i64") {
        return Some(PrimitiveTy::SizedInt(SizedIntTy { unsigned: false, exp: 2 }));
    }
    if same_text(name, "u128") {
        return Some(PrimitiveTy::SizedInt(SizedIntTy { unsigned: true, exp: 3 }));
    }
    if same_text(name, "i128") {
        return Some(PrimitiveTy::SizedInt(SizedIntTy { unsigned: false, exp: 3 }));
    }
    if same_text(name, "f64") {
        return Some(PrimitiveTy::SizedFloat(SizedFloatTy { unsigned: false, exp: 0 }));
    }
    if same_text(name, "f128") {
        return Some(PrimitiveTy::SizedFloat(SizedFloatTy { unsigned: false, exp: 1 }));
    }
    None
}

/// The resolver's form of a written type shape.
pub open spec fn sem_of_written(t: crate::ast::TyView) -> SemTy
    decreases t,
{
    match t {
        crate::ast::TyView::Ref(lt, m, inner) => SemTy::Ref(lt, m, Box::new(sem_of_written(*inner))),
        crate::ast::TyView::Array(inner, _) => SemTy::Array(Box::new(sem_of_written(*inner))),
        crate::ast::TyView::Owned(name, args) => if args.len() == 0 && primitive_named(name) is Some {
            SemTy::Primitive(primitive_named(name)->Some_0)
        } else {
            SemTy::Unresolved(name, args)
        },
    }
}


/// A user-declared data type.
#[derive(Debug)]
pub enum Adt {
    Struct(ast::StructDef),
}

impl Adt {
    pub fn to_scaffolding(&self) -> (r: TyScaffolding)
        ensures
            self is Struct ==> r == TyScaffolding::Struct,
    {
        match self {
            Adt::Struct(_) => TyScaffolding::Struct,
        }
    }
}

/// Where a variable name leads: a static binding (one writer), or a stack of local bindings
/// of which the last is visible.
#[derive(Debug)]
pub enum Dest {
    Static(Ty),
    Local(Vec<Ty>),
}

/// One frame of the scope stack.
#[derive(Debug)]
pub struct Scope {
    pub vars: Vec<(String, Dest)>,
    pub funcs: Vec<(String, ast::FunctionNode)>,
}

impl Scope {
    pub fn new() -> (r: Self)
        ensures
            r.vars@.len() == 0,
            r.funcs@.len() == 0,
    {
        Scope { vars: Vec::new(), funcs: Vec::new() }
    }
}

/// The value bound to `key` by the last entry that names it.
pub open spec fn lookup<V>(entries: Seq<(String, V)>, key: Seq<char>) -> Option<V>
    decreases entries.len(),
{
    if entries.len() == 0 {
        None
    } else if entries.last().0@ == key {
        Some(entries.last().1)
    } else {
        lookup(entries.drop_last(), key)
    }
}

/// The type a destination makes visible.
pub open spec fn dest_ty(d: Dest) -> Option<Ty> {
    match d {
        Dest::Static(t) => Some(t),
        Dest::Local(tys) => if tys@.len() > 0 {
            Some(tys@.last())
        } else {
            None
        },
    }
}

/// The binding of `name` in the innermost frame that binds it.
pub open spec fn var_binding(frames: Seq<Scope>, name: Seq<char>) -> Option<Dest>
    decreases frames.len(),
{
    if frames.len() == 0 {
        None
    } else {
        match lookup(frames.last().vars@, name) {
            Some(d) => Some(d),
            None => var_binding(frames.drop_last(), name),
        }
    }
}

/// The type `name` resolves to: from its innermost binding.
pub open spec fn resolve_var_spec(frames: Seq<Scope>, name: Seq<char>) -> Option<Ty> {
    match var_binding(frames, name) {
        Some(d) => dest_ty(d),
        None => None,
    }
}

/// The function `name` resolves to: from the innermost frame that defines it.
pub open spec fn func_binding(frames: Seq<Scope>, name: Seq<char>) -> Option<ast::FunctionNode>
    decreases frames.len(),
{
    if frames.len() == 0 {
        None
    } else {
        match lookup(frames.last().funcs@, name) {
            Some(f) => Some(f),
            None => func_binding(frames.drop_last(), name),
        }
    }
}

/// The local stack of `name` in `scope`: empty where it has no local binding.
pub open spec fn local_stack(scope: Scope, name: Seq<char>) -> Seq<Ty> {
    match lookup(scope.vars@, name) {
        Some(Dest::Local(tys)) => tys@,
        _ => Seq::empty(),
    }
}

/// `after` is `before` with `ty` pushed on the local stack of `name`; nothing else changed.
pub open spec fn local_pushed(before: Scope, after: Scope, name: Seq<char>, ty: Ty) -> bool {
    &&& after.funcs@ == before.funcs@
    &&& lookup(after.vars@, name) is Some
    &&& lookup(after.vars@, name)->Some_0 is Local
    &&& local_stack(after, name) == local_stack(before, name).push(ty)
    &&& forall|k: Seq<char>| k != name ==> #[trigger] lookup(after.vars@, k) == lookup(before.vars@, k)
}

pub proof fn lemma_lookup_push<V>(entries: Seq<(String, V)>, e: (String, V), key: Seq<char>)
    ensures
        lookup(entries.push(e), key) == if e.0@ == key {
            Some(e.1)
        } else {
            lookup(entries, key)
        },
{
    assert(entries.push(e).drop_last() =~= entries);
}

/// Replacing the value of the last entry that names `key` changes the lookup of `key` only.
pub proof fn lemma_lookup_update<V>(entries: Seq<(String, V)>, i: int, v: V, key: Seq<char>)
    requires
        0 <= i < entries.len(),
        entries[i].0@ == key,
        forall|j: int| i < j < entries.len() ==> (#[trigger] entries[j]).0@ != key,
    ensures
        forall|k: Seq<char>| #[trigger] lookup(entries.update(i, (entries[i].0, v)), k) == if k == key {
            Some(v)
        } else {
            lookup(entries, k)
        },
    decreases entries.len(),
{
    let updated = entries.update(i, (entries[i].0, v));
    if i == entries.len() - 1 {
        assert(updated.drop_last() =~= entries.drop_last());
        assert forall|k: Seq<char>| #[trigger] lookup(updated, k) == if k == key {
            Some(v)
        } else {
            lookup(entries, k)
        } by {
            assert(updated.last() == (entries[i].0, v));
        }
    } else {
        lemma_lookup_update(entries.drop_last(), i, v, key);
        assert(updated.drop_last() =~= entries.drop_last().update(i, (entries[i].0, v)));
        assert(entries[entries.len() - 1].0@ != key);
        assert forall|k: Seq<char>| #[trigger] lookup(updated, k) == if k == key {
            Some(v)
        } else {
            lookup(entries, k)
        } by {
            assert(updated.last() == entries.last());
            assert(lookup(updated.drop_last(), k) == lookup(
                entries.drop_last().update(i, (entries[i].0, v)),
                k,
            ));
        }
    }
}

/// The index of the last entry that names `key`.
fn find_last<V>(entries: &Vec<(String, V)>, key: &str) -> (r: Option<usize>)
    ensures
        r is None <==> lookup(entries@, key@) is None,
        r matches Some(i) ==> i < entries.len() && entries@[i as int].0@ == key@ && lookup(
            entries@,
            key@,
        ) == Some(entries@[i as int].1) && forall|j: int|
            i < j < entries.len() ==> (#[trigger] entries@[j]).0@ != key@,
{
    let mut i = entries.len();
    assert(entries@.subrange(0, i as int) =~= entries@);
    while i > 0
        invariant
            i <= entries.len(),
            lookup(entries@, key@) == lookup(entries@.subrange(0, i as int), key@),
            forall|j: int| i <= j < entries.len() ==> (#[trigger] entries@[j]).0@ != key@,
        decreases i,
    {
        let ghost prefix = entries@.subrange(0, i as int);
        assert(prefix.drop_last() =~= entries@.subrange(0, i as int - 1));
        if same_text(entries[i - 1].0.as_str(), key) {
            return Some(i - 1);
        }
        i = i - 1;
    }
    None
}

/// `after` is `before` with `(name, ty)` registered, if `name` was free, and unchanged else.
pub open spec fn static_defined(before: Scope, after: Scope, name: String, ty: Ty, r: bool) -> bool {
    &&& r == (lookup(before.vars@, name@) is None)
    &&& r ==> after.vars@ == before.vars@.push((name, Dest::Static(ty)))
    &&& !r ==> after.vars@ == before.vars@
    &&& after.funcs@ == before.funcs@
}

/// Pushes `ty` on the local stack of `var` in `scope`; fails where `var` is static there.
fn define_in(scope: &mut Scope, var: String, ty: Ty) -> (r: bool)
    ensures
        r == !(lookup(old(scope).vars@, var@) matches Some(Dest::Static(_))),
        r ==> local_pushed(*old(scope), *final(scope), var@, ty),
        !r ==> *final(scope) == *old(scope),
{
    match find_last(&scope.vars, var.as_str()) {
        Some(i) => {
            if let Dest::Static(_) = &scope.vars[i].1 {
                return false;
            }
            let ghost before = scope.vars@;
            let (name, dest) = scope.vars.remove(i);
            let mut tys = match dest {
                Dest::Local(tys) => tys,
                Dest::Static(_) => Vec::new(),
            };
            tys.push(ty);
            let ghost new_entry = (name, Dest::Local(tys));
            scope.vars.insert(i, (name, Dest::Local(tys)));
            proof {
                assert(scope.vars@ =~= before.update(i as int, (before[i as int].0, new_entry.1)));
                lemma_lookup_update(before, i as int, new_entry.1, var@);
            }
            true
        },
        None => {
            let ghost before = scope.vars@;
            let mut tys: Vec<Ty> = Vec::new();
            tys.push(ty);
            let ghost name = var@;
            let ghost entry = (var, Dest::Local(tys));
            scope.vars.push((var, Dest::Local(tys)));
            proof {
                assert forall|k: Seq<char>| #[trigger] lookup(scope.vars@, k) == if k == name {
                    Some(entry.1)
                } else {
                    lookup(before, k)
                } by {
                    lemma_lookup_push(before, entry, k);
                }
                assert(tys@ =~= Seq::<Ty>::empty().push(ty));
            }
            true
        },
    }
}


/// The bindings of one compilation: a stack of scope frames whose bottom (global) frame is
/// never popped, the registered data types by path and name, and the impl blocks by path
/// and name.
pub struct Environment {
    globals: Scope,
    locals: Vec<Scope>,
    adts_by_path: Vec<(String, String, (Adt, Ty))>,
    adt_impls_by_path: Vec<(String, String, Vec<ast::AdtImpl>)>,
}

/// The entry registered for `name` under `path`, the last one where there are several.
pub open spec fn adt_lookup<V>(entries: Seq<(String, String, V)>, path: Seq<char>, name: Seq<char>) -> Option<V>
    decreases entries.len(),
{
    if entries.len() == 0 {
        None
    } else if entries.last().0@ == path && entries.last().1@ == name {
        Some(entries.last().2)
    } else {
        adt_lookup(entries.drop_last(), path, name)
    }
}

/// The field list a struct definition's written fields derive.
pub open spec fn written_fields_view(fields: Seq<ast::StructFieldDef>) -> Seq<FieldView>
    decreases fields.len(),
{
    if fields.len() == 0 {
        Seq::empty()
    } else {
        written_fields_view(fields.drop_last()).push(
            FieldView {
                vis: fields.last().visibility,
                name: fields.last().name@,
                ty: sem_of_written(ty_view(fields.last().ty)),
            },
        )
    }
}

/// The type a data type declaration derives.
pub open spec fn derived_view(adt: Adt) -> SemTy {
    match adt {
        Adt::Struct(def) => SemTy::Struct(def.visibility, def.name@, written_fields_view(def.fields@)),
    }
}

fn find_entry<V>(entries: &Vec<(String, String, V)>, path: &str, name: &str) -> (r: Option<usize>)
    ensures
        r is None <==> adt_lookup(entries@, path@, name@) is None,
        r matches Some(i) ==> i < entries.len() && adt_lookup(entries@, path@, name@) == Some(
            entries@[i as int].2,
        ) && entries@[i as int].0@ == path@ && entries@[i as int].1@ == name@,
{
    let mut i = entries.len();
    assert(entries@.subrange(0, i as int) =~= entries@);
    while i > 0
        invariant
            i <= entries.len(),
            adt_lookup(entries@, path@, name@) == adt_lookup(entries@.subrange(0, i as int), path@, name@),
        decreases i,
    {
        let ghost prefix = entries@.subrange(0, i as int);
        assert(prefix.drop_last() =~= entries@.subrange(0, i as int - 1));
        if same_text(entries[i - 1].0.as_str(), path) && same_text(entries[i - 1].1.as_str(), name) {
            return Some(i - 1);
        }
        i = i - 1;
    }
    None
}

/// The type derived from a struct definition's fields.
fn derive_fields(fields: &Vec<ast::StructFieldDef>, scaffolding: TyScaffolding) -> (r: Vec<StructField>)
    ensures
        fields_view(r@) == written_fields_view(fields@),
{
    let mut out: Vec<StructField> = Vec::new();
    let mut i: usize = 0;
    while i < fields.len()
        invariant
            i <= fields.len(),
            fields_view(out@) == written_fields_view(fields@.subrange(0, i as int)),
        decreases fields.len() - i,
    {
        let ghost prefix = fields@.subrange(0, i as int + 1);
        assert(prefix.drop_last() =~= fields@.subrange(0, i as int));
        let x = &fields[i];
        let kind = x.ty.kind.duplicate();
        let f = StructField {
            vis: x.visibility,
            name: x.name.clone(),
            ty: Ty::from_ast_ty(kind, Some(scaffolding)),
        };
        assert(x.ty == ast::Ty { kind: x.ty.kind });
        assert(field_view(f) == FieldView {
            vis: x.visibility,
            name: x.name@,
            ty: sem_of_written(ty_view(x.ty)),
        });
        let ghost before = out@;
        out.push(f);
        assert(out@.drop_last() =~= before);
        i = i + 1;
    }
    assert(fields@.subrange(0, fields.len() as int) =~= fields@);
    out
}

impl Environment {
    /// The scope frames, the global one first.
    pub closed spec fn frames(&self) -> Seq<Scope> {
        seq![self.globals] + self.locals@
    }

    pub closed spec fn adts(&self) -> Seq<(String, String, (Adt, Ty))> {
        self.adts_by_path@
    }

    pub closed spec fn impls(&self) -> Seq<(String, String, Vec<ast::AdtImpl>)> {
        self.adt_impls_by_path@
    }

    /// There is always a global frame.
    pub proof fn lemma_has_global_frame(&self)
        ensures
            self.frames().len() >= 1,
            self.frames()[0] == self.globals_spec(),
    {
    }

    /// The global frame, which is never popped.
    pub closed spec fn globals_spec(&self) -> Scope {
        self.globals
    }

    /// An environment with one empty (global) frame and nothing registered.
    pub fn new() -> (r: Self)
        ensures
            r.frames().len() == 1,
            r.frames()[0].vars@.len() == 0,
            r.frames()[0].funcs@.len() == 0,
            r.adts().len() == 0,
            r.impls().len() == 0,
    {
        Environment {
            globals: Scope::new(),
            locals: Vec::new(),
            adts_by_path: Vec::new(),
            adt_impls_by_path: Vec::new(),
        }
    }

    /// Opens a new innermost frame.
    pub fn push_scope(&mut self)
        ensures
            final(self).frames().len() == old(self).frames().len() + 1,
            final(self).frames().drop_last() == old(self).frames(),
            final(self).frames().last().vars@.len() == 0,
            final(self).frames().last().funcs@.len() == 0,
            final(self).adts() == old(self).adts(),
            final(self).impls() == old(self).impls(),
    {
        self.locals.push(Scope::new());
        assert(self.frames().drop_last() =~= old(self).frames());
    }

    /// Closes the innermost frame; fails, changing nothing, where only the global one is left.
    pub fn pop_scope(&mut self) -> (r: bool)
        ensures
            r == (old(self).frames().len() > 1),
            r ==> final(self).frames() == old(self).frames().drop_last(),
            !r ==> final(self).frames() == old(self).frames(),
            final(self).adts() == old(self).adts(),
            final(self).impls() == old(self).impls(),
    {
        if self.locals.len() == 0 {
            return false;
        }
        self.locals.pop();
        assert(self.frames() =~= old(self).frames().drop_last());
        true
    }

    /// The type `var` resolves to, from the innermost frame that binds it.
    pub fn resolve_var(&self, var: &String) -> (r: Option<&Ty>)
        ensures
            r matches Some(t) ==> resolve_var_spec(self.frames(), var@) == Some(*t),
            r is None ==> resolve_var_spec(self.frames(), var@) is None,
    {
        let ghost frames = self.frames();
        let mut i = self.locals.len();
        assert(frames.subrange(0, i as int + 1) =~= frames);
        while i > 0
            invariant
                i <= self.locals.len(),
                frames == self.frames(),
                var_binding(frames, var@) == var_binding(frames.subrange(0, i as int + 1), var@),
            decreases i,
        {
            let ghost prefix = frames.subrange(0, i as int + 1);
            assert(prefix.drop_last() =~= frames.subrange(0, i as int));
            assert(prefix.last() == self.locals@[i as int - 1]);
            if let Some(j) = find_last(&self.locals[i - 1].vars, var.as_str()) {
                return match &self.locals[i - 1].vars[j].1 {
                    Dest::Static(ty) => Some(ty),
                    Dest::Local(tys) => if tys.len() > 0 {
                        Some(&tys[tys.len() - 1])
                    } else {
                        None
                    },
                };
            }
            i = i - 1;
        }
        let ghost prefix = frames.subrange(0, 1);
        assert(prefix.drop_last() =~= Seq::<Scope>::empty());
        assert(prefix.last() == self.globals);
        assert(var_binding(prefix.drop_last(), var@) is None);
        match find_last(&self.globals.vars, var.as_str()) {
            Some(j) => match &self.globals.vars[j].1 {
                Dest::Static(ty) => Some(ty),
                Dest::Local(tys) => if tys.len() > 0 {
                    Some(&tys[tys.len() - 1])
                } else {
                    None
                },
            },
            None => None,
        }
    }

    /// Pushes a local binding of `var` in the innermost frame; fails, changing nothing, where
    /// `var` is bound static in that frame.
    pub fn define_var(&mut self, var: String, ty: Ty) -> (r: bool)
        ensures
            r == !(lookup(old(self).frames().last().vars@, var@) matches Some(Dest::Static(_))),
            r ==> final(self).frames().len() == old(self).frames().len() && final(self).frames().drop_last()
                == old(self).frames().drop_last() && local_pushed(
                old(self).frames().last(),
                final(self).frames().last(),
                var@,
                ty,
            ),
            !r ==> final(self).frames() == old(self).frames(),
            final(self).adts() == old(self).adts(),
            final(self).impls() == old(self).impls(),
    {
        if self.locals.len() == 0 {
            let r = define_in(&mut self.globals, var, ty);
            assert(self.frames().drop_last() =~= old(self).frames().drop_last());
            r
        } else {
            let mut scope = self.locals.pop().unwrap();
            let r = define_in(&mut scope, var, ty);
            self.locals.push(scope);
            assert(self.frames().drop_last() =~= old(self).frames().drop_last());
            proof {
                if !r {
                    assert(self.frames() =~= old(self).frames());
                }
            }
            r
        }
    }

    /// Binds `var` static in the global frame; fails, changing nothing, where the global frame
    /// already binds it.
    pub fn define_static_var(&mut self, var: String, ty: Ty) -> (r: bool)
        ensures
            static_defined(old(self).frames()[0], final(self).frames()[0], var, ty, r),
            final(self).frames().len() == old(self).frames().len(),
            final(self).frames().drop_first() == old(self).frames().drop_first(),
            final(self).adts() == old(self).adts(),
            final(self).impls() == old(self).impls(),
    {
        let r = match find_last(&self.globals.vars, var.as_str()) {
            Some(_) => false,
            None => {
                self.globals.vars.push((var, Dest::Static(ty)));
                true
            },
        };
        assert(self.frames().drop_first() =~= old(self).frames().drop_first());
        r
    }

    /// The function `name` resolves to, from the innermost frame that defines it.
    pub fn resolve_func(&self, name: &String) -> (r: Option<&ast::FunctionNode>)
        ensures
            r matches Some(f) ==> func_binding(self.frames(), name@) == Some(*f),
            r is None ==> func_binding(self.frames(), name@) is None,
    {
        let ghost frames = self.frames();
        let mut i = self.locals.len();
        assert(frames.subrange(0, i as int + 1) =~= frames);
        while i > 0
            invariant
                i <= self.locals.len(),
                frames == self.frames(),
                func_binding(frames, name@) == func_binding(frames.subrange(0, i as int + 1), name@),
            decreases i,
        {
            let ghost prefix = frames.subrange(0, i as int + 1);
            assert(prefix.drop_last() =~= frames.subrange(0, i as int));
            assert(prefix.last() == self.locals@[i as int - 1]);
            if let Some(j) = find_last(&self.locals[i - 1].funcs, name.as_str()) {
                return Some(&self.locals[i - 1].funcs[j].1);
            }
            i = i - 1;
        }
        let ghost prefix = frames.subrange(0, 1);
        assert(prefix.drop_last() =~= Seq::<Scope>::empty());
        assert(prefix.last() == self.globals);
        assert(func_binding(prefix.drop_last(), name@) is None);
        match find_last(&self.globals.funcs, name.as_str()) {
            Some(j) => Some(&self.globals.funcs[j].1),
            None => None,
        }
    }

    /// Defines a function in the innermost frame; fails, changing nothing, where that frame
    /// defines one of the same name.
    pub fn define_func(&mut self, name: String, func: ast::FunctionNode) -> (r: bool)
        ensures
            r == (lookup(old(self).frames().last().funcs@, name@) is None),
            r ==> final(self).frames().last().funcs@ == old(self).frames().last().funcs@.push((name, func)),
            !r ==> final(self).frames() == old(self).frames(),
            final(self).frames().len() == old(self).frames().len(),
            final(self).frames().drop_last() == old(self).frames().drop_last(),
            final(self).frames().last().vars == old(self).frames().last().vars,
            final(self).adts() == old(self).adts(),
            final(self).impls() == old(self).impls(),
    {
        if self.locals.len() == 0 {
            if find_last(&self.globals.funcs, name.as_str()).is_some() {
                return false;
            }
            self.globals.funcs.push((name, func));
            assert(self.frames().drop_last() =~= old(self).frames().drop_last());
            true
        } else {
            let mut scope = self.locals.pop().unwrap();
            if find_last(&scope.funcs, name.as_str()).is_some() {
                self.locals.push(scope);
                assert(self.frames() =~= old(self).frames());
                return false;
            }
            scope.funcs.push((name, func));
            self.locals.push(scope);
            assert(self.frames().drop_last() =~= old(self).frames().drop_last());
            true
        }
    }

    /// Defines a function in the global frame; fails, changing nothing, where the global frame
    /// defines one of the same name.
    pub fn define_static_func(&mut self, name: String, func: ast::FunctionNode) -> (r: bool)
        ensures
            r == (lookup(old(self).frames()[0].funcs@, name@) is None),
            r ==> final(self).frames()[0].funcs@ == old(self).frames()[0].funcs@.push((name, func)),
            !r ==> final(self).frames() == old(self).frames(),
            final(self).frames()[0].vars == old(self).frames()[0].vars,
            final(self).frames().len() == old(self).frames().len(),
            final(self).frames().drop_first() == old(self).frames().drop_first(),
            final(self).adts() == old(self).adts(),
            final(self).impls() == old(self).impls(),
    {
        if find_last(&self.globals.funcs, name.as_str()).is_some() {
            return false;
        }
        self.globals.funcs.push((name, func));
        assert(self.frames().drop_first() =~= old(self).frames().drop_first());
        true
    }

    /// The data type registered as `name` under `path`, with its derived type.
    pub fn resolve_adt(&self, path: &String, name: &String) -> (r: Option<&(Adt, Ty)>)
        ensures
            r matches Some(e) ==> adt_lookup(self.adts(), path@, name@) == Some(*e),
            r is None ==> adt_lookup(self.adts(), path@, name@) is None,
    {
        match find_entry(&self.adts_by_path, path.as_str(), name.as_str()) {
            Some(i) => Some(&self.adts_by_path[i].2),
            None => None,
        }
    }

    /// Registers a data type with the type derived from its fields; fails, changing nothing,
    /// where `name` is registered under `path` already.
    pub fn define_adt(&mut self, path: String, name: String, adt: Adt) -> (r: bool)
        ensures
            r == (adt_lookup(old(self).adts(), path@, name@) is None),
            r ==> adt_lookup(final(self).adts(), path@, name@) is Some,
            r ==> adt_lookup(final(self).adts(), path@, name@)->Some_0.0 == adt,
            r ==> sem_view(adt_lookup(final(self).adts(), path@, name@)->Some_0.1) == derived_view(adt),
            r ==> forall|p: Seq<char>, n: Seq<char>| !(p == path@ && n == name@) ==> #[trigger] adt_lookup(
                final(self).adts(),
                p,
                n,
            ) == adt_lookup(old(self).adts(), p, n),
            !r ==> final(self).adts() == old(self).adts(),
            final(self).frames() == old(self).frames(),
            final(self).impls() == old(self).impls(),
    {
        let ty = match &adt {
            Adt::Struct(s_adt) => Ty::Struct(
                StructTy {
                    vis: s_adt.visibility,
                    name: s_adt.name.clone(),
                    fields: derive_fields(&s_adt.fields, adt.to_scaffolding()),
                },
            ),
        };
        if find_entry(&self.adts_by_path, path.as_str(), name.as_str()).is_some() {
            return false;
        }
        let ghost before = self.adts_by_path@;
        self.adts_by_path.push((path, name, (adt, ty)));
        proof {
            assert(self.adts_by_path@.drop_last() =~= before);
        }
        true
    }

    /// The impl blocks registered for `name` under `path`.
    pub fn resolve_impls(&self, path: &String, name: &String) -> (r: Option<&Vec<ast::AdtImpl>>)
        ensures
            r matches Some(e) ==> adt_lookup(self.impls(), path@, name@) == Some(*e),
            r is None ==> adt_lookup(self.impls(), path@, name@) is None,
    {
        match find_entry(&self.adt_impls_by_path, path.as_str(), name.as_str()) {
            Some(i) => Some(&self.adt_impls_by_path[i].2),
            None => None,
        }
    }

    /// Appends an impl block to those of `name` under `path`.
    pub fn define_impl(&mut self, path: String, name: String, adt_impl: ast::AdtImpl)
        ensures
            adt_lookup(final(self).impls(), path@, name@) matches Some(v) && v@ == match adt_lookup(
                old(self).impls(),
                path@,
                name@,
            ) {
                Some(w) => w@,
                None => Seq::empty(),
            }.push(adt_impl),
            final(self).frames() == old(self).frames(),
            final(self).adts() == old(self).adts(),
    {
        match find_entry(&self.adt_impls_by_path, path.as_str(), name.as_str()) {
            Some(i) => {
                let (p, n, mut impls) = self.adt_impls_by_path.remove(i);
                impls.push(adt_impl);
                self.adt_impls_by_path.push((p, n, impls));
                assert(self.adt_impls_by_path@.last().2 == impls);
            },
            None => {
                let mut impls: Vec<ast::AdtImpl> = Vec::new();
                impls.push(adt_impl);
                self.adt_impls_by_path.push((path, name, impls));
                assert(impls@ =~= Seq::<ast::AdtImpl>::empty().push(adt_impl));
            },
        }
    }
}

/// Shadowing: a local `x` defined in a new inner frame is what `x` resolves to while that
/// frame is open, and once the frame is closed `x` resolves as before it was opened.
pub proof fn lemma_shadowing(e0: Environment, e1: Environment, e2: Environment, e3: Environment, x: String, t: Ty)
    requires
        e1.frames().drop_last() == e0.frames(),
        e1.frames().len() == e0.frames().len() + 1,
        e1.frames().last().vars@.len() == 0,
        e2.frames().len() == e1.frames().len(),
        e2.frames().drop_last() == e1.frames().drop_last(),
        local_pushed(e1.frames().last(), e2.frames().last(), x@, t),
        e3.frames() == e2.frames().drop_last(),
    ensures
        resolve_var_spec(e2.frames(), x@) == Some(t),
        resolve_var_spec(e3.frames(), x@) == resolve_var_spec(e0.frames(), x@),
{
    assert(local_stack(e1.frames().last(), x@) =~= Seq::<Ty>::empty());
    assert(e3.frames() =~= e0.frames());
}

/// Defining `x` twice in the same frame keeps both types on `x`'s local stack, the later one
/// visible.
pub proof fn lemma_local_stack(s0: Scope, s1: Scope, s2: Scope, x: String, t1: Ty, t2: Ty)
    requires
        local_pushed(s0, s1, x@, t1),
        local_pushed(s1, s2, x@, t2),
    ensures
        local_stack(s2, x@) == local_stack(s0, x@).push(t1).push(t2),
        lookup(s2.vars@, x@) matches Some(d) && dest_ty(d) == Some(t2),
{
}

/// A second static definition of a name fails, and the first binding stays.
pub proof fn lemma_single_static_writer(
    s0: Scope,
    s1: Scope,
    s2: Scope,
    x: String,
    x2: String,
    t1: Ty,
    t2: Ty,
    r1: bool,
    r2: bool,
)
    requires
        static_defined(s0, s1, x, t1, r1),
        static_defined(s1, s2, x2, t2, r2),
        x2@ == x@,
        r1,
    ensures
        !r2,
        lookup(s2.vars@, x@) == Some(Dest::Static(t1)),
{
    lemma_lookup_push(s0.vars@, (x, Dest::Static(t1)), x@);
}


/// Why an item or expression could not be given a type.
#[derive(Debug, PartialEq)]
pub enum ResolutionFailure {
    /// An expression has no type: a name or callee is unknown, or the operands of a binary
    /// expression do not fit.
    Unresolvable,
    /// The value of the static or constant `item` has no type, and is not a binary
    /// expression whose operands both have one.
    UnresolvableItem { item: String },
    /// The value of the static or constant `item` is `NAME = EXPR` (or another binary
    /// expression) whose left operand has type `expected` and right operand type `found`,
    /// which do not fit.
    Mismatch { item: String, expected: Ty, found: Ty },
    /// The type found still names an unresolved type: that name.
    NotFullyResolved(String),
    /// `item` has a type named `name` that is not registered.
    UnknownNamedType { item: String, name: String },
    /// A struct is defined inside a function: the struct's name.
    StructInLocalScope(String),
    /// A static or constant item is not of the form `NAME = EXPR`.
    MalformedItem,
}

/// The path under which all types are registered for now.
pub const DEFAULT_PATH: &'static str = "";

/// The type checking context of one compilation.
pub struct TyCtx {
    pub env: Environment,
}

pub open spec fn opt_view(t: Option<Ty>) -> Option<SemTy> {
    match t {
        Some(t) => Some(sem_view(t)),
        None => None,
    }
}

/// The type of an expression: a number is an integer of unfixed size; a name has the type
/// it is bound to; a binary expression the type of its left operand, where the right one
/// has a compatible type; a call the declared return type of the callee; a block the type
/// of its trailing expression, else the empty type; a struct literal the derived type of
/// the struct of that name; an array literal an array of the type of its first element
/// that has one, or of its repeated value.
pub open spec fn resolve_spec(frames: Seq<Scope>, adts: Seq<(String, String, (Adt, Ty))>, node: ast::AstNode) -> Option<SemTy>
    decreases node,
{
    match node {
        ast::AstNode::Number(_) => Some(SemTy::Primitive(PrimitiveTy::UnsizedInt)),
        ast::AstNode::Ident(id) => opt_view(resolve_var_spec(frames, id@)),
        ast::AstNode::BinaryExpr(expr) => match resolve_spec(frames, adts, expr.lhs) {
            Some(l) => match resolve_spec(frames, adts, expr.rhs) {
                Some(r) => if could_be_spec(l, r) {
                    Some(l)
                } else {
                    None
                },
                None => None,
            },
            None => None,
        },
        ast::AstNode::CallExpr(call) => match func_binding(frames, call.callee@) {
            Some(f) => match f.header.ret {
                Some(t) => Some(sem_of_written(ty_view(t))),
                None => None,
            },
            None => None,
        },
        ast::AstNode::Block(block) => if block.stmts@.len() > 0 && block.stmts@.last() is Expr {
            resolve_spec(frames, adts, block.stmts@.last()->Expr_0)
        } else {
            Some(SemTy::Empty)
        },
        ast::AstNode::StructConstructor(c) => match adt_lookup(adts, Seq::empty(), c.name@) {
            Some(e) => Some(sem_view(e.1)),
            None => None,
        },
        ast::AstNode::ArrayInst(ast::ArrayInst::List(list)) => match first_resolved(frames, adts, list.vals@) {
            Some(t) => Some(SemTy::Array(Box::new(t))),
            None => None,
        },
        ast::AstNode::ArrayInst(ast::ArrayInst::Short(short)) => match resolve_spec(frames, adts, short.val) {
            Some(t) => Some(SemTy::Array(Box::new(t))),
            None => None,
        },
    }
}

/// The type of the first of `vals` that has one.
pub open spec fn first_resolved(frames: Seq<Scope>, adts: Seq<(String, String, (Adt, Ty))>, vals: Seq<ast::AstNode>) -> Option<SemTy>
    decreases vals,
{
    if vals.len() == 0 {
        None
    } else {
        match resolve_spec(frames, adts, vals[0]) {
            Some(t) => Some(t),
            None => first_resolved(frames, adts, vals.subrange(1, vals.len() as int)),
        }
    }
}

/// The name on the left of a `NAME = EXPR` node.
fn named_lhs(val: &ast::AstNode) -> (r: Option<&String>)
    ensures
        r matches Some(n) ==> val matches ast::AstNode::BinaryExpr(b) && b.lhs == ast::AstNode::Ident(*n),
        r is None ==> !(val matches ast::AstNode::BinaryExpr(b) && b.lhs is Ident),
{
    match val {
        ast::AstNode::BinaryExpr(bin) => match &bin.lhs {
            ast::AstNode::Ident(name) => Some(name),
            _ => None,
        },
        _ => None,
    }
}

impl TyCtx {
    /// A context with an empty environment.
    pub fn new() -> (r: Self)
        ensures
            r.env.frames().len() == 1,
            r.env.frames()[0].vars@.len() == 0,
            r.env.frames()[0].funcs@.len() == 0,
            r.env.adts().len() == 0,
            unbound(r.env.frames(), r.env.adts()),
    {
        TyCtx { env: Environment::new() }
    }

    pub fn push_scope(&mut self)
        ensures
            final(self).env.frames().len() == old(self).env.frames().len() + 1,
            final(self).env.frames().drop_last() == old(self).env.frames(),
            final(self).env.frames().last().vars@.len() == 0,
            final(self).env.frames().last().funcs@.len() == 0,
            final(self).env.adts() == old(self).env.adts(),
            final(self).env.impls() == old(self).env.impls(),
    {
        self.env.push_scope();
    }

    pub fn pop_scope(&mut self)
        ensures
            old(self).env.frames().len() > 1 ==> final(self).env.frames() == old(self).env.frames().drop_last(),
            old(self).env.frames().len() <= 1 ==> final(self).env.frames() == old(self).env.frames(),
            final(self).env.adts() == old(self).env.adts(),
            final(self).env.impls() == old(self).env.impls(),
    {
        self.env.pop_scope();
    }

    /// The type of an expression (see `resolve_spec`); `None` where it has none.
    pub fn resolve_ty(&self, ast_node: &ast::AstNode) -> (r: Option<Ty>)
        ensures
            opt_view(r) == resolve_spec(self.env.frames(), self.env.adts(), *ast_node),
        decreases ast_node,
    {
        match ast_node {
            ast::AstNode::Number(_) => Some(Ty::Primitive(PrimitiveTy::UnsizedInt)),
            ast::AstNode::Ident(ident) => match self.env.resolve_var(ident) {
                Some(t) => Some(t.duplicate()),
                None => None,
            },
            ast::AstNode::BinaryExpr(expr) => {
                let expected_ty = self.resolve_ty(&expr.lhs);
                match expected_ty {
                    Some(expected) => match self.resolve_ty(&expr.rhs) {
                        Some(rhs_ty) => if expected.could_be(&rhs_ty) {
                            Some(expected)
                        } else {
                            None
                        },
                        None => None,
                    },
                    None => None,
                }
            },
            ast::AstNode::CallExpr(call) => match self.env.resolve_func(&call.callee) {
                Some(func) => match &func.header.ret {
                    Some(ty) => {
                        let kind = ty.kind.duplicate();
                        assert(*ty == ast::Ty { kind: ty.kind });
                        Some(Ty::from_ast_ty(kind, None))
                    },
                    None => None,
                },
                None => None,
            },
            ast::AstNode::Block(block) => {
                let n = block.stmts.len();
                if n > 0 {
                    if let ast::StmtKind::Expr(expr) = &block.stmts[n - 1] {
                        return self.resolve_ty(expr);
                    }
                }
                Some(Ty::Empty)
            },
            ast::AstNode::StructConstructor(constructor) => {
                let path = String::new();
                match self.env.resolve_adt(&path, &constructor.name) {
                    Some(adt) => Some(adt.1.duplicate()),
                    None => None,
                }
            },
            ast::AstNode::ArrayInst(ast::ArrayInst::List(def)) => match self.first_type(&def.vals) {
                Some(val) => Some(Ty::Array(ArrayTy { elem_ty: Box::new(val) })),
                None => None,
            },
            ast::AstNode::ArrayInst(ast::ArrayInst::Short(def)) => match self.resolve_ty(&def.val) {
                Some(x) => Some(Ty::Array(ArrayTy { elem_ty: Box::new(x) })),
                None => None,
            },
        }
    }

    /// The type of the first of `vals` that has one.
    fn first_type(&self, vals: &Vec<ast::AstNode>) -> (r: Option<Ty>)
        ensures
            opt_view(r) == first_resolved(self.env.frames(), self.env.adts(), vals@),
        decreases vals,
    {
        let mut i: usize = 0;
        assert(vals@.subrange(0, vals.len() as int) =~= vals@);
        while i < vals.len()
            invariant
                i <= vals.len(),
                first_resolved(self.env.frames(), self.env.adts(), vals@) == first_resolved(
                    self.env.frames(),
                    self.env.adts(),
                    vals@.subrange(i as int, vals.len() as int),
                ),
            decreases vals.len() - i,
        {
            let ghost rest = vals@.subrange(i as int, vals.len() as int);
            assert(rest[0] == vals@[i as int]);
            assert(rest.subrange(1, rest.len() as int) =~= vals@.subrange(
                i as int + 1,
                vals.len() as int,
            ));
            let found = self.resolve_ty(&vals[i]);
            if found.is_some() {
                return found;
            }
            i = i + 1;
        }
        None
    }

    /// The type derived for the data type `name` under `path`.
    pub fn resolve_named_ty(&self, path: &String, name: &String) -> (r: Option<&Ty>)
        ensures
            r matches Some(t) ==> adt_lookup(self.env.adts(), path@, name@) matches Some(e) && e.1 == *t,
            r is None ==> adt_lookup(self.env.adts(), path@, name@) is None,
    {
        match self.env.resolve_adt(path, name) {
            Some(e) => Some(&e.1),
            None => None,
        }
    }
}


/// The type of an expression, where it has one that names no unresolved type.
pub fn tyck_node(tyck_ctx: &mut TyCtx, node: &ast::AstNode) -> (r: Result<Ty, ResolutionFailure>)
    ensures
        *final(tyck_ctx) == *old(tyck_ctx),
        r matches Ok(t) ==> resolve_spec(old(tyck_ctx).env.frames(), old(tyck_ctx).env.adts(), *node)
            == Some(sem_view(t)) && !(sem_view(t) is Unresolved),
        r is Err <==> (resolve_spec(old(tyck_ctx).env.frames(), old(tyck_ctx).env.adts(), *node) matches None
            || resolve_spec(old(tyck_ctx).env.frames(), old(tyck_ctx).env.adts(), *node)->Some_0 is Unresolved),
{
    match tyck_ctx.resolve_ty(node) {
        Some(ty) => {
            if let Ty::Unresolved(u) = &ty {
                return Err(ResolutionFailure::NotFullyResolved(u.name.clone()));
            }
            Ok(ty)
        },
        None => Err(ResolutionFailure::Unresolvable),
    }
}

/// The local bound by a `let`: its name and value.
pub open spec fn local_parts(local: ast::LocalAssign) -> (String, ast::AstNode) {
    match local {
        ast::LocalAssign::Assign(assign) => (assign.name, assign.val),
        ast::LocalAssign::DecAssign(assign) => (assign.val.name, assign.val.val),
    }
}

/// Whether a type is settled: resolved, or naming a registered type whose derived type is
/// resolved.
pub open spec fn settles(adts: Seq<(String, String, (Adt, Ty))>, t: SemTy) -> bool {
    match t {
        SemTy::Unresolved(name, _) => adt_lookup(adts, Seq::empty(), name) matches Some(e) && !(sem_view(
            e.1,
        ) is Unresolved),
        _ => true,
    }
}

impl TyCtx {
    /// Checks the value of a `let` and binds its name to the value's type in the innermost
    /// frame (unless that frame binds the name static, which the binding then leaves alone).
    pub fn push_local(&mut self, local_assign: &ast::LocalAssign) -> (r: Result<(), ResolutionFailure>)
        ensures
            r is Err <==> (resolve_spec(old(self).env.frames(), old(self).env.adts(), local_parts(*local_assign).1) matches None
                || resolve_spec(old(self).env.frames(), old(self).env.adts(), local_parts(*local_assign).1)->Some_0 is Unresolved),
            r is Err ==> *final(self) == *old(self),
            r is Ok && (lookup(old(self).env.frames().last().vars@, local_parts(*local_assign).0@) matches Some(Dest::Static(_)))
                ==> final(self).env.frames() == old(self).env.frames(),
            r is Ok && !(lookup(old(self).env.frames().last().vars@, local_parts(*local_assign).0@) matches Some(Dest::Static(_)))
                ==> exists|t: Ty| local_pushed(
                    old(self).env.frames().last(),
                    final(self).env.frames().last(),
                    local_parts(*local_assign).0@,
                    t,
                ) && resolve_spec(old(self).env.frames(), old(self).env.adts(), local_parts(*local_assign).1)
                    == Some(sem_view(t)),
            final(self).env.frames().len() == old(self).env.frames().len(),
            final(self).env.frames().drop_last() == old(self).env.frames().drop_last(),
            final(self).env.adts() == old(self).env.adts(),
            final(self).env.impls() == old(self).env.impls(),
    {
        let (name, val) = match local_assign {
            ast::LocalAssign::Assign(assign) => (&assign.name, &assign.val),
            ast::LocalAssign::DecAssign(assign) => (&assign.val.name, &assign.val.val),
        };
        let ty = tyck_node(self, val)?;
        let ghost t = ty;
        let ghost before = self.env.frames();
        let defined = self.env.define_var(name.clone(), ty);
        proof {
            if defined {
                assert(local_pushed(before.last(), self.env.frames().last(), name@, t));
            }
        }
        Ok(())
    }

    /// The type `item` is bound to (see `binding_type`).
    fn binding_of(item: &ast::ItemKind) -> (r: Ty)
        requires
            item is StaticVal || item is ConstVal,
        ensures
            sem_view(r) == binding_type(*item),
    {
        match item {
            ast::ItemKind::StaticVal(val) => {
                let kind = val.ty.kind.duplicate();
                assert(val.ty == ast::Ty { kind: val.ty.kind });
                Ty::from_ast_ty(kind, None)
            },
            ast::ItemKind::ConstVal(val) => {
                let kind = val.ty.kind.duplicate();
                assert(val.ty == ast::Ty { kind: val.ty.kind });
                let mut ty = Ty::from_ast_ty(kind, None);
                if let ast::AstNode::BinaryExpr(expr) = &val.val {
                    let empty = TyCtx::new();
                    proof {
                        lemma_resolve_unbound(empty.env.frames(), empty.env.adts(), expr.rhs);
                    }
                    if let Some(helper) = empty.resolve_ty(&expr.rhs) {
                        ty = helper;
                    }
                }
                ty
            },
            _ => unreached(),
        }
    }

    /// First pass over a global item: registers its signature in the global frame without
    /// checking any body. A static is bound to its written type; a constant to the type of
    /// its value in an empty context where that value has one, else to its written type; a
    /// function is defined; a struct is registered with its derived type. A name already
    /// taken keeps its first binding.
    pub fn insert_item_glob(&mut self, item: &ast::ItemKind) -> (r: Result<(), ResolutionFailure>)
        ensures
            r is Err <==> ((item is StaticVal || item is ConstVal) && named_lhs_of(*item) is None),
            r is Err ==> *final(self) == *old(self),
            final(self).env.frames().len() == old(self).env.frames().len(),
            final(self).env.frames().drop_first() == old(self).env.frames().drop_first(),
            final(self).env.impls() == old(self).env.impls(),
            named_lhs_of(*item) matches Some(name) ==> static_bound(
                old(self).env.frames()[0],
                final(self).env.frames()[0],
                name@,
                binding_type(*item),
            ),
            !(named_lhs_of(*item) is Some && r is Ok) ==> final(self).env.frames()[0].vars == old(self).env.frames()[0].vars,
            !(item is FunctionDef) ==> final(self).env.frames()[0].funcs@ == old(self).env.frames()[0].funcs@,
            item matches ast::ItemKind::FunctionDef(f) ==> function_bound(
                old(self).env.frames()[0],
                final(self).env.frames()[0],
                f.header,
            ),
            item matches ast::ItemKind::StructDef(def) ==> adt_bound(old(self).env.adts(), final(self).env.adts(), *def),
            !(item is StructDef) ==> final(self).env.adts() == old(self).env.adts(),
    {
        match item {
            ast::ItemKind::StaticVal(val) => {
                let name = match named_lhs(&val.val) {
                    Some(name) => name.clone(),
                    None => {
                        return Err(ResolutionFailure::MalformedItem);
                    },
                };
                let ty = Self::binding_of(item);
                let ghost n = name;
                let ghost t = ty;
                let defined = self.env.define_static_var(name, ty);
                proof {
                    lemma_static_bound(old(self).env.frames()[0], self.env.frames()[0], n, t, defined);
                }
                Ok(())
            },
            ast::ItemKind::ConstVal(val) => {
                let name = match named_lhs(&val.val) {
                    Some(name) => name.clone(),
                    None => {
                        return Err(ResolutionFailure::MalformedItem);
                    },
                };
                let ty = Self::binding_of(item);
                let ghost n = name;
                let ghost t = ty;
                let defined = self.env.define_static_var(name, ty);
                proof {
                    lemma_static_bound(old(self).env.frames()[0], self.env.frames()[0], n, t, defined);
                }
                Ok(())
            },
            ast::ItemKind::FunctionDef(func) => {
                let ghost before = self.env.frames()[0].funcs@;
                let name = func.header.name.clone();
                let ghost n = name;
                let copy = func.duplicate();
                let ghost f = copy;
                let defined = self.env.define_static_func(name, copy);
                proof {
                    lemma_lookup_push(before, (n, f), n@);
                    if defined {
                        assert forall|k: Seq<char>| k != n@ implies #[trigger] lookup(self.env.frames()[0].funcs@, k)
                            == lookup(before, k) by {
                            lemma_lookup_push(before, (n, f), k);
                        }
                    }
                }
                Ok(())
            },
            ast::ItemKind::StructDef(def) => {
                let path = String::new();
                let copy = def.duplicate();
                proof {
                    lemma_written_fields_view(copy.fields@, def.fields@);
                }
                self.env.define_adt(path, def.name.clone(), Adt::Struct(copy));
                Ok(())
            },
            ast::ItemKind::TraitDef(_) => Ok(()),
            // impl blocks are not registered yet
            ast::ItemKind::StructImpl(_) => Ok(()),
        }
    }

    /// First pass over an item inside a function body: registers its signature in the
    /// innermost frame, as `insert_item_glob` does globally but as a local binding. Structs
    /// cannot be defined there.
    pub fn insert_item_local(&mut self, item: &ast::ItemKind) -> (r: Result<(), ResolutionFailure>)
        ensures
            r is Err <==> (((item is StaticVal || item is ConstVal) && named_lhs_of(*item) is None)
                || item is StructDef),
            r is Err ==> *final(self) == *old(self),
            final(self).env.frames().len() == old(self).env.frames().len(),
            final(self).env.frames().drop_last() == old(self).env.frames().drop_last(),
            final(self).env.adts() == old(self).env.adts(),
            final(self).env.impls() == old(self).env.impls(),
            named_lhs_of(*item) matches Some(name) ==> local_bound(
                old(self).env.frames().last(),
                final(self).env.frames().last(),
                name@,
                binding_type(*item),
            ),
            item matches ast::ItemKind::FunctionDef(f) ==> function_bound(
                old(self).env.frames().last(),
                final(self).env.frames().last(),
                f.header,
            ),
            item is TraitDef || item is StructImpl ==> *final(self) == *old(self),
    {
        match item {
            ast::ItemKind::StaticVal(val) => {
                let name = match named_lhs(&val.val) {
                    Some(name) => name.clone(),
                    None => {
                        return Err(ResolutionFailure::MalformedItem);
                    },
                };
                let ty = Self::binding_of(item);
                let ghost t = ty;
                let _ = self.env.define_var(name, ty);
                Ok(())
            },
            ast::ItemKind::ConstVal(val) => {
                let name = match named_lhs(&val.val) {
                    Some(name) => name.clone(),
                    None => {
                        return Err(ResolutionFailure::MalformedItem);
                    },
                };
                let ty = Self::binding_of(item);
                let ghost t = ty;
                let _ = self.env.define_var(name, ty);
                Ok(())
            },
            ast::ItemKind::FunctionDef(func) => {
                let ghost before = self.env.frames().last().funcs@;
                let name = func.header.name.clone();
                let ghost n = name;
                let copy = func.duplicate();
                let ghost f = copy;
                let defined = self.env.define_func(name, copy);
                proof {
                    lemma_lookup_push(before, (n, f), n@);
                    if defined {
                        assert forall|k: Seq<char>| k != n@ implies #[trigger] lookup(self.env.frames().last().funcs@, k)
                            == lookup(before, k) by {
                            lemma_lookup_push(before, (n, f), k);
                        }
                    }
                }
                Ok(())
            },
            ast::ItemKind::StructDef(def) => Err(ResolutionFailure::StructInLocalScope(def.name.clone())),
            ast::ItemKind::TraitDef(_) => Ok(()),
            // impl blocks are not registered yet
            ast::ItemKind::StructImpl(_) => Ok(()),
        }
    }
}

/// The type a static or constant item is bound to: a static its written type; a constant
/// the type of its value in an empty context where that value has one, else its written
/// type.
pub open spec fn binding_type(item: ast::ItemKind) -> SemTy {
    match item {
        ast::ItemKind::StaticVal(v) => sem_of_written(ty_view(v.ty)),
        ast::ItemKind::ConstVal(v) => match v.val {
            ast::AstNode::BinaryExpr(e) => match resolve_spec(Seq::empty(), Seq::empty(), e.rhs) {
                Some(t) => t,
                None => sem_of_written(ty_view(v.ty)),
            },
            _ => sem_of_written(ty_view(v.ty)),
        },
        _ => SemTy::Empty,
    }
}

/// `after` binds `name` static to a type of view `t` where `before` left it free, and is
/// `before` else; no other name changes.
pub open spec fn static_bound(before: Scope, after: Scope, name: Seq<char>, t: SemTy) -> bool {
    &&& lookup(before.vars@, name) is None ==> (lookup(after.vars@, name) matches Some(Dest::Static(ty))
        && sem_view(ty) == t)
    &&& lookup(before.vars@, name) is Some ==> after.vars@ == before.vars@
    &&& forall|k: Seq<char>| k != name ==> #[trigger] lookup(after.vars@, k) == lookup(before.vars@, k)
}

/// `after` pushes a type of view `t` on the local stack of `name`, unless `before` binds the
/// name static, in which case nothing changes.
pub open spec fn local_bound(before: Scope, after: Scope, name: Seq<char>, t: SemTy) -> bool {
    &&& (lookup(before.vars@, name) matches Some(Dest::Static(_))) ==> after == before
    &&& !(lookup(before.vars@, name) matches Some(Dest::Static(_))) ==> exists|ty: Ty|
        #[trigger] local_pushed(before, after, name, ty) && sem_view(ty) == t
}

/// `after` defines a function with `header`'s signature where `before` defined none of that
/// name, and is `before` else; no other name changes.
pub open spec fn function_bound(before: Scope, after: Scope, header: ast::FunctionHeader) -> bool {
    &&& after.vars == before.vars
    &&& lookup(before.funcs@, header.name@) is None ==> (lookup(after.funcs@, header.name@) matches Some(f)
        && crate::ast::same_signature(f.header, header))
    &&& lookup(before.funcs@, header.name@) is Some ==> after.funcs@ == before.funcs@
    &&& forall|k: Seq<char>| k != header.name@ ==> #[trigger] lookup(after.funcs@, k) == lookup(before.funcs@, k)
}

/// `after` registers `def` with its derived type where `before` registered no type of that
/// name under the default path, and is `before` else; no other entry changes.
pub open spec fn adt_bound(before: Seq<(String, String, (Adt, Ty))>, after: Seq<(String, String, (Adt, Ty))>, def: ast::StructDef) -> bool {
    &&& adt_lookup(before, Seq::empty(), def.name@) is None ==> (adt_lookup(after, Seq::empty(), def.name@) matches Some(e)
        && e.0 matches Adt::Struct(d) && d.name == def.name && d.visibility == def.visibility
        && sem_view(e.1) == derived_view(Adt::Struct(def)))
    &&& adt_lookup(before, Seq::empty(), def.name@) is Some ==> after == before
    &&& forall|p: Seq<char>, n: Seq<char>| !(p == Seq::<char>::empty() && n == def.name@) ==> #[trigger] adt_lookup(after, p, n)
        == adt_lookup(before, p, n)
}

proof fn lemma_static_bound(before: Scope, after: Scope, name: String, ty: Ty, r: bool)
    requires
        static_defined(before, after, name, ty, r),
    ensures
        static_bound(before, after, name@, sem_view(ty)),
{
    lemma_lookup_push(before.vars@, (name, Dest::Static(ty)), name@);
    if r {
        assert forall|k: Seq<char>| k != name@ implies #[trigger] lookup(after.vars@, k) == lookup(before.vars@, k) by {
            lemma_lookup_push(before.vars@, (name, Dest::Static(ty)), k);
        }
    }
}

/// Field lists with the same visibilities, names and written type shapes derive the same.
proof fn lemma_written_fields_view(a: Seq<ast::StructFieldDef>, b: Seq<ast::StructFieldDef>)
    requires
        a.len() == b.len(),
        forall|i: int| 0 <= i < a.len() ==> (#[trigger] a[i]).name == b[i].name && a[i].visibility == b[i].visibility
            && ty_view(a[i].ty) == ty_view(b[i].ty),
    ensures
        written_fields_view(a) == written_fields_view(b),
    decreases a.len(),
{
    if a.len() > 0 {
        lemma_written_fields_view(a.drop_last(), b.drop_last());
        assert(a.last() == a[a.len() - 1]);
    }
}

/// No binding: every frame binds nothing and no type is registered.
pub open spec fn unbound(frames: Seq<Scope>, adts: Seq<(String, String, (Adt, Ty))>) -> bool {
    &&& forall|i: int| 0 <= i < frames.len() ==> (#[trigger] frames[i]).vars@.len() == 0 && frames[i].funcs@.len() == 0
    &&& adts.len() == 0
}

proof fn lemma_unbound_lookups(frames: Seq<Scope>, name: Seq<char>)
    requires
        forall|i: int| 0 <= i < frames.len() ==> (#[trigger] frames[i]).vars@.len() == 0 && frames[i].funcs@.len() == 0,
    ensures
        var_binding(frames, name) is None,
        func_binding(frames, name) is None,
    decreases frames.len(),
{
    if frames.len() > 0 {
        assert(frames.last() == frames[frames.len() - 1]);
        lemma_unbound_lookups(frames.drop_last(), name);
    }
}

/// Without bindings, an expression has the type it has in no context at all.
proof fn lemma_resolve_unbound(frames: Seq<Scope>, adts: Seq<(String, String, (Adt, Ty))>, node: ast::AstNode)
    requires
        unbound(frames, adts),
    ensures
        resolve_spec(frames, adts, node) == resolve_spec(Seq::empty(), Seq::empty(), node),
    decreases node,
{
    assert(adts =~= Seq::<(String, String, (Adt, Ty))>::empty());
    match node {
        ast::AstNode::Ident(id) => {
            lemma_unbound_lookups(frames, id@);
        },
        ast::AstNode::CallExpr(call) => {
            lemma_unbound_lookups(frames, call.callee@);
        },
        ast::AstNode::BinaryExpr(expr) => {
            lemma_resolve_unbound(frames, adts, expr.lhs);
            lemma_resolve_unbound(frames, adts, expr.rhs);
        },
        ast::AstNode::Block(block) => {
            if block.stmts@.len() > 0 && block.stmts@.last() is Expr {
                lemma_resolve_unbound(frames, adts, block.stmts@.last()->Expr_0);
            }
        },
        ast::AstNode::ArrayInst(ast::ArrayInst::List(list)) => {
            lemma_first_unbound(frames, adts, list.vals@);
        },
        ast::AstNode::ArrayInst(ast::ArrayInst::Short(short)) => {
            lemma_resolve_unbound(frames, adts, short.val);
        },
        _ => {},
    }
}

proof fn lemma_first_unbound(frames: Seq<Scope>, adts: Seq<(String, String, (Adt, Ty))>, vals: Seq<ast::AstNode>)
    requires
        unbound(frames, adts),
    ensures
        first_resolved(frames, adts, vals) == first_resolved(Seq::empty(), Seq::empty(), vals),
    decreases vals,
{
    if vals.len() > 0 {
        lemma_resolve_unbound(frames, adts, vals[0]);
        lemma_first_unbound(frames, adts, vals.subrange(1, vals.len() as int));
    }
}

/// The name a static or constant item binds, where its value has the form `NAME = EXPR`.
pub open spec fn named_lhs_of(item: ast::ItemKind) -> Option<String> {
    let val = match item {
        ast::ItemKind::StaticVal(v) => Some(v.val),
        ast::ItemKind::ConstVal(v) => Some(v.val),
        _ => None,
    };
    match val {
        Some(ast::AstNode::BinaryExpr(b)) => match b.lhs {
            ast::AstNode::Ident(name) => Some(name),
            _ => None,
        },
        _ => None,
    }
}

/// Checks the type of the value of the static or constant `item`.
fn check_value(tyck_ctx: &TyCtx, item: &String, val: &ast::AstNode) -> (r: Result<(), ResolutionFailure>)
    ensures
        r is Ok <==> (resolve_spec(tyck_ctx.env.frames(), tyck_ctx.env.adts(), *val) matches Some(t)
            && settles(tyck_ctx.env.adts(), t)),
        r matches Err(ResolutionFailure::Mismatch { item: i, expected, found }) ==> (i == *item
            && val is BinaryExpr && resolve_spec(tyck_ctx.env.frames(), tyck_ctx.env.adts(), val->BinaryExpr_0.lhs)
            == Some(sem_view(expected)) && resolve_spec(tyck_ctx.env.frames(), tyck_ctx.env.adts(), val->BinaryExpr_0.rhs)
            == Some(sem_view(found)) && !could_be_spec(sem_view(expected), sem_view(found))),
        r matches Err(ResolutionFailure::UnresolvableItem { item: i }) ==> i == *item,
        r matches Err(ResolutionFailure::UnknownNamedType { item: i, name: n }) ==> (i == *item
            && resolve_spec(tyck_ctx.env.frames(), tyck_ctx.env.adts(), *val) is Some
            && resolve_spec(tyck_ctx.env.frames(), tyck_ctx.env.adts(), *val)->Some_0 is Unresolved
            && resolve_spec(tyck_ctx.env.frames(), tyck_ctx.env.adts(), *val)->Some_0->Unresolved_0 == n@),
{
    match tyck_ctx.resolve_ty(val) {
        Some(resolved) => {
            if let Ty::Unresolved(ty) = &resolved {
                let path = String::new();
                proof {
                    assert(path@ =~= Seq::<char>::empty());
                }
                match tyck_ctx.resolve_named_ty(&path, &ty.name) {
                    Some(v) => {
                        if let Ty::Unresolved(u) = v {
                            Err(ResolutionFailure::NotFullyResolved(u.name.clone()))
                        } else {
                            Ok(())
                        }
                    },
                    None => Err(ResolutionFailure::UnknownNamedType { item: item.clone(), name: ty.name.clone() }),
                }
            } else {
                Ok(())
            }
        },
        None => {
            if let ast::AstNode::BinaryExpr(e) = val {
                if let Some(expected) = tyck_ctx.resolve_ty(&e.lhs) {
                    if let Some(found) = tyck_ctx.resolve_ty(&e.rhs) {
                        return Err(ResolutionFailure::Mismatch { item: item.clone(), expected, found });
                    }
                }
            }
            Err(ResolutionFailure::UnresolvableItem { item: item.clone() })
        },
    }
}

/// Both passes over the statements of a function body, in the frame opened for it: nested
/// items are registered first, then everything is checked in order, and `let` bindings are
/// made. Stops at the first failure.
fn check_function_body(tyck_ctx: &mut TyCtx, stmts: &Vec<ast::StmtKind>) -> (r: Option<ResolutionFailure>)
    requires
        old(tyck_ctx).env.frames().len() >= 1,
    ensures
        plain_body(stmts@) ==> (r is None <==> body_settled(old(tyck_ctx).env.frames(), old(tyck_ctx).env.adts(), stmts@)),
        plain_body(stmts@) ==> final(tyck_ctx).env.frames() == old(tyck_ctx).env.frames(),
        final(tyck_ctx).env.frames().len() == old(tyck_ctx).env.frames().len(),
        final(tyck_ctx).env.frames().drop_last() == old(tyck_ctx).env.frames().drop_last(),
        final(tyck_ctx).env.adts() == old(tyck_ctx).env.adts(),
        final(tyck_ctx).env.impls() == old(tyck_ctx).env.impls(),
    decreases stmts,
{
    let mut i: usize = 0;
    while i < stmts.len()
        invariant
            tyck_ctx.env.frames().len() == old(tyck_ctx).env.frames().len(),
            tyck_ctx.env.frames().drop_last() == old(tyck_ctx).env.frames().drop_last(),
            tyck_ctx.env.adts() == old(tyck_ctx).env.adts(),
            tyck_ctx.env.impls() == old(tyck_ctx).env.impls(),
            plain_body(stmts@) ==> *tyck_ctx == *old(tyck_ctx),
        decreases stmts.len() - i,
    {
        if let ast::StmtKind::Item(inner) = &stmts[i] {
            if let Err(e) = tyck_ctx.insert_item_local(inner) {
                return Some(e);
            }
        }
        i = i + 1;
    }
    let mut j: usize = 0;
    while j < stmts.len()
        invariant
            tyck_ctx.env.frames().len() == old(tyck_ctx).env.frames().len(),
            tyck_ctx.env.frames().drop_last() == old(tyck_ctx).env.frames().drop_last(),
            tyck_ctx.env.adts() == old(tyck_ctx).env.adts(),
            tyck_ctx.env.impls() == old(tyck_ctx).env.impls(),
            j <= stmts.len(),
            plain_body(stmts@) ==> *tyck_ctx == *old(tyck_ctx),
            plain_body(stmts@) ==> forall|k: int| 0 <= k < j ==> #[trigger] stmt_settled(
                old(tyck_ctx).env.frames(),
                old(tyck_ctx).env.adts(),
                stmts@[k],
            ),
        decreases stmts.len() - j,
    {
        let outcome = match &stmts[j] {
            ast::StmtKind::Item(inner) => tyck_item(tyck_ctx, inner),
            ast::StmtKind::LocalAssign(local) => tyck_ctx.push_local(local),
            ast::StmtKind::Expr(expr) => match tyck_node(tyck_ctx, expr) {
                Ok(_) => Ok(()),
                Err(e) => Err(e),
            },
            ast::StmtKind::Semi(semi) => match tyck_node(tyck_ctx, semi) {
                Ok(_) => Ok(()),
                Err(e) => Err(e),
            },
            ast::StmtKind::Empty => Ok(()),
        };
        if let Err(e) = outcome {
            assert(plain_body(stmts@) ==> !stmt_settled(old(tyck_ctx).env.frames(), old(tyck_ctx).env.adts(), stmts@[j as int]));
            return Some(e);
        }
        j = j + 1;
    }
    None
}

/// A body of expressions only: no nested items and no `let`.
pub open spec fn plain_body(stmts: Seq<ast::StmtKind>) -> bool {
    forall|i: int| 0 <= i < stmts.len() ==> !(#[trigger] stmts[i] is Item) && !(stmts[i] is LocalAssign)
}

/// A statement's expression, if it has one, has a type that names no unresolved type.
pub open spec fn stmt_settled(frames: Seq<Scope>, adts: Seq<(String, String, (Adt, Ty))>, stmt: ast::StmtKind) -> bool {
    match stmt {
        ast::StmtKind::Expr(e) | ast::StmtKind::Semi(e) => resolve_spec(frames, adts, e) is Some && !(resolve_spec(
            frames,
            adts,
            e,
        )->Some_0 is Unresolved),
        _ => true,
    }
}

/// Every statement of a body is settled.
pub open spec fn body_settled(frames: Seq<Scope>, adts: Seq<(String, String, (Adt, Ty))>, stmts: Seq<ast::StmtKind>) -> bool {
    forall|i: int| 0 <= i < stmts.len() ==> #[trigger] stmt_settled(frames, adts, stmts[i])
}

/// Frames that bind the same names the same way give every expression the same type.
proof fn lemma_resolve_same_bindings(f1: Seq<Scope>, f2: Seq<Scope>, adts: Seq<(String, String, (Adt, Ty))>, node: ast::AstNode)
    requires
        forall|n: Seq<char>| #[trigger] var_binding(f1, n) == var_binding(f2, n),
        forall|n: Seq<char>| #[trigger] func_binding(f1, n) == func_binding(f2, n),
    ensures
        resolve_spec(f1, adts, node) == resolve_spec(f2, adts, node),
    decreases node,
{
    match node {
        ast::AstNode::Ident(id) => {
            assert(var_binding(f1, id@) == var_binding(f2, id@));
        },
        ast::AstNode::CallExpr(call) => {
            assert(func_binding(f1, call.callee@) == func_binding(f2, call.callee@));
        },
        ast::AstNode::BinaryExpr(expr) => {
            lemma_resolve_same_bindings(f1, f2, adts, expr.lhs);
            lemma_resolve_same_bindings(f1, f2, adts, expr.rhs);
        },
        ast::AstNode::Block(block) => {
            if block.stmts@.len() > 0 && block.stmts@.last() is Expr {
                lemma_resolve_same_bindings(f1, f2, adts, block.stmts@.last()->Expr_0);
            }
        },
        ast::AstNode::ArrayInst(ast::ArrayInst::List(list)) => {
            lemma_first_same_bindings(f1, f2, adts, list.vals@);
        },
        ast::AstNode::ArrayInst(ast::ArrayInst::Short(short)) => {
            lemma_resolve_same_bindings(f1, f2, adts, short.val);
        },
        _ => {},
    }
}

proof fn lemma_first_same_bindings(f1: Seq<Scope>, f2: Seq<Scope>, adts: Seq<(String, String, (Adt, Ty))>, vals: Seq<ast::AstNode>)
    requires
        forall|n: Seq<char>| #[trigger] var_binding(f1, n) == var_binding(f2, n),
        forall|n: Seq<char>| #[trigger] func_binding(f1, n) == func_binding(f2, n),
    ensures
        first_resolved(f1, adts, vals) == first_resolved(f2, adts, vals),
    decreases vals,
{
    if vals.len() > 0 {
        lemma_resolve_same_bindings(f1, f2, adts, vals[0]);
        lemma_first_same_bindings(f1, f2, adts, vals.subrange(1, vals.len() as int));
    }
}

/// An empty innermost frame changes no expression's type.
proof fn lemma_empty_frame(frames: Seq<Scope>, adts: Seq<(String, String, (Adt, Ty))>, stmts: Seq<ast::StmtKind>, inner: Seq<Scope>)
    requires
        inner.len() == frames.len() + 1,
        inner.drop_last() == frames,
        inner.last().vars@.len() == 0,
        inner.last().funcs@.len() == 0,
    ensures
        body_settled(inner, adts, stmts) == body_settled(frames, adts, stmts),
{
    assert forall|n: Seq<char>| #[trigger] var_binding(inner, n) == var_binding(frames, n) by {}
    assert forall|n: Seq<char>| #[trigger] func_binding(inner, n) == func_binding(frames, n) by {}
    assert forall|i: int| 0 <= i < stmts.len() implies #[trigger] stmt_settled(inner, adts, stmts[i]) == stmt_settled(
        frames,
        adts,
        stmts[i],
    ) by {
        match stmts[i] {
            ast::StmtKind::Expr(e) | ast::StmtKind::Semi(e) => {
                lemma_resolve_same_bindings(inner, frames, adts, e);
            },
            _ => {},
        }
    }
    if body_settled(inner, adts, stmts) {
        assert forall|i: int| 0 <= i < stmts.len() implies #[trigger] stmt_settled(frames, adts, stmts[i]) by {
            assert(stmt_settled(inner, adts, stmts[i]));
        }
    }
    if body_settled(frames, adts, stmts) {
        assert forall|i: int| 0 <= i < stmts.len() implies #[trigger] stmt_settled(inner, adts, stmts[i]) by {
            assert(stmt_settled(frames, adts, stmts[i]));
        }
    }
}

/// Whether every field name of a struct names a registered, resolved type.
pub open spec fn fields_resolvable(adts: Seq<(String, String, (Adt, Ty))>, fields: Seq<ast::StructFieldDef>) -> bool {
    forall|i: int| 0 <= i < fields.len() ==> (adt_lookup(adts, Seq::empty(), (#[trigger] fields[i]).name@) matches Some(e)
        && !(sem_view(e.1) is Unresolved))
}

/// Second pass over an item: checks it against the signatures registered in the first.
/// A static or constant's value must have a settled type; a function's body is checked in a
/// frame of its own, its nested items registered first; every field name of a struct must
/// name a registered type. Traits and impl blocks are not checked yet. The environment is
/// left as it was found.
pub fn tyck_item(tyck_ctx: &mut TyCtx, item: &ast::ItemKind) -> (r: Result<(), ResolutionFailure>)
    ensures
        final(tyck_ctx).env.frames() == old(tyck_ctx).env.frames(),
        final(tyck_ctx).env.adts() == old(tyck_ctx).env.adts(),
        final(tyck_ctx).env.impls() == old(tyck_ctx).env.impls(),
        item matches ast::ItemKind::StaticVal(v) ==> (r is Ok <==> (resolve_spec(old(tyck_ctx).env.frames(), old(tyck_ctx).env.adts(), v.val) matches Some(t)
            && settles(old(tyck_ctx).env.adts(), t))),
        item matches ast::ItemKind::ConstVal(v) ==> (r is Ok <==> (resolve_spec(old(tyck_ctx).env.frames(), old(tyck_ctx).env.adts(), v.val) matches Some(t)
            && settles(old(tyck_ctx).env.adts(), t))),
        item matches ast::ItemKind::StructDef(def) ==> (r is Ok <==> fields_resolvable(old(tyck_ctx).env.adts(), def.fields@)),
        item is TraitDef || item is StructImpl ==> r is Ok,
        item matches ast::ItemKind::FunctionDef(f) ==> (plain_body(f.body.stmts@) ==> (r is Ok <==> body_settled(
            old(tyck_ctx).env.frames(),
            old(tyck_ctx).env.adts(),
            f.body.stmts@,
        ))),
    decreases item,
{
    match item {
        ast::ItemKind::StaticVal(val) => {
            let name = match named_lhs(&val.val) {
                Some(name) => name.clone(),
                None => String::new(),
            };
            check_value(tyck_ctx, &name, &val.val)
        },
        ast::ItemKind::ConstVal(val) => {
            let name = match named_lhs(&val.val) {
                Some(name) => name.clone(),
                None => String::new(),
            };
            check_value(tyck_ctx, &name, &val.val)
        },
        ast::ItemKind::FunctionDef(func) => {
            let ghost frames0 = tyck_ctx.env.frames();
            tyck_ctx.push_scope();
            proof {
                lemma_empty_frame(frames0, tyck_ctx.env.adts(), func.body.stmts@, tyck_ctx.env.frames());
            }
            let failure = check_function_body(tyck_ctx, &func.body.stmts);
            tyck_ctx.pop_scope();
            assert(tyck_ctx.env.frames() == frames0);
            match failure {
                Some(e) => Err(e),
                None => Ok(()),
            }
        },
        ast::ItemKind::StructDef(def) => {
            let path = String::new();
            proof {
                assert(path@ =~= Seq::<char>::empty());
            }
            let mut i: usize = 0;
            while i < def.fields.len()
                invariant
                    i <= def.fields.len(),
                    path@ == Seq::<char>::empty(),
                    *tyck_ctx == *old(tyck_ctx),
                    item is StructDef && item->StructDef_0 == *def,
                    forall|k: int| 0 <= k < i ==> (adt_lookup(tyck_ctx.env.adts(), Seq::empty(), (#[trigger] def.fields@[k]).name@) matches Some(e)
                        && !(sem_view(e.1) is Unresolved)),
                decreases def.fields.len() - i,
            {
                match tyck_ctx.resolve_named_ty(&path, &def.fields[i].name) {
                    Some(ty) => {
                        if let Ty::Unresolved(u) = ty {
                            return Err(ResolutionFailure::NotFullyResolved(u.name.clone()));
                        }
                    },
                    None => {
                        return Err(
                            ResolutionFailure::UnknownNamedType {
                                item: def.name.clone(),
                                name: def.fields[i].name.clone(),
                            },
                        );
                    },
                }
                i = i + 1;
            }
            Ok(())
        },
        ast::ItemKind::TraitDef(_) => Ok(()),
        ast::ItemKind::StructImpl(_) => Ok(()),
    }
}

/// Whether the signature of `item` is registered in `env`'s global frame: a static or
/// constant's name is bound, a function defined, a struct registered under the default path.
pub open spec fn registered(item: ast::ItemKind, env: Environment) -> bool {
    match item {
        ast::ItemKind::StaticVal(_) | ast::ItemKind::ConstVal(_) => match named_lhs_of(item) {
            Some(name) => lookup(env.frames()[0].vars@, name@) is Some,
            None => true,
        },
        ast::ItemKind::FunctionDef(f) => lookup(env.frames()[0].funcs@, f.header.name@) is Some,
        ast::ItemKind::StructDef(def) => adt_lookup(env.adts(), Seq::empty(), def.name@) is Some,
        _ => true,
    }
}

impl ast::Crate {
    /// A type checking context with the signature of every item of the crate registered in
    /// the global frame (the first pass, see `TyCtx::insert_item_glob`).
    pub fn build_ctx(&self) -> (r: TyCtx)
        ensures
            r.env.frames().len() == 1,
            forall|i: int| 0 <= i < self.items.len() ==> registered(#[trigger] self.items@[i], r.env),
    {
        let mut ret = TyCtx::new();
        let mut i: usize = 0;
        while i < self.items.len()
            invariant
                i <= self.items.len(),
                ret.env.frames().len() == 1,
                forall|k: int| 0 <= k < i ==> registered(#[trigger] self.items@[k], ret.env),
            decreases self.items.len() - i,
        {
            let ghost before = ret.env;
            let _ = ret.insert_item_glob(&self.items[i]);
            proof {
                assert forall|k: int| 0 <= k <= i implies registered(#[trigger] self.items@[k], ret.env) by {
                    if k < i {
                        assert(registered(self.items@[k], before));
                    }
                }
            }
            i = i + 1;
        }
        ret
    }
}

} // verus!
