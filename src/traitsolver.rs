//! Deciding trait bounds from registered implementation clauses.
use vstd::prelude::*;
use crate::ast::{simple_name, AstNode, Ty, TyKind, TyOrConstVal};
use crate::text::same_text;

verus! {

/// A candidate justification of a trait implementation.
pub enum GoalTarget {
    /// A nominal clause, `impl<..> Trait for Ty<T, K>`: the queried type must have `ty`'s
    /// name, and each of its generic arguments the traits the clause's context requires of
    /// that argument's name.
    Val { ty: Ty, generics: Vec<GoalTarget> },
    /// A blanket clause, `impl<T: X + Y> Trait for T`: the queried type must implement every
    /// trait of `constraints`.
    Obligation { constraints: Vec<Ty> },
}

/// A generic goal, with constant values.
pub enum GenericGoalTarget {
    Val { ty: Ty, generics: Vec<GenericGoalTarget> },
    Const { val: AstNode },
    Obligation { constraints: Vec<Ty> },
}

/// The traits required of each generic parameter name.
pub type GenericConstraints = Vec<(String, Vec<Ty>)>;

/// The clauses registered for one trait, in registration order.
pub struct TraitEntry {
    pub tait: Ty,
    pub goals: Vec<(GoalTarget, GenericConstraints)>,
}

/// Decides whether a type implements a trait from the clauses registered per trait.
pub struct TraitManager {
    impl_constraints: Vec<(String, TraitEntry)>,
}

/// The entry of the trait named `name`.
pub open spec fn entry_of(entries: Seq<(String, TraitEntry)>, name: Seq<char>) -> Option<TraitEntry>
    decreases entries.len(),
{
    if entries.len() == 0 {
        None
    } else if entries.last().0@ == name {
        Some(entries.last().1)
    } else {
        entry_of(entries.drop_last(), name)
    }
}

/// How many entries name a trait not in `visited`.
pub open spec fn unvisited(entries: Seq<(String, TraitEntry)>, visited: Seq<Seq<char>>) -> nat
    decreases entries.len(),
{
    if entries.len() == 0 {
        0
    } else {
        unvisited(entries.drop_last(), visited) + if visited.contains(entries.last().0@) {
            0nat
        } else {
            1nat
        }
    }
}

pub proof fn lemma_unvisited_shrinks(entries: Seq<(String, TraitEntry)>, visited: Seq<Seq<char>>, name: Seq<char>)
    requires
        entry_of(entries, name) is Some,
        !visited.contains(name),
    ensures
        unvisited(entries, visited.push(name)) < unvisited(entries, visited),
    decreases entries.len(),
{
    lemma_unvisited_le(entries.drop_last(), visited, name);
    if entries.last().0@ != name {
        lemma_unvisited_shrinks(entries.drop_last(), visited, name);
        let x = entries.last().0@;
        if visited.contains(x) {
            let k = choose|k: int| 0 <= k < visited.len() && visited[k] == x;
            assert(visited.push(name)[k] == x);
        }
        if visited.push(name).contains(x) {
            let k = choose|k: int| 0 <= k < visited.len() + 1 && visited.push(name)[k] == x;
            assert(k < visited.len());
            assert(visited[k] == x);
        }
    } else {
        assert(visited.push(name).contains(name)) by {
            assert(visited.push(name)[visited.len() as int] == name);
        }
    }
}

pub proof fn lemma_unvisited_le(entries: Seq<(String, TraitEntry)>, visited: Seq<Seq<char>>, name: Seq<char>)
    ensures
        unvisited(entries, visited.push(name)) <= unvisited(entries, visited),
    decreases entries.len(),
{
    if entries.len() > 0 {
        lemma_unvisited_le(entries.drop_last(), visited, name);
        if visited.contains(entries.last().0@) {
            let k = choose|k: int| 0 <= k < visited.len() && visited[k] == entries.last().0@;
            assert(visited.push(name)[k] == entries.last().0@);
        }
    }
}

/// The traits `ctx` requires of the generic parameter `name`; none where it names none.
pub open spec fn required_of(ctx: Seq<(String, Vec<Ty>)>, name: Seq<char>) -> Seq<Ty>
    decreases ctx.len(),
{
    if ctx.len() == 0 {
        Seq::empty()
    } else if ctx.last().0@ == name {
        ctx.last().1@
    } else {
        required_of(ctx.drop_last(), name)
    }
}

/// Whether `ty` implements the trait named `name`: some clause registered for the trait
/// holds of it. A blanket clause holds where `ty` implements each of its required traits; a
/// nominal clause where `ty` has the clause type's name and each type argument of `ty` that is
/// a named type implements the traits the clause's context requires of that name. A trait
/// already being proved for `ty` further up (`visited`) does not hold again: a goal never
/// justifies itself.
pub open spec fn implements(entries: Seq<(String, TraitEntry)>, ty: Ty, name: Seq<char>, visited: Seq<Seq<char>>) -> bool
    decreases ty, unvisited(entries, visited), 1nat, 0nat
        via implements_decreases
{
    if visited.contains(name) {
        false
    } else {
        match entry_of(entries, name) {
            None => false,
            Some(entry) => any_clause(entries, ty, entry.goals@, visited.push(name)),
        }
    }
}

#[via_fn]
proof fn implements_decreases(entries: Seq<(String, TraitEntry)>, ty: Ty, name: Seq<char>, visited: Seq<Seq<char>>) {
    if !visited.contains(name) && entry_of(entries, name) is Some {
        lemma_unvisited_shrinks(entries, visited, name);
    }
}

/// Whether one of `goals` holds of `ty`.
pub open spec fn any_clause(
    entries: Seq<(String, TraitEntry)>,
    ty: Ty,
    goals: Seq<(GoalTarget, GenericConstraints)>,
    visited: Seq<Seq<char>>,
) -> bool
    decreases ty, unvisited(entries, visited), 3nat, goals.len(),
{
    if goals.len() == 0 {
        false
    } else {
        any_clause(entries, ty, goals.drop_last(), visited) || clause_holds(entries, ty, goals.last(), visited)
    }
}

/// Whether one clause holds of `ty` (see `implements`).
pub open spec fn clause_holds(
    entries: Seq<(String, TraitEntry)>,
    ty: Ty,
    clause: (GoalTarget, GenericConstraints),
    visited: Seq<Seq<char>>,
) -> bool
    decreases ty, unvisited(entries, visited), 2nat, 0nat,
{
    match clause.0 {
        GoalTarget::Obligation { constraints } => all_implemented(entries, ty, constraints@, visited),
        GoalTarget::Val { ty: goal_ty, generics: _ } => simple_name(goal_ty) == simple_name(ty)
            && generics_hold(entries, ty, clause.1@),
    }
}

/// Whether `ty` implements every trait of `traits`.
pub open spec fn all_implemented(entries: Seq<(String, TraitEntry)>, ty: Ty, traits: Seq<Ty>, visited: Seq<Seq<char>>) -> bool
    decreases ty, unvisited(entries, visited), 1nat, traits.len() + 1,
{
    if traits.len() == 0 {
        true
    } else {
        all_implemented(entries, ty, traits.drop_last(), visited) && implements(
            entries,
            ty,
            simple_name(traits.last()),
            visited,
        )
    }
}

/// Whether every named type argument of `ty` implements what `ctx` requires of its name.
pub open spec fn generics_hold(entries: Seq<(String, TraitEntry)>, ty: Ty, ctx: Seq<(String, Vec<Ty>)>) -> bool
    decreases ty, 0nat, 0nat, 0nat,
{
    match ty.kind {
        TyKind::Owned(owned) => all_args(entries, owned.generics@, ctx),
        _ => true,
    }
}

pub open spec fn all_args(entries: Seq<(String, TraitEntry)>, args: Seq<TyOrConstVal>, ctx: Seq<(String, Vec<Ty>)>) -> bool
    decreases args, 0nat, 0nat, 0nat,
{
    if args.len() == 0 {
        true
    } else {
        all_args(entries, args.drop_last(), ctx) && arg_holds(entries, args.last(), ctx)
    }
}

/// Whether a type argument that is a named type implements what `ctx` requires of its name.
pub open spec fn arg_holds(entries: Seq<(String, TraitEntry)>, arg: TyOrConstVal, ctx: Seq<(String, Vec<Ty>)>) -> bool
    decreases arg, 0nat, 0nat, 0nat,
{
    match arg {
        TyOrConstVal::Ty(g) => match g.kind {
            TyKind::Owned(o) => all_implemented(entries, g, required_of(ctx, o.name@), Seq::empty()),
            _ => true,
        },
        TyOrConstVal::ConstVal(_) => true,
    }
}


/// The character sequences of `names`.
pub open spec fn names_view(names: Seq<String>) -> Seq<Seq<char>> {
    names.map_values(|s: String| s@)
}

fn contains_name(names: &Vec<String>, name: &String) -> (r: bool)
    ensures
        r == names_view(names@).contains(name@),
{
    let mut i: usize = 0;
    while i < names.len()
        invariant
            i <= names.len(),
            forall|j: int| 0 <= j < i ==> names@[j]@ != name@,
        decreases names.len() - i,
    {
        if same_text(names[i].as_str(), name.as_str()) {
            assert(names_view(names@)[i as int] == name@);
            return true;
        }
        i = i + 1;
    }
    proof {
        if names_view(names@).contains(name@) {
            let k = choose|k: int| 0 <= k < names_view(names@).len() && names_view(names@)[k] == name@;
            assert(names@[k]@ == name@);
        }
    }
    false
}

fn copy_names(names: &Vec<String>) -> (r: Vec<String>)
    ensures
        names_view(r@) == names_view(names@),
{
    let mut out: Vec<String> = Vec::new();
    let mut i: usize = 0;
    while i < names.len()
        invariant
            i <= names.len(),
            out@.len() == i,
            forall|j: int| 0 <= j < i ==> out@[j]@ == names@[j]@,
        decreases names.len() - i,
    {
        out.push(names[i].clone());
        i = i + 1;
    }
    assert(names_view(out@) =~= names_view(names@));
    out
}

fn find_trait(entries: &Vec<(String, TraitEntry)>, name: &str) -> (r: Option<usize>)
    ensures
        r is None <==> entry_of(entries@, name@) is None,
        r matches Some(i) ==> i < entries.len() && entry_of(entries@, name@) == Some(entries@[i as int].1)
            && entries@[i as int].0@ == name@,
{
    let mut i = entries.len();
    assert(entries@.subrange(0, i as int) =~= entries@);
    while i > 0
        invariant
            i <= entries.len(),
            entry_of(entries@, name@) == entry_of(entries@.subrange(0, i as int), name@),
        decreases i,
    {
        let ghost prefix = entries@.subrange(0, i as int);
        assert(prefix.drop_last() =~= entries@.subrange(0, i as int - 1));
        if same_text(entries[i - 1].0.as_str(), name) {
            return Some(i - 1);
        }
        i = i - 1;
    }
    None
}

fn find_required<'a>(ctx: &'a GenericConstraints, name: &str) -> (r: Option<&'a Vec<Ty>>)
    ensures
        r matches Some(v) ==> v@ == required_of(ctx@, name@),
        r is None ==> required_of(ctx@, name@) == Seq::<Ty>::empty(),
{
    let mut i = ctx.len();
    assert(ctx@.subrange(0, i as int) =~= ctx@);
    while i > 0
        invariant
            i <= ctx.len(),
            required_of(ctx@, name@) == required_of(ctx@.subrange(0, i as int), name@),
        decreases i,
    {
        let ghost prefix = ctx@.subrange(0, i as int);
        assert(prefix.drop_last() =~= ctx@.subrange(0, i as int - 1));
        if same_text(ctx[i - 1].0.as_str(), name) {
            return Some(&ctx[i - 1].1);
        }
        i = i - 1;
    }
    None
}

pub proof fn lemma_entry_of_remove(entries: Seq<(String, TraitEntry)>, i: int, k: Seq<char>)
    requires
        0 <= i < entries.len(),
        entries[i].0@ != k,
    ensures
        entry_of(entries.remove(i), k) == entry_of(entries, k),
    decreases entries.len(),
{
    if i < entries.len() - 1 {
        lemma_entry_of_remove(entries.drop_last(), i, k);
        assert(entries.remove(i).drop_last() =~= entries.drop_last().remove(i));
        assert(entries.remove(i).last() == entries.last());
    } else {
        assert(entries.remove(i) =~= entries.drop_last());
    }
}

impl TraitManager {
    /// The registered traits with their clauses.
    pub closed spec fn entries(&self) -> Seq<(String, TraitEntry)> {
        self.impl_constraints@
    }

    /// A manager with no clauses.
    pub fn new() -> (r: Self)
        ensures
            r.entries().len() == 0,
    {
        TraitManager { impl_constraints: Vec::new() }
    }

    /// Appends a clause to those of the trait `tait`, keyed by the trait's short name.
    pub fn insert_impl(&mut self, tait: &Ty, obligations: GoalTarget, ctx: GenericConstraints)
        ensures
            entry_of(final(self).entries(), simple_name(*tait)) is Some,
            entry_of(final(self).entries(), simple_name(*tait))->Some_0.goals@ == match entry_of(
                old(self).entries(),
                simple_name(*tait),
            ) {
                Some(e) => e.goals@,
                None => Seq::empty(),
            }.push((obligations, ctx)),
            forall|k: Seq<char>| k != simple_name(*tait) ==> #[trigger] entry_of(final(self).entries(), k)
                == entry_of(old(self).entries(), k),
    {
        let key = tait.kind.simple_ty_name();
        assert(*tait == Ty { kind: tait.kind });
        let ghost before = self.impl_constraints@;
        let ghost clause = (obligations, ctx);
        match find_trait(&self.impl_constraints, key.as_str()) {
            Some(i) => {
                let (name, mut entry) = self.impl_constraints.remove(i);
                entry.goals.push((obligations, ctx));
                self.impl_constraints.push((name, entry));
                proof {
                    assert(self.impl_constraints@.drop_last() =~= before.remove(i as int));
                    assert forall|k: Seq<char>| k != key@ implies #[trigger] entry_of(self.impl_constraints@, k)
                        == entry_of(before, k) by {
                        lemma_entry_of_remove(before, i as int, k);
                    }
                }
            },
            None => {
                let mut goals: Vec<(GoalTarget, GenericConstraints)> = Vec::new();
                goals.push((obligations, ctx));
                let entry = TraitEntry { tait: tait.duplicate(), goals };
                self.impl_constraints.push((key, entry));
                proof {
                    assert(self.impl_constraints@.drop_last() =~= before);
                    assert(goals@ =~= Seq::<(GoalTarget, GenericConstraints)>::empty().push(clause));
                }
            },
        }
    }

    /// Whether `ty` implements `tait` (see `implements`).
    pub fn has_impl(&self, ty: &Ty, tait: &Ty) -> (r: bool)
        ensures
            r == implements(self.entries(), *ty, simple_name(*tait), Seq::empty()),
    {
        let name = tait.kind.simple_ty_name();
        assert(*tait == Ty { kind: tait.kind });
        let visited: Vec<String> = Vec::new();
        assert(names_view(visited@) =~= Seq::<Seq<char>>::empty());
        self.solve(ty, &name, &visited)
    }

    fn solve(&self, ty: &Ty, name: &String, visited: &Vec<String>) -> (r: bool)
        ensures
            r == implements(self.entries(), *ty, name@, names_view(visited@)),
        decreases ty, unvisited(self.entries(), names_view(visited@)), 1nat, 0nat,
    {
        if contains_name(visited, name) {
            return false;
        }
        let i = match find_trait(&self.impl_constraints, name.as_str()) {
            Some(i) => i,
            None => {
                return false;
            },
        };
        let entry = &self.impl_constraints[i].1;
        let mut inner = copy_names(visited);
        inner.push(name.clone());
        proof {
            assert(names_view(inner@) =~= names_view(visited@).push(name@));
            lemma_unvisited_shrinks(self.entries(), names_view(visited@), name@);
        }
        self.any_clause_ok(ty, &entry.goals, &inner)
    }

    fn any_clause_ok(&self, ty: &Ty, goals: &Vec<(GoalTarget, GenericConstraints)>, visited: &Vec<String>) -> (r: bool)
        ensures
            r == any_clause(self.entries(), *ty, goals@, names_view(visited@)),
        decreases ty, unvisited(self.entries(), names_view(visited@)), 3nat, goals@.len(),
    {
        let mut k: usize = 0;
        while k < goals.len()
            invariant
                k <= goals.len(),
                !any_clause(self.entries(), *ty, goals@.subrange(0, k as int), names_view(visited@)),
            decreases goals.len() - k,
        {
            let ghost next = goals@.subrange(0, k as int + 1);
            assert(next.drop_last() =~= goals@.subrange(0, k as int));
            if self.clause_ok(ty, &goals[k], visited) {
                proof {
                    lemma_any_clause_prefix(self.entries(), *ty, goals@, names_view(visited@), k as int + 1);
                }
                return true;
            }
            k = k + 1;
        }
        assert(goals@.subrange(0, goals.len() as int) =~= goals@);
        false
    }

    fn clause_ok(&self, ty: &Ty, clause: &(GoalTarget, GenericConstraints), visited: &Vec<String>) -> (r: bool)
        ensures
            r == clause_holds(self.entries(), *ty, *clause, names_view(visited@)),
        decreases ty, unvisited(self.entries(), names_view(visited@)), 2nat, 0nat,
    {
        match &clause.0 {
            GoalTarget::Obligation { constraints } => self.all_ok(ty, constraints, visited),
            GoalTarget::Val { ty: goal_ty, generics: _ } => {
                let goal_name = goal_ty.kind.simple_ty_name();
                let ty_name = ty.kind.simple_ty_name();
                assert(*goal_ty == Ty { kind: goal_ty.kind });
                assert(*ty == Ty { kind: ty.kind });
                if !same_text(goal_name.as_str(), ty_name.as_str()) {
                    return false;
                }
                self.check_generics(ty, &clause.1)
            },
        }
    }

    /// Whether `ty` implements every trait of `traits`.
    fn all_ok(&self, ty: &Ty, traits: &Vec<Ty>, visited: &Vec<String>) -> (r: bool)
        ensures
            r == all_implemented(self.entries(), *ty, traits@, names_view(visited@)),
        decreases ty, unvisited(self.entries(), names_view(visited@)), 1nat, traits@.len() + 1,
    {
        let mut j: usize = 0;
        while j < traits.len()
            invariant
                j <= traits.len(),
                all_implemented(self.entries(), *ty, traits@.subrange(0, j as int), names_view(visited@)),
            decreases traits.len() - j,
        {
            let ghost next = traits@.subrange(0, j as int + 1);
            assert(next.drop_last() =~= traits@.subrange(0, j as int));
            let c_name = traits[j].kind.simple_ty_name();
            assert(traits@[j as int] == Ty { kind: traits@[j as int].kind });
            if !self.solve(ty, &c_name, visited) {
                proof {
                    lemma_all_implemented_prefix(self.entries(), *ty, traits@, names_view(visited@), j as int + 1);
                }
                return false;
            }
            j = j + 1;
        }
        assert(traits@.subrange(0, traits.len() as int) =~= traits@);
        true
    }

    /// Whether every named type argument of `ty` implements what `ctx` requires of its name.
    fn check_generics(&self, ty: &Ty, ctx: &GenericConstraints) -> (r: bool)
        ensures
            r == generics_hold(self.entries(), *ty, ctx@),
        decreases ty, 0nat, 0nat, 0nat,
    {
        match &ty.kind {
            TyKind::Owned(owned) => self.args_ok(&owned.generics, ctx),
            _ => true,
        }
    }

    fn args_ok(&self, generics: &Vec<TyOrConstVal>, ctx: &GenericConstraints) -> (r: bool)
        ensures
            r == all_args(self.entries(), generics@, ctx@),
        decreases generics@, 0nat, 0nat, 0nat,
    {
        let mut i: usize = 0;
        while i < generics.len()
            invariant
                i <= generics.len(),
                all_args(self.entries(), generics@.subrange(0, i as int), ctx@),
            decreases generics.len() - i,
        {
            let ghost next = generics@.subrange(0, i as int + 1);
            assert(next.drop_last() =~= generics@.subrange(0, i as int));
            if !self.arg_ok(&generics[i], ctx) {
                proof {
                    lemma_all_args_prefix(self.entries(), generics@, ctx@, i as int + 1);
                }
                return false;
            }
            i = i + 1;
        }
        assert(generics@.subrange(0, generics.len() as int) =~= generics@);
        true
    }

    fn arg_ok(&self, arg: &TyOrConstVal, ctx: &GenericConstraints) -> (r: bool)
        ensures
            r == arg_holds(self.entries(), *arg, ctx@),
        decreases arg, 0nat, 0nat, 0nat,
    {
        match arg {
            TyOrConstVal::Ty(g) => match &g.kind {
                TyKind::Owned(o) => {
                    let empty: Vec<String> = Vec::new();
                    assert(names_view(empty@) =~= Seq::<Seq<char>>::empty());
                    match find_required(ctx, o.name.as_str()) {
                        Some(required) => self.all_ok(g, required, &empty),
                        None => {
                            assert(all_implemented(self.entries(), *g, Seq::empty(), Seq::empty()));
                            true
                        },
                    }
                },
                _ => true,
            },
            TyOrConstVal::ConstVal(_) => true,
        }
    }
}

/// Where a prefix of `goals` has a clause that holds, `goals` has one.
proof fn lemma_any_clause_prefix(
    entries: Seq<(String, TraitEntry)>,
    ty: Ty,
    goals: Seq<(GoalTarget, GenericConstraints)>,
    visited: Seq<Seq<char>>,
    n: int,
)
    requires
        0 <= n <= goals.len(),
        any_clause(entries, ty, goals.subrange(0, n), visited),
    ensures
        any_clause(entries, ty, goals, visited),
    decreases goals.len() - n,
{
    if n < goals.len() {
        let next = goals.subrange(0, n + 1);
        assert(next.drop_last() =~= goals.subrange(0, n));
        lemma_any_clause_prefix(entries, ty, goals, visited, n + 1);
    } else {
        assert(goals.subrange(0, n) =~= goals);
    }
}

/// Where a prefix of `traits` is not all implemented, `traits` is not.
proof fn lemma_all_implemented_prefix(
    entries: Seq<(String, TraitEntry)>,
    ty: Ty,
    traits: Seq<Ty>,
    visited: Seq<Seq<char>>,
    n: int,
)
    requires
        0 <= n <= traits.len(),
        !all_implemented(entries, ty, traits.subrange(0, n), visited),
    ensures
        !all_implemented(entries, ty, traits, visited),
    decreases traits.len() - n,
{
    if n < traits.len() {
        let next = traits.subrange(0, n + 1);
        assert(next.drop_last() =~= traits.subrange(0, n));
        lemma_all_implemented_prefix(entries, ty, traits, visited, n + 1);
    } else {
        assert(traits.subrange(0, n) =~= traits);
    }
}

/// Where a prefix of `args` fails, `args` does.
proof fn lemma_all_args_prefix(
    entries: Seq<(String, TraitEntry)>,
    args: Seq<TyOrConstVal>,
    ctx: Seq<(String, Vec<Ty>)>,
    n: int,
)
    requires
        0 <= n <= args.len(),
        !all_args(entries, args.subrange(0, n), ctx),
    ensures
        !all_args(entries, args, ctx),
    decreases args.len() - n,
{
    if n < args.len() {
        let next = args.subrange(0, n + 1);
        assert(next.drop_last() =~= args.subrange(0, n));
        lemma_all_args_prefix(entries, args, ctx, n + 1);
    } else {
        assert(args.subrange(0, n) =~= args);
    }
}

/// Clauses form a disjunction: for a trait whose clauses are a blanket clause requiring `A`
/// and `B` and then a nominal clause, `x` implements it exactly where `x` implements both `A`
/// and `B` (without appealing to the trait itself), or has the nominal clause's name with its
/// type arguments meeting the clause's constraints.
pub proof fn lemma_trait_disjunction(entries: Seq<(String, TraitEntry)>, x: Ty, name: Seq<char>)
    requires
        entry_of(entries, name) is Some,
        entry_of(entries, name)->Some_0.goals@.len() == 2,
        entry_of(entries, name)->Some_0.goals@[0].0 is Obligation,
        entry_of(entries, name)->Some_0.goals@[0].0->Obligation_constraints@.len() == 2,
        entry_of(entries, name)->Some_0.goals@[1].0 is Val,
    ensures
        ({
            let e = entry_of(entries, name)->Some_0;
            let cs = e.goals@[0].0->Obligation_constraints@;
            let visited = seq![name];
            implements(entries, x, name, Seq::empty()) <==> ((implements(entries, x, simple_name(cs[0]), visited)
                && implements(entries, x, simple_name(cs[1]), visited)) || (simple_name(e.goals@[1].0->Val_ty)
                == simple_name(x) && generics_hold(entries, x, e.goals@[1].1@)))
        }),
{
    let e = entry_of(entries, name)->Some_0;
    let visited = Seq::<Seq<char>>::empty().push(name);
    assert(visited =~= seq![name]);
    assert(!Seq::<Seq<char>>::empty().contains(name));
    let cs = e.goals@[0].0->Obligation_constraints@;
    let goals = e.goals@;
    assert(goals.drop_last() =~= seq![goals[0]]);
    assert(seq![goals[0]].drop_last() =~= Seq::<(GoalTarget, GenericConstraints)>::empty());
    assert(cs.drop_last() =~= seq![cs[0]]);
    assert(seq![cs[0]].drop_last() =~= Seq::<Ty>::empty());
    assert(implements(entries, x, name, Seq::empty()) == any_clause(entries, x, goals, visited));
    assert(any_clause(entries, x, goals, visited) == (any_clause(entries, x, seq![goals[0]], visited)
        || clause_holds(entries, x, goals[1], visited)));
    assert(any_clause(entries, x, seq![goals[0]], visited) == (any_clause(
        entries,
        x,
        Seq::empty(),
        visited,
    ) || clause_holds(entries, x, goals[0], visited)));
    assert(clause_holds(entries, x, goals[0], visited) == all_implemented(entries, x, cs, visited));
    assert(all_implemented(entries, x, cs, visited) == (all_implemented(entries, x, seq![cs[0]], visited)
        && implements(entries, x, simple_name(cs[1]), visited)));
    assert(all_implemented(entries, x, seq![cs[0]], visited) == (all_implemented(
        entries,
        x,
        Seq::empty(),
        visited,
    ) && implements(entries, x, simple_name(cs[0]), visited)));
}

} // verus!
