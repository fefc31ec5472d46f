use frontend::ast::{OwnedTy, Ty, TyKind, TyOrConstVal};
use frontend::traitsolver::{GoalTarget, TraitManager};

fn ty(name: &str) -> Ty {
    Ty { kind: TyKind::Owned(Box::new(OwnedTy { name: name.to_string(), generics: vec![] })) }
}

fn generic(name: &str, args: Vec<Ty>) -> Ty {
    Ty {
        kind: TyKind::Owned(Box::new(OwnedTy {
            name: name.to_string(),
            generics: args.into_iter().map(TyOrConstVal::Ty).collect(),
        })),
    }
}

#[test]
fn blanket_clause_follows_its_bound() {
    let mut m = TraitManager::new();
    m.insert_impl(&ty("Trait"), GoalTarget::Obligation { constraints: vec![ty("Show")] }, vec![]);
    m.insert_impl(&ty("Show"), GoalTarget::Val { ty: ty("Shown"), generics: vec![] }, vec![]);
    assert!(m.has_impl(&ty("Shown"), &ty("Trait")));
    assert!(!m.has_impl(&ty("Hidden"), &ty("Trait")));
}

#[test]
fn clauses_form_a_disjunction() {
    let mut m = TraitManager::new();
    m.insert_impl(&ty("Trait"), GoalTarget::Obligation { constraints: vec![ty("A"), ty("B")] }, vec![]);
    m.insert_impl(&ty("Trait"), GoalTarget::Val { ty: ty("Special"), generics: vec![] }, vec![]);
    m.insert_impl(&ty("A"), GoalTarget::Val { ty: ty("Both"), generics: vec![] }, vec![]);
    m.insert_impl(&ty("B"), GoalTarget::Val { ty: ty("Both"), generics: vec![] }, vec![]);
    m.insert_impl(&ty("A"), GoalTarget::Val { ty: ty("OnlyA"), generics: vec![] }, vec![]);
    assert!(m.has_impl(&ty("Both"), &ty("Trait")));
    assert!(m.has_impl(&ty("Special"), &ty("Trait")));
    assert!(!m.has_impl(&ty("OnlyA"), &ty("Trait")));
    assert!(!m.has_impl(&ty("Nothing"), &ty("Trait")));
}

#[test]
fn nominal_clause_checks_generic_arguments() {
    let mut m = TraitManager::new();
    m.insert_impl(
        &ty("Trait"),
        GoalTarget::Val { ty: generic("Container", vec![ty("T")]), generics: vec![] },
        vec![("Inner".to_string(), vec![ty("Show")])],
    );
    m.insert_impl(&ty("Show"), GoalTarget::Val { ty: ty("Inner"), generics: vec![] }, vec![]);
    assert!(m.has_impl(&generic("Container", vec![ty("Inner")]), &ty("Trait")));
    assert!(m.has_impl(&generic("Container", vec![ty("Other")]), &ty("Trait")));
    assert!(!m.has_impl(&generic("Box", vec![ty("Inner")]), &ty("Trait")));
    let mut strict = TraitManager::new();
    strict.insert_impl(
        &ty("Trait"),
        GoalTarget::Val { ty: generic("Container", vec![ty("T")]), generics: vec![] },
        vec![("Inner".to_string(), vec![ty("Missing")])],
    );
    assert!(!strict.has_impl(&generic("Container", vec![ty("Inner")]), &ty("Trait")));
}

#[test]
fn self_dependent_clause_does_not_hold() {
    let mut m = TraitManager::new();
    m.insert_impl(&ty("Loop"), GoalTarget::Obligation { constraints: vec![ty("Loop")] }, vec![]);
    assert!(!m.has_impl(&ty("X"), &ty("Loop")));
    let mut n = TraitManager::new();
    n.insert_impl(&ty("Any"), GoalTarget::Obligation { constraints: vec![] }, vec![]);
    assert!(n.has_impl(&ty("X"), &ty("Any")));
}

#[test]
fn unknown_trait_has_no_impl() {
    let m = TraitManager::new();
    assert!(!m.has_impl(&ty("X"), &ty("Trait")));
}
