//! The scope chain: binding cells and name-to-cell maps.
//!
//! Scopes and binding cells live in arenas owned by the interpreter and refer
//! to each other by index, so a cell stays shared between every closure that
//! captured it and an assignment through any holder is visible to all.

use vstd::prelude::*;

use crate::ast::{node_view, Type, TypeM};

verus! {

broadcast use vstd::std_specs::vec::group_vec_axioms;

/// One binding cell: the single mutable storage location behind a name.
#[derive(Debug)]
pub struct Slot(pub Type);

impl Clone for Slot {
    fn clone(&self) -> (r: Self)
        ensures
            node_view(r.0) == node_view(self.0),
    {
        Slot(self.0.clone())
    }
}

impl Slot {
    pub fn new(object: Type) -> (r: Slot)
        ensures
            node_view(r.0) == node_view(object),
    {
        Slot(object)
    }

    pub fn set(&mut self, new: Type)
        ensures
            node_view(final(self).0) == node_view(new),
    {
        self.0 = new;
    }

    pub fn get(&self) -> (r: Type)
        ensures
            node_view(r) == node_view(self.0),
    {
        self.0.clone()
    }
}

/// One scope: a name-to-cell map plus an optional parent scope.  A later
/// entry for the same name shadows an earlier one.
#[derive(Debug)]
pub struct Scope {
    pub map: Vec<(String, usize)>,
    pub parent: Option<usize>,
}

impl Clone for Scope {
    /// Copies the name map; the copy shares every binding cell with the
    /// original, as partial application and function calls require.
    fn clone(&self) -> (r: Self)
        ensures
            scope_view(r) == scope_view(*self),
    {
        let mut m: Vec<(String, usize)> = Vec::new();
        let n = self.map.len();
        for i in 0..n
            invariant
                n == self.map.len(),
                m@.len() == i,
                forall|j: int|
                    0 <= j < i ==> m@[j].0@ == self.map@[j].0@ && m@[j].1 == self.map@[j].1,
        {
            let entry = &self.map[i];
            m.push((entry.0.clone(), entry.1));
        }
        let r = Scope { map: m, parent: self.parent };
        proof {
            assert(scope_view(r).map =~= scope_view(*self).map);
        }
        r
    }
}

/// Ghost model of one scope.
#[verifier::ext_equal]
pub ghost struct ScopeM {
    pub map: Seq<(Seq<char>, int)>,
    pub parent: Option<int>,
}

/// Model of a scope's name map.
pub open spec fn scope_map_view(m: Seq<(String, usize)>) -> Seq<(Seq<char>, int)> {
    Seq::new(m.len(), |i: int| (m[i].0@, m[i].1 as int))
}

/// Model of one scope.
pub open spec fn scope_view(s: Scope) -> ScopeM {
    ScopeM {
        map: scope_map_view(s.map@),
        parent: match s.parent {
            Option::Some(p) => Option::Some(p as int),
            Option::None => Option::None,
        },
    }
}

/// Model of the scope arena.
pub open spec fn scopes_view(ss: Seq<Scope>) -> Seq<ScopeM> {
    Seq::new(ss.len(), |i: int| scope_view(ss[i]))
}

/// Model of the cell arena.
pub open spec fn slots_view(ss: Seq<Slot>) -> Seq<TypeM> {
    Seq::new(ss.len(), |i: int| node_view(ss[i].0))
}

/// The cell a name is bound to in one scope's map: the latest entry wins.
pub open spec fn find_binding(m: Seq<(Seq<char>, int)>, name: Seq<char>) -> Option<int>
    decreases m.len(),
{
    if m.len() == 0 {
        Option::None
    } else if m.last().0 == name {
        Option::Some(m.last().1)
    } else {
        find_binding(m.drop_last(), name)
    }
}

/// The cell a name resolves to by walking the scope chain outward from `sc`.
/// The walk only follows parent links that point strictly downward in the
/// arena, which every well-formed state satisfies.
pub open spec fn chain_lookup(scopes: Seq<ScopeM>, sc: int, name: Seq<char>) -> Option<int>
    decreases sc,
{
    if !(0 <= sc < scopes.len()) {
        Option::None
    } else {
        match find_binding(scopes[sc].map, name) {
            Option::Some(slot) => Option::Some(slot),
            Option::None => match scopes[sc].parent {
                Option::Some(p) => if 0 <= p < sc {
                    chain_lookup(scopes, p, name)
                } else {
                    Option::None
                },
                Option::None => Option::None,
            },
        }
    }
}

/// Well-formedness of one scope at arena position `i`: the parent link points
/// strictly downward and every binding names a real cell.
pub open spec fn wf_scope_at(s: ScopeM, i: int, nslots: int) -> bool {
    &&& (match s.parent {
        Option::Some(p) => 0 <= p < i,
        Option::None => true,
    })
    &&& (forall|j: int| 0 <= j < s.map.len() ==> 0 <= #[trigger] s.map[j].1 < nslots)
}

/// Well-formedness of the scope arena against a cell arena of `nslots` cells.
pub open spec fn wf_scopes(scopes: Seq<ScopeM>, nslots: int) -> bool {
    forall|i: int| 0 <= i < scopes.len() ==> #[trigger] wf_scope_at(scopes[i], i, nslots)
}

/// Well-formedness of one value against a scope arena of `nscopes` scopes:
/// a user-function value must close over a real scope.
pub open spec fn wf_value(nscopes: int, v: TypeM) -> bool {
    match v {
        TypeM::Function(f) => match f {
            crate::ast::FunM::NormalFunction { scope, .. } => 0 <= scope < nscopes,
            crate::ast::FunM::BuiltIn { .. } => true,
        },
        _ => true,
    }
}

/// A found binding names a real cell.
pub proof fn lemma_find_binding_in_range(m: Seq<(Seq<char>, int)>, name: Seq<char>, nslots: int)
    requires
        forall|j: int| 0 <= j < m.len() ==> 0 <= #[trigger] m[j].1 < nslots,
    ensures
        match find_binding(m, name) {
            Option::Some(s) => 0 <= s < nslots,
            Option::None => true,
        },
    decreases m.len(),
{
    if m.len() > 0 && m.last().0 != name {
        lemma_find_binding_in_range(m.drop_last(), name, nslots);
    }
}

/// A successful chain lookup names a real cell.
pub proof fn lemma_chain_lookup_in_range(
    scopes: Seq<ScopeM>,
    sc: int,
    name: Seq<char>,
    nslots: int,
)
    requires
        wf_scopes(scopes, nslots),
    ensures
        match chain_lookup(scopes, sc, name) {
            Option::Some(s) => 0 <= s < nslots,
            Option::None => true,
        },
    decreases sc,
{
    if 0 <= sc < scopes.len() {
        assert(wf_scope_at(scopes[sc], sc, nslots));
        lemma_find_binding_in_range(scopes[sc].map, name, nslots);
        if find_binding(scopes[sc].map, name) is None {
            if let Option::Some(p) = scopes[sc].parent {
                if 0 <= p < sc {
                    lemma_chain_lookup_in_range(scopes, p, name, nslots);
                }
            }
        }
    }
}

/// The latest entry for `name` in one scope's map, if any.
fn find_in_map(map: &Vec<(String, usize)>, name: &String) -> (r: Option<usize>)
    ensures
        match r {
            Option::Some(s) => find_binding(scope_map_view(map@), name@) == Option::Some(s as int),
            Option::None => find_binding(scope_map_view(map@), name@) == Option::<int>::None,
        },
{
    let ghost mv = scope_map_view(map@);
    proof {
        assert(mv.subrange(0, mv.len() as int) =~= mv);
    }
    let mut j = map.len();
    while j > 0
        invariant
            j <= map.len(),
            mv == scope_map_view(map@),
            find_binding(mv, name@) == find_binding(mv.subrange(0, j as int), name@),
        decreases j,
    {
        j = j - 1;
        if map[j].0 == *name {
            proof {
                assert(mv.subrange(0, j + 1).last() == mv[j as int]);
            }
            return Option::Some(map[j].1);
        }
        proof {
            assert(mv.subrange(0, j + 1).drop_last() =~= mv.subrange(0, j as int));
            assert(mv.subrange(0, j + 1).last() == mv[j as int]);
        }
    }
    proof {
        assert(mv.subrange(0, 0).len() == 0);
    }
    Option::None
}

impl Scope {
    /// A root scope with no parent and no bindings.
    pub fn new() -> (r: Scope)
        ensures
            scope_view(r) == (ScopeM { map: Seq::empty(), parent: Option::None }),
    {
        let r = Scope { map: Vec::new(), parent: Option::None };
        proof {
            assert(scope_view(r).map =~= Seq::<(Seq<char>, int)>::empty());
        }
        r
    }

    /// An empty scope whose parent is the scope at index `parent`.
    pub fn with(parent: usize) -> (r: Scope)
        ensures
            scope_view(r) == (ScopeM { map: Seq::empty(), parent: Option::Some(parent as int) }),
    {
        let r = Scope { map: Vec::new(), parent: Option::Some(parent) };
        proof {
            assert(scope_view(r).map =~= Seq::<(Seq<char>, int)>::empty());
        }
        r
    }

    /// Resolves `key` by walking the chain outward from scope `sc`; returns
    /// the index of the binding cell, or `None` when the walk reaches the
    /// root without a match.
    pub fn get(scopes: &Vec<Scope>, sc: usize, key: &String) -> (r: Option<usize>)
        ensures
            match r {
                Option::Some(s) => chain_lookup(scopes_view(scopes@), sc as int, key@)
                    == Option::Some(s as int),
                Option::None => chain_lookup(scopes_view(scopes@), sc as int, key@)
                    == Option::<int>::None,
            },
    {
        let ghost sv = scopes_view(scopes@);
        let mut cur = sc;
        loop
            invariant
                sv == scopes_view(scopes@),
                chain_lookup(sv, sc as int, key@) == chain_lookup(sv, cur as int, key@),
            decreases cur,
        {
            if cur >= scopes.len() {
                return Option::None;
            }
            match find_in_map(&scopes[cur].map, key) {
                Option::Some(s) => {
                    return Option::Some(s);
                },
                Option::None => {
                    match scopes[cur].parent {
                        Option::Some(p) => {
                            if p < cur {
                                cur = p;
                            } else {
                                return Option::None;
                            }
                        },
                        Option::None => {
                            return Option::None;
                        },
                    }
                },
            }
        }
    }

    /// Declares `key` in scope `sc`: allocates a fresh cell holding `value`
    /// and binds `key` to it, shadowing any earlier binding of the name.
    pub fn declare(
        scopes: &mut Vec<Scope>,
        slots: &mut Vec<Slot>,
        sc: usize,
        key: &String,
        value: Type,
    )
        requires
            sc < old(scopes).len(),
        ensures
            slots_view(final(slots)@) == slots_view(old(slots)@).push(node_view(value)),
            scopes_view(final(scopes)@) == scopes_view(old(scopes)@).update(
                sc as int,
                ScopeM {
                    map: scopes_view(old(scopes)@)[sc as int].map.push(
                        (key@, old(slots)@.len() as int),
                    ),
                    parent: scopes_view(old(scopes)@)[sc as int].parent,
                },
            ),
    {
        let ghost old_scopes = scopes_view(scopes@);
        let ghost old_slots = slots_view(slots@);
        let slot_idx = slots.len();
        slots.push(Slot(value));
        let sref = &mut scopes[sc];
        sref.map.push((key.clone(), slot_idx));
        proof {
            assert(slots_view(slots@) =~= old_slots.push(node_view(value)));
            assert(scope_map_view(scopes@[sc as int].map@) =~= old_scopes[sc as int].map.push(
                (key@, old_slots.len() as int),
            ));
            assert(scopes_view(scopes@) =~= old_scopes.update(
                sc as int,
                ScopeM {
                    map: old_scopes[sc as int].map.push((key@, old_slots.len() as int)),
                    parent: old_scopes[sc as int].parent,
                },
            ));
        }
    }

    /// Assigns `value` to the nearest existing binding of `key`, updating the
    /// shared cell in place; reports when no binding exists anywhere in the
    /// chain.
    pub fn assign(
        scopes: &Vec<Scope>,
        slots: &mut Vec<Slot>,
        sc: usize,
        key: &String,
        value: Type,
    ) -> (r: Result<(), crate::Error>)
        requires
            wf_scopes(scopes_view(scopes@), old(slots)@.len() as int),
        ensures
            match chain_lookup(scopes_view(scopes@), sc as int, key@) {
                Option::Some(s) => r == Result::<(), crate::Error>::Ok(()) && slots_view(
                    final(slots)@,
                ) == slots_view(old(slots)@).update(s, node_view(value)),
                Option::None => r == Result::<(), crate::Error>::Err(
                    crate::Error::UndefinedAssignmentTarget,
                ) && slots_view(final(slots)@) == slots_view(old(slots)@),
            },
    {
        let ghost old_slots = slots_view(slots@);
        match Scope::get(scopes, sc, key) {
            Option::Some(s) => {
                proof {
                    lemma_chain_lookup_in_range(
                        scopes_view(scopes@),
                        sc as int,
                        key@,
                        slots@.len() as int,
                    );
                }
                slots[s].0 = value;
                proof {
                    assert(slots_view(slots@) =~= old_slots.update(s as int, node_view(value)));
                }
                Result::Ok(())
            },
            Option::None => Result::Err(crate::Error::UndefinedAssignmentTarget),
        }
    }
}

} // verus!
