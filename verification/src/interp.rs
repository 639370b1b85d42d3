//! The evaluator: walks an AST statement list against a chain of scopes,
//! producing an optional value and mutating binding cells.
//!
//! The whole evaluation semantics is written down once as a family of spec
//! functions (`spec_eval` and friends) over a ghost state model; the
//! executable evaluator is proved to return exactly what they say.  A run
//! carries a host-supplied step budget, so a script that loops forever ends
//! with `Error::OutOfSteps` instead of blocking the host.

use vstd::prelude::*;

use crate::ast::{fun_view, node_view, nodes_view, strings_view, Func, FunM, FunctionTypes, Type,
    TypeM};
use crate::natives::{run_native, spec_native};
use crate::scope::{chain_lookup, scopes_view, slots_view, wf_scope_at, wf_scopes, wf_value,
    Scope, ScopeM, Slot};
use crate::Error;

verus! {

broadcast use vstd::std_specs::vec::group_vec_axioms;

/// The interpreter: the arenas behind the scope chain and binding cells, and
/// the output channel `print` writes to.  The global scope is the arena's
/// first entry and lives as long as the interpreter.
pub struct Interpreter {
    pub scopes: Vec<Scope>,
    pub slots: Vec<Slot>,
    pub output: Vec<String>,
}

/// Ghost model of the whole interpreter state.
#[verifier::ext_equal]
pub ghost struct StateM {
    pub scopes: Seq<ScopeM>,
    pub slots: Seq<TypeM>,
    pub output: Seq<Seq<char>>,
}

/// Model of the output channel.
pub open spec fn outputs_view(o: Seq<String>) -> Seq<Seq<char>> {
    Seq::new(o.len(), |i: int| o[i]@)
}

/// Model of the interpreter state.
pub open spec fn interp_view(it: Interpreter) -> StateM {
    StateM {
        scopes: scopes_view(it.scopes@),
        slots: slots_view(it.slots@),
        output: outputs_view(it.output@),
    }
}

/// Well-formed state: parent links point downward, bindings name real cells,
/// and every stored function value closes over a real scope.
pub open spec fn wf_state(st: StateM) -> bool {
    &&& wf_scopes(st.scopes, st.slots.len() as int)
    &&& forall|k: int|
        0 <= k < st.slots.len() ==> wf_value(st.scopes.len() as int, #[trigger] st.slots[k])
}

/// Model of an evaluation result.
pub open spec fn eval_res_view(r: Result<Option<Type>, Error>) -> Result<Option<TypeM>, Error> {
    match r {
        Result::Ok(Option::Some(v)) => Result::Ok(Option::Some(node_view(v))),
        Result::Ok(Option::None) => Result::Ok(Option::None),
        Result::Err(e) => Result::Err(e),
    }
}

/// Declaring a name: a fresh cell holding `v` is appended and the scope's map
/// gains an entry for it, shadowing earlier entries of the same name.
pub open spec fn declare_in(st: StateM, sc: int, name: Seq<char>, v: TypeM) -> StateM {
    StateM {
        scopes: st.scopes.update(
            sc,
            ScopeM {
                map: st.scopes[sc].map.push((name, st.slots.len() as int)),
                parent: st.scopes[sc].parent,
            },
        ),
        slots: st.slots.push(v),
        output: st.output,
    }
}

/// Binding the leading parameters to the supplied arguments, one declaration
/// each, in order.
pub open spec fn declare_args(
    st: StateM,
    sc: int,
    params: Seq<Seq<char>>,
    argv: Seq<TypeM>,
    i: int,
) -> StateM
    decreases argv.len() - i,
{
    if i < 0 || i >= argv.len() || i >= params.len() {
        st
    } else {
        declare_args(declare_in(st, sc, params[i], argv[i]), sc, params, argv, i + 1)
    }
}

/// Evaluates one node.  Consumes one step of the budget, and evaluates each
/// child with the remainder.
pub open spec fn spec_eval(st: StateM, node: TypeM, sc: int, fuel: nat) -> (StateM, Result<
    Option<TypeM>,
    Error,
>)
    decreases fuel, 3int, 0int,
{
    if fuel == 0 {
        (st, Result::Err(Error::OutOfSteps))
    } else {
        let f = (fuel - 1) as nat;
        match node {
            TypeM::Number(_) => (st, Result::Ok(Option::Some(node))),
            TypeM::Bool(_) => (st, Result::Ok(Option::Some(node))),
            TypeM::Str(_) => (st, Result::Ok(Option::Some(node))),
            TypeM::Function(fm) => match fm {
                FunM::NormalFunction { scope, .. } => if 0 <= scope < st.scopes.len() {
                    (st, Result::Ok(Option::Some(node)))
                } else {
                    (st, Result::Err(Error::TypeError))
                },
                FunM::BuiltIn { .. } => (st, Result::Ok(Option::Some(node))),
            },
            TypeM::Comment(_) => (st, Result::Ok(Option::None)),
            TypeM::Symbol(name) => match chain_lookup(st.scopes, sc, name) {
                Option::Some(slot) => (st, Result::Ok(Option::Some(st.slots[slot]))),
                Option::None => (st, Result::Err(Error::UndefinedSymbol)),
            },
            TypeM::VariableDeclaration { variable, value } => {
                let (st1, r) = spec_eval(st, *value, sc, f);
                match r {
                    Result::Err(e) => (st1, Result::Err(e)),
                    Result::Ok(Option::None) => (st1, Result::Err(Error::VoidValueError)),
                    Result::Ok(Option::Some(v)) => (
                        declare_in(st1, sc, variable, v),
                        Result::Ok(Option::None),
                    ),
                }
            },
            TypeM::Assignment { variable, value } => {
                let (st1, r) = spec_eval(st, *value, sc, f);
                match r {
                    Result::Err(e) => (st1, Result::Err(e)),
                    Result::Ok(Option::None) => (st1, Result::Err(Error::VoidValueError)),
                    Result::Ok(Option::Some(v)) => match chain_lookup(st1.scopes, sc, variable) {
                        Option::Some(slot) => (
                            StateM { slots: st1.slots.update(slot, v), ..st1 },
                            Result::Ok(Option::None),
                        ),
                        Option::None => (st1, Result::Err(Error::UndefinedAssignmentTarget)),
                    },
                }
            },
            TypeM::CreateFunction { name, code, parameters } => {
                let fv = TypeM::Function(
                    FunM::NormalFunction { code, scope: sc, parameters },
                );
                if name.len() > 0 {
                    (declare_in(st, sc, name, fv), Result::Ok(Option::Some(fv)))
                } else {
                    (st, Result::Ok(Option::Some(fv)))
                }
            },
            TypeM::Conditional { condition, then, otherwise } => {
                let (st1, rc) = spec_eval(st, *condition, sc, f);
                match rc {
                    Result::Err(e) => (st1, Result::Err(e)),
                    Result::Ok(Option::Some(TypeM::Bool(b))) => if b {
                        spec_eval_block(st1, then, 0, sc, f, Option::None)
                    } else {
                        match otherwise {
                            Option::Some(o) => spec_eval_block(st1, o, 0, sc, f, Option::None),
                            Option::None => (st1, Result::Ok(Option::None)),
                        }
                    },
                    Result::Ok(_) => (st1, Result::Err(Error::TypeError)),
                }
            },
            TypeM::While { condition, code } => spec_eval_while(
                st,
                *condition,
                code,
                sc,
                f,
                Option::None,
            ),
            TypeM::Invocation { code } => spec_eval_block(st, code, 0, sc, f, Option::None),
            TypeM::Call { callee, arguments } => {
                let (st1, ra) = spec_eval_args(st, arguments, 0, sc, fuel, Seq::empty());
                match ra {
                    Result::Err(e) => (st1, Result::Err(e)),
                    Result::Ok(argv) => match chain_lookup(st1.scopes, sc, callee) {
                        Option::None => (st1, Result::Err(Error::UndefinedSymbol)),
                        Option::Some(slot) => match st1.slots[slot] {
                            TypeM::Function(fm) => spec_call(st1, fm, argv, fuel),
                            _ => (st1, Result::Err(Error::TypeError)),
                        },
                    },
                }
            },
        }
    }
}

/// Evaluates the argument expressions of a call left to right; each must
/// yield a value.
pub open spec fn spec_eval_args(
    st: StateM,
    args: Seq<TypeM>,
    i: int,
    sc: int,
    fuel: nat,
    acc: Seq<TypeM>,
) -> (StateM, Result<Seq<TypeM>, Error>)
    decreases fuel, 2int, args.len() - i,
{
    if i < 0 || i >= args.len() {
        (st, Result::Ok(acc))
    } else if fuel == 0 {
        (st, Result::Err(Error::OutOfSteps))
    } else {
        let (st1, r) = spec_eval(st, args[i], sc, (fuel - 1) as nat);
        match r {
            Result::Err(e) => (st1, Result::Err(e)),
            Result::Ok(Option::None) => (st1, Result::Err(Error::VoidValueError)),
            Result::Ok(Option::Some(v)) => spec_eval_args(st1, args, i + 1, sc, fuel, acc.push(v)),
        }
    }
}

/// Evaluates a statement list in order.  The block's value is the last value
/// any statement produced; statements that produce none leave it unchanged.
pub open spec fn spec_eval_block(
    st: StateM,
    stmts: Seq<TypeM>,
    i: int,
    sc: int,
    fuel: nat,
    last: Option<TypeM>,
) -> (StateM, Result<Option<TypeM>, Error>)
    decreases fuel, 4int, stmts.len() - i,
{
    if i < 0 || i >= stmts.len() {
        (st, Result::Ok(last))
    } else {
        let (st1, r) = spec_eval(st, stmts[i], sc, fuel);
        match r {
            Result::Err(e) => (st1, Result::Err(e)),
            Result::Ok(opt) => spec_eval_block(
                st1,
                stmts,
                i + 1,
                sc,
                fuel,
                if opt is Some {
                    opt
                } else {
                    last
                },
            ),
        }
    }
}

/// Runs a `while` loop: re-evaluates the condition, which must yield a
/// boolean, and runs the body in the same scope while it holds.  Each
/// iteration consumes one step of the budget.
pub open spec fn spec_eval_while(
    st: StateM,
    cond: TypeM,
    code: Seq<TypeM>,
    sc: int,
    fuel: nat,
    last: Option<TypeM>,
) -> (StateM, Result<Option<TypeM>, Error>)
    decreases fuel, 1int, 0int,
{
    if fuel == 0 {
        (st, Result::Err(Error::OutOfSteps))
    } else {
        let f = (fuel - 1) as nat;
        let (st1, rc) = spec_eval(st, cond, sc, f);
        match rc {
            Result::Err(e) => (st1, Result::Err(e)),
            Result::Ok(Option::Some(TypeM::Bool(b))) => if !b {
                (st1, Result::Ok(last))
            } else {
                let (st2, rb) = spec_eval_block(st1, code, 0, sc, f, Option::None);
                match rb {
                    Result::Err(e) => (st2, Result::Err(e)),
                    Result::Ok(opt) => spec_eval_while(
                        st2,
                        cond,
                        code,
                        sc,
                        f,
                        if opt is Some {
                            opt
                        } else {
                            last
                        },
                    ),
                }
            },
            Result::Ok(_) => (st1, Result::Err(Error::TypeError)),
        }
    }
}

/// Calls a function value on evaluated arguments.
///
/// A user function gets a fresh scope copied from its captured scope (the
/// copy shares every binding cell with the original); exactly matching
/// arguments are bound there and the body runs in it.  Fewer arguments make
/// a partial application: the supplied ones are bound and a new function
/// closing over the copy is returned.  More arguments than parameters is an
/// arity error, as is calling a native with fewer than its declared minimum.
pub open spec fn spec_call(st: StateM, fm: FunM, argv: Seq<TypeM>, fuel: nat) -> (StateM, Result<
    Option<TypeM>,
    Error,
>)
    decreases fuel, 0int, 0int,
{
    match fm {
        FunM::NormalFunction { code, scope, parameters } => {
            if argv.len() > parameters.len() {
                (st, Result::Err(Error::ArityError))
            } else {
                let new_idx = st.scopes.len() as int;
                let st1 = StateM {
                    scopes: st.scopes.push(
                        ScopeM { map: st.scopes[scope].map, parent: st.scopes[scope].parent },
                    ),
                    ..st
                };
                let st2 = declare_args(st1, new_idx, parameters, argv, 0);
                if argv.len() < parameters.len() {
                    let fv = TypeM::Function(
                        FunM::NormalFunction {
                            code,
                            scope: new_idx,
                            parameters: parameters.skip(argv.len() as int),
                        },
                    );
                    (st2, Result::Ok(Option::Some(fv)))
                } else if fuel == 0 {
                    (st2, Result::Err(Error::OutOfSteps))
                } else {
                    spec_eval_block(st2, code, 0, new_idx, (fuel - 1) as nat, Option::None)
                }
            }
        },
        FunM::BuiltIn { kind, min_args } => {
            if argv.len() < min_args {
                (st, Result::Err(Error::ArityError))
            } else {
                let (line, r) = spec_native(kind, argv);
                (
                    StateM {
                        output: match line {
                            Option::Some(l) => st.output.push(l),
                            Option::None => st.output,
                        },
                        ..st
                    },
                    r,
                )
            }
        },
    }
}

/// Model of an optional value.
pub open spec fn opt_view(o: Option<Type>) -> Option<TypeM> {
    match o {
        Option::Some(v) => Option::Some(node_view(v)),
        Option::None => Option::None,
    }
}

/// A value well-formed against fewer scopes stays well-formed as scopes are
/// added.
proof fn lemma_wf_value_mono(n1: int, n2: int, v: TypeM)
    requires
        n1 <= n2,
        wf_value(n1, v),
    ensures
        wf_value(n2, v),
{
}

/// Declaring a well-formed value preserves state well-formedness.
proof fn lemma_wf_declare(st: StateM, sc: int, name: Seq<char>, v: TypeM)
    requires
        wf_state(st),
        0 <= sc < st.scopes.len(),
        wf_value(st.scopes.len() as int, v),
    ensures
        wf_state(declare_in(st, sc, name, v)),
        declare_in(st, sc, name, v).scopes.len() == st.scopes.len(),
        declare_in(st, sc, name, v).slots.len() == st.slots.len() + 1,
{
    let st2 = declare_in(st, sc, name, v);
    assert forall|i: int| 0 <= i < st2.scopes.len() implies wf_scope_at(
        st2.scopes[i],
        i,
        st2.slots.len() as int,
    ) by {
        assert(wf_scope_at(st.scopes[i], i, st.slots.len() as int));
        if i == sc {
            let m2 = st2.scopes[i].map;
            assert forall|j: int| 0 <= j < m2.len() implies 0 <= #[trigger] m2[j].1
                < st2.slots.len() by {
                if j < m2.len() - 1 {
                    assert(m2[j] == st.scopes[i].map[j]);
                }
            };
        }
    };
    assert forall|k: int| 0 <= k < st2.slots.len() implies wf_value(
        st2.scopes.len() as int,
        #[trigger] st2.slots[k],
    ) by {
        if k < st.slots.len() {
            assert(st2.slots[k] == st.slots[k]);
            assert(wf_value(st.scopes.len() as int, st.slots[k]));
        }
    };
}

/// Updating a cell with a well-formed value preserves well-formedness.
proof fn lemma_wf_assign(st: StateM, slot: int, v: TypeM)
    requires
        wf_state(st),
        0 <= slot < st.slots.len(),
        wf_value(st.scopes.len() as int, v),
    ensures
        wf_state(StateM { slots: st.slots.update(slot, v), ..st }),
{
    let st2 = StateM { slots: st.slots.update(slot, v), ..st };
    assert forall|i: int| 0 <= i < st2.scopes.len() implies wf_scope_at(
        st2.scopes[i],
        i,
        st2.slots.len() as int,
    ) by {
        assert(wf_scope_at(st.scopes[i], i, st.slots.len() as int));
    };
    assert forall|k: int| 0 <= k < st2.slots.len() implies wf_value(
        st2.scopes.len() as int,
        #[trigger] st2.slots[k],
    ) by {
        if k != slot {
            assert(st2.slots[k] == st.slots[k]);
            assert(wf_value(st.scopes.len() as int, st.slots[k]));
        }
    };
}

/// Copying an existing scope to the end of the arena preserves
/// well-formedness: the copy's parent link still points strictly downward.
proof fn lemma_wf_push_scope(st: StateM, base: int)
    requires
        wf_state(st),
        0 <= base < st.scopes.len(),
    ensures
        wf_state(
            StateM {
                scopes: st.scopes.push(
                    ScopeM { map: st.scopes[base].map, parent: st.scopes[base].parent },
                ),
                ..st
            },
        ),
{
    let st2 = StateM {
        scopes: st.scopes.push(
            ScopeM { map: st.scopes[base].map, parent: st.scopes[base].parent },
        ),
        ..st
    };
    assert forall|i: int| 0 <= i < st2.scopes.len() implies wf_scope_at(
        st2.scopes[i],
        i,
        st2.slots.len() as int,
    ) by {
        if i < st.scopes.len() {
            assert(st2.scopes[i] == st.scopes[i]);
            assert(wf_scope_at(st.scopes[i], i, st.slots.len() as int));
        } else {
            assert(wf_scope_at(st.scopes[base], base, st.slots.len() as int));
        }
    };
    assert forall|k: int| 0 <= k < st2.slots.len() implies wf_value(
        st2.scopes.len() as int,
        #[trigger] st2.slots[k],
    ) by {
        assert(wf_value(st.scopes.len() as int, st.slots[k]));
    };
}

/// A native's result value is a plain number, boolean or string, well-formed
/// against any scope arena.
proof fn lemma_native_result_wf(kind: crate::ast::NativeKind, args: Seq<TypeM>, n: int)
    ensures
        match spec_native(kind, args).1 {
            Result::Ok(Option::Some(v)) => wf_value(n, v),
            _ => true,
        },
{
}

impl FunctionTypes {
    /// Whether an argument count satisfies a function's arity: exact for a
    /// user function, a minimum for a native.
    #[allow(non_snake_case)]
    pub fn isEnoughArgs(this: &Self, amount: u8) -> (r: bool)
        ensures
            r == (match fun_view(*this) {
                FunM::NormalFunction { parameters, .. } => amount as int == parameters.len(),
                FunM::BuiltIn { min_args, .. } => amount as int >= min_args,
            }),
    {
        match this {
            FunctionTypes::NormalFunction { parameters, .. } => amount as usize
                == parameters.len(),
            FunctionTypes::BuiltIn { parameters, .. } => amount >= *parameters,
        }
    }

    /// Runs a statement list in a scope: the public face of block evaluation.
    #[allow(non_snake_case)]
    pub fn RunCode(interp: &mut Interpreter, code: &Vec<Type>, sc: usize, fuel: u64) -> (r: Result<
        Option<Type>,
        Error,
    >)
        requires
            wf_state(interp_view(*old(interp))),
            sc < old(interp).scopes@.len(),
        ensures
            ({
                let (st2, rr) = spec_eval_block(
                    interp_view(*old(interp)),
                    nodes_view(code@),
                    0,
                    sc as int,
                    fuel as nat,
                    Option::None,
                );
                interp_view(*final(interp)) == st2 && eval_res_view(r) == rr
            }),
            wf_state(interp_view(*final(interp))),
    {
        interp.eval_block(code, 0, sc, fuel, Option::None)
    }

    /// Calls a function value on evaluated arguments.
    pub fn call(this: &Self, interp: &mut Interpreter, argv: Vec<Type>, fuel: u64) -> (r: Result<
        Option<Type>,
        Error,
    >)
        requires
            wf_state(interp_view(*old(interp))),
            wf_value(
                interp_view(*old(interp)).scopes.len() as int,
                TypeM::Function(fun_view(*this)),
            ),
            forall|k: int|
                0 <= k < argv@.len() ==> wf_value(
                    interp_view(*old(interp)).scopes.len() as int,
                    node_view(#[trigger] argv@[k]),
                ),
        ensures
            ({
                let (st2, rr) = spec_call(
                    interp_view(*old(interp)),
                    fun_view(*this),
                    nodes_view(argv@),
                    fuel as nat,
                );
                interp_view(*final(interp)) == st2 && eval_res_view(r) == rr
            }),
            wf_state(interp_view(*final(interp))),
            interp_view(*final(interp)).scopes.len() >= interp_view(*old(interp)).scopes.len(),
            interp_view(*final(interp)).slots.len() >= interp_view(*old(interp)).slots.len(),
            match r {
                Result::Ok(Option::Some(v)) => wf_value(
                    interp_view(*final(interp)).scopes.len() as int,
                    node_view(v),
                ),
                _ => true,
            },
        decreases fuel, 0int, 0int,
    {
        let ghost st = interp_view(*interp);
        let ghost av = nodes_view(argv@);
        proof {
            reveal_with_fuel(node_view, 2);
            reveal_with_fuel(fun_view, 2);
        }
        match this {
            FunctionTypes::NormalFunction { code, scope, parameters } => {
                if argv.len() > parameters.len() {
                    return Result::Err(Error::ArityError);
                }
                let new_idx = interp.scopes.len();
                let base = interp.scopes[*scope].clone();
                interp.scopes.push(base);
                proof {
                    assert(scopes_view(interp.scopes@) =~= st.scopes.push(
                        ScopeM {
                            map: st.scopes[*scope as int].map,
                            parent: st.scopes[*scope as int].parent,
                        },
                    ));
                    assert(slots_view(interp.slots@) == st.slots);
                    assert(outputs_view(interp.output@) == st.output);
                    lemma_wf_push_scope(st, *scope as int);
                    assert(interp_view(*interp) == StateM {
                        scopes: st.scopes.push(
                            ScopeM {
                                map: st.scopes[*scope as int].map,
                                parent: st.scopes[*scope as int].parent,
                            },
                        ),
                        ..st
                    });
                }
                let ghost st1 = interp_view(*interp);
                let n = argv.len();
                let ghost pv = strings_view(parameters@);
                let mut i: usize = 0;
                while i < n
                    invariant
                        i <= n,
                        n == argv@.len() <= parameters@.len(),
                        pv == strings_view(parameters@),
                        av == nodes_view(argv@),
                        new_idx < interp_view(*interp).scopes.len(),
                        wf_state(interp_view(*interp)),
                        interp_view(*interp).scopes.len() == st1.scopes.len(),
                        interp_view(*interp).slots.len() >= st.slots.len(),
                        forall|k: int|
                            0 <= k < argv@.len() ==> wf_value(
                                st1.scopes.len() as int,
                                node_view(#[trigger] argv@[k]),
                            ),
                        declare_args(st1, new_idx as int, pv, av, 0) == declare_args(
                            interp_view(*interp),
                            new_idx as int,
                            pv,
                            av,
                            i as int,
                        ),
                    decreases n - i,
                {
                    let ghost pre = interp_view(*interp);
                    let v = argv[i].clone();
                    Scope::declare(&mut interp.scopes, &mut interp.slots, new_idx, &parameters[i], v);
                    proof {
                        assert(interp_view(*interp) == declare_in(
                            pre,
                            new_idx as int,
                            pv[i as int],
                            av[i as int],
                        ));
                        lemma_wf_declare(pre, new_idx as int, pv[i as int], av[i as int]);
                    }
                    i = i + 1;
                }
                let ghost st2 = interp_view(*interp);
                proof {
                    assert(st2 == declare_args(st1, new_idx as int, pv, av, 0));
                }
                if argv.len() < parameters.len() {
                    let mut rest: Vec<String> = Vec::new();
                    let total = parameters.len();
                    let mut j = n;
                    while j < total
                        invariant
                            n <= j <= total,
                            total == parameters@.len(),
                            rest@.len() == j - n,
                            forall|k: int|
                                0 <= k < rest@.len() ==> rest@[k]@ == strings_view(parameters@)[
                                    k + n
                                ],
                        decreases total - j,
                    {
                        rest.push(parameters[j].clone());
                        j = j + 1;
                    }
                    proof {
                        assert(strings_view(rest@) =~= strings_view(parameters@).skip(n as int));
                    }
                    let f = Type::Function(
                        FunctionTypes::NormalFunction {
                            code: crate::ast::clone_nodes(code),
                            scope: new_idx,
                            parameters: rest,
                        },
                    );
                    Result::Ok(Option::Some(f))
                } else if fuel == 0 {
                    Result::Err(Error::OutOfSteps)
                } else {
                    interp.eval_block(code, 0, new_idx, fuel - 1, Option::None)
                }
            },
            FunctionTypes::BuiltIn { function, parameters } => {
                if argv.len() < *parameters as usize {
                    return Result::Err(Error::ArityError);
                }
                let (line, r) = run_native(function.0, &argv);
                proof {
                    lemma_native_result_wf(
                        function.0,
                        av,
                        interp_view(*interp).scopes.len() as int,
                    );
                }
                match line {
                    Option::Some(l) => {
                        interp.output.push(l);
                        proof {
                            assert(outputs_view(interp.output@) =~= st.output.push(
                                spec_native(function.0, av).0->Some_0,
                            ));
                            assert(scopes_view(interp.scopes@) == st.scopes);
                            assert(slots_view(interp.slots@) == st.slots);
                        }
                    },
                    Option::None => {},
                }
                r
            },
        }
    }
}

impl Interpreter {
    /// Evaluates one node against one scope, with a step budget.
    #[verifier::rlimit(100)]
    pub fn interpret(&mut self, node: &Type, sc: usize, fuel: u64) -> (r: Result<
        Option<Type>,
        Error,
    >)
        requires
            wf_state(interp_view(*old(self))),
            sc < old(self).scopes@.len(),
        ensures
            ({
                let (st2, rr) = spec_eval(
                    interp_view(*old(self)),
                    node_view(*node),
                    sc as int,
                    fuel as nat,
                );
                interp_view(*final(self)) == st2 && eval_res_view(r) == rr
            }),
            wf_state(interp_view(*final(self))),
            interp_view(*final(self)).scopes.len() >= interp_view(*old(self)).scopes.len(),
            interp_view(*final(self)).slots.len() >= interp_view(*old(self)).slots.len(),
            match r {
                Result::Ok(Option::Some(v)) => wf_value(
                    interp_view(*final(self)).scopes.len() as int,
                    node_view(v),
                ),
                _ => true,
            },
        decreases fuel, 3int, 0int,
    {
        let ghost st = interp_view(*self);
        if fuel == 0 {
            return Result::Err(Error::OutOfSteps);
        }
        match node {
            Type::Number(_) => Result::Ok(Option::Some(node.clone())),
            Type::Bool(_) => Result::Ok(Option::Some(node.clone())),
            Type::Str(_) => Result::Ok(Option::Some(node.clone())),
            Type::Function(ft) => match ft {
                FunctionTypes::NormalFunction { scope, .. } => {
                    if *scope < self.scopes.len() {
                        let c = node.clone();
                        proof {
                            reveal_with_fuel(node_view, 2);
                            reveal_with_fuel(fun_view, 2);
                            assert(node_view(*node) is Function);
                            assert(wf_value(st.scopes.len() as int, node_view(c)));
                        }
                        Result::Ok(Option::Some(c))
                    } else {
                        proof {
                            reveal_with_fuel(node_view, 2);
                            reveal_with_fuel(fun_view, 2);
                        }
                        Result::Err(Error::TypeError)
                    }
                },
                FunctionTypes::BuiltIn { .. } => {
                    let c = node.clone();
                    proof {
                        reveal_with_fuel(node_view, 2);
                        reveal_with_fuel(fun_view, 2);
                        assert(node_view(*node) is Function);
                        assert(wf_value(st.scopes.len() as int, node_view(c)));
                    }
                    Result::Ok(Option::Some(c))
                },
            },
            Type::Comment(_) => Result::Ok(Option::None),
            Type::Symbol(name) => {
                match Scope::get(&self.scopes, sc, name) {
                    Option::Some(slot) => {
                        proof {
                            crate::scope::lemma_chain_lookup_in_range(
                                st.scopes,
                                sc as int,
                                name@,
                                st.slots.len() as int,
                            );
                            assert(wf_value(st.scopes.len() as int, st.slots[slot as int]));
                        }
                        Result::Ok(Option::Some(self.slots[slot].get()))
                    },
                    Option::None => Result::Err(Error::UndefinedSymbol),
                }
            },
            Type::VariableDeclaration { variable, value } => {
                match self.interpret(&**value, sc, fuel - 1) {
                    Result::Err(e) => Result::Err(e),
                    Result::Ok(Option::None) => Result::Err(Error::VoidValueError),
                    Result::Ok(Option::Some(v)) => {
                        let ghost st1 = interp_view(*self);
                        proof {
                            lemma_wf_declare(st1, sc as int, variable@, node_view(v));
                        }
                        Scope::declare(&mut self.scopes, &mut self.slots, sc, variable, v);
                        proof {
                            assert(interp_view(*self) == declare_in(
                                st1,
                                sc as int,
                                variable@,
                                node_view(v),
                            ));
                        }
                        Result::Ok(Option::None)
                    },
                }
            },
            Type::Assignment { variable, value } => {
                match self.interpret(&**value, sc, fuel - 1) {
                    Result::Err(e) => Result::Err(e),
                    Result::Ok(Option::None) => Result::Err(Error::VoidValueError),
                    Result::Ok(Option::Some(v)) => {
                        let ghost st1 = interp_view(*self);
                        proof {
                            crate::scope::lemma_chain_lookup_in_range(
                                st1.scopes,
                                sc as int,
                                variable@,
                                st1.slots.len() as int,
                            );
                            if let Option::Some(slot) = chain_lookup(
                                st1.scopes,
                                sc as int,
                                variable@,
                            ) {
                                lemma_wf_assign(st1, slot, node_view(v));
                            }
                        }
                        let ghost vv = node_view(v);
                        match Scope::assign(&self.scopes, &mut self.slots, sc, variable, v) {
                            Result::Ok(()) => {
                                proof {
                                    let slot = chain_lookup(
                                        st1.scopes,
                                        sc as int,
                                        variable@,
                                    )->Some_0;
                                    assert(interp_view(*self) == StateM {
                                        slots: st1.slots.update(slot, vv),
                                        ..st1
                                    });
                                }
                                Result::Ok(Option::None)
                            },
                            Result::Err(e) => {
                                proof {
                                    assert(interp_view(*self) == st1);
                                }
                                Result::Err(e)
                            },
                        }
                    },
                }
            },
            Type::CreateFunction { name, code, parameters } => {
                let p2 = parameters.clone();
                let c2 = crate::ast::clone_nodes(code);
                let ghost pview = strings_view(p2@);
                let ghost cview = nodes_view(c2@);
                proof {
                    assert(pview =~= strings_view(parameters@));
                    assert(cview == nodes_view(code@));
                }
                let ghost c2s = c2;
                let ghost p2s = p2;
                let f = Type::Function(
                    FunctionTypes::NormalFunction { code: c2, scope: sc, parameters: p2 },
                );
                proof {
                    assert(f == Type::Function(
                        FunctionTypes::NormalFunction { code: c2s, scope: sc, parameters: p2s },
                    ));
                    assert(node_view(f) == TypeM::Function(
                        FunM::NormalFunction { code: cview, scope: sc as int, parameters: pview },
                    )) by {
                        reveal_with_fuel(node_view, 2);
                        reveal_with_fuel(fun_view, 2);
                        assert(fun_view(FunctionTypes::NormalFunction { code: c2s, scope: sc, parameters: p2s })
                            == FunM::NormalFunction { code: nodes_view(c2s@), scope: sc as int, parameters: strings_view(p2s@) });
                    }
                }
                if !name.as_str().is_empty() {
                    let ghost st1 = interp_view(*self);
                    proof {
                        assert(st1.scopes.len() == self.scopes@.len());
                        assert(0 <= sc < st1.scopes.len());
                        assert(wf_value(st1.scopes.len() as int, node_view(f)));
                        lemma_wf_declare(st1, sc as int, name@, node_view(f));
                    }
                    let fc = f.clone();
                    Scope::declare(&mut self.scopes, &mut self.slots, sc, name, fc);
                    proof {
                        assert(interp_view(*self) == declare_in(
                            st1,
                            sc as int,
                            name@,
                            node_view(f),
                        ));
                    }
                    Result::Ok(Option::Some(f))
                } else {
                    Result::Ok(Option::Some(f))
                }
            },
            Type::Conditional { condition, then, otherwise } => {
                match self.interpret(&**condition, sc, fuel - 1) {
                    Result::Err(e) => Result::Err(e),
                    Result::Ok(Option::Some(v)) => match v {
                        Type::Bool(b) => {
                            if b {
                                self.eval_block(then, 0, sc, fuel - 1, Option::None)
                            } else {
                                match otherwise {
                                    Option::Some(o) => self.eval_block(
                                        o,
                                        0,
                                        sc,
                                        fuel - 1,
                                        Option::None,
                                    ),
                                    Option::None => Result::Ok(Option::None),
                                }
                            }
                        },
                        _ => Result::Err(Error::TypeError),
                    },
                    Result::Ok(Option::None) => Result::Err(Error::TypeError),
                }
            },
            Type::While { condition, code } => self.eval_while(
                &**condition,
                code,
                sc,
                fuel - 1,
                Option::None,
            ),
            Type::Invocation { code } => self.eval_block(code, 0, sc, fuel - 1, Option::None),
            Type::Call { callee, arguments } => {
                let empty_acc: Vec<Type> = Vec::new();
                proof {
                    assert(nodes_view(empty_acc@) =~= Seq::<TypeM>::empty());
                }
                match self.eval_args(arguments, 0, sc, fuel, empty_acc) {
                    Result::Err(e) => Result::Err(e),
                    Result::Ok(argv) => {
                        match Scope::get(&self.scopes, sc, callee) {
                            Option::None => Result::Err(Error::UndefinedSymbol),
                            Option::Some(slot) => {
                                let ghost st1 = interp_view(*self);
                                proof {
                                    crate::scope::lemma_chain_lookup_in_range(
                                        st1.scopes,
                                        sc as int,
                                        callee@,
                                        st1.slots.len() as int,
                                    );
                                    assert(wf_value(
                                        st1.scopes.len() as int,
                                        st1.slots[slot as int],
                                    ));
                                }
                                let fval = self.slots[slot].get();
                                proof {
                                    assert(node_view(fval) == st1.slots[slot as int]);
                                }
                                match fval {
                                    Type::Function(ft) => {
                                        proof {
                                            reveal_with_fuel(node_view, 2);
                                            assert(st1.slots[slot as int] == TypeM::Function(
                                                fun_view(ft),
                                            ));
                                        }
                                        FunctionTypes::call(&ft, self, argv, fuel)
                                    },
                                    _ => {
                                        proof {
                                            reveal_with_fuel(node_view, 2);
                                            assert(!(node_view(fval) is Function));
                                        }
                                        Result::Err(Error::TypeError)
                                    },
                                }
                            },
                        }
                    },
                }
            },
        }
    }

    /// Evaluates a call's argument expressions left to right, appending each
    /// value to `acc`.
    fn eval_args(&mut self, args: &Vec<Type>, i: usize, sc: usize, fuel: u64, acc: Vec<Type>) -> (r:
        Result<Vec<Type>, Error>)
        requires
            wf_state(interp_view(*old(self))),
            sc < old(self).scopes@.len(),
            forall|k: int|
                0 <= k < acc@.len() ==> wf_value(
                    interp_view(*old(self)).scopes.len() as int,
                    node_view(#[trigger] acc@[k]),
                ),
        ensures
            ({
                let (st2, rr) = spec_eval_args(
                    interp_view(*old(self)),
                    nodes_view(args@),
                    i as int,
                    sc as int,
                    fuel as nat,
                    nodes_view(acc@),
                );
                interp_view(*final(self)) == st2 && (match (r, rr) {
                    (Result::Ok(v), Result::Ok(s)) => nodes_view(v@) == s,
                    (Result::Err(e1), Result::Err(e2)) => e1 == e2,
                    _ => false,
                })
            }),
            wf_state(interp_view(*final(self))),
            interp_view(*final(self)).scopes.len() >= interp_view(*old(self)).scopes.len(),
            interp_view(*final(self)).slots.len() >= interp_view(*old(self)).slots.len(),
            match r {
                Result::Ok(v) => forall|k: int|
                    0 <= k < v@.len() ==> wf_value(
                        interp_view(*final(self)).scopes.len() as int,
                        node_view(#[trigger] v@[k]),
                    ),
                _ => true,
            },
        decreases fuel, 2int, args@.len() - i,
    {
        if i >= args.len() {
            proof {
                assert(nodes_view(acc@) == nodes_view(acc@));
            }
            return Result::Ok(acc);
        }
        if fuel == 0 {
            return Result::Err(Error::OutOfSteps);
        }
        match self.interpret(&args[i], sc, fuel - 1) {
            Result::Err(e) => Result::Err(e),
            Result::Ok(Option::None) => Result::Err(Error::VoidValueError),
            Result::Ok(Option::Some(v)) => {
                let ghost acc0 = acc@;
                let ghost vv = node_view(v);
                let mut acc2 = acc;
                acc2.push(v);
                proof {
                    assert(nodes_view(acc2@) =~= nodes_view(acc0).push(vv));
                    assert forall|k: int| 0 <= k < acc2@.len() implies wf_value(
                        interp_view(*self).scopes.len() as int,
                        node_view(#[trigger] acc2@[k]),
                    ) by {
                        if k < acc0.len() {
                            assert(acc2@[k] == acc0[k]);
                            lemma_wf_value_mono(
                                interp_view(*old(self)).scopes.len() as int,
                                interp_view(*self).scopes.len() as int,
                                node_view(acc0[k]),
                            );
                        }
                    };
                }
                self.eval_args(args, i + 1, sc, fuel, acc2)
            },
        }
    }

    /// Evaluates a statement list in order, keeping the last produced value.
    fn eval_block(
        &mut self,
        stmts: &Vec<Type>,
        i: usize,
        sc: usize,
        fuel: u64,
        last: Option<Type>,
    ) -> (r: Result<Option<Type>, Error>)
        requires
            wf_state(interp_view(*old(self))),
            sc < old(self).scopes@.len(),
            match last {
                Option::Some(v) => wf_value(
                    interp_view(*old(self)).scopes.len() as int,
                    node_view(v),
                ),
                Option::None => true,
            },
        ensures
            ({
                let (st2, rr) = spec_eval_block(
                    interp_view(*old(self)),
                    nodes_view(stmts@),
                    i as int,
                    sc as int,
                    fuel as nat,
                    opt_view(last),
                );
                interp_view(*final(self)) == st2 && eval_res_view(r) == rr
            }),
            wf_state(interp_view(*final(self))),
            interp_view(*final(self)).scopes.len() >= interp_view(*old(self)).scopes.len(),
            interp_view(*final(self)).slots.len() >= interp_view(*old(self)).slots.len(),
            match r {
                Result::Ok(Option::Some(v)) => wf_value(
                    interp_view(*final(self)).scopes.len() as int,
                    node_view(v),
                ),
                _ => true,
            },
        decreases fuel, 4int, stmts@.len() - i,
    {
        if i >= stmts.len() {
            return Result::Ok(last);
        }
        match self.interpret(&stmts[i], sc, fuel) {
            Result::Err(e) => Result::Err(e),
            Result::Ok(opt) => {
                let next = match opt {
                    Option::Some(v) => Option::Some(v),
                    Option::None => last,
                };
                self.eval_block(stmts, i + 1, sc, fuel, next)
            },
        }
    }

    /// Runs a `while` node: condition, then body, again, within the budget.
    fn eval_while(
        &mut self,
        cond: &Type,
        code: &Vec<Type>,
        sc: usize,
        fuel: u64,
        last: Option<Type>,
    ) -> (r: Result<Option<Type>, Error>)
        requires
            wf_state(interp_view(*old(self))),
            sc < old(self).scopes@.len(),
            match last {
                Option::Some(v) => wf_value(
                    interp_view(*old(self)).scopes.len() as int,
                    node_view(v),
                ),
                Option::None => true,
            },
        ensures
            ({
                let (st2, rr) = spec_eval_while(
                    interp_view(*old(self)),
                    node_view(*cond),
                    nodes_view(code@),
                    sc as int,
                    fuel as nat,
                    opt_view(last),
                );
                interp_view(*final(self)) == st2 && eval_res_view(r) == rr
            }),
            wf_state(interp_view(*final(self))),
            interp_view(*final(self)).scopes.len() >= interp_view(*old(self)).scopes.len(),
            interp_view(*final(self)).slots.len() >= interp_view(*old(self)).slots.len(),
            match r {
                Result::Ok(Option::Some(v)) => wf_value(
                    interp_view(*final(self)).scopes.len() as int,
                    node_view(v),
                ),
                _ => true,
            },
        decreases fuel, 1int, 0int,
    {
        if fuel == 0 {
            return Result::Err(Error::OutOfSteps);
        }
        match self.interpret(cond, sc, fuel - 1) {
            Result::Err(e) => Result::Err(e),
            Result::Ok(Option::Some(v)) => match v {
                Type::Bool(b) => {
                    if !b {
                        Result::Ok(last)
                    } else {
                        match self.eval_block(code, 0, sc, fuel - 1, Option::None) {
                            Result::Err(e) => Result::Err(e),
                            Result::Ok(opt) => {
                                let next = match opt {
                                    Option::Some(v2) => Option::Some(v2),
                                    Option::None => last,
                                };
                                self.eval_while(cond, code, sc, fuel - 1, next)
                            },
                        }
                    }
                },
                _ => Result::Err(Error::TypeError),
            },
            Result::Ok(Option::None) => Result::Err(Error::TypeError),
        }
    }
}


impl Interpreter {
    /// A fresh interpreter: one empty global scope, no cells, no output.
    pub fn new() -> (r: Interpreter)
        ensures
            interp_view(r) == (StateM {
                scopes: seq![ScopeM { map: Seq::empty(), parent: Option::None }],
                slots: Seq::empty(),
                output: Seq::empty(),
            }),
            wf_state(interp_view(r)),
    {
        let mut scopes: Vec<Scope> = Vec::new();
        scopes.push(Scope::new());
        let r = Interpreter { scopes, slots: Vec::new(), output: Vec::new() };
        proof {
            assert(scopes_view(r.scopes@) =~= seq![
                ScopeM { map: Seq::<(Seq<char>, int)>::empty(), parent: Option::<int>::None },
            ]);
            assert(slots_view(r.slots@) =~= Seq::<TypeM>::empty());
            assert(outputs_view(r.output@) =~= Seq::<Seq<char>>::empty());
            assert(wf_scope_at(interp_view(r).scopes[0], 0, 0));
        }
        r
    }

    /// Registers a native under `name` in the global scope, with its minimum
    /// argument count.
    #[allow(non_snake_case)]
    pub fn addFunction(&mut self, name: &str, parameters: u8, f: Func)
        requires
            wf_state(interp_view(*old(self))),
            old(self).scopes@.len() > 0,
        ensures
            interp_view(*final(self)) == declare_in(
                interp_view(*old(self)),
                0,
                name@,
                TypeM::Function(FunM::BuiltIn { kind: f.0, min_args: parameters as int }),
            ),
            wf_state(interp_view(*final(self))),
            final(self).scopes@.len() == old(self).scopes@.len(),
    {
        let ghost st = interp_view(*self);
        let key = String::from_str(name);
        let v = Type::Function(FunctionTypes::BuiltIn { function: f, parameters });
        proof {
            reveal_with_fuel(node_view, 2);
            reveal_with_fuel(fun_view, 2);
            assert(node_view(v) == TypeM::Function(
                FunM::BuiltIn { kind: f.0, min_args: parameters as int },
            ));
            lemma_wf_declare(st, 0, name@, node_view(v));
        }
        Scope::declare(&mut self.scopes, &mut self.slots, 0, &key, v);
        proof {
            assert(interp_view(*self) == declare_in(st, 0, name@, node_view(v)));
        }
    }

    /// Registers a constant value under `name` in the global scope (for
    /// example `true` and `false`, which the grammar has no literal for).
    #[allow(non_snake_case)]
    pub fn addObject(&mut self, name: &str, value: Type)
        requires
            wf_state(interp_view(*old(self))),
            old(self).scopes@.len() > 0,
            wf_value(interp_view(*old(self)).scopes.len() as int, node_view(value)),
        ensures
            interp_view(*final(self)) == declare_in(
                interp_view(*old(self)),
                0,
                name@,
                node_view(value),
            ),
            wf_state(interp_view(*final(self))),
            final(self).scopes@.len() == old(self).scopes@.len(),
    {
        let ghost st = interp_view(*self);
        let ghost vv = node_view(value);
        let key = String::from_str(name);
        proof {
            lemma_wf_declare(st, 0, name@, vv);
        }
        Scope::declare(&mut self.scopes, &mut self.slots, 0, &key, value);
        proof {
            assert(interp_view(*self) == declare_in(st, 0, name@, vv));
        }
    }

    /// Reads a string value out of a node; anything else is a type error.
    pub fn string_value(node: &Type) -> (r: Result<String, Error>)
        ensures
            match node_view(*node) {
                TypeM::Str(s) => r is Ok && r->Ok_0@ == s,
                _ => r == Result::<String, Error>::Err(Error::TypeError),
            },
    {
        match node {
            Type::Str(s) => Result::Ok(s.clone()),
            _ => Result::Err(Error::TypeError),
        }
    }
}


impl Interpreter {
    /// Parses `code` and executes its statements against the global scope,
    /// within a host-supplied step budget.  Side effects land in `output`;
    /// a parse or runtime error aborts the run and is returned.
    pub fn run(&mut self, code: &str, fuel: u64) -> (r: Result<(), Error>)
        requires
            wf_state(interp_view(*old(self))),
            old(self).scopes@.len() > 0,
        ensures
            wf_state(interp_view(*final(self))),
            (match crate::parser::sp_program(code@) {
                Result::Err(e) => r == Result::<(), Error>::Err(e) && interp_view(*final(self))
                    == interp_view(*old(self)),
                Result::Ok(stmts) => ({
                    let (st2, rr) = spec_eval_block(
                        interp_view(*old(self)),
                        stmts,
                        0,
                        0,
                        fuel as nat,
                        Option::None,
                    );
                    interp_view(*final(self)) == st2 && (match rr {
                        Result::Ok(_) => r == Result::<(), Error>::Ok(()),
                        Result::Err(e) => r == Result::<(), Error>::Err(e),
                    })
                }),
            }),
    {
        match crate::parser::ParseString(code) {
            Result::Err(e) => Result::Err(e),
            Result::Ok(stmts) => {
                match FunctionTypes::RunCode(self, &stmts, 0, fuel) {
                    Result::Ok(_) => Result::Ok(()),
                    Result::Err(e) => Result::Err(e),
                }
            },
        }
    }
}

/// Law: assigning to a name that has no binding anywhere in the scope chain
/// fails with `UndefinedAssignmentTarget`, leaving the store as the value's
/// own evaluation left it.
pub proof fn lemma_assignment_undeclared(
    st: StateM,
    name: Seq<char>,
    value: TypeM,
    sc: int,
    fuel: nat,
)
    requires
        fuel > 0,
        (spec_eval(st, value, sc, (fuel - 1) as nat).1 matches Result::Ok(v) && v is Some),
        chain_lookup(spec_eval(st, value, sc, (fuel - 1) as nat).0.scopes, sc, name) is None,
    ensures
        spec_eval(
            st,
            TypeM::Assignment { variable: name, value: Box::new(value) },
            sc,
            fuel,
        ) == (
            spec_eval(st, value, sc, (fuel - 1) as nat).0,
            Result::<Option<TypeM>, Error>::Err(Error::UndefinedAssignmentTarget),
        ),
{
}

/// Law: a call that supplies fewer arguments than the function declares
/// parameters is a partial application.  It binds the supplied arguments to
/// the leading parameters in a fresh copy of the captured scope (sharing its
/// cells) and returns a new function with the same body over the remaining
/// parameters, closing over that copy.
pub proof fn lemma_partial_application(
    st: StateM,
    code: Seq<TypeM>,
    scope: int,
    params: Seq<Seq<char>>,
    argv: Seq<TypeM>,
    fuel: nat,
)
    requires
        argv.len() < params.len(),
    ensures
        ({
            let new_idx = st.scopes.len() as int;
            let copied = StateM {
                scopes: st.scopes.push(
                    ScopeM { map: st.scopes[scope].map, parent: st.scopes[scope].parent },
                ),
                ..st
            };
            spec_call(
                st,
                FunM::NormalFunction { code, scope, parameters: params },
                argv,
                fuel,
            ) == (
                declare_args(copied, new_idx, params, argv, 0),
                Result::<Option<TypeM>, Error>::Ok(
                    Option::Some(
                        TypeM::Function(
                            FunM::NormalFunction {
                                code,
                                scope: new_idx,
                                parameters: params.skip(argv.len() as int),
                            },
                        ),
                    ),
                ),
            )
        }),
{
}

} // verus!\n