//! The type checker itself: the value types of the language, the
//! inference rules for every expression kind, and the whole-program
//! entry point `validate_program`.

use vstd::prelude::*;
use vstd::string::StringExecFns;

use crate::ast::BinOp;
use crate::ast::Declaration;
use crate::ast::Expr;

verus! {

/// A value type of the language.
#[derive(Debug, PartialEq, Eq)]
pub enum Type {
    /// No value, as produced by statement-like expressions.
    Void,
    /// A boolean.
    Bool,
    /// The sole numeric type.
    Float,
    /// A fixed-arity composite.  `Tuple` of length 1 is distinct from
    /// its element's type, and `Tuple` of length 0 is distinct from
    /// `Void`.
    Tuple(Vec<Type>),
}

/// The mathematical model of a [`Type`]: the same shape over `Seq`.
pub enum TyV {
    Void,
    Bool,
    Float,
    Tuple(Seq<TyV>),
}

/// The model of a sequence of types, element by element.
pub open spec fn tys_view(s: Seq<Type>) -> Seq<TyV>
    decreases s,
{
    if s.len() == 0 {
        Seq::empty()
    } else {
        tys_view(s.drop_last()).push(s.last()@)
    }
}

impl View for Type {
    type V = TyV;

    open spec fn view(&self) -> TyV
        decreases self,
    {
        match self {
            Type::Void => TyV::Void,
            Type::Bool => TyV::Bool,
            Type::Float => TyV::Float,
            Type::Tuple(v) => TyV::Tuple(tys_view(v@)),
        }
    }
}

/// The model of a sequence keeps its length and models each element.
pub proof fn lemma_tys_view_len(s: Seq<Type>)
    ensures
        tys_view(s).len() == s.len(),
    decreases s.len(),
{
    if s.len() > 0 {
        lemma_tys_view_len(s.drop_last());
        assert(tys_view(s) == tys_view(s.drop_last()).push(s.last()@));
    }
}

/// Each element of the model is the model of the element.
pub proof fn lemma_tys_view_index(s: Seq<Type>, i: int)
    requires
        0 <= i < s.len(),
    ensures
        tys_view(s).len() == s.len(),
        tys_view(s)[i] == s[i]@,
    decreases s.len(),
{
    lemma_tys_view_len(s);
    lemma_tys_view_len(s.drop_last());
    assert(tys_view(s) == tys_view(s.drop_last()).push(s.last()@));
    if i < s.len() - 1 {
        lemma_tys_view_index(s.drop_last(), i);
    }
}

/// How many assignment targets a value of this type can fill.
pub open spec fn tuple_size_v(t: TyV) -> nat {
    match t {
        TyV::Void => 0,
        TyV::Bool => 1,
        TyV::Float => 1,
        TyV::Tuple(v) => v.len(),
    }
}

impl Type {
    /// The number of assignment targets a value of this type can fill:
    /// `Void` fills none, a scalar fills one, a tuple fills one per
    /// element.
    pub fn tuple_size(&self) -> (r: usize)
        ensures
            r == tuple_size_v(self@),
    {
        match self {
            Type::Void => 0,
            Type::Bool | Type::Float => 1,
            Type::Tuple(v) => {
                proof {
                    lemma_tys_view_len(v@);
                }
                v.len()
            },
        }
    }
}

/// Structural equality of two types, decided recursively.
fn type_eq(a: &Type, b: &Type) -> (r: bool)
    ensures
        r == (a@ == b@),
    decreases a,
{
    match (a, b) {
        (Type::Void, Type::Void) => true,
        (Type::Bool, Type::Bool) => true,
        (Type::Float, Type::Float) => true,
        (Type::Tuple(va), Type::Tuple(vb)) => {
            proof {
                lemma_tys_view_len(va@);
                lemma_tys_view_len(vb@);
            }
            if va.len() != vb.len() {
                return false;
            }
            let n = va.len();
            for i in 0..n
                invariant
                    n == va.len() == vb.len(),
                    a is Tuple && a->Tuple_0 == *va,
                    b is Tuple && b->Tuple_0 == *vb,
                    forall|k: int| 0 <= k < i ==> va@[k]@ == vb@[k]@,
                decreases n - i,
            {
                proof {
                    assert(decreases_to!(*a => a->Tuple_0));
                    assert(decreases_to!(*va => va@));
                    assert(decreases_to!(va@ => va@[i as int]));
                }
                if !type_eq(&va[i], &vb[i]) {
                    proof {
                        lemma_tys_view_index(va@, i as int);
                        lemma_tys_view_index(vb@, i as int);
                        assert(tys_view(va@)[i as int] != tys_view(vb@)[i as int]);
                    }
                    return false;
                }
            }
            proof {
                assert forall|k: int| 0 <= k < n implies tys_view(va@)[k] == tys_view(
                    vb@,
                )[k] by {
                    lemma_tys_view_index(va@, k);
                    lemma_tys_view_index(vb@, k);
                }
                lemma_tys_view_len(va@);
                lemma_tys_view_len(vb@);
                assert(tys_view(va@) =~= tys_view(vb@));
            }
            true
        },
        _ => {
            proof {
                assert(a@ != b@);
            }
            false
        },
    }
}

/// The printed form of a type: scalars by name, a tuple as the
/// parenthesised list of its elements' forms.
pub open spec fn text_of(t: TyV) -> Seq<char>
    decreases t,
{
    match t {
        TyV::Void => "void"@,
        TyV::Bool => "bool"@,
        TyV::Float => "float"@,
        TyV::Tuple(ts) => "("@ + texts_of(ts) + ")"@,
    }
}

/// The printed forms of a sequence of types, each followed by a
/// separating comma.
pub open spec fn texts_of(ts: Seq<TyV>) -> Seq<char>
    decreases ts,
{
    if ts.len() == 0 {
        Seq::empty()
    } else {
        texts_of(ts.drop_last()) + text_of(ts.last()) + ", "@
    }
}

impl Type {
    /// The printed form of the type: `void`, `bool`, `float`, or a
    /// parenthesised element list such as `(float, bool, )`.
    pub fn to_text(&self) -> (r: String)
        ensures
            r@ == text_of(self@),
        decreases self,
    {
        match self {
            Type::Void => "void".to_string(),
            Type::Bool => "bool".to_string(),
            Type::Float => "float".to_string(),
            Type::Tuple(v) => {
                let mut r: String = "(".to_string();
                let n = v.len();
                for i in 0..n
                    invariant
                        n == v@.len(),
                        self is Tuple && self->Tuple_0 == *v,
                        r@ == "("@ + texts_of(tys_view(v@).subrange(0, i as int)),
                    decreases n - i,
                {
                    proof {
                        assert(decreases_to!(*self => self->Tuple_0));
                        assert(decreases_to!(*v => v@));
                        assert(decreases_to!(v@ => v@[i as int]));
                    }
                    let s = v[i].to_text();
                    r.append(s.as_str());
                    r.append(", ");
                    proof {
                        lemma_tys_view_index(v@, i as int);
                        assert(tys_view(v@).subrange(0, i as int + 1).drop_last()
                            =~= tys_view(v@).subrange(0, i as int));
                        assert(tys_view(v@).subrange(0, i as int + 1).last() == tys_view(
                            v@,
                        )[i as int]);
                    }
                }
                r.append(")");
                proof {
                    lemma_tys_view_len(v@);
                    assert(tys_view(v@).subrange(0, n as int) =~= tys_view(v@));
                }
                r
            },
        }
    }
}

/// A violation of the typing rules.  The first one found aborts the
/// whole check.
#[derive(Debug, PartialEq)]
#[allow(inconsistent_fields)]
pub enum TypeError {
    /// Two types that were required to agree did not.
    TypeMismatch { expected: Type, actual: Type },
    /// An arity contract (assignment targets against values, or call
    /// arguments against parameters) was violated.
    TupleLengthMismatch { expected: usize, actual: usize },
    /// A call names a function with no declaration.
    UnknownFunction(String),
}

/// The mathematical model of a [`TypeError`].
#[allow(inconsistent_fields)]
pub enum ErrV {
    TypeMismatch { expected: TyV, actual: TyV },
    TupleLengthMismatch { expected: nat, actual: nat },
    UnknownFunction(Seq<char>),
}

impl View for TypeError {
    type V = ErrV;

    open spec fn view(&self) -> ErrV {
        match self {
            TypeError::TypeMismatch { expected, actual } => ErrV::TypeMismatch {
                expected: expected@,
                actual: actual@,
            },
            TypeError::TupleLengthMismatch { expected, actual } => ErrV::TupleLengthMismatch {
                expected: *expected as nat,
                actual: *actual as nat,
            },
            TypeError::UnknownFunction(name) => ErrV::UnknownFunction(name@),
        }
    }
}

/// The first declaration named `name`, if any.  Declaration order
/// decides between duplicates.
pub open spec fn find_decl(env: Seq<Declaration>, name: Seq<char>) -> Option<Declaration>
    decreases env.len(),
{
    if env.len() == 0 {
        None
    } else if env[0].name@ == name {
        Some(env[0])
    } else {
        find_decl(env.drop_first(), name)
    }
}

/// The type a call has, derived purely from the callee's number of
/// return slots: none is `void`, one is `float`, more is a tuple of
/// that many `float`s.
pub open spec fn call_result(n_returns: nat) -> TyV {
    if n_returns == 0 {
        TyV::Void
    } else if n_returns == 1 {
        TyV::Float
    } else {
        TyV::Tuple(Seq::new(n_returns, |i: int| TyV::Float))
    }
}

/// The typing rules, one case per expression kind.  `Err` carries the
/// first violation found; inference is structural and short-circuits.
pub open spec fn ty_of(e: Expr, env: Seq<Declaration>) -> Result<TyV, ErrV>
    decreases e, 0int,
{
    match e {
        Expr::Literal(_) => Ok(TyV::Float),
        Expr::Identifier(_) => Ok(TyV::Float),
        Expr::GlobalDataAddr(_) => Ok(TyV::Float),
        Expr::Bool(_) => Ok(TyV::Bool),
        Expr::Binop(_, l, r) => match (ty_of(*l, env), ty_of(*r, env)) {
            (Err(er), _) => Err(er),
            (Ok(_), Err(er)) => Err(er),
            (Ok(lt), Ok(rt)) => if lt == rt {
                Ok(lt)
            } else {
                Err(ErrV::TypeMismatch { expected: lt, actual: rt })
            },
        },
        Expr::Compare(_, l, r) => match (ty_of(*l, env), ty_of(*r, env)) {
            (Err(er), _) => Err(er),
            (Ok(_), Err(er)) => Err(er),
            (Ok(_), Ok(_)) => Ok(TyV::Bool),
        },
        Expr::IfThen(cond, body) => match ty_of(*cond, env) {
            Err(er) => Err(er),
            Ok(ct) => if ct != TyV::Bool {
                Err(ErrV::TypeMismatch { expected: TyV::Bool, actual: ct })
            } else {
                match ty_all(body@, env) {
                    Err(er) => Err(er),
                    Ok(_) => Ok(TyV::Void),
                }
            },
        },
        Expr::IfElse(cond, true_body, false_body) => match ty_of(*cond, env) {
            Err(er) => Err(er),
            Ok(ct) => if ct != TyV::Bool {
                Err(ErrV::TypeMismatch { expected: TyV::Bool, actual: ct })
            } else {
                match (ty_body(true_body@, env), ty_body(false_body@, env)) {
                    (Err(er), _) => Err(er),
                    (Ok(_), Err(er)) => Err(er),
                    (Ok(tt), Ok(ft)) => if tt == ft {
                        Ok(tt)
                    } else {
                        Err(ErrV::TypeMismatch { expected: tt, actual: ft })
                    },
                }
            },
        },
        Expr::Assign(targets, values) => match (if values@.len() == 1 {
            match ty_of(values@[0], env) {
                Err(er) => Err(er),
                Ok(t) => Ok(tuple_size_v(t)),
            }
        } else {
            Ok(values@.len())
        }) {
            Err(er) => Err(er),
            Ok(arity) => if targets@.len() != arity {
                Err(
                    ErrV::TupleLengthMismatch {
                        expected: values@.len(),
                        actual: targets@.len(),
                    },
                )
            } else {
                match ty_all(values@, env) {
                    Err(er) => Err(er),
                    Ok(ts) => Ok(TyV::Tuple(ts)),
                }
            },
        },
        Expr::AssignOp(_, _, value) => ty_of(*value, env),
        Expr::WhileLoop(_, body) => match ty_all(body@, env) {
            Err(er) => Err(er),
            Ok(_) => Ok(TyV::Void),
        },
        Expr::Block(body) => ty_body(body@, env),
        Expr::Call(name, args) => match find_decl(env, name@) {
            None => Err(ErrV::UnknownFunction(name@)),
            Some(d) => if d.params@.len() != args@.len() {
                Err(
                    ErrV::TupleLengthMismatch {
                        expected: d.params@.len(),
                        actual: args@.len(),
                    },
                )
            } else {
                match ty_all(args@, env) {
                    Err(er) => Err(er),
                    Ok(_) => Ok(call_result(d.returns@.len())),
                }
            },
        },
        Expr::Parentheses(inner) => ty_of(*inner, env),
    }
}

/// The types of a sequence of expressions, inferred in order; the
/// first failure wins.
pub open spec fn ty_all(es: Seq<Expr>, env: Seq<Declaration>) -> Result<Seq<TyV>, ErrV>
    decreases es, 0int,
{
    if es.len() == 0 {
        Ok(Seq::empty())
    } else {
        match ty_all(es.drop_last(), env) {
            Err(er) => Err(er),
            Ok(ts) => match ty_of(es.last(), env) {
                Err(er) => Err(er),
                Ok(t) => Ok(ts.push(t)),
            },
        }
    }
}

/// The type of a branch or block body: its last expression's type, or
/// `void` when it is empty.  Every member is inferred, so an inner
/// error surfaces even from a non-final position.
pub open spec fn ty_body(es: Seq<Expr>, env: Seq<Declaration>) -> Result<TyV, ErrV>
    decreases es, 1int,
{
    match ty_all(es, env) {
        Err(er) => Err(er),
        Ok(ts) => Ok(if ts.len() == 0 {
            TyV::Void
        } else {
            ts.last()
        }),
    }
}

/// Pushing onto a sequence of types pushes its model.
proof fn lemma_tys_view_push(s: Seq<Type>, t: Type)
    ensures
        tys_view(s.push(t)) == tys_view(s).push(t@),
{
    assert(s.push(t).drop_last() =~= s);
    assert(s.push(t).last() == t);
}

/// If a prefix of `es` checks and the next expression fails, the whole
/// sequence fails with that very error.
proof fn lemma_ty_all_error(es: Seq<Expr>, env: Seq<Declaration>, j: int, er: ErrV)
    requires
        0 <= j < es.len(),
        ty_all(es.subrange(0, j), env) is Ok,
        ty_of(es[j], env) == Err::<TyV, ErrV>(er),
    ensures
        ty_all(es, env) == Err::<Seq<TyV>, ErrV>(er),
    decreases es.len(),
{
    if j == es.len() - 1 {
        assert(es.drop_last() =~= es.subrange(0, j));
        assert(es.last() == es[j]);
    } else {
        assert(es.drop_last().subrange(0, j) =~= es.subrange(0, j));
        assert(es.drop_last()[j] == es[j]);
        lemma_ty_all_error(es.drop_last(), env, j, er);
    }
}

/// The model of a `Result` of inference: model the type or the error.
pub open spec fn res_view(r: Result<Type, TypeError>) -> Result<TyV, ErrV> {
    match r {
        Ok(t) => Ok(t@),
        Err(er) => Err(er@),
    }
}

/// The first declaration named `name`, found by a linear scan.
fn find_declaration(env: &[Declaration], name: &String) -> (r: Option<usize>)
    ensures
        match r {
            Some(j) => j < env@.len() && find_decl(env@, name@) == Some(env@[j as int]),
            None => find_decl(env@, name@) is None,
        },
{
    let n = env.len();
    let mut j: usize = 0;
    proof {
        assert(env@.subrange(0, n as int) =~= env@);
    }
    while j < n
        invariant
            0 <= j <= n,
            n == env@.len(),
            find_decl(env@, name@) == find_decl(env@.subrange(j as int, n as int), name@),
            forall|k: int| 0 <= k < j ==> env@[k].name@ != name@,
        decreases n - j,
    {
        if env[j].name == *name {
            proof {
                assert(env@.subrange(j as int, n as int)[0] == env@[j as int]);
            }
            return Some(j);
        }
        proof {
            assert(env@.subrange(j as int, n as int).drop_first() =~= env@.subrange(
                j as int + 1,
                n as int,
            ));
            assert(env@.subrange(j as int, n as int)[0] == env@[j as int]);
        }
        j += 1;
    }
    proof {
        assert(env@.subrange(n as int, n as int).len() == 0);
    }
    None
}

impl Type {
    /// Infer the type of `expr` under the declarations `env`, or
    /// return the first violation of the typing rules found in it.
    pub fn of(expr: &Expr, env: &[Declaration]) -> (res: Result<Type, TypeError>)
        ensures
            res_view(res) == ty_of(*expr, env@),
        decreases expr, 0int,
    {
        match expr {
            Expr::Literal(_) => Ok(Type::Float),
            Expr::Identifier(_) => Ok(Type::Float),
            Expr::GlobalDataAddr(_) => Ok(Type::Float),
            Expr::Bool(_) => Ok(Type::Bool),
            Expr::Binop(_, l, r) => {
                let lt = match Self::of(&**l, env) {
                    Ok(t) => t,
                    Err(er) => return Err(er),
                };
                let rt = match Self::of(&**r, env) {
                    Ok(t) => t,
                    Err(er) => return Err(er),
                };
                if type_eq(&lt, &rt) {
                    Ok(lt)
                } else {
                    Err(TypeError::TypeMismatch { expected: lt, actual: rt })
                }
            },
            Expr::Compare(_, l, r) => {
                match Self::of(&**l, env) {
                    Ok(_) => (),
                    Err(er) => return Err(er),
                };
                match Self::of(&**r, env) {
                    Ok(_) => (),
                    Err(er) => return Err(er),
                };
                Ok(Type::Bool)
            },
            Expr::IfThen(cond, body) => {
                let ct = match Self::of(&**cond, env) {
                    Ok(t) => t,
                    Err(er) => return Err(er),
                };
                match ct {
                    Type::Bool => (),
                    _ => return Err(
                        TypeError::TypeMismatch { expected: Type::Bool, actual: ct },
                    ),
                };
                match Self::of_all(body, env) {
                    Ok(_) => Ok(Type::Void),
                    Err(er) => Err(er),
                }
            },
            Expr::IfElse(cond, true_body, false_body) => {
                let ct = match Self::of(&**cond, env) {
                    Ok(t) => t,
                    Err(er) => return Err(er),
                };
                match ct {
                    Type::Bool => (),
                    _ => return Err(
                        TypeError::TypeMismatch { expected: Type::Bool, actual: ct },
                    ),
                };
                let tt = match Self::of_body(true_body, env) {
                    Ok(t) => t,
                    Err(er) => return Err(er),
                };
                let ft = match Self::of_body(false_body, env) {
                    Ok(t) => t,
                    Err(er) => return Err(er),
                };
                if type_eq(&tt, &ft) {
                    Ok(tt)
                } else {
                    Err(TypeError::TypeMismatch { expected: tt, actual: ft })
                }
            },
            Expr::Assign(targets, values) => {
                let arity: usize = if values.len() == 1 {
                    let t0 = match Self::of(&values[0], env) {
                        Ok(t) => t,
                        Err(er) => return Err(er),
                    };
                    t0.tuple_size()
                } else {
                    values.len()
                };
                if targets.len() != arity {
                    return Err(
                        TypeError::TupleLengthMismatch {
                            expected: values.len(),
                            actual: targets.len(),
                        },
                    );
                }
                match Self::of_all(values, env) {
                    Err(er) => Err(er),
                    Ok(ts) => Ok(Type::Tuple(ts)),
                }
            },
            Expr::AssignOp(_, _, value) => Self::of(&**value, env),
            Expr::WhileLoop(_, body) => {
                match Self::of_all(body, env) {
                    Ok(_) => Ok(Type::Void),
                    Err(er) => Err(er),
                }
            },
            Expr::Block(body) => Self::of_body(body, env),
            Expr::Call(name, args) => {
                let j = match find_declaration(env, name) {
                    Some(j) => j,
                    None => return Err(TypeError::UnknownFunction(name.clone())),
                };
                let d = &env[j];
                if d.params.len() != args.len() {
                    return Err(
                        TypeError::TupleLengthMismatch {
                            expected: d.params.len(),
                            actual: args.len(),
                        },
                    );
                }
                match Self::of_all(args, env) {
                    Err(er) => return Err(er),
                    Ok(_) => (),
                };
                let k = d.returns.len();
                if k == 0 {
                    Ok(Type::Void)
                } else if k == 1 {
                    Ok(Type::Float)
                } else {
                    let mut v: Vec<Type> = Vec::new();
                    for m in 0..k
                        invariant
                            v@.len() == m,
                            tys_view(v@) =~= Seq::new(m as nat, |i: int| TyV::Float),
                        decreases k - m,
                    {
                        proof {
                            lemma_tys_view_push(v@, Type::Float);
                        }
                        v.push(Type::Float);
                    }
                    proof {
                        assert(tys_view(v@) =~= Seq::new(k as nat, |i: int| TyV::Float));
                    }
                    Ok(Type::Tuple(v))
                }
            },
            Expr::Parentheses(inner) => Self::of(&**inner, env),
        }
    }

    /// Infer every expression of `es` in order, short-circuiting on
    /// the first failure, and collect the types.
    fn of_all(es: &Vec<Expr>, env: &[Declaration]) -> (res: Result<Vec<Type>, TypeError>)
        ensures
            match res {
                Ok(ts) => ty_all(es@, env@) == Ok::<Seq<TyV>, ErrV>(tys_view(ts@)),
                Err(er) => ty_all(es@, env@) == Err::<Seq<TyV>, ErrV>(er@),
            },
        decreases es@, 0int,
    {
        let n = es.len();
        let mut ts: Vec<Type> = Vec::new();
        for j in 0..n
            invariant
                n == es@.len(),
                ts@.len() == j,
                ty_all(es@.subrange(0, j as int), env@) == Ok::<Seq<TyV>, ErrV>(
                    tys_view(ts@),
                ),
            decreases n - j,
        {
            let t = match Self::of(&es[j], env) {
                Ok(t) => t,
                Err(er) => {
                    proof {
                        lemma_ty_all_error(es@, env@, j as int, er@);
                    }
                    return Err(er);
                },
            };
            proof {
                assert(es@.subrange(0, j as int + 1).drop_last() =~= es@.subrange(
                    0,
                    j as int,
                ));
                assert(es@.subrange(0, j as int + 1).last() == es@[j as int]);
                lemma_tys_view_push(ts@, t);
            }
            ts.push(t);
        }
        proof {
            assert(es@.subrange(0, n as int) =~= es@);
        }
        Ok(ts)
    }

    /// The type of a branch or block body: its last expression's type,
    /// or `void` when it is empty.
    fn of_body(es: &Vec<Expr>, env: &[Declaration]) -> (res: Result<Type, TypeError>)
        ensures
            res_view(res) == ty_body(es@, env@),
        decreases es@, 1int,
    {
        match Self::of_all(es, env) {
            Err(er) => Err(er),
            Ok(mut ts) => {
                proof {
                    lemma_tys_view_len(ts@);
                    if ts@.len() > 0 {
                        lemma_tys_view_index(ts@, ts@.len() - 1);
                    }
                }
                match ts.pop() {
                    None => Ok(Type::Void),
                    Some(t) => Ok(t),
                }
            },
        }
    }
}

/// Where in a declaration sequence the first typing violation lies,
/// starting the search at declaration `i`.
pub open spec fn decls_error_from(ds: Seq<Declaration>, i: int) -> Option<ErrV>
    decreases ds.len() - i,
{
    if i < 0 || i >= ds.len() {
        None
    } else {
        match ty_all(ds[i].body@, ds) {
            Err(er) => Some(er),
            Ok(_) => decls_error_from(ds, i + 1),
        }
    }
}

/// The first typing violation in any declaration's body, if any.
/// Declarations are checked in order, each body expression in order.
pub open spec fn program_error(ds: Seq<Declaration>) -> Option<ErrV> {
    decls_error_from(ds, 0)
}

/// Check every expression of every declaration's body.  On success the
/// declarations are handed back unchanged; otherwise the first
/// violation found is returned and nothing further is checked.
pub fn validate_program(decls: Vec<Declaration>) -> (res: Result<Vec<Declaration>, TypeError>)
    ensures
        match res {
            Ok(v) => v == decls && program_error(decls@) is None,
            Err(er) => program_error(decls@) == Some(er@),
        },
{
    let n = decls.len();
    for i in 0..n
        invariant
            n == decls@.len(),
            decls_error_from(decls@, i as int) == program_error(decls@),
        decreases n - i,
    {
        match Type::of_all(&decls[i].body, decls.as_slice()) {
            Ok(_) => (),
            Err(er) => return Err(er),
        };
    }
    Ok(decls)
}

/// Law: checking is idempotent.  A program the checker accepts is
/// handed back unchanged, so a second run sees the same declarations
/// and accepts them again with the same outcome.
pub proof fn lemma_validate_idempotent(first_run: Seq<Declaration>, second_run: Seq<Declaration>)
    requires
        program_error(first_run) is None,
        second_run == first_run,
    ensures
        program_error(second_run) is None,
{
}

/// Law: an arithmetic operation whose operands infer to different
/// types fails with exactly those types, the left one expected and
/// the right one actual.
pub proof fn lemma_binop_mismatch(
    op: BinOp,
    l: Box<Expr>,
    r: Box<Expr>,
    env: Seq<Declaration>,
    lt: TyV,
    rt: TyV,
)
    requires
        ty_of(*l, env) == Ok::<TyV, ErrV>(lt),
        ty_of(*r, env) == Ok::<TyV, ErrV>(rt),
        lt != rt,
    ensures
        ty_of(Expr::Binop(op, l, r), env) == Err::<TyV, ErrV>(
            ErrV::TypeMismatch { expected: lt, actual: rt },
        ),
{
}

/// Law: a two-armed conditional over a boolean condition whose branch
/// types differ fails with the then-branch type expected and the
/// else-branch type actual.
pub proof fn lemma_if_else_mismatch(
    cond: Box<Expr>,
    true_body: Vec<Expr>,
    false_body: Vec<Expr>,
    env: Seq<Declaration>,
    tt: TyV,
    ft: TyV,
)
    requires
        ty_of(*cond, env) == Ok::<TyV, ErrV>(TyV::Bool),
        ty_body(true_body@, env) == Ok::<TyV, ErrV>(tt),
        ty_body(false_body@, env) == Ok::<TyV, ErrV>(ft),
        tt != ft,
    ensures
        ty_of(Expr::IfElse(cond, true_body, false_body), env) == Err::<TyV, ErrV>(
            ErrV::TypeMismatch { expected: tt, actual: ft },
        ),
{
}

/// Law: an empty branch has type `void`.
pub proof fn lemma_empty_body_void(env: Seq<Declaration>)
    ensures
        ty_body(Seq::<Expr>::empty(), env) == Ok::<TyV, ErrV>(TyV::Void),
{
}

/// Law: a call of a name with no declaration fails with
/// `UnknownFunction`, whatever its arguments hold.
pub proof fn lemma_call_unknown(name: String, args: Vec<Expr>, env: Seq<Declaration>)
    requires
        find_decl(env, name@) is None,
    ensures
        ty_of(Expr::Call(name, args), env) == Err::<TyV, ErrV>(
            ErrV::UnknownFunction(name@),
        ),
{
}

/// Law: a call whose argument count differs from the callee's
/// parameter count fails with the parameter count expected and the
/// argument count actual.
pub proof fn lemma_call_arity_mismatch(
    name: String,
    args: Vec<Expr>,
    env: Seq<Declaration>,
    d: Declaration,
)
    requires
        find_decl(env, name@) == Some(d),
        d.params@.len() != args@.len(),
    ensures
        ty_of(Expr::Call(name, args), env) == Err::<TyV, ErrV>(
            ErrV::TupleLengthMismatch { expected: d.params@.len(), actual: args@.len() },
        ),
{
}

} // verus!
