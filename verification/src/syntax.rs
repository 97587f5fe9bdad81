//! Expressions and terms of the TL grammar.
//!
//! Alternatives are attempted in declaration order and the first match
//! wins, so the type-identifier-with-generics production stands before
//! the plain type identifier: a greedy match on the shorter form would
//! otherwise consume the base identifier and leave the generic argument
//! list unparsed.

use vstd::prelude::*;

use crate::Parsed;
use crate::base::LcIdentNs;
use crate::base::UcIdentNs;
use crate::base::ident_token;
use crate::base::lc_ident_ns_at;
use crate::base::parse_lc_ident;
use crate::base::token_at;
use crate::base::uc_ident_ns_at;
use crate::base::parse_lc_ident_ns;
use crate::base::parse_nat_const;
use crate::base::parse_token;
use crate::base::parse_uc_ident;
use crate::base::parse_uc_ident_ns;
use crate::compile::Type;
use crate::compile::Types;
use crate::compile::TypesV;
use crate::compile::lemma_ofe_refl;
use crate::compile::lemma_ofe_trans;
use crate::compile::lemma_transform_mono;
use crate::compile::lemma_transform_ofe;
use crate::compile::only_fresh_extension;
use crate::compile::tbl_unique;
use crate::compile::spec_transform;
use crate::compile::spec_transform_name;
use crate::compile::tbl_has;

verus! {

/// type-ident ::= boxed-type-ident | lc-ident-ns | #
pub enum TypeIdent {
    BoxedTypeIdent(UcIdentNs),
    LcIdentNs(LcIdentNs),
    Hash,
}

/// var-ident ::= lc-ident | uc-ident
pub enum VarIdent {
    LcIdent(String),
    UcIdent(String),
}

/// term ::= ( expr ) | type-ident < expr { , expr } > | type-ident
///        | var-ident | nat-const | % term
pub enum Term {
    /// A parenthesized expression (not used in the supported schema).
    Expr(Vec<Subexpr>),
    /// A type identifier applied to generic arguments.
    TypeIdentExpanded {
        head: TypeIdent,
        first_generic: Vec<Subexpr>,
        subsequent_generics: Vec<Vec<Subexpr>>,
    },
    /// A plain type identifier.
    TypeIdent(TypeIdent),
    /// A variable identifier.
    VarIdent(VarIdent),
    /// A numeric constant (not used in the supported schema).
    NatConst(String),
    /// A percent-term (not used in the supported schema).
    PercentTerm(Box<Term>),
}

/// subexpr ::= term | nat-const + subexpr | term + nat-const
///
/// The term alternative stands first and a numeric constant is itself a
/// term, so the two summed alternatives can never win the ordered
/// choice; they are kept to state the grammar in full.
pub enum Subexpr {
    Term(Term),
    NatConstSubexpr(String, Box<Subexpr>),
    SubexprNatConst(Term, String),
}

/// expr ::= { subexpr }
pub type Expr = Vec<Subexpr>;

/// The type identifier `v` stands at `pos` and ends at `next`.
pub open spec fn type_ident_at(inp: Seq<char>, pos: int, v: TypeIdent, next: int) -> bool {
    match v {
        TypeIdent::BoxedTypeIdent(u) => uc_ident_ns_at(inp, pos, u, next),
        TypeIdent::LcIdentNs(l) => lc_ident_ns_at(inp, pos, l, next),
        TypeIdent::Hash => token_at(inp, pos, "#"@, next),
    }
}

/// type-ident ::= boxed-type-ident | lc-ident-ns | #
pub fn parse_type_ident(inp: &Vec<char>, pos: usize) -> (r: Option<Parsed<TypeIdent>>)
    requires
        pos <= inp@.len(),
    ensures
        r matches Some(p) ==> pos < p.next <= inp@.len() && type_ident_at(
            inp@,
            pos as int,
            p.value,
            p.next as int,
        ),
{
    match parse_uc_ident_ns(inp, pos) {
        Some(p) => {
            return Some(Parsed { value: TypeIdent::BoxedTypeIdent(p.value), next: p.next });
        },
        None => {},
    }
    match parse_lc_ident_ns(inp, pos) {
        Some(p) => {
            return Some(Parsed { value: TypeIdent::LcIdentNs(p.value), next: p.next });
        },
        None => {},
    }
    match parse_token(inp, pos, "#") {
        Some(next) => {
            proof {
                reveal_strlit("#");
            }
            Some(Parsed { value: TypeIdent::Hash, next })
        },
        None => None,
    }
}

/// var-ident ::= lc-ident | uc-ident; the read name is the identifier
/// token standing at `pos`.
pub fn parse_var_ident(inp: &Vec<char>, pos: usize) -> (r: Option<Parsed<VarIdent>>)
    requires
        pos <= inp@.len(),
    ensures
        r matches Some(p) ==> pos < p.next <= inp@.len() && ident_token(
            inp@,
            pos as int,
            vi_name(p.value),
            p.next as int,
        ),
{
    match parse_lc_ident(inp, pos) {
        Some(p) => {
            return Some(Parsed { value: VarIdent::LcIdent(p.value), next: p.next });
        },
        None => {},
    }
    match parse_uc_ident(inp, pos) {
        Some(p) => Some(Parsed { value: VarIdent::UcIdent(p.value), next: p.next }),
        None => None,
    }
}

/// term ::= ( expr ) | type-ident < expr { , expr } > | type-ident
///        | var-ident | nat-const | % term
pub fn parse_term(inp: &Vec<char>, pos: usize) -> (r: Option<Parsed<Term>>)
    requires
        pos <= inp@.len(),
    ensures
        r matches Some(p) ==> pos < p.next <= inp@.len(),
    decreases inp@.len() - pos, 0int,
{
    // ( expr )
    match parse_token(inp, pos, "(") {
        Some(after_open) => {
            proof {
                reveal_strlit("(");
            }
            let body = parse_expr(inp, after_open);
            match parse_token(inp, body.next, ")") {
                Some(next) => {
                    return Some(Parsed { value: Term::Expr(body.value), next });
                },
                None => {},
            }
        },
        None => {},
    }
    // type-ident < expr { , expr } >
    match parse_type_ident(inp, pos) {
        Some(head) => {
            match parse_token(inp, head.next, "<") {
                Some(after_langle) => {
                    proof {
                        reveal_strlit("<");
                    }
                    let first = parse_expr(inp, after_langle);
                    let mut subsequent: Vec<Vec<Subexpr>> = Vec::new();
                    let mut at: usize = first.next;
                    loop
                        invariant
                            pos < at <= inp@.len(),
                        decreases inp@.len() - at,
                    {
                        match parse_token(inp, at, ",") {
                            Some(after_comma) => {
                                proof {
                                    reveal_strlit(",");
                                }
                                let e = parse_expr(inp, after_comma);
                                subsequent.push(e.value);
                                at = e.next;
                            },
                            None => {
                                break;
                            },
                        }
                    }
                    match parse_token(inp, at, ">") {
                        Some(next) => {
                            return Some(
                                Parsed {
                                    value: Term::TypeIdentExpanded {
                                        head: head.value,
                                        first_generic: first.value,
                                        subsequent_generics: subsequent,
                                    },
                                    next,
                                },
                            );
                        },
                        None => {},
                    }
                },
                None => {},
            }
        },
        None => {},
    }
    // type-ident
    match parse_type_ident(inp, pos) {
        Some(p) => {
            return Some(Parsed { value: Term::TypeIdent(p.value), next: p.next });
        },
        None => {},
    }
    // var-ident
    match parse_var_ident(inp, pos) {
        Some(p) => {
            return Some(Parsed { value: Term::VarIdent(p.value), next: p.next });
        },
        None => {},
    }
    // nat-const
    match parse_nat_const(inp, pos) {
        Some(p) => {
            return Some(Parsed { value: Term::NatConst(p.value), next: p.next });
        },
        None => {},
    }
    // % term
    match parse_token(inp, pos, "%") {
        Some(after_percent) => {
            proof {
                reveal_strlit("%");
            }
            match parse_term(inp, after_percent) {
                Some(p) => Some(
                    Parsed { value: Term::PercentTerm(Box::new(p.value)), next: p.next },
                ),
                None => None,
            }
        },
        None => None,
    }
}

/// subexpr ::= term | nat-const + subexpr | term + nat-const
pub fn parse_subexpr(inp: &Vec<char>, pos: usize) -> (r: Option<Parsed<Subexpr>>)
    requires
        pos <= inp@.len(),
    ensures
        r matches Some(p) ==> pos < p.next <= inp@.len(),
    decreases inp@.len() - pos, 1int,
{
    // term: a numeric constant already matches here, so the summed
    // alternatives below can never be reached by the ordered choice.
    match parse_term(inp, pos) {
        Some(p) => {
            return Some(Parsed { value: Subexpr::Term(p.value), next: p.next });
        },
        None => {},
    }
    None
}

/// Whether a type identifier compiles: a namespaced identifier and the
/// bare `#` form are outside the supported schema.
pub open spec fn ti_ok(v: TypeIdent) -> bool {
    match v {
        TypeIdent::BoxedTypeIdent(u) => u.namespace is None,
        TypeIdent::LcIdentNs(l) => l.namespace is None,
        TypeIdent::Hash => false,
    }
}

/// The name a type identifier compiles to.
pub open spec fn ti_name(v: TypeIdent) -> Seq<char> {
    match v {
        TypeIdent::BoxedTypeIdent(u) => u.name@,
        TypeIdent::LcIdentNs(l) => l.ident@,
        TypeIdent::Hash => Seq::empty(),
    }
}

/// The name a variable identifier compiles to.
pub open spec fn vi_name(v: VarIdent) -> Seq<char> {
    match v {
        VarIdent::LcIdent(s) => s@,
        VarIdent::UcIdent(s) => s@,
    }
}

/// Compiles a variable identifier to its name.
pub fn var_ident_compile(v: VarIdent) -> (r: String)
    ensures
        r@ == vi_name(v),
{
    match v {
        VarIdent::LcIdent(s) => s,
        VarIdent::UcIdent(s) => s,
    }
}

/// The registry and the compiled text a term produces, or nothing when
/// the term uses a production outside the supported schema. A type
/// identifier is registered and transformed to its primitive form; a
/// generic application transforms its head, then its first argument,
/// then each further argument (which is transformed once more after its
/// own compilation, as the compiler does).
pub open spec fn term_tr(m: TypesV, t: Term) -> Option<(TypesV, Seq<char>)>
    decreases t, 2int,
{
    match t {
        Term::Expr(_) => None,
        Term::TypeIdentExpanded { head, first_generic, subsequent_generics } => {
            if !ti_ok(head) {
                None
            } else {
                let m1 = spec_transform(m, ti_name(head));
                let tname = spec_transform_name(m, ti_name(head));
                match expr_tr(m1, first_generic) {
                    None => None,
                    Some(r0) => match generics_tr(r0.0, subsequent_generics@) {
                        None => None,
                        Some(r1) => Some((r1.0, tname + "<"@ + r0.1 + r1.1 + ">"@)),
                    },
                }
            }
        },
        Term::TypeIdent(ti) => {
            if !ti_ok(ti) {
                None
            } else {
                Some((spec_transform(m, ti_name(ti)), spec_transform_name(m, ti_name(ti))))
            }
        },
        Term::VarIdent(v) => Some((m, vi_name(v))),
        Term::NatConst(_) => None,
        Term::PercentTerm(_) => None,
    }
}

/// The transition of one subexpression: only the term form compiles.
pub open spec fn subexpr_tr(m: TypesV, s: Subexpr) -> Option<(TypesV, Seq<char>)>
    decreases s, 3int,
{
    match s {
        Subexpr::Term(t) => term_tr(m, t),
        Subexpr::NatConstSubexpr(_, _) => None,
        Subexpr::SubexprNatConst(_, _) => None,
    }
}

/// The transition of an expression: exactly one subexpression compiles;
/// an empty or chained expression is a hard error.
pub open spec fn expr_tr(m: TypesV, e: Vec<Subexpr>) -> Option<(TypesV, Seq<char>)>
    decreases e, 4int,
{
    if e@.len() != 1 {
        None
    } else {
        subexpr_tr(m, e@[0])
    }
}

/// The transition of the further generic arguments of an application:
/// each is compiled, transformed once more, and appended to the joined
/// text after a separating comma.
pub open spec fn generics_tr(m: TypesV, gs: Seq<Vec<Subexpr>>) -> Option<(TypesV, Seq<char>)>
    decreases gs, 5int,
{
    if gs.len() == 0 {
        Some((m, Seq::empty()))
    } else {
        match generics_tr(m, gs.drop_last()) {
            None => None,
            Some(acc) => match expr_tr(acc.0, gs.last()) {
                None => None,
                Some(g) => Some(
                    (
                        spec_transform(g.0, g.1),
                        acc.1 + ", "@ + spec_transform_name(g.0, g.1),
                    ),
                ),
            },
        }
    }
}

/// A later element cannot rescue a failed prefix of the generics fold.
pub proof fn lemma_generics_tr_extend_none(m: TypesV, gs: Seq<Vec<Subexpr>>, i: int)
    requires
        0 <= i <= gs.len(),
        generics_tr(m, gs.take(i)) is None,
    ensures
        generics_tr(m, gs) is None,
    decreases gs.len() - i,
{
    if i == gs.len() {
        assert(gs.take(i) =~= gs);
    } else {
        assert(gs.take(i + 1).drop_last() =~= gs.take(i));
        lemma_generics_tr_extend_none(m, gs, i + 1);
    }
}

/// Compiles an expression, exactly as `expr_tr` states: it must hold
/// exactly one subexpression.
pub fn expr_compile(types: &mut Types, e: &Vec<Subexpr>) -> (r: Result<String, String>)
    requires
        old(types).wf(),
    ensures
        final(types).wf(),
        match expr_tr(old(types)@, *e) {
            Some(res) => r matches Ok(t) && t@ == res.1 && final(types)@ == res.0,
            None => r is Err && only_fresh_extension(old(types)@, final(types)@),
        },
    decreases *e, 4int,
{
    if e.len() != 1 {
        if e.len() == 0 {
            return Err(String::from_str("no expressions found"));
        }
        return Err(String::from_str("chained expressions cannot be compiled into a string"));
    }
    let s = &e[0];
    subexpr_compile(types, s)
}

/// Compiles one subexpression, exactly as `subexpr_tr` states.
pub fn subexpr_compile(types: &mut Types, s: &Subexpr) -> (r: Result<String, String>)
    requires
        old(types).wf(),
    ensures
        final(types).wf(),
        match subexpr_tr(old(types)@, *s) {
            Some(res) => r matches Ok(t) && t@ == res.1 && final(types)@ == res.0,
            None => r is Err && only_fresh_extension(old(types)@, final(types)@),
        },
    decreases *s, 3int,
{
    match s {
        Subexpr::Term(t) => term_compile(types, t),
        Subexpr::NatConstSubexpr(_, _) => Err(
            String::from_str("Subexpr::NatConstSubexpr cannot convert to string in current schema"),
        ),
        Subexpr::SubexprNatConst(_, _) => Err(
            String::from_str("Subexpr::SubexprNatConst cannot convert to string in current schema"),
        ),
    }
}

/// Compiles the further generic arguments, exactly as `generics_tr`
/// states.
pub fn generics_compile(types: &mut Types, gs: &Vec<Vec<Subexpr>>) -> (r: Result<String, String>)
    requires
        old(types).wf(),
    ensures
        final(types).wf(),
        match generics_tr(old(types)@, gs@) {
            Some(res) => r matches Ok(s) && s@ == res.1 && final(types)@ == res.0,
            None => r is Err && only_fresh_extension(old(types)@, final(types)@),
        },
    decreases *gs, 5int,
{
    let ghost m0 = types@;
    let n = gs.len();
    let mut joined = String::new();
    let mut i: usize = 0;
    while i < n
        invariant
            n == gs@.len(),
            0 <= i <= n,
            types.wf(),
            m0 == old(types)@,
            tbl_unique(m0),
            generics_tr(m0, gs@.take(i as int)) == Some((types@, joined@)),
        decreases n - i,
    {
        proof {
            assert(decreases_to!(*gs => gs@));
            assert(decreases_to!(gs@ => gs@[i as int]));
            assert(gs@.take(i + 1).drop_last() =~= gs@.take(i as int));
            assert(gs@.take(i + 1).last() == gs@[i as int]);
        }
        let g = match expr_compile(types, &gs[i]) {
            Ok(g) => g,
            Err(e) => {
                proof {
                    assert(generics_tr(m0, gs@.take(i + 1)) is None);
                    lemma_generics_tr_extend_none(m0, gs@, i + 1);
                    let ghost pre = generics_tr(m0, gs@.take(i as int))->0;
                    lemma_generics_tr_ofe(m0, gs@.take(i as int));
                    lemma_ofe_trans(m0, pre.0, types@);
                }
                return Err(e);
            },
        };
        let g2 = Type::transform_type(types, g);
        joined.append(", ");
        joined.append(g2.as_str());
        i = i + 1;
    }
    proof {
        assert(gs@.take(n as int) =~= gs@);
    }
    Ok(joined)
}

/// Compiles a term against the registry, exactly as `term_tr` states.
pub fn term_compile(types: &mut Types, t: &Term) -> (r: Result<String, String>)
    requires
        old(types).wf(),
    ensures
        final(types).wf(),
        match term_tr(old(types)@, *t) {
            Some(res) => r matches Ok(s) && s@ == res.1 && final(types)@ == res.0,
            None => r is Err && only_fresh_extension(old(types)@, final(types)@),
        },
    decreases *t, 2int,
{
    proof {
        lemma_ofe_refl(old(types)@);
    }
    match t {
        Term::Expr(_) => Err(String::from_str("Term::Expr not used in schema")),
        Term::TypeIdentExpanded { head, first_generic, subsequent_generics } => {
            let name = match type_ident_compile(head) {
                Ok(n) => n,
                Err(e) => {
                    return Err(e);
                },
            };
            let ghost m0 = types@;
            let tname = Type::transform_type(types, name);
            proof {
                lemma_transform_ofe(m0, name@);
            }
            let g0 = match expr_compile(types, first_generic) {
                Ok(g) => g,
                Err(e) => {
                    proof {
                        lemma_ofe_trans(m0, spec_transform(m0, name@), final(types)@);
                    }
                    return Err(e);
                },
            };
            let ghost m2 = types@;
            proof {
                lemma_expr_tr_ofe(spec_transform(m0, name@), *first_generic);
                lemma_ofe_trans(m0, spec_transform(m0, name@), m2);
            }
            let joined = match generics_compile(types, subsequent_generics) {
                Ok(j) => j,
                Err(e) => {
                    proof {
                        lemma_ofe_trans(m0, m2, final(types)@);
                    }
                    return Err(e);
                },
            };
            let mut out = String::new();
            out.append(tname.as_str());
            out.append("<");
            out.append(g0.as_str());
            out.append(joined.as_str());
            out.append(">");
            proof {
                assert(out@ =~= tname@ + "<"@ + g0@ + joined@ + ">"@);
            }
            Ok(out)
        },
        Term::TypeIdent(ti) => {
            let name = match type_ident_compile(ti) {
                Ok(n) => n,
                Err(e) => {
                    return Err(e);
                },
            };
            Ok(Type::transform_type(types, name))
        },
        Term::VarIdent(v) => match v {
            VarIdent::LcIdent(s) => Ok(s.clone()),
            VarIdent::UcIdent(s) => Ok(s.clone()),
        },
        Term::NatConst(_) => Err(String::from_str("Term::NatConst not used in schema")),
        Term::PercentTerm(_) => Err(String::from_str("Term::PercentTerm not used in schema")),
    }
}

/// Compiles a type identifier to its name; a namespace or the `#` form
/// is a hard error.
pub fn type_ident_compile(v: &TypeIdent) -> (r: Result<String, String>)
    ensures
        r is Ok <==> ti_ok(*v),
        r matches Ok(s) ==> s@ == ti_name(*v),
{
    match v {
        TypeIdent::BoxedTypeIdent(u) => match &u.namespace {
            Some(_) => Err(String::from_str("name space not supported")),
            None => Ok(u.name.clone()),
        },
        TypeIdent::LcIdentNs(l) => match &l.namespace {
            Some(_) => Err(String::from_str("name space not supported")),
            None => Ok(l.ident.clone()),
        },
        TypeIdent::Hash => Err(String::from_str("TypeIdent::Hash not used in schema")),
    }
}

/// expr ::= { subexpr }; matching zero subexpressions is a success.
pub fn parse_expr(inp: &Vec<char>, pos: usize) -> (r: Parsed<Vec<Subexpr>>)
    requires
        pos <= inp@.len(),
    ensures
        pos <= r.next <= inp@.len(),
    decreases inp@.len() - pos, 2int,
{
    let mut items: Vec<Subexpr> = Vec::new();
    let mut at: usize = pos;
    loop
        invariant
            pos <= at <= inp@.len(),
        decreases inp@.len() - at,
    {
        match parse_subexpr(inp, at) {
            Some(p) => {
                items.push(p.value);
                at = p.next;
            },
            None => {
                return Parsed { value: items, next: at };
            },
        }
    }
}


/// Compiling a term never removes a registered name.
pub proof fn lemma_term_tr_mono(m: TypesV, t: Term, k: Seq<char>)
    requires
        tbl_has(m, k),
        term_tr(m, t) is Some,
    ensures
        tbl_has((term_tr(m, t)->0).0, k),
    decreases t, 2int,
{
    match t {
        Term::TypeIdentExpanded { head, first_generic, subsequent_generics } => {
            let m1 = spec_transform(m, ti_name(head));
            lemma_transform_mono(m, ti_name(head), k);
            let r0 = expr_tr(m1, first_generic)->0;
            lemma_expr_tr_mono(m1, first_generic, k);
            lemma_generics_tr_mono(r0.0, subsequent_generics@, k);
        },
        Term::TypeIdent(ti) => {
            lemma_transform_mono(m, ti_name(ti), k);
        },
        _ => {},
    }
}

/// Compiling a subexpression never removes a registered name.
pub proof fn lemma_subexpr_tr_mono(m: TypesV, s: Subexpr, k: Seq<char>)
    requires
        tbl_has(m, k),
        subexpr_tr(m, s) is Some,
    ensures
        tbl_has((subexpr_tr(m, s)->0).0, k),
    decreases s, 3int,
{
    match s {
        Subexpr::Term(t) => {
            lemma_term_tr_mono(m, t, k);
        },
        _ => {},
    }
}

/// Compiling an expression never removes a registered name.
pub proof fn lemma_expr_tr_mono(m: TypesV, e: Vec<Subexpr>, k: Seq<char>)
    requires
        tbl_has(m, k),
        expr_tr(m, e) is Some,
    ensures
        tbl_has((expr_tr(m, e)->0).0, k),
    decreases e, 4int,
{
    if e@.len() == 1 {
        lemma_subexpr_tr_mono(m, e@[0], k);
    }
}

/// Compiling a generic argument list never removes a registered name.
pub proof fn lemma_generics_tr_mono(m: TypesV, gs: Seq<Vec<Subexpr>>, k: Seq<char>)
    requires
        tbl_has(m, k),
        generics_tr(m, gs) is Some,
    ensures
        tbl_has((generics_tr(m, gs)->0).0, k),
    decreases gs, 5int,
{
    if gs.len() > 0 {
        let acc = generics_tr(m, gs.drop_last())->0;
        lemma_generics_tr_mono(m, gs.drop_last(), k);
        let g = expr_tr(acc.0, gs.last())->0;
        lemma_expr_tr_mono(acc.0, gs.last(), k);
        lemma_transform_mono(g.0, g.1, k);
    }
}


/// Compiling a term leaves the registry a fresh extension of itself: no
/// existing entry changes, and everything new is a bare transform entry.
pub proof fn lemma_term_tr_ofe(m: TypesV, t: Term)
    requires
        tbl_unique(m),
        term_tr(m, t) is Some,
    ensures
        only_fresh_extension(m, (term_tr(m, t)->0).0),
    decreases t, 2int,
{
    match t {
        Term::TypeIdentExpanded { head, first_generic, subsequent_generics } => {
            let m1 = spec_transform(m, ti_name(head));
            lemma_transform_ofe(m, ti_name(head));
            let r0 = expr_tr(m1, first_generic)->0;
            lemma_expr_tr_ofe(m1, first_generic);
            lemma_ofe_trans(m, m1, r0.0);
            let r1 = generics_tr(r0.0, subsequent_generics@)->0;
            lemma_generics_tr_ofe(r0.0, subsequent_generics@);
            lemma_ofe_trans(m, r0.0, r1.0);
        },
        Term::TypeIdent(ti) => {
            lemma_transform_ofe(m, ti_name(ti));
        },
        _ => {
            lemma_ofe_refl(m);
        },
    }
}

/// As `lemma_term_tr_ofe`, for one subexpression.
pub proof fn lemma_subexpr_tr_ofe(m: TypesV, s: Subexpr)
    requires
        tbl_unique(m),
        subexpr_tr(m, s) is Some,
    ensures
        only_fresh_extension(m, (subexpr_tr(m, s)->0).0),
    decreases s, 3int,
{
    match s {
        Subexpr::Term(t) => {
            lemma_term_tr_ofe(m, t);
        },
        _ => {
            lemma_ofe_refl(m);
        },
    }
}

/// As `lemma_term_tr_ofe`, for an expression.
pub proof fn lemma_expr_tr_ofe(m: TypesV, e: Vec<Subexpr>)
    requires
        tbl_unique(m),
        expr_tr(m, e) is Some,
    ensures
        only_fresh_extension(m, (expr_tr(m, e)->0).0),
    decreases e, 4int,
{
    if e@.len() == 1 {
        lemma_subexpr_tr_ofe(m, e@[0]);
    } else {
        lemma_ofe_refl(m);
    }
}

/// As `lemma_term_tr_ofe`, for a generic argument list.
pub proof fn lemma_generics_tr_ofe(m: TypesV, gs: Seq<Vec<Subexpr>>)
    requires
        tbl_unique(m),
        generics_tr(m, gs) is Some,
    ensures
        only_fresh_extension(m, (generics_tr(m, gs)->0).0),
    decreases gs, 5int,
{
    if gs.len() == 0 {
        lemma_ofe_refl(m);
    } else {
        let acc = generics_tr(m, gs.drop_last())->0;
        lemma_generics_tr_ofe(m, gs.drop_last());
        let g = expr_tr(acc.0, gs.last())->0;
        lemma_expr_tr_ofe(acc.0, gs.last());
        lemma_ofe_trans(m, acc.0, g.0);
        lemma_transform_ofe(g.0, g.1);
        lemma_ofe_trans(m, g.0, spec_transform(g.0, g.1));
    }
}

} // verus!
