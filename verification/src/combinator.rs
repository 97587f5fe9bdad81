//! Constructor declarations of the TL grammar: combinator declarations,
//! their optional and ordinary argument forms, result types, and the
//! builtin/base declaration form.

use vstd::prelude::*;

use crate::Parsed;
use crate::base::LcIdentFull;
use crate::base::LcIdentNs;
use crate::base::UcIdentNs;
use crate::base::ident_token;
use crate::base::lc_ident_full_at;
use crate::base::lc_ident_ns_at;
use crate::base::digits_token;
use crate::base::parse_lc_ident_full;
use crate::base::token_at;
use crate::base::uc_ident_ns_at;
use crate::base::word_at;
use crate::base::parse_lc_ident_ns;
use crate::base::parse_nat_const;
use crate::base::parse_token;
use crate::base::parse_uc_ident_ns;
use crate::base::parse_word;
use crate::base::str_eq;
use crate::compile::Function;
use crate::compile::FunctionV;
use crate::compile::Meta;
use crate::compile::Object;
use crate::compile::ObjectV;
use crate::compile::ObjectValue;
use crate::compile::ObjectValueV;
use crate::compile::Prim;
use crate::compile::Registry;
use crate::compile::StringHashMap;
use crate::compile::Type;
use crate::compile::TypeV;
use crate::compile::Types;
use crate::compile::TypesV;
use crate::compile::chain_resolve;
use crate::compile::fresh_entry;
use crate::compile::lemma_ofe_refl;
use crate::compile::lemma_ofe_trans;
use crate::compile::lemma_tbl_push;
use crate::compile::lemma_transform_ofe;
use crate::compile::only_fresh_extension;
use crate::compile::lemma_tbl_update;
use crate::compile::lemma_transform_mono;
use crate::compile::meta_view;
use crate::compile::spec_append_child;
use crate::compile::spec_from_schema;
use crate::compile::spec_is_rust;
use crate::compile::spec_transform;
use crate::compile::spec_transform_name;
use crate::compile::tbl_get;
use crate::compile::tbl_has;
use crate::compile::tbl_idx;
use crate::compile::tbl_unique;
use crate::syntax::Subexpr;
use crate::syntax::Term;
use crate::syntax::TypeIdent;
use crate::syntax::VarIdent;
use crate::syntax::lemma_term_tr_mono;
use crate::syntax::lemma_term_tr_ofe;
use crate::syntax::parse_expr;
use crate::syntax::parse_subexpr;
use crate::syntax::parse_term;
use crate::syntax::parse_var_ident;
use crate::syntax::term_compile;
use crate::syntax::term_tr;
use crate::syntax::vi_name;

verus! {

/// full-combinator-id ::= lc-ident-full | _
pub enum FullCombinatorId {
    LcIdentFull(LcIdentFull),
    Underscore,
}

/// combinator-id ::= lc-ident-ns | _
pub enum CombinatorId {
    LcIdentNs(LcIdentNs),
    Underscore,
}

/// opt-args ::= { var-ident { var-ident } : [ ! ] type-expr }
pub struct OptArgs {
    pub ident_0: VarIdent,
    pub ident_k: Vec<VarIdent>,
    pub neg: bool,
    pub expr: Vec<Subexpr>,
}

/// var-ident-opt ::= var-ident | _
pub enum VarIdentOpt {
    VarIdent(VarIdent),
    Underscore,
}

/// conditional-def ::= var-ident [ . nat-const ] ?
pub struct ConditionalDef {
    pub ident: VarIdent,
    pub nat: Option<String>,
}

/// The four argument forms of the grammar, in the order they are tried.
pub enum Args {
    /// args ::= var-ident-opt : [ conditional-def ] [ ! ] type-term
    Plain { field_name: VarIdentOpt, cond: Option<ConditionalDef>, excl: bool, field_type: Term },
    /// args ::= [ var-ident-opt : ] [ multiplicity * ] [ { args } ]
    Bracketed(Option<VarIdentOpt>, Option<Term>, Vec<Args>),
    /// args ::= ( var-ident-opt { var-ident-opt } : [ ! ] type-term )
    Grouped(VarIdentOpt, Vec<VarIdentOpt>, bool, Term),
    /// args ::= [ ! ] type-term
    Bare(bool, Term),
}

/// result-type ::= boxed-type-ident { subexpr }
///              | boxed-type-ident < subexpr { , subexpr } >
pub enum ResultType {
    Plain(UcIdentNs, Vec<Subexpr>),
    Angled(UcIdentNs, Subexpr, Vec<Subexpr>),
}

/// combinator-decl ::= full-combinator-id { opt-args } { args } = result-type ;
pub struct CombinatorDecl {
    pub object_name: FullCombinatorId,
    pub opt_args: Vec<OptArgs>,
    pub object_fields: Vec<Args>,
    pub result: ResultType,
}

/// builtin-combinator-decl ::= full-combinator-id ? = boxed-type-ident ;
pub struct BuiltinCombinatorDecl {
    pub name: FullCombinatorId,
    pub result_type: UcIdentNs,
}

/// The combinator identifier `v` stands at `pos` and ends at `next`.
pub open spec fn full_combinator_id_at(
    inp: Seq<char>,
    pos: int,
    v: FullCombinatorId,
    next: int,
) -> bool {
    match v {
        FullCombinatorId::LcIdentFull(f) => lc_ident_full_at(inp, pos, f, next),
        FullCombinatorId::Underscore => word_at(inp, pos, "_"@) && next == pos + "_"@.len(),
    }
}

/// full-combinator-id ::= lc-ident-full | _
pub fn parse_full_combinator_id(inp: &Vec<char>, pos: usize) -> (r: Option<
    Parsed<FullCombinatorId>,
>)
    requires
        pos <= inp@.len(),
    ensures
        r matches Some(p) ==> pos < p.next <= inp@.len() && full_combinator_id_at(
            inp@,
            pos as int,
            p.value,
            p.next as int,
        ),
{
    match parse_lc_ident_full(inp, pos) {
        Some(p) => {
            return Some(Parsed { value: FullCombinatorId::LcIdentFull(p.value), next: p.next });
        },
        None => {},
    }
    match parse_word(inp, pos, "_") {
        Some(next) => {
            proof {
                reveal_strlit("_");
            }
            Some(Parsed { value: FullCombinatorId::Underscore, next })
        },
        None => None,
    }
}

/// The plain combinator identifier `v` stands at `pos` and ends at
/// `next`.
pub open spec fn combinator_id_at(inp: Seq<char>, pos: int, v: CombinatorId, next: int) -> bool {
    match v {
        CombinatorId::LcIdentNs(l) => lc_ident_ns_at(inp, pos, l, next),
        CombinatorId::Underscore => word_at(inp, pos, "_"@) && next == pos + "_"@.len(),
    }
}

/// combinator-id ::= lc-ident-ns | _
pub fn parse_combinator_id(inp: &Vec<char>, pos: usize) -> (r: Option<Parsed<CombinatorId>>)
    requires
        pos <= inp@.len(),
    ensures
        r matches Some(p) ==> pos < p.next <= inp@.len() && combinator_id_at(
            inp@,
            pos as int,
            p.value,
            p.next as int,
        ),
{
    match parse_lc_ident_ns(inp, pos) {
        Some(p) => {
            return Some(Parsed { value: CombinatorId::LcIdentNs(p.value), next: p.next });
        },
        None => {},
    }
    match parse_word(inp, pos, "_") {
        Some(next) => {
            proof {
                reveal_strlit("_");
            }
            Some(Parsed { value: CombinatorId::Underscore, next })
        },
        None => None,
    }
}

/// The optional-variable identifier `v` stands at `pos` and ends at
/// `next`.
pub open spec fn var_ident_opt_at(inp: Seq<char>, pos: int, v: VarIdentOpt, next: int) -> bool {
    match v {
        VarIdentOpt::VarIdent(vi) => ident_token(inp, pos, vi_name(vi), next),
        VarIdentOpt::Underscore => word_at(inp, pos, "_"@) && next == pos + "_"@.len(),
    }
}

/// var-ident-opt ::= var-ident | _
pub fn parse_var_ident_opt(inp: &Vec<char>, pos: usize) -> (r: Option<Parsed<VarIdentOpt>>)
    requires
        pos <= inp@.len(),
    ensures
        r matches Some(p) ==> pos < p.next <= inp@.len() && var_ident_opt_at(
            inp@,
            pos as int,
            p.value,
            p.next as int,
        ),
{
    match parse_var_ident(inp, pos) {
        Some(p) => {
            return Some(Parsed { value: VarIdentOpt::VarIdent(p.value), next: p.next });
        },
        None => {},
    }
    match parse_word(inp, pos, "_") {
        Some(next) => {
            proof {
                reveal_strlit("_");
            }
            Some(Parsed { value: VarIdentOpt::Underscore, next })
        },
        None => None,
    }
}

/// The conditional-def `v` stands at `pos` and ends at `next`: its
/// identifier, an optional dotted number, and a question mark.
pub open spec fn conditional_def_at(inp: Seq<char>, pos: int, v: ConditionalDef, next: int) -> bool {
    match v.nat {
        None => exists|a: int|
            ident_token(inp, pos, vi_name(v.ident), a) && #[trigger] token_at(inp, a, "?"@, next),
        Some(n) => exists|a: int, b: int, c: int|
            ident_token(inp, pos, vi_name(v.ident), a) && #[trigger] token_at(inp, a, "."@, b)
                && digits_token(inp, b, n@, c) && #[trigger] token_at(inp, c, "?"@, next),
    }
}

/// conditional-def ::= var-ident [ . nat-const ] ?
pub fn parse_conditional_def(inp: &Vec<char>, pos: usize) -> (r: Option<Parsed<ConditionalDef>>)
    requires
        pos <= inp@.len(),
    ensures
        r matches Some(p) ==> pos < p.next <= inp@.len() && conditional_def_at(
            inp@,
            pos as int,
            p.value,
            p.next as int,
        ),
{
    let ident = match parse_var_ident(inp, pos) {
        Some(p) => p,
        None => {
            return None;
        },
    };
    let (nat_val, at) = match parse_token(inp, ident.next, ".") {
        Some(after_dot) => match parse_nat_const(inp, after_dot) {
            Some(n) => (Some(n.value), n.next),
            None => {
                return None;
            },
        },
        None => (None, ident.next),
    };
    match parse_token(inp, at, "?") {
        Some(next) => {
            proof {
                let v = ConditionalDef { ident: ident.value, nat: nat_val };
                assert(conditional_def_at(inp@, pos as int, v, next as int)) by {
                    assert(token_at(inp@, at as int, "?"@, next as int));
                    assert(ident_token(inp@, pos as int, vi_name(ident.value), ident.next as int));
                }
            }
            Some(Parsed { value: ConditionalDef { ident: ident.value, nat: nat_val }, next })
        },
        None => None,
    }
}

/// opt-args ::= { var-ident { var-ident } : [ ! ] type-expr }
pub fn parse_opt_args(inp: &Vec<char>, pos: usize) -> (r: Option<Parsed<OptArgs>>)
    requires
        pos <= inp@.len(),
    ensures
        r matches Some(p) ==> pos < p.next <= inp@.len(),
{
    let after_open = match parse_token(inp, pos, "{") {
        Some(n) => n,
        None => {
            return None;
        },
    };
    proof {
        reveal_strlit("{");
    }
    let ident_0 = match parse_var_ident(inp, after_open) {
        Some(p) => p,
        None => {
            return None;
        },
    };
    let mut ident_k: Vec<VarIdent> = Vec::new();
    let mut at: usize = ident_0.next;
    loop
        invariant
            pos < at <= inp@.len(),
        decreases inp@.len() - at,
    {
        match parse_var_ident(inp, at) {
            Some(p) => {
                ident_k.push(p.value);
                at = p.next;
            },
            None => {
                break;
            },
        }
    }
    let after_colon = match parse_token(inp, at, ":") {
        Some(n) => n,
        None => {
            return None;
        },
    };
    let (neg, at2) = match parse_token(inp, after_colon, "!") {
        Some(n) => (true, n),
        None => (false, after_colon),
    };
    let expr = parse_expr(inp, at2);
    match parse_token(inp, expr.next, "}") {
        Some(next) => Some(
            Parsed {
                value: OptArgs {
                    ident_0: ident_0.value,
                    ident_k,
                    neg,
                    expr: expr.value,
                },
                next,
            },
        ),
        None => None,
    }
}

/// The four argument forms, tried in order.
pub fn parse_args(inp: &Vec<char>, pos: usize) -> (r: Option<Parsed<Args>>)
    requires
        pos <= inp@.len(),
    ensures
        r matches Some(p) ==> pos < p.next <= inp@.len(),
    decreases inp@.len() - pos,
{
    // var-ident-opt : [ conditional-def ] [ ! ] type-term
    match parse_var_ident_opt(inp, pos) {
        Some(field_name) => {
            match parse_token(inp, field_name.next, ":") {
                Some(after_colon) => {
                    let (cond, at) = match parse_conditional_def(inp, after_colon) {
                        Some(c) => (Some(c.value), c.next),
                        None => (None, after_colon),
                    };
                    let (excl, at2) = match parse_token(inp, at, "!") {
                        Some(n) => (true, n),
                        None => (false, at),
                    };
                    match parse_term(inp, at2) {
                        Some(t) => {
                            return Some(
                                Parsed {
                                    value: Args::Plain {
                                        field_name: field_name.value,
                                        cond,
                                        excl,
                                        field_type: t.value,
                                    },
                                    next: t.next,
                                },
                            );
                        },
                        None => {},
                    }
                },
                None => {},
            }
        },
        None => {},
    }
    // [ var-ident-opt : ] [ multiplicity * ] [ { args } ]
    match parse_args_bracketed(inp, pos) {
        Some(p) => {
            return Some(p);
        },
        None => {},
    }
    // ( var-ident-opt { var-ident-opt } : [ ! ] type-term )
    match parse_args_grouped(inp, pos) {
        Some(p) => {
            return Some(p);
        },
        None => {},
    }
    // [ ! ] type-term
    let (excl, at) = match parse_token(inp, pos, "!") {
        Some(n) => {
            proof {
                reveal_strlit("!");
            }
            (true, n)
        },
        None => (false, pos),
    };
    match parse_term(inp, at) {
        Some(t) => Some(Parsed { value: Args::Bare(excl, t.value), next: t.next }),
        None => None,
    }
}

/// args ::= [ var-ident-opt : ] [ multiplicity * ] [ { args } ]
fn parse_args_bracketed(inp: &Vec<char>, pos: usize) -> (r: Option<Parsed<Args>>)
    requires
        pos <= inp@.len(),
    ensures
        r matches Some(p) ==> pos < p.next <= inp@.len(),
    decreases inp@.len() - pos, 1int,
{
    let (named, at) = match parse_var_ident_opt(inp, pos) {
        Some(v) => match parse_token(inp, v.next, ":") {
            Some(n) => (Some(v.value), n),
            None => (None, pos),
        },
        None => (None, pos),
    };
    let (mult, at2) = match parse_term(inp, at) {
        Some(t) => match parse_token(inp, t.next, "*") {
            Some(n) => (Some(t.value), n),
            None => (None, at),
        },
        None => (None, at),
    };
    let after_open = match parse_token(inp, at2, "[") {
        Some(n) => n,
        None => {
            return None;
        },
    };
    proof {
        reveal_strlit("[");
    }
    let mut items: Vec<Args> = Vec::new();
    let mut p: usize = after_open;
    loop
        invariant
            pos < p <= inp@.len(),
        decreases inp@.len() - p,
    {
        match parse_args(inp, p) {
            Some(a) => {
                items.push(a.value);
                p = a.next;
            },
            None => {
                break;
            },
        }
    }
    match parse_token(inp, p, "]") {
        Some(next) => Some(Parsed { value: Args::Bracketed(named, mult, items), next }),
        None => None,
    }
}

/// args ::= ( var-ident-opt { var-ident-opt } : [ ! ] type-term )
fn parse_args_grouped(inp: &Vec<char>, pos: usize) -> (r: Option<Parsed<Args>>)
    requires
        pos <= inp@.len(),
    ensures
        r matches Some(p) ==> pos < p.next <= inp@.len(),
{
    let after_open = match parse_token(inp, pos, "(") {
        Some(n) => n,
        None => {
            return None;
        },
    };
    proof {
        reveal_strlit("(");
    }
    let first = match parse_var_ident_opt(inp, after_open) {
        Some(p) => p,
        None => {
            return None;
        },
    };
    let mut rest: Vec<VarIdentOpt> = Vec::new();
    let mut at: usize = first.next;
    loop
        invariant
            pos < at <= inp@.len(),
        decreases inp@.len() - at,
    {
        match parse_var_ident_opt(inp, at) {
            Some(p) => {
                rest.push(p.value);
                at = p.next;
            },
            None => {
                break;
            },
        }
    }
    let after_colon = match parse_token(inp, at, ":") {
        Some(n) => n,
        None => {
            return None;
        },
    };
    let (excl, at2) = match parse_token(inp, after_colon, "!") {
        Some(n) => (true, n),
        None => (false, after_colon),
    };
    let t = match parse_term(inp, at2) {
        Some(t) => t,
        None => {
            return None;
        },
    };
    match parse_token(inp, t.next, ")") {
        Some(next) => Some(
            Parsed { value: Args::Grouped(first.value, rest, excl, t.value), next },
        ),
        None => None,
    }
}

/// result-type. The plain form can only fail on its leading identifier,
/// which the angled form shares, so the ordered choice never reaches the
/// angled alternative; only the plain form is ever built.
pub fn parse_result_type(inp: &Vec<char>, pos: usize) -> (r: Option<Parsed<ResultType>>)
    requires
        pos <= inp@.len(),
    ensures
        r matches Some(p) ==> pos < p.next <= inp@.len(),
{
    let head = match parse_uc_ident_ns(inp, pos) {
        Some(p) => p,
        None => {
            return None;
        },
    };
    let mut subexprs: Vec<Subexpr> = Vec::new();
    let mut at: usize = head.next;
    loop
        invariant
            pos < at <= inp@.len(),
        decreases inp@.len() - at,
    {
        match parse_subexpr(inp, at) {
            Some(p) => {
                subexprs.push(p.value);
                at = p.next;
            },
            None => {
                break;
            },
        }
    }
    Some(Parsed { value: ResultType::Plain(head.value, subexprs), next: at })
}

/// combinator-decl ::= full-combinator-id { opt-args } { args } = result-type ;
pub fn parse_combinator_decl(inp: &Vec<char>, pos: usize) -> (r: Option<Parsed<CombinatorDecl>>)
    requires
        pos <= inp@.len(),
    ensures
        r matches Some(p) ==> pos < p.next <= inp@.len(),
{
    let object_name = match parse_full_combinator_id(inp, pos) {
        Some(p) => p,
        None => {
            return None;
        },
    };
    let mut opt_args: Vec<OptArgs> = Vec::new();
    let mut at: usize = object_name.next;
    loop
        invariant
            pos < at <= inp@.len(),
        decreases inp@.len() - at,
    {
        match parse_opt_args(inp, at) {
            Some(p) => {
                opt_args.push(p.value);
                at = p.next;
            },
            None => {
                break;
            },
        }
    }
    let mut object_fields: Vec<Args> = Vec::new();
    loop
        invariant
            pos < at <= inp@.len(),
        decreases inp@.len() - at,
    {
        match parse_args(inp, at) {
            Some(p) => {
                object_fields.push(p.value);
                at = p.next;
            },
            None => {
                break;
            },
        }
    }
    let after_eq = match parse_token(inp, at, "=") {
        Some(n) => n,
        None => {
            return None;
        },
    };
    let result = match parse_result_type(inp, after_eq) {
        Some(p) => p,
        None => {
            return None;
        },
    };
    match parse_token(inp, result.next, ";") {
        Some(next) => Some(
            Parsed {
                value: CombinatorDecl {
                    object_name: object_name.value,
                    opt_args,
                    object_fields,
                    result: result.value,
                },
                next,
            },
        ),
        None => None,
    }
}

/// The builtin/base declaration `v` stands at `pos` and ends at `next`:
/// its identifier, a question mark, an equals sign, its base type and a
/// semicolon.
pub open spec fn builtin_combinator_decl_at(
    inp: Seq<char>,
    pos: int,
    v: BuiltinCombinatorDecl,
    next: int,
) -> bool {
    exists|a: int, b: int, c: int, d: int|
        full_combinator_id_at(inp, pos, v.name, a) && #[trigger] token_at(inp, a, "?"@, b)
            && #[trigger] token_at(inp, b, "="@, c) && uc_ident_ns_at(inp, c, v.result_type, d)
            && #[trigger] token_at(inp, d, ";"@, next)
}

/// builtin-combinator-decl ::= full-combinator-id ? = boxed-type-ident ;
pub fn parse_builtin_combinator_decl(inp: &Vec<char>, pos: usize) -> (r: Option<
    Parsed<BuiltinCombinatorDecl>,
>)
    requires
        pos <= inp@.len(),
    ensures
        r matches Some(p) ==> pos < p.next <= inp@.len() && builtin_combinator_decl_at(
            inp@,
            pos as int,
            p.value,
            p.next as int,
        ),
{
    let name = match parse_full_combinator_id(inp, pos) {
        Some(p) => p,
        None => {
            return None;
        },
    };
    let after_qm = match parse_token(inp, name.next, "?") {
        Some(n) => n,
        None => {
            return None;
        },
    };
    let after_eq = match parse_token(inp, after_qm, "=") {
        Some(n) => n,
        None => {
            return None;
        },
    };
    let result_type = match parse_uc_ident_ns(inp, after_eq) {
        Some(p) => p,
        None => {
            return None;
        },
    };
    match parse_token(inp, result_type.next, ";") {
        Some(next) => {
            proof {
                let v = BuiltinCombinatorDecl { name: name.value, result_type: result_type.value };
                assert(builtin_combinator_decl_at(inp@, pos as int, v, next as int)) by {
                    assert(token_at(inp@, name.next as int, "?"@, after_qm as int));
                    assert(token_at(inp@, after_qm as int, "="@, after_eq as int));
                }
            }
            Some(
                Parsed {
                    value: BuiltinCombinatorDecl { name: name.value, result_type: result_type.value },
                    next,
                },
            )
        },
        None => None,
    }
}

/// Whether a combinator identifier compiles: an explicit hex-coded name,
/// a namespace, and the anonymous `_` form are outside the supported
/// schema.
pub open spec fn fci_ok(v: FullCombinatorId) -> bool {
    match v {
        FullCombinatorId::LcIdentFull(f) => f.hex_code is None && f.ident.namespace is None,
        FullCombinatorId::Underscore => false,
    }
}

/// The name a combinator identifier compiles to.
pub open spec fn fci_name(v: FullCombinatorId) -> Seq<char> {
    match v {
        FullCombinatorId::LcIdentFull(f) => f.ident.ident@,
        FullCombinatorId::Underscore => Seq::empty(),
    }
}

/// Compiles a combinator identifier to its name.
pub fn full_combinator_id_compile(v: FullCombinatorId) -> (r: Result<String, String>)
    ensures
        r is Ok <==> fci_ok(v),
        r matches Ok(s) ==> s@ == fci_name(v),
{
    match v {
        FullCombinatorId::LcIdentFull(f) => {
            match f.hex_code {
                Some(_) => {
                    return Err(String::from_str("hex code not supported"));
                },
                None => {},
            }
            match f.ident.namespace {
                Some(_) => Err(String::from_str("name space not supported")),
                None => Ok(f.ident.ident),
            }
        },
        FullCombinatorId::Underscore => Err(String::from_str("anonymous identifier not supported")),
    }
}

/// Whether an optional-variable identifier compiles: the anonymous `_`
/// form is outside the supported schema.
pub open spec fn vio_ok(v: VarIdentOpt) -> bool {
    v matches VarIdentOpt::VarIdent(_)
}

/// The field name an optional-variable identifier compiles to; the name
/// `type` is escaped to avoid the reserved word.
pub open spec fn vio_name(v: VarIdentOpt) -> Seq<char> {
    match v {
        VarIdentOpt::VarIdent(vi) => if vi_name(vi) == "type"@ {
            "r#type"@
        } else {
            vi_name(vi)
        },
        VarIdentOpt::Underscore => Seq::empty(),
    }
}

/// Compiles an optional-variable identifier to its field name, exactly as
/// `vio_name` states.
pub fn var_ident_opt_compile(v: &VarIdentOpt) -> (r: Result<String, String>)
    ensures
        r is Ok <==> vio_ok(*v),
        r matches Ok(s) ==> s@ == vio_name(*v),
{
    match v {
        VarIdentOpt::VarIdent(vi) => {
            let s = match vi {
                VarIdent::LcIdent(s) => s.clone(),
                VarIdent::UcIdent(s) => s.clone(),
            };
            if str_eq(s.as_str(), "type") {
                Ok(String::from_str("r#type"))
            } else {
                Ok(s)
            }
        },
        VarIdentOpt::Underscore => Err(String::from_str("anonymous identifier not supported")),
    }
}

/// The generic parameters of a plain result type: each subexpression
/// must be a plain lower-case type identifier without a namespace.
pub open spec fn gens_tr(gs: Seq<Subexpr>) -> Option<Seq<Seq<char>>>
    decreases gs.len(),
{
    if gs.len() == 0 {
        Some(Seq::empty())
    } else {
        match gens_tr(gs.drop_last()) {
            None => None,
            Some(acc) => match gs.last() {
                Subexpr::Term(t) => match t {
                    Term::TypeIdent(ti) => match ti {
                        TypeIdent::LcIdentNs(l) => if l.namespace is Some {
                            None
                        } else {
                            Some(acc.push(l.ident@))
                        },
                        _ => None,
                    },
                    _ => None,
                },
                _ => None,
            },
        }
    }
}

/// The name and generic parameters a result type compiles to; a
/// namespaced head and the angled form are outside the supported schema.
pub open spec fn rt_tr(r: ResultType) -> Option<(Seq<char>, Seq<Seq<char>>)> {
    match r {
        ResultType::Plain(uc, gens) => if uc.namespace is Some {
            None
        } else {
            match gens_tr(gens@) {
                None => None,
                Some(g) => Some((uc.name@, g)),
            }
        },
        ResultType::Angled(_, _, _) => None,
    }
}

/// A later element cannot rescue a failed prefix of the generic list.
proof fn lemma_gens_tr_extend_none(gs: Seq<Subexpr>, i: int)
    requires
        0 <= i <= gs.len(),
        gens_tr(gs.take(i)) is None,
    ensures
        gens_tr(gs) is None,
    decreases gs.len() - i,
{
    if i == gs.len() {
        assert(gs.take(i) =~= gs);
    } else {
        assert(gs.take(i + 1).drop_last() =~= gs.take(i));
        lemma_gens_tr_extend_none(gs, i + 1);
    }
}

/// Compiles a result type to its name and generic parameters, exactly as
/// `rt_tr` states.
pub fn result_type_compile(r: ResultType) -> (res: Result<(String, Vec<String>), String>)
    ensures
        match rt_tr(r) {
            Some(t) => res matches Ok(p) && p.0@ == t.0 && p.1@.map_values(|s: String| s@) == t.1,
            None => res is Err,
        },
{
    let ghost r0 = r;
    match r {
        ResultType::Plain(uc, gens) => {
            match uc.namespace {
                Some(_) => {
                    return Err(String::from_str("name space not supported"));
                },
                None => {},
            }
            let n = gens.len();
            let mut out: Vec<String> = Vec::new();
            let mut i: usize = 0;
            while i < n
                invariant
                    n == gens@.len(),
                    0 <= i <= n,
                    r0 == r,
                    rt_tr(r0) == (match gens_tr(gens@) {
                        None => None::<(Seq<char>, Seq<Seq<char>>)>,
                        Some(g) => Some((uc.name@, g)),
                    }),
                    gens_tr(gens@.take(i as int)) == Some(out@.map_values(|s: String| s@)),
                decreases n - i,
            {
                proof {
                    assert(gens@.take(i + 1).drop_last() =~= gens@.take(i as int));
                    assert(gens@.take(i + 1).last() == gens@[i as int]);
                }
                match &gens[i] {
                    Subexpr::Term(t) => match t {
                        Term::TypeIdent(ti) => match ti {
                            TypeIdent::LcIdentNs(l) => match &l.namespace {
                                Some(_) => {
                                    proof {
                                        lemma_gens_tr_extend_none(gens@, i + 1);
                                    }
                                    return Err(String::from_str("name space not supported"));
                                },
                                None => {
                                    let ghost pre = out@.map_values(|s: String| s@);
                                    out.push(l.ident.clone());
                                    proof {
                                        assert(out@.map_values(|s: String| s@) =~= pre.push(
                                            l.ident@,
                                        ));
                                    }
                                },
                            },
                            _ => {
                                proof {
                                    lemma_gens_tr_extend_none(gens@, i + 1);
                                }
                                return Err(String::from_str("expression not used in schema"));
                            },
                        },
                        _ => {
                            proof {
                                lemma_gens_tr_extend_none(gens@, i + 1);
                            }
                            return Err(String::from_str("expression not used in schema"));
                        },
                    },
                    _ => {
                        proof {
                            lemma_gens_tr_extend_none(gens@, i + 1);
                        }
                        return Err(String::from_str("expression not used in schema"));
                    },
                }
                i = i + 1;
            }
            proof {
                assert(gens@.take(n as int) =~= gens@);
            }
            Ok((uc.name, out))
        },
        ResultType::Angled(_, _, _) => Err(String::from_str("result-type::Angled not used in schema")),
    }
}

/// The transition of one argument form: the plain form compiles to a
/// field (rejecting the anonymous, conditional and exclamation-marked
/// variants), the bracketed and bare forms are tolerated no-ops compiled
/// to an empty placeholder pair, and the parenthesized group is a hard
/// error.
pub open spec fn arg_tr(m: TypesV, a: Args) -> Option<(TypesV, ObjectValueV)> {
    match a {
        Args::Plain { field_name, cond, excl, field_type } => {
            if !vio_ok(field_name) {
                None
            } else if cond is Some {
                None
            } else if excl {
                None
            } else {
                match term_tr(m, field_type) {
                    None => None,
                    Some(r) => Some(
                        (r.0, ObjectValueV { key: vio_name(field_name), type_id: r.1 }),
                    ),
                }
            }
        },
        Args::Bracketed(_, _, _) => Some(
            (m, ObjectValueV { key: Seq::empty(), type_id: Seq::empty() }),
        ),
        Args::Grouped(_, _, _, _) => None,
        Args::Bare(_, _) => Some((m, ObjectValueV { key: Seq::empty(), type_id: Seq::empty() })),
    }
}

/// The transition of an argument list: each argument is compiled in
/// order and the empty placeholder pairs of the tolerated no-op forms
/// are dropped.
pub open spec fn args_tr(m: TypesV, s: Seq<Args>) -> Option<(TypesV, Seq<ObjectValueV>)>
    decreases s.len(),
{
    if s.len() == 0 {
        Some((m, Seq::empty()))
    } else {
        match args_tr(m, s.drop_last()) {
            None => None,
            Some(acc) => match arg_tr(acc.0, s.last()) {
                None => None,
                Some(kv) => Some(
                    (
                        kv.0,
                        if kv.1.key.len() > 0 && kv.1.type_id.len() > 0 {
                            acc.1.push(kv.1)
                        } else {
                            acc.1
                        },
                    ),
                ),
            },
        }
    }
}

/// A later element cannot rescue a failed prefix of the argument fold.
proof fn lemma_args_tr_extend_none(m: TypesV, s: Seq<Args>, i: int)
    requires
        0 <= i <= s.len(),
        args_tr(m, s.take(i)) is None,
    ensures
        args_tr(m, s) is None,
    decreases s.len() - i,
{
    if i == s.len() {
        assert(s.take(i) =~= s);
    } else {
        assert(s.take(i + 1).drop_last() =~= s.take(i));
        lemma_args_tr_extend_none(m, s, i + 1);
    }
}

/// Compiles an argument list to the kept fields, exactly as `args_tr`
/// states.
pub fn args_list_compile(types: &mut Types, args: &Vec<Args>) -> (r: Result<
    Vec<ObjectValue>,
    String,
>)
    requires
        old(types).wf(),
    ensures
        final(types).wf(),
        match args_tr(old(types)@, args@) {
            Some(res) => r matches Ok(vs) && vs@.map_values(|ov: ObjectValue| ov@) == res.1
                && final(types)@ == res.0,
            None => r is Err && only_fresh_extension(old(types)@, final(types)@),
        },
{
    let ghost m0 = types@;
    let n = args.len();
    let mut out: Vec<ObjectValue> = Vec::new();
    let mut i: usize = 0;
    while i < n
        invariant
            n == args@.len(),
            0 <= i <= n,
            types.wf(),
            m0 == old(types)@,
            tbl_unique(m0),
            args_tr(m0, args@.take(i as int)) == Some(
                (types@, out@.map_values(|ov: ObjectValue| ov@)),
            ),
        decreases n - i,
    {
        proof {
            assert(args@.take(i + 1).drop_last() =~= args@.take(i as int));
            assert(args@.take(i + 1).last() == args@[i as int]);
        }
        let ghost outv0 = out@.map_values(|ov: ObjectValue| ov@);
        match &args[i] {
            Args::Plain { field_name, cond, excl, field_type } => {
                let key = match var_ident_opt_compile(field_name) {
                    Ok(k) => k,
                    Err(e) => {
                        proof {
                            lemma_args_tr_extend_none(m0, args@, i + 1);
                            lemma_args_tr_ofe(m0, args@.take(i as int));
                        }
                        return Err(e);
                    },
                };
                match cond {
                    Some(_) => {
                        proof {
                            lemma_args_tr_extend_none(m0, args@, i + 1);
                            lemma_args_tr_ofe(m0, args@.take(i as int));
                        }
                        return Err(String::from_str("condition not in schema"));
                    },
                    None => {},
                }
                if *excl {
                    proof {
                        lemma_args_tr_extend_none(m0, args@, i + 1);
                        lemma_args_tr_ofe(m0, args@.take(i as int));
                    }
                    return Err(String::from_str("exclamation not in schema"));
                }
                let ghost mpre = types@;
                let tid = match term_compile(types, field_type) {
                    Ok(t) => t,
                    Err(e) => {
                        proof {
                            lemma_args_tr_extend_none(m0, args@, i + 1);
                            lemma_args_tr_ofe(m0, args@.take(i as int));
                            lemma_ofe_trans(m0, mpre, final(types)@);
                        }
                        return Err(e);
                    },
                };
                if !key.as_str().is_empty() && !tid.as_str().is_empty() {
                    out.push(ObjectValue { key, type_id: tid });
                    proof {
                        assert(out@.map_values(|ov: ObjectValue| ov@) =~= outv0.push(
                            out@.last()@,
                        ));
                    }
                }
            },
            Args::Bracketed(_, _, _) => {
                // A tolerated no-op form: its empty placeholder pair is
                // dropped from the field list.
            },
            Args::Grouped(_, _, _, _) => {
                proof {
                    lemma_args_tr_extend_none(m0, args@, i + 1);
                    lemma_args_tr_ofe(m0, args@.take(i as int));
                }
                return Err(String::from_str("Args::Grouped not used"));
            },
            Args::Bare(_, _) => {
                // A tolerated no-op form, as above.
            },
        }
        i = i + 1;
    }
    proof {
        assert(args@.take(n as int) =~= args@);
    }
    Ok(out)
}


/// The generic parameters joined with ", ".
pub open spec fn join_cs(gs: Seq<Seq<char>>) -> Seq<char>
    decreases gs.len(),
{
    if gs.len() == 0 {
        Seq::empty()
    } else if gs.len() == 1 {
        gs[0]
    } else {
        join_cs(gs.drop_last()) + ", "@ + gs.last()
    }
}

/// The generic suffix of a function's result type: empty without
/// parameters, else the joined parameters in angle brackets.
pub open spec fn generics_suffix(gs: Seq<Seq<char>>) -> Seq<char> {
    if gs.len() == 0 {
        Seq::empty()
    } else {
        "<"@ + join_cs(gs) + ">"@
    }
}

/// The transition of compiling a constructor declaration as a type
/// (under a types section): its identifier and result type are resolved,
/// the result type is registered and transformed, the fields are
/// compiled, the constructor is registered (a taken name is a hard
/// error), the constructor is appended to the children of its transformed
/// result type unless the declaration used the opt-args form, and a
/// record is produced exactly when the kept field list is non-empty.
pub open spec fn comb_const_tr(
    m: TypesV,
    d: CombinatorDecl,
    metav: Map<Seq<char>, Seq<char>>,
) -> Option<(TypesV, Option<ObjectV>)> {
    if !fci_ok(d.object_name) {
        None
    } else {
        let name = fci_name(d.object_name);
        match rt_tr(d.result) {
            None => None,
            Some(rt) => {
                let tname = spec_transform_name(m, rt.0);
                let m1 = spec_transform(m, rt.0);
                match args_tr(m1, d.object_fields@) {
                    None => None,
                    Some(af) => {
                        if tbl_has(af.0, name) {
                            None
                        } else {
                            let entry = TypeV::TD {
                                meta: Map::empty(),
                                inherits_from: Some(rt.0),
                                children: Seq::empty(),
                                depends_on: af.1.map_values(|f: ObjectValueV| f.type_id),
                            };
                            let m3 = af.0.push((name, entry));
                            let m4 = if d.opt_args@.len() == 0 {
                                spec_append_child(m3, tname, name, af.1.len() as usize)
                            } else {
                                m3
                            };
                            let obj = if af.1.len() > 0 {
                                Some(ObjectV { name, meta: metav, fields: af.1 })
                            } else {
                                None
                            };
                            Some((m4, obj))
                        }
                    },
                }
            },
        }
    }
}

/// The transition of compiling a constructor declaration as a function
/// (under a functions section): as for a type, but nothing is registered;
/// one function record carrying the resolved (possibly generic) result
/// type is produced, with no duplicate check.
pub open spec fn comb_func_tr(
    m: TypesV,
    d: CombinatorDecl,
    metav: Map<Seq<char>, Seq<char>>,
) -> Option<(TypesV, FunctionV)> {
    if !fci_ok(d.object_name) {
        None
    } else {
        match rt_tr(d.result) {
            None => None,
            Some(rt) => {
                let tname = spec_transform_name(m, rt.0);
                let m1 = spec_transform(m, rt.0);
                match args_tr(m1, d.object_fields@) {
                    None => None,
                    Some(af) => Some(
                        (
                            af.0,
                            FunctionV {
                                name: fci_name(d.object_name),
                                meta: metav,
                                fields: af.1,
                                result_type: tname + generics_suffix(rt.1),
                            },
                        ),
                    ),
                }
            },
        }
    }
}

/// The transition of a builtin/base declaration `name ? = Base;`: it
/// registers `name` as an alias of a host primitive, and fails when
/// `Base` is namespaced or not a primitive name, when `name` does not
/// compile, or when `name` is already registered.
pub open spec fn builtin_tr(m: TypesV, d: BuiltinCombinatorDecl) -> Option<TypesV> {
    if d.result_type.namespace is Some {
        None
    } else {
        match spec_from_schema(d.result_type.name@) {
            None => None,
            Some(p) => {
                if !fci_ok(d.name) {
                    None
                } else {
                    let n = fci_name(d.name);
                    if tbl_has(m, n) {
                        None
                    } else {
                        Some(m.push((n, TypeV::Rust(p))))
                    }
                }
            },
        }
    }
}

/// Compiles a constructor declaration as a type, exactly as
/// `comb_const_tr` states. On failure the record and function stores are
/// untouched and the type registry has at most gained bare transform
/// entries: no existing entry — in particular no children list — has
/// changed.
pub fn combinator_compile_const(reg: &mut Registry, d: CombinatorDecl, meta: Meta) -> (r: Result<
    (),
    String,
>)
    requires
        old(reg).wf(),
    ensures
        final(reg).wf(),
        match comb_const_tr(old(reg).types@, d, meta_view(meta@)) {
            Some(res) => r is Ok && final(reg).types@ == res.0 && final(reg).functions@ == old(
                reg,
            ).functions@ && final(reg).objects@.map_values(|o: Object| o@) == old(
                reg,
            ).objects@.map_values(|o: Object| o@) + (match res.1 {
                Some(o) => seq![o],
                None => Seq::<ObjectV>::empty(),
            }),
            None => r is Err && final(reg).objects@ == old(reg).objects@ && final(reg).functions@
                == old(reg).functions@ && only_fresh_extension(
                old(reg).types@,
                final(reg).types@,
            ),
        },
{
    proof {
        lemma_ofe_refl(old(reg).types@);
    }
    let object_name = match full_combinator_id_compile(d.object_name) {
        Ok(n) => n,
        Err(e) => {
            return Err(e);
        },
    };
    let rt = match result_type_compile(d.result) {
        Ok(p) => p,
        Err(e) => {
            return Err(e);
        },
    };
    let result_type = rt.0;
    let ghost m0 = reg.types@;
    let tname = Type::transform_type(&mut reg.types, result_type.clone());
    proof {
        lemma_transform_ofe(m0, result_type@);
    }
    let ghost m1 = reg.types@;
    let fields = match args_list_compile(&mut reg.types, &d.object_fields) {
        Ok(f) => f,
        Err(e) => {
            proof {
                lemma_ofe_trans(m0, m1, final(reg).types@);
            }
            return Err(e);
        },
    };
    proof {
        lemma_args_tr_ofe(m1, d.object_fields@);
        lemma_ofe_trans(m0, m1, reg.types@);
    }
    let ghost fieldsv = fields@.map_values(|ov: ObjectValue| ov@);
    let nf = fields.len();
    let mut depends: Vec<String> = Vec::new();
    let mut i: usize = 0;
    while i < nf
        invariant
            nf == fields@.len(),
            0 <= i <= nf,
            depends@.len() == i,
            forall|k: int| 0 <= k < i ==> (#[trigger] depends@[k])@ == fields@[k].type_id@,
        decreases nf - i,
    {
        depends.push(fields[i].type_id.clone());
        i = i + 1;
    }
    let entry = Type::TD {
        meta: StringHashMap::new(),
        inherits_from: Some(result_type),
        children: Vec::new(),
        depends_on: depends,
    };
    proof {
        assert(meta_view(Map::<Seq<char>, String>::empty()) =~= Map::<
            Seq<char>,
            Seq<char>,
        >::empty());
        assert(Seq::<(String, usize)>::empty().map_values(|p: (String, usize)| (p.0@, p.1))
            =~= Seq::<(Seq<char>, usize)>::empty());
        assert(depends@.map_values(|s: String| s@) =~= fieldsv.map_values(
            |f: ObjectValueV| f.type_id,
        ));
    }
    let obj_name = match Type::insert(&mut reg.types, object_name, entry) {
        Ok(k) => k,
        Err(e) => {
            return Err(e);
        },
    };
    if d.opt_args.len() == 0 {
        reg.types.append_child(tname, obj_name.clone(), nf);
    }
    if fields.len() > 0 {
        let ghost pre = reg.objects@.map_values(|o: Object| o@);
        Object::push(&mut reg.objects, Object { name: obj_name, meta, fields });
        proof {
            assert(reg.objects@.map_values(|o: Object| o@) =~= pre.push(reg.objects@.last()@));
            assert(pre.push(reg.objects@.last()@) =~= pre + seq![reg.objects@.last()@]);
        }
    } else {
        proof {
            assert(reg.objects@.map_values(|o: Object| o@) =~= reg.objects@.map_values(
                |o: Object| o@,
            ) + Seq::<ObjectV>::empty());
        }
    }
    Ok(())
}

/// Compiles a constructor declaration as a function, exactly as
/// `comb_func_tr` states. On failure the record and function stores are
/// untouched and the type registry has at most gained bare transform
/// entries.
pub fn combinator_compile_func(reg: &mut Registry, d: CombinatorDecl, meta: Meta) -> (r: Result<
    (),
    String,
>)
    requires
        old(reg).wf(),
    ensures
        final(reg).wf(),
        match comb_func_tr(old(reg).types@, d, meta_view(meta@)) {
            Some(res) => r is Ok && final(reg).types@ == res.0 && final(reg).objects@ == old(
                reg,
            ).objects@ && final(reg).functions@.map_values(|f: Function| f@) == old(
                reg,
            ).functions@.map_values(|f: Function| f@).push(res.1),
            None => r is Err && final(reg).objects@ == old(reg).objects@ && final(reg).functions@
                == old(reg).functions@ && only_fresh_extension(
                old(reg).types@,
                final(reg).types@,
            ),
        },
{
    proof {
        lemma_ofe_refl(old(reg).types@);
    }
    let object_name = match full_combinator_id_compile(d.object_name) {
        Ok(n) => n,
        Err(e) => {
            return Err(e);
        },
    };
    let rt = match result_type_compile(d.result) {
        Ok(p) => p,
        Err(e) => {
            return Err(e);
        },
    };
    let result_type = rt.0;
    let gens = rt.1;
    let ghost gensv = gens@.map_values(|s: String| s@);
    let ghost m0 = reg.types@;
    let ghost rtv = result_type@;
    let tname = Type::transform_type(&mut reg.types, result_type);
    proof {
        lemma_transform_ofe(m0, rtv);
    }
    let ghost m1 = reg.types@;
    // The generic suffix of the result type.
    let mut joined = String::new();
    let ng = gens.len();
    let mut i: usize = 0;
    while i < ng
        invariant
            ng == gens@.len(),
            0 <= i <= ng,
            gensv == gens@.map_values(|s: String| s@),
            gensv.len() == ng,
            joined@ == join_cs(gensv.take(i as int)),
        decreases ng - i,
    {
        if i != 0 {
            joined.append(", ");
        }
        joined.append(gens[i].as_str());
        proof {
            assert(gensv.take(i + 1).drop_last() =~= gensv.take(i as int));
            assert(gensv.take(i + 1).last() == gensv[i as int]);
            assert(gensv[i as int] == gens@[i as int]@);
            if i == 0 {
                assert(joined@ =~= join_cs(gensv.take(1)));
            }
        }
        i = i + 1;
    }
    proof {
        assert(gensv.take(ng as int) =~= gensv);
    }
    let mut compiled_result = String::new();
    compiled_result.append(tname.as_str());
    if gens.len() != 0 {
        compiled_result.append("<");
        compiled_result.append(joined.as_str());
        compiled_result.append(">");
    }
    proof {
        assert(compiled_result@ =~= tname@ + generics_suffix(gensv));
    }
    let fields = match args_list_compile(&mut reg.types, &d.object_fields) {
        Ok(f) => f,
        Err(e) => {
            proof {
                lemma_ofe_trans(m0, m1, final(reg).types@);
            }
            return Err(e);
        },
    };
    let ghost pre = reg.functions@.map_values(|f: Function| f@);
    Function::push(
        &mut reg.functions,
        Function { name: object_name, meta, fields, result_type: compiled_result },
    );
    proof {
        assert(reg.functions@.map_values(|f: Function| f@) =~= pre.push(reg.functions@.last()@));
    }
    Ok(())
}

/// Compiles a builtin/base declaration, exactly as `builtin_tr` states.
pub fn builtin_combinator_compile(types: &mut Types, d: BuiltinCombinatorDecl) -> (r: Result<
    (),
    String,
>)
    requires
        old(types).wf(),
    ensures
        final(types).wf(),
        match builtin_tr(old(types)@, d) {
            Some(m2) => r is Ok && final(types)@ == m2,
            None => r is Err && final(types)@ == old(types)@,
        },
{
    match d.result_type.namespace {
        Some(_) => {
            return Err(String::from_str("name space not supported"));
        },
        None => {},
    }
    let rust_type = match Type::from_schema_type(d.result_type.name.as_str()) {
        Some(t) => t,
        None => {
            return Err(String::from_str("is not a base type"));
        },
    };
    let name = match full_combinator_id_compile(d.name) {
        Ok(n) => n,
        Err(e) => {
            return Err(e);
        },
    };
    match Type::insert(types, name, rust_type) {
        Ok(_) => Ok(()),
        Err(e) => Err(e),
    }
}



/// Compiling an argument list never removes a registered name.
pub proof fn lemma_args_tr_mono(m: TypesV, s: Seq<Args>, k: Seq<char>)
    requires
        tbl_has(m, k),
        args_tr(m, s) is Some,
    ensures
        tbl_has((args_tr(m, s)->0).0, k),
    decreases s.len(),
{
    if s.len() > 0 {
        let acc = args_tr(m, s.drop_last())->0;
        lemma_args_tr_mono(m, s.drop_last(), k);
        match s.last() {
            Args::Plain { field_name, cond, excl, field_type } => {
                lemma_term_tr_mono(acc.0, field_type, k);
            },
            _ => {},
        }
    }
}

/// Compiling an argument list leaves the registry a fresh extension of
/// itself: no existing entry changes, and everything new is a bare
/// transform entry.
pub proof fn lemma_args_tr_ofe(m: TypesV, s: Seq<Args>)
    requires
        tbl_unique(m),
        args_tr(m, s) is Some,
    ensures
        only_fresh_extension(m, (args_tr(m, s)->0).0),
    decreases s.len(),
{
    if s.len() == 0 {
        lemma_ofe_refl(m);
    } else {
        let acc = args_tr(m, s.drop_last())->0;
        lemma_args_tr_ofe(m, s.drop_last());
        match s.last() {
            Args::Plain { field_name, cond, excl, field_type } => {
                lemma_term_tr_ofe(acc.0, field_type);
                lemma_ofe_trans(m, acc.0, (term_tr(acc.0, field_type)->0).0);
            },
            _ => {},
        }
    }
}

/// Declaring the same identifier twice is always a compile-time failure
/// for the declaration forms that register a name: a constructor
/// declaration whose name is already in the registry is rejected,
/// whatever the earlier registration was and whatever this declaration's
/// fields or result type are. (A constructor compiled under a functions
/// section registers nothing and a class-description block refines an
/// entry in place, so only the constructor and builtin forms can
/// collide.)
pub proof fn lemma_duplicate_constructor_fails(
    m: TypesV,
    d: CombinatorDecl,
    metav: Map<Seq<char>, Seq<char>>,
)
    requires
        tbl_has(m, fci_name(d.object_name)),
    ensures
        comb_const_tr(m, d, metav) is None,
{
    if fci_ok(d.object_name) {
        let name = fci_name(d.object_name);
        match rt_tr(d.result) {
            None => {},
            Some(rt) => {
                let m1 = spec_transform(m, rt.0);
                lemma_transform_mono(m, rt.0, name);
                match args_tr(m1, d.object_fields@) {
                    None => {},
                    Some(af) => {
                        lemma_args_tr_mono(m1, d.object_fields@, name);
                    },
                }
            },
        }
    }
}

/// As `lemma_duplicate_constructor_fails`, for the builtin/base
/// declaration form.
pub proof fn lemma_duplicate_builtin_fails(m: TypesV, d: BuiltinCombinatorDecl)
    requires
        tbl_has(m, fci_name(d.name)),
    ensures
        builtin_tr(m, d) is None,
{
}

/// For every valid primitive-alias declaration — a constructor
/// declaration `name = Base;` without fields whose result type `Base` is
/// one of the fixed primitive names — compiling it makes `name` resolve
/// through the alias chain to exactly the corresponding host primitive.
///
/// One family of registries is excluded: those where `Base` is already
/// registered as something other than its primitive mapping (an earlier
/// class-description block on `Base` creates such an entry); there the
/// chain dead-ends at the non-primitive entry instead.
pub proof fn lemma_primitive_alias_resolves(
    m: TypesV,
    d: CombinatorDecl,
    metav: Map<Seq<char>, Seq<char>>,
    p: Prim,
)
    requires
        tbl_unique(m),
        d.result matches ResultType::Plain(uc, gens) && uc.namespace is None && gens@.len() == 0
            && spec_from_schema(uc.name@) == Some(p),
        d.object_fields@.len() == 0,
        tbl_has(m, d.result->Plain_0.name@) ==> tbl_get(m, d.result->Plain_0.name@)
            == TypeV::Rust(p),
        comb_const_tr(m, d, metav) is Some,
    ensures
        spec_is_rust((comb_const_tr(m, d, metav)->0).0, fci_name(d.object_name)) == Some(p),
{
    let name = fci_name(d.object_name);
    let base = d.result->Plain_0.name@;
    assert(rt_tr(d.result) == Some((base, Seq::<Seq<char>>::empty()))) by {
        assert(d.result->Plain_1@.take(0) =~= Seq::<Subexpr>::empty());
        assert(gens_tr(d.result->Plain_1@) == Some(Seq::<Seq<char>>::empty()));
    }
    let m1 = spec_transform(m, base);
    // After the transform step, `Base` maps to its primitive.
    assert(tbl_unique(m1) && tbl_has(m1, base) && tbl_get(m1, base) == TypeV::Rust(p)) by {
        if !tbl_has(m, base) {
            lemma_tbl_push(m, base, fresh_entry(base));
        }
    }
    let tname = spec_transform_name(m, base);
    assert(args_tr(m1, d.object_fields@) == Some((m1, Seq::<ObjectValueV>::empty()))) by {
        assert(d.object_fields@.len() == 0);
    }
    assert(!tbl_has(m1, name));
    assert(name != base);
    let entry = TypeV::TD {
        meta: Map::empty(),
        inherits_from: Some(base),
        children: Seq::empty(),
        depends_on: Seq::<ObjectValueV>::empty().map_values(|f: ObjectValueV| f.type_id),
    };
    let m3 = m1.push((name, entry));
    lemma_tbl_push(m1, name, entry);
    let m4 = if d.opt_args@.len() == 0 {
        spec_append_child(m3, tname, name, 0)
    } else {
        m3
    };
    assert((comb_const_tr(m, d, metav)->0).0 == m4);
    // The children-append step keeps both links of the chain intact.
    assert(tbl_unique(m4) && tbl_has(m4, name) && tbl_has(m4, base) && (tbl_get(m4, name)
        matches TypeV::TD { inherits_from: inh, .. } && inh == Some(base)) && tbl_get(m4, base)
        == TypeV::Rust(p)) by {
        if d.opt_args@.len() == 0 {
            if tbl_has(m3, tname) {
                match tbl_get(m3, tname) {
                    TypeV::Rust(_) => {},
                    TypeV::TD { meta: me, inherits_from: inh, children: ch, depends_on: de } => {
                        let v2 = TypeV::TD {
                            meta: me,
                            inherits_from: inh,
                            children: ch.push((name, 0)),
                            depends_on: de,
                        };
                        lemma_tbl_update(m3, tname, v2);
                        if tname == base {
                            assert(tbl_get(m3, base) == TypeV::Rust(p));
                        }
                        if tname == name {
                            assert(tbl_get(m3, name) == entry);
                        }
                    },
                }
            } else {
                let v2 = TypeV::TD {
                    meta: Map::empty(),
                    inherits_from: None,
                    children: seq![(name, 0usize)],
                    depends_on: Seq::empty(),
                };
                lemma_tbl_push(m3, tname, v2);
            }
        }
    }
    // Two lookups along the chain decide the resolution.
    assert(m4.len() >= 2) by {
        let i = tbl_idx(m4, name);
        let j = tbl_idx(m4, base);
        assert(0 <= i < m4.len() && m4[i].0 == name);
        assert(0 <= j < m4.len() && m4[j].0 == base);
        assert(i != j);
    }
    assert(chain_resolve(m4, name, m4.len() as nat) == Some(p)) by {
        assert(chain_resolve(m4, base, (m4.len() - 1) as nat) == Some(p));
    }
}

/// As `lemma_primitive_alias_resolves`, for the builtin/base declaration
/// form `name ? = Base;`, which registers the primitive mapping directly.
pub proof fn lemma_builtin_alias_resolves(m: TypesV, d: BuiltinCombinatorDecl, p: Prim)
    requires
        tbl_unique(m),
        spec_from_schema(d.result_type.name@) == Some(p),
        builtin_tr(m, d) is Some,
    ensures
        spec_is_rust(builtin_tr(m, d)->0, fci_name(d.name)) == Some(p),
{
    let n = fci_name(d.name);
    lemma_tbl_push(m, n, TypeV::Rust(p));
    let m2 = m.push((n, TypeV::Rust(p)));
    assert(m2.len() >= 1);
    assert(chain_resolve(m2, n, m2.len() as nat) == Some(p));
}


} // verus!
