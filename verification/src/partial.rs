//! Partial-application declarations of the TL grammar. They are parsed
//! in full but lie outside the supported schema subset: compiling one is
//! a hard error.

use vstd::prelude::*;

use crate::Parsed;
use crate::base::UcIdentNs;
use crate::base::parse_token;
use crate::base::parse_uc_ident_ns;
use crate::combinator::CombinatorId;
use crate::combinator::parse_combinator_id;
use crate::syntax::Subexpr;
use crate::syntax::parse_expr;
use crate::syntax::parse_subexpr;

verus! {

/// partial-type-app-decl ::= boxed-type-ident subexpr { subexpr } ;
///                        | boxed-type-ident < expr { , expr } > ;
pub enum PartialTypeAppDecl {
    BoxedSubexpr(UcIdentNs, Subexpr, Vec<Subexpr>),
    Boxed(UcIdentNs, Vec<Subexpr>, Vec<Vec<Subexpr>>),
}

/// partial-comb-app-decl ::= combinator-id subexpr { subexpr } ;
pub struct PartialCombAppDecl {
    pub id: CombinatorId,
    pub first: Subexpr,
    pub rest: Vec<Subexpr>,
}

/// partial-app-decl ::= partial-type-app-decl | partial-comb-app-decl
pub enum PartialAppDecl {
    PartialTypeAppDecl(PartialTypeAppDecl),
    PartialCombAppDecl(PartialCombAppDecl),
}

/// partial-type-app-decl, with the subexpression form attempted first.
pub fn parse_partial_type_app_decl(inp: &Vec<char>, pos: usize) -> (r: Option<
    Parsed<PartialTypeAppDecl>,
>)
    requires
        pos <= inp@.len(),
    ensures
        r matches Some(p) ==> pos < p.next <= inp@.len(),
{
    match parse_uc_ident_ns(inp, pos) {
        Some(head) => {
            match parse_subexpr(inp, head.next) {
                Some(first) => {
                    let mut rest: Vec<Subexpr> = Vec::new();
                    let mut at: usize = first.next;
                    loop
                        invariant
                            pos < at <= inp@.len(),
                        decreases inp@.len() - at,
                    {
                        match parse_subexpr(inp, at) {
                            Some(p) => {
                                rest.push(p.value);
                                at = p.next;
                            },
                            None => {
                                break;
                            },
                        }
                    }
                    match parse_token(inp, at, ";") {
                        Some(next) => {
                            return Some(
                                Parsed {
                                    value: PartialTypeAppDecl::BoxedSubexpr(
                                        head.value,
                                        first.value,
                                        rest,
                                    ),
                                    next,
                                },
                            );
                        },
                        None => {},
                    }
                },
                None => {},
            }
        },
        None => {},
    }
    let head = match parse_uc_ident_ns(inp, pos) {
        Some(p) => p,
        None => {
            return None;
        },
    };
    let after_langle = match parse_token(inp, head.next, "<") {
        Some(n) => n,
        None => {
            return None;
        },
    };
    let first = parse_expr(inp, after_langle);
    let mut rest: Vec<Vec<Subexpr>> = Vec::new();
    let mut at: usize = first.next;
    loop
        invariant
            pos < at <= inp@.len(),
        decreases inp@.len() - at,
    {
        match parse_token(inp, at, ",") {
            Some(after_comma) => {
                proof {
                    reveal_strlit(",");
                }
                let e = parse_expr(inp, after_comma);
                rest.push(e.value);
                at = e.next;
            },
            None => {
                break;
            },
        }
    }
    let after_rangle = match parse_token(inp, at, ">") {
        Some(n) => n,
        None => {
            return None;
        },
    };
    match parse_token(inp, after_rangle, ";") {
        Some(next) => Some(
            Parsed { value: PartialTypeAppDecl::Boxed(head.value, first.value, rest), next },
        ),
        None => None,
    }
}

/// partial-comb-app-decl ::= combinator-id subexpr { subexpr } ;
pub fn parse_partial_comb_app_decl(inp: &Vec<char>, pos: usize) -> (r: Option<
    Parsed<PartialCombAppDecl>,
>)
    requires
        pos <= inp@.len(),
    ensures
        r matches Some(p) ==> pos < p.next <= inp@.len(),
{
    let id = match parse_combinator_id(inp, pos) {
        Some(p) => p,
        None => {
            return None;
        },
    };
    let first = match parse_subexpr(inp, id.next) {
        Some(p) => p,
        None => {
            return None;
        },
    };
    let mut rest: Vec<Subexpr> = Vec::new();
    let mut at: usize = first.next;
    loop
        invariant
            pos < at <= inp@.len(),
        decreases inp@.len() - at,
    {
        match parse_subexpr(inp, at) {
            Some(p) => {
                rest.push(p.value);
                at = p.next;
            },
            None => {
                break;
            },
        }
    }
    match parse_token(inp, at, ";") {
        Some(next) => Some(
            Parsed {
                value: PartialCombAppDecl { id: id.value, first: first.value, rest },
                next,
            },
        ),
        None => None,
    }
}

/// partial-app-decl ::= partial-type-app-decl | partial-comb-app-decl
pub fn parse_partial_app_decl(inp: &Vec<char>, pos: usize) -> (r: Option<Parsed<PartialAppDecl>>)
    requires
        pos <= inp@.len(),
    ensures
        r matches Some(p) ==> pos < p.next <= inp@.len(),
{
    match parse_partial_type_app_decl(inp, pos) {
        Some(p) => {
            return Some(
                Parsed { value: PartialAppDecl::PartialTypeAppDecl(p.value), next: p.next },
            );
        },
        None => {},
    }
    match parse_partial_comb_app_decl(inp, pos) {
        Some(p) => Some(Parsed { value: PartialAppDecl::PartialCombAppDecl(p.value), next: p.next }),
        None => None,
    }
}

} // verus!
