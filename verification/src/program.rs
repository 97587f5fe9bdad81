//! The top of the TL grammar: declarations, blocks, the alternating
//! `---functions---` / `---types---` sections, and whole programs.

use vstd::prelude::*;

use crate::Parsed;
use crate::base::UcIdentNs;
use crate::base::parse_token;
use crate::base::parse_uc_ident_ns;
use crate::base::parse_word;
use crate::combinator::BuiltinCombinatorDecl;
use crate::combinator::CombinatorDecl;
use crate::combinator::builtin_combinator_compile;
use crate::combinator::builtin_tr;
use crate::combinator::comb_const_tr;
use crate::combinator::comb_func_tr;
use crate::combinator::combinator_compile_const;
use crate::combinator::combinator_compile_func;
use crate::combinator::parse_builtin_combinator_decl;
use crate::combinator::parse_combinator_decl;
use crate::comment::ClassDesc;
use crate::comment::DescComment;
use crate::comment::class_desc_compile;
use crate::comment::class_tr;
use crate::comment::desc_comments_to_meta;
use crate::comment::meta_of_comments;
use crate::comment::parse_class_desc;
use crate::comment::parse_desc_comment;
use crate::compile::Function;
use crate::compile::FunctionV;
use crate::compile::Object;
use crate::compile::ObjectV;
use crate::compile::Registry;
use crate::compile::TypeV;
use crate::compile::TypesV;
use crate::compile::lemma_ofe_refl;
use crate::compile::only_fresh_extension;
use crate::partial::PartialAppDecl;
use crate::partial::parse_partial_app_decl;

verus! {

/// final-decl ::= New boxed-type-ident ; | Final boxed-type-ident ;
///              | Empty boxed-type-ident ;
pub enum FinalDecl {
    NewKw(UcIdentNs),
    FinalKw(UcIdentNs),
    EmptyKw(UcIdentNs),
}

/// declaration ::= combinator-decl | builtin-combinator-decl
///               | partial-app-decl | final-decl
pub enum Declaration {
    Combinator(CombinatorDecl),
    BuiltinCombinator(BuiltinCombinatorDecl),
    PartialAppDecl(PartialAppDecl),
    FinalDecl(FinalDecl),
}

/// desc-decl ::= { desc-comment } declaration
pub struct DeclBlock {
    pub desc: Vec<DescComment>,
    pub decl: Declaration,
}

/// block ::= class-desc | desc-decl
pub enum Block {
    EnumDecl(ClassDesc),
    DescDecl(DeclBlock),
}

/// One tagged section of declarations.
pub enum Declarations {
    Functions(Vec<Block>),
    Types(Vec<Block>),
}

/// TL-program ::= constr-declarations
///                { --- functions --- fun-declarations
///                | --- types --- constr-declarations }
pub struct TlProgram {
    pub types: Vec<Block>,
    pub sections: Vec<Declarations>,
}

/// A failed parse: how many characters matched before the failure. The
/// rest of the input, from this position on, did not match the grammar.
#[derive(Debug)]
pub struct ParseError {
    pub matched: usize,
}

/// final-decl, with the three keywords tried in order.
pub fn parse_final_decl(inp: &Vec<char>, pos: usize) -> (r: Option<Parsed<FinalDecl>>)
    requires
        pos <= inp@.len(),
    ensures
        r matches Some(p) ==> pos < p.next <= inp@.len(),
{
    match parse_token(inp, pos, "New") {
        Some(after_kw) => {
            proof {
                reveal_strlit("New");
            }
            match parse_uc_ident_ns(inp, after_kw) {
                Some(ident) => match parse_token(inp, ident.next, ";") {
                    Some(next) => {
                        return Some(Parsed { value: FinalDecl::NewKw(ident.value), next });
                    },
                    None => {},
                },
                None => {},
            }
        },
        None => {},
    }
    match parse_token(inp, pos, "Final") {
        Some(after_kw) => {
            proof {
                reveal_strlit("Final");
            }
            match parse_uc_ident_ns(inp, after_kw) {
                Some(ident) => match parse_token(inp, ident.next, ";") {
                    Some(next) => {
                        return Some(Parsed { value: FinalDecl::FinalKw(ident.value), next });
                    },
                    None => {},
                },
                None => {},
            }
        },
        None => {},
    }
    match parse_token(inp, pos, "Empty") {
        Some(after_kw) => {
            proof {
                reveal_strlit("Empty");
            }
            match parse_uc_ident_ns(inp, after_kw) {
                Some(ident) => match parse_token(inp, ident.next, ";") {
                    Some(next) => {
                        return Some(Parsed { value: FinalDecl::EmptyKw(ident.value), next });
                    },
                    None => {},
                },
                None => {},
            }
        },
        None => {},
    }
    None
}

/// declaration, with the four forms tried in order.
pub fn parse_declaration(inp: &Vec<char>, pos: usize) -> (r: Option<Parsed<Declaration>>)
    requires
        pos <= inp@.len(),
    ensures
        r matches Some(p) ==> pos < p.next <= inp@.len(),
{
    match parse_combinator_decl(inp, pos) {
        Some(p) => {
            return Some(Parsed { value: Declaration::Combinator(p.value), next: p.next });
        },
        None => {},
    }
    match parse_builtin_combinator_decl(inp, pos) {
        Some(p) => {
            return Some(Parsed { value: Declaration::BuiltinCombinator(p.value), next: p.next });
        },
        None => {},
    }
    match parse_partial_app_decl(inp, pos) {
        Some(p) => {
            return Some(Parsed { value: Declaration::PartialAppDecl(p.value), next: p.next });
        },
        None => {},
    }
    match parse_final_decl(inp, pos) {
        Some(p) => Some(Parsed { value: Declaration::FinalDecl(p.value), next: p.next }),
        None => None,
    }
}

/// desc-decl ::= { desc-comment } declaration
pub fn parse_decl_block(inp: &Vec<char>, pos: usize) -> (r: Option<Parsed<DeclBlock>>)
    requires
        pos <= inp@.len(),
    ensures
        r matches Some(p) ==> pos < p.next <= inp@.len(),
{
    let mut desc: Vec<DescComment> = Vec::new();
    let mut at: usize = pos;
    loop
        invariant
            pos <= at <= inp@.len(),
        decreases inp@.len() - at,
    {
        match parse_desc_comment(inp, at) {
            Some(p) => {
                desc.push(p.value);
                at = p.next;
            },
            None => {
                break;
            },
        }
    }
    match parse_declaration(inp, at) {
        Some(p) => Some(Parsed { value: DeclBlock { desc, decl: p.value }, next: p.next }),
        None => None,
    }
}

/// block ::= class-desc | desc-decl
pub fn parse_block(inp: &Vec<char>, pos: usize) -> (r: Option<Parsed<Block>>)
    requires
        pos <= inp@.len(),
    ensures
        r matches Some(p) ==> pos < p.next <= inp@.len(),
{
    match parse_class_desc(inp, pos) {
        Some(p) => {
            return Some(Parsed { value: Block::EnumDecl(p.value), next: p.next });
        },
        None => {},
    }
    match parse_decl_block(inp, pos) {
        Some(p) => Some(Parsed { value: Block::DescDecl(p.value), next: p.next }),
        None => None,
    }
}

/// Zero or more blocks, read greedily; reading at least one block
/// consumes at least one character.
pub fn parse_blocks(inp: &Vec<char>, pos: usize) -> (r: Parsed<Vec<Block>>)
    requires
        pos <= inp@.len(),
    ensures
        pos <= r.next <= inp@.len(),
        r.value@.len() > 0 ==> pos < r.next,
{
    let mut items: Vec<Block> = Vec::new();
    let mut at: usize = pos;
    loop
        invariant
            pos <= at <= inp@.len(),
            items@.len() > 0 ==> pos < at,
        decreases inp@.len() - at,
    {
        match parse_block(inp, at) {
            Some(p) => {
                items.push(p.value);
                at = p.next;
            },
            None => {
                return Parsed { value: items, next: at };
            },
        }
    }
}

/// One `--- functions ---` or `--- types ---` section. No whitespace may
/// stand between the section word and the closing dashes.
pub fn parse_declarations_section(inp: &Vec<char>, pos: usize) -> (r: Option<Parsed<Declarations>>)
    requires
        pos <= inp@.len(),
    ensures
        r matches Some(p) ==> pos < p.next <= inp@.len(),
{
    let after_dashes = match parse_token(inp, pos, "---") {
        Some(n) => n,
        None => {
            return None;
        },
    };
    proof {
        reveal_strlit("---");
    }
    match parse_word(inp, after_dashes, "functions") {
        Some(after_word) => match parse_token(inp, after_word, "---") {
            Some(after_close) => {
                let blocks = parse_blocks(inp, after_close);
                return Some(
                    Parsed { value: Declarations::Functions(blocks.value), next: blocks.next },
                );
            },
            None => {},
        },
        None => {},
    }
    match parse_word(inp, after_dashes, "types") {
        Some(after_word) => match parse_token(inp, after_word, "---") {
            Some(after_close) => {
                let blocks = parse_blocks(inp, after_close);
                Some(Parsed { value: Declarations::Types(blocks.value), next: blocks.next })
            },
            None => None,
        },
        None => None,
    }
}

/// Parses a whole TL program. The grammar is matched greedily; when the
/// end of the input is not reached, the parse fails as a whole and
/// reports how much matched and where the unmatched rest begins.
pub fn parse_tl_program(inp: &Vec<char>) -> (r: Result<TlProgram, ParseError>)
    ensures
        r matches Err(e) ==> e.matched <= inp@.len(),
        inp@.len() == 0 ==> (r matches Ok(p) && p.types@.len() == 0 && p.sections@.len() == 0),
{
    let types = parse_blocks(inp, 0);
    let mut sections: Vec<Declarations> = Vec::new();
    let mut at: usize = types.next;
    loop
        invariant
            types.next <= at <= inp@.len(),
            types.value@.len() > 0 ==> 0 < types.next,
            sections@.len() > 0 ==> types.next < at,
        decreases inp@.len() - at,
    {
        match parse_declarations_section(inp, at) {
            Some(p) => {
                sections.push(p.value);
                at = p.next;
            },
            None => {
                break;
            },
        }
    }
    if at == inp.len() {
        Ok(TlProgram { types: types.value, sections })
    } else {
        Err(ParseError { matched: at })
    }
}


/// The transition of one block compiled under a types section: a
/// class-description refines the registry, a constructor declaration is
/// compiled as a type (possibly producing a record), a builtin
/// declaration registers a primitive alias, and the remaining
/// declaration forms are hard errors.
pub open spec fn block_const_tr(m: TypesV, b: Block) -> Option<(TypesV, Option<ObjectV>)> {
    match b {
        Block::EnumDecl(c) => Some((class_tr(m, c), None)),
        Block::DescDecl(db) => {
            let metav = meta_of_comments(db.desc@);
            match db.decl {
                Declaration::Combinator(d) => comb_const_tr(m, d, metav),
                Declaration::BuiltinCombinator(d) => match builtin_tr(m, d) {
                    None => None,
                    Some(m2) => Some((m2, None)),
                },
                Declaration::PartialAppDecl(_) => None,
                Declaration::FinalDecl(_) => None,
            }
        },
    }
}

/// The transition of one block compiled under a functions section: only
/// a constructor declaration is accepted, and it is compiled as a
/// function.
pub open spec fn block_func_tr(m: TypesV, b: Block) -> Option<(TypesV, Option<FunctionV>)> {
    match b {
        Block::EnumDecl(_) => None,
        Block::DescDecl(db) => {
            let metav = meta_of_comments(db.desc@);
            match db.decl {
                Declaration::Combinator(d) => match comb_func_tr(m, d, metav) {
                    None => None,
                    Some(r) => Some((r.0, Some(r.1))),
                },
                Declaration::BuiltinCombinator(_) => None,
                Declaration::PartialAppDecl(_) => None,
                Declaration::FinalDecl(_) => None,
            }
        },
    }
}

/// The records an optional record contributes.
pub open spec fn opt_seq<A>(o: Option<A>) -> Seq<A> {
    match o {
        Some(x) => seq![x],
        None => Seq::empty(),
    }
}

/// The transition of a run of blocks under a types section, in document
/// order.
pub open spec fn blocks_const_tr(m: TypesV, bs: Seq<Block>) -> Option<(TypesV, Seq<ObjectV>)>
    decreases bs.len(),
{
    if bs.len() == 0 {
        Some((m, Seq::empty()))
    } else {
        match blocks_const_tr(m, bs.drop_last()) {
            None => None,
            Some(acc) => match block_const_tr(acc.0, bs.last()) {
                None => None,
                Some(r) => Some((r.0, acc.1 + opt_seq(r.1))),
            },
        }
    }
}

/// The transition of a run of blocks under a functions section, in
/// document order.
pub open spec fn blocks_func_tr(m: TypesV, bs: Seq<Block>) -> Option<(TypesV, Seq<FunctionV>)>
    decreases bs.len(),
{
    if bs.len() == 0 {
        Some((m, Seq::empty()))
    } else {
        match blocks_func_tr(m, bs.drop_last()) {
            None => None,
            Some(acc) => match block_func_tr(acc.0, bs.last()) {
                None => None,
                Some(r) => Some((r.0, acc.1 + opt_seq(r.1))),
            },
        }
    }
}

/// The transition of the alternating tagged sections, in document order.
pub open spec fn sections_tr(m: TypesV, secs: Seq<Declarations>) -> Option<
    (TypesV, Seq<ObjectV>, Seq<FunctionV>),
>
    decreases secs.len(),
{
    if secs.len() == 0 {
        Some((m, Seq::empty(), Seq::empty()))
    } else {
        match sections_tr(m, secs.drop_last()) {
            None => None,
            Some(st) => match secs.last() {
                Declarations::Functions(bs) => match blocks_func_tr(st.0, bs@) {
                    None => None,
                    Some(r) => Some((r.0, st.1, st.2 + r.1)),
                },
                Declarations::Types(bs) => match blocks_const_tr(st.0, bs@) {
                    None => None,
                    Some(r) => Some((r.0, st.1 + r.1, st.2)),
                },
            },
        }
    }
}

/// The transition of a whole program over initially empty registries:
/// the leading type declarations, then each tagged section, in document
/// order; later declarations see every entry made by earlier ones.
pub open spec fn program_tr(prog: TlProgram) -> Option<(TypesV, Seq<ObjectV>, Seq<FunctionV>)> {
    match blocks_const_tr(Seq::empty(), prog.types@) {
        None => None,
        Some(r0) => match sections_tr(r0.0, prog.sections@) {
            None => None,
            Some(st) => Some((st.0, r0.1 + st.1, st.2)),
        },
    }
}

/// A later block cannot rescue a failed prefix of a types-section run.
proof fn lemma_blocks_const_extend_none(m: TypesV, bs: Seq<Block>, i: int)
    requires
        0 <= i <= bs.len(),
        blocks_const_tr(m, bs.take(i)) is None,
    ensures
        blocks_const_tr(m, bs) is None,
    decreases bs.len() - i,
{
    if i == bs.len() {
        assert(bs.take(i) =~= bs);
    } else {
        assert(bs.take(i + 1).drop_last() =~= bs.take(i));
        lemma_blocks_const_extend_none(m, bs, i + 1);
    }
}

/// A later block cannot rescue a failed prefix of a functions-section
/// run.
proof fn lemma_blocks_func_extend_none(m: TypesV, bs: Seq<Block>, i: int)
    requires
        0 <= i <= bs.len(),
        blocks_func_tr(m, bs.take(i)) is None,
    ensures
        blocks_func_tr(m, bs) is None,
    decreases bs.len() - i,
{
    if i == bs.len() {
        assert(bs.take(i) =~= bs);
    } else {
        assert(bs.take(i + 1).drop_last() =~= bs.take(i));
        lemma_blocks_func_extend_none(m, bs, i + 1);
    }
}

/// A later section cannot rescue a failed prefix of the section run.
proof fn lemma_sections_extend_none(m: TypesV, secs: Seq<Declarations>, i: int)
    requires
        0 <= i <= secs.len(),
        sections_tr(m, secs.take(i)) is None,
    ensures
        sections_tr(m, secs) is None,
    decreases secs.len() - i,
{
    if i == secs.len() {
        assert(secs.take(i) =~= secs);
    } else {
        assert(secs.take(i + 1).drop_last() =~= secs.take(i));
        lemma_sections_extend_none(m, secs, i + 1);
    }
}

/// Compiles one block under a types section, exactly as `block_const_tr`
/// states.
pub fn compile_constr_declaration(reg: &mut Registry, block: Block) -> (r: Result<(), String>)
    requires
        old(reg).wf(),
    ensures
        final(reg).wf(),
        match block_const_tr(old(reg).types@, block) {
            Some(res) => r is Ok && final(reg).types@ == res.0 && final(reg).functions@ == old(reg).functions@ && final(reg).objects@.map_values(|o: Object| o@) == old(reg).objects@.map_values(|o: Object| o@) + opt_seq(res.1),
            None => r is Err && final(reg).objects@ == old(reg).objects@ && final(reg).functions@
                == old(reg).functions@ && only_fresh_extension(
                old(reg).types@,
                final(reg).types@,
            ),
        },
{
    proof {
        lemma_ofe_refl(old(reg).types@);
    }
    match block {
        Block::EnumDecl(c) => {
            let r = class_desc_compile(&mut reg.types, c);
            proof {
                assert(reg.objects@.map_values(|o: Object| o@) =~= reg.objects@.map_values(
                    |o: Object| o@,
                ) + Seq::<ObjectV>::empty());
            }
            r
        },
        Block::DescDecl(db) => {
            let meta = desc_comments_to_meta(&db.desc);
            match db.decl {
                Declaration::Combinator(d) => combinator_compile_const(reg, d, meta),
                Declaration::BuiltinCombinator(d) => {
                    let r = builtin_combinator_compile(&mut reg.types, d);
                    proof {
                        assert(reg.objects@.map_values(|o: Object| o@) =~= reg.objects@.map_values(
                            |o: Object| o@,
                        ) + Seq::<ObjectV>::empty());
                    }
                    r
                },
                Declaration::PartialAppDecl(_) => Err(
                    String::from_str("Declaration::PartialAppDecl not used in schema for types"),
                ),
                Declaration::FinalDecl(_) => Err(
                    String::from_str("Declaration::FinalDecl not used in schema for types"),
                ),
            }
        },
    }
}

/// Compiles one block under a functions section, exactly as
/// `block_func_tr` states.
pub fn compile_func_declaration(reg: &mut Registry, block: Block) -> (r: Result<(), String>)
    requires
        old(reg).wf(),
    ensures
        final(reg).wf(),
        match block_func_tr(old(reg).types@, block) {
            Some(res) => r is Ok && final(reg).types@ == res.0 && final(reg).objects@ == old(reg).objects@ && final(reg).functions@.map_values(|f: Function| f@) == old(reg).functions@.map_values(|f: Function| f@) + opt_seq(res.1),
            None => r is Err && final(reg).objects@ == old(reg).objects@ && final(reg).functions@
                == old(reg).functions@ && only_fresh_extension(
                old(reg).types@,
                final(reg).types@,
            ),
        },
{
    proof {
        lemma_ofe_refl(old(reg).types@);
    }
    match block {
        Block::EnumDecl(_) => Err(
            String::from_str("Block::EnumDecl not used in schema for functions"),
        ),
        Block::DescDecl(db) => {
            let meta = desc_comments_to_meta(&db.desc);
            match db.decl {
                Declaration::Combinator(d) => {
                    let ghost pre = reg.functions@.map_values(|f: Function| f@);
                    let r = combinator_compile_func(reg, d, meta);
                    proof {
                        if r is Ok {
                            assert(reg.functions@.map_values(|f: Function| f@)
                                =~= pre + opt_seq(
                                Some(reg.functions@.last()@),
                            ));
                        }
                    }
                    r
                },
                Declaration::BuiltinCombinator(_) => Err(
                    String::from_str(
                        "Declaration::BuiltinCombinator not used in schema for functions",
                    ),
                ),
                Declaration::PartialAppDecl(_) => Err(
                    String::from_str(
                        "Declaration::PartialAppDecl not used in schema for functions",
                    ),
                ),
                Declaration::FinalDecl(_) => Err(
                    String::from_str("Declaration::FinalDecl not used in schema for functions"),
                ),
            }
        },
    }
}

/// Compiles a run of blocks under a types section in document order,
/// exactly as `blocks_const_tr` states.
pub fn compile_constr_declaration_block(reg: &mut Registry, declarations: Vec<Block>) -> (r: Result<
    (),
    String,
>)
    requires
        old(reg).wf(),
    ensures
        final(reg).wf(),
        match blocks_const_tr(old(reg).types@, declarations@) {
            Some(res) => r is Ok && final(reg).types@ == res.0 && final(reg).functions@ == old(reg).functions@ && final(reg).objects@.map_values(|o: Object| o@) == old(reg).objects@.map_values(|o: Object| o@) + res.1,
            None => r is Err && final(reg).functions@ == old(reg).functions@,
        },
{
    let ghost all = declarations@;
    let ghost m0 = old(reg).types@;
    let ghost obj0 = old(reg).objects@.map_values(|o: Object| o@);
    let nb = declarations.len();
    let mut blocks = declarations;
    let mut i: usize = 0;
    proof {
        assert(reg.objects@.map_values(|o: Object| o@) =~= obj0 + Seq::<ObjectV>::empty());
    }
    loop
        invariant
            reg.wf(),
            0 <= i <= all.len(),
            all.len() == nb,
            all == declarations@,
            blocks@ =~= all.skip(i as int),
            m0 == old(reg).types@,
            obj0 == old(reg).objects@.map_values(|o: Object| o@),
            reg.functions@ == old(reg).functions@,
            blocks_const_tr(m0, all.take(i as int)) matches Some(acc) && acc.0 == reg.types@
                && reg.objects@.map_values(|o: Object| o@) == obj0 + acc.1,
        decreases all.len() - i,
    {
        if blocks.len() == 0 {
            proof {
                assert(i == all.len());
                assert(all.take(i as int) =~= all);
            }
            return Ok(());
        }
        let blk = blocks.remove(0);
        proof {
            assert(blk == all[i as int]);
            assert(blocks@ =~= all.skip(i + 1));
            assert(all.take(i + 1).drop_last() =~= all.take(i as int));
            assert(all.take(i + 1).last() == all[i as int]);
        }
        let ghost objpre = reg.objects@.map_values(|o: Object| o@);
        match compile_constr_declaration(reg, blk) {
            Ok(()) => {
                proof {
                    let acc = blocks_const_tr(m0, all.take(i as int))->0;
                    let res = block_const_tr(acc.0, blk)->0;
                    assert(reg.objects@.map_values(|o: Object| o@) =~= obj0 + (acc.1 + opt_seq(
                        res.1,
                    )));
                }
                i = i + 1;
            },
            Err(e) => {
                proof {
                    assert(blocks_const_tr(m0, all.take(i + 1)) is None);
                    lemma_blocks_const_extend_none(m0, all, i + 1);
                }
                return Err(e);
            },
        }
    }
}

/// Compiles a run of blocks under a functions section in document order,
/// exactly as `blocks_func_tr` states.
pub fn compile_func_declaration_block(reg: &mut Registry, declarations: Vec<Block>) -> (r: Result<
    (),
    String,
>)
    requires
        old(reg).wf(),
    ensures
        final(reg).wf(),
        match blocks_func_tr(old(reg).types@, declarations@) {
            Some(res) => r is Ok && final(reg).types@ == res.0 && final(reg).objects@ == old(reg).objects@ && final(reg).functions@.map_values(|f: Function| f@) == old(reg).functions@.map_values(|f: Function| f@) + res.1,
            None => r is Err && final(reg).objects@ == old(reg).objects@,
        },
{
    let ghost all = declarations@;
    let ghost m0 = old(reg).types@;
    let ghost fun0 = old(reg).functions@.map_values(|f: Function| f@);
    let nb = declarations.len();
    let mut blocks = declarations;
    let mut i: usize = 0;
    proof {
        assert(reg.functions@.map_values(|f: Function| f@) =~= fun0 + Seq::<FunctionV>::empty());
    }
    loop
        invariant
            reg.wf(),
            0 <= i <= all.len(),
            all.len() == nb,
            all == declarations@,
            blocks@ =~= all.skip(i as int),
            m0 == old(reg).types@,
            fun0 == old(reg).functions@.map_values(|f: Function| f@),
            reg.objects@ == old(reg).objects@,
            blocks_func_tr(m0, all.take(i as int)) matches Some(acc) && acc.0 == reg.types@
                && reg.functions@.map_values(|f: Function| f@) == fun0 + acc.1,
        decreases all.len() - i,
    {
        if blocks.len() == 0 {
            proof {
                assert(i == all.len());
                assert(all.take(i as int) =~= all);
            }
            return Ok(());
        }
        let blk = blocks.remove(0);
        proof {
            assert(blk == all[i as int]);
            assert(blocks@ =~= all.skip(i + 1));
            assert(all.take(i + 1).drop_last() =~= all.take(i as int));
            assert(all.take(i + 1).last() == all[i as int]);
        }
        match compile_func_declaration(reg, blk) {
            Ok(()) => {
                proof {
                    let acc = blocks_func_tr(m0, all.take(i as int))->0;
                    let res = block_func_tr(acc.0, blk)->0;
                    assert(reg.functions@.map_values(|f: Function| f@) =~= fun0 + (acc.1 + opt_seq(
                        res.1,
                    )));
                }
                i = i + 1;
            },
            Err(e) => {
                proof {
                    assert(blocks_func_tr(m0, all.take(i + 1)) is None);
                    lemma_blocks_func_extend_none(m0, all, i + 1);
                }
                return Err(e);
            },
        }
    }
}


/// Compiles a whole program into initially empty registries, section by
/// section in document order, exactly as `program_tr` states.
pub fn tl_program_compile(reg: &mut Registry, prog: TlProgram) -> (r: Result<(), String>)
    requires
        old(reg).wf(),
        old(reg).types@ =~= Seq::<(Seq<char>, TypeV)>::empty(),
    ensures
        final(reg).wf(),
        match program_tr(prog) {
            Some(res) => r is Ok && final(reg).types@ == res.0 && final(reg).objects@.map_values(|o: Object| o@) == old(reg).objects@.map_values(|o: Object| o@)
                + res.1 && final(reg).functions@.map_values(|f: Function| f@) == old(reg).functions@.map_values(|f: Function| f@) + res.2,
            None => r is Err,
        },
{
    let ghost obj0 = old(reg).objects@.map_values(|o: Object| o@);
    let ghost fun0 = old(reg).functions@.map_values(|f: Function| f@);
    let ghost progv = prog;
    let TlProgram { types: type_blocks, sections } = prog;
    match compile_constr_declaration_block(reg, type_blocks) {
        Ok(()) => {},
        Err(e) => {
            return Err(e);
        },
    }
    let ghost r0 = blocks_const_tr(Seq::empty(), progv.types@)->0;
    let ghost all = progv.sections@;
    let ns = sections.len();
    let mut secs = sections;
    let mut i: usize = 0;
    loop
        invariant
            reg.wf(),
            0 <= i <= all.len(),
            all.len() == ns,
            progv == prog,
            secs@ =~= all.skip(i as int),
            obj0 == old(reg).objects@.map_values(|o: Object| o@),
            fun0 == old(reg).functions@.map_values(|f: Function| f@),
            blocks_const_tr(Seq::empty(), progv.types@) == Some(r0),
            program_tr(progv) == (match sections_tr(r0.0, progv.sections@) {
                None => None::<(TypesV, Seq<ObjectV>, Seq<FunctionV>)>,
                Some(st) => Some((st.0, r0.1 + st.1, st.2)),
            }),
            all == progv.sections@,
            sections_tr(r0.0, all.take(i as int)) matches Some(st) && st.0 == reg.types@
                && reg.objects@.map_values(|o: Object| o@) == obj0 + (r0.1 + st.1)
                && reg.functions@.map_values(|f: Function| f@) == fun0 + st.2,
        decreases all.len() - i,
    {
        if secs.len() == 0 {
            proof {
                assert(i == all.len());
                assert(all.take(i as int) =~= all);
            }
            return Ok(());
        }
        let sec = secs.remove(0);
        proof {
            assert(sec == all[i as int]);
            assert(secs@ =~= all.skip(i + 1));
            assert(all.take(i + 1).drop_last() =~= all.take(i as int));
            assert(all.take(i + 1).last() == all[i as int]);
        }
        let ghost stpre = sections_tr(r0.0, all.take(i as int))->0;
        match sec {
            Declarations::Functions(bs) => {
                let ghost bsv = bs@;
                match compile_func_declaration_block(reg, bs) {
                    Ok(()) => {
                        proof {
                            let fr = blocks_func_tr(stpre.0, bsv)->0;
                            assert(reg.functions@.map_values(|f: Function| f@) =~= fun0 + (stpre.2
                                + fr.1));
                        }
                        i = i + 1;
                    },
                    Err(e) => {
                        proof {
                            assert(sections_tr(r0.0, all.take(i + 1)) is None);
                            lemma_sections_extend_none(r0.0, all, i + 1);
                        }
                        return Err(e);
                    },
                }
            },
            Declarations::Types(bs) => {
                let ghost bsv = bs@;
                match compile_constr_declaration_block(reg, bs) {
                    Ok(()) => {
                        proof {
                            let cr = blocks_const_tr(stpre.0, bsv)->0;
                            assert(reg.objects@.map_values(|o: Object| o@) =~= obj0 + (r0.1 + (
                            stpre.1 + cr.1)));
                        }
                        i = i + 1;
                    },
                    Err(e) => {
                        proof {
                            assert(sections_tr(r0.0, all.take(i + 1)) is None);
                            lemma_sections_extend_none(r0.0, all, i + 1);
                        }
                        return Err(e);
                    },
                }
            },
        }
    }
}


} // verus!
