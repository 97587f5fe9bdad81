//! A compiler for a Type Language (TL) schema: it parses textual
//! constructor declarations into an abstract syntax tree, resolves type
//! identity, inheritance, nullability and recursion across the whole
//! schema, and emits typed record declarations, tagged unions and
//! asynchronous call stubs as one generated text artifact.

use vstd::prelude::*;

pub mod base;
pub mod combinator;
pub mod comment;
pub mod compile;
pub mod partial;
pub mod program;
pub mod render;
pub mod syntax;

use crate::compile::Function;
use crate::compile::FunctionV;
use crate::compile::Object;
use crate::compile::ObjectV;
use crate::compile::Registry;
use crate::program::TlProgram;
use crate::program::parse_tl_program;
use crate::program::program_tr;
use crate::program::tl_program_compile;
use crate::render::render_program;
use crate::render::spec_render_program;

verus! {

/// A successful partial parse: the parsed value and the position of the
/// first unconsumed character.
pub struct Parsed<T> {
    pub value: T,
    pub next: usize,
}

/// Compiles an already parsed program into fresh registries and renders
/// the artifact: it succeeds exactly when every declaration compiles,
/// and then the output is exactly the rendering of the registries the
/// declaration transitions produce.
pub fn compile_program(prog: TlProgram) -> (r: Result<String, String>)
    ensures
        match program_tr(prog) {
            Some(res) => r matches Ok(out) && out@ == spec_render_program(res.0, res.1, res.2),
            None => r is Err,
        },
{
    let ghost progv = prog;
    let mut reg = Registry::new();
    match tl_program_compile(&mut reg, prog) {
        Err(e) => Err(e),
        Ok(()) => {
            let out = render_program(&reg);
            proof {
                let res = program_tr(progv)->0;
                assert(Seq::<Object>::empty().map_values(|o: Object| o@) =~= Seq::<
                    ObjectV,
                >::empty());
                assert(Seq::<Function>::empty().map_values(|f: Function| f@) =~= Seq::<
                    FunctionV,
                >::empty());
                assert(reg.objects@.map_values(|o: Object| o@) =~= res.1);
                assert(reg.functions@.map_values(|f: Function| f@) =~= res.2);
                assert(program_tr(progv) == Some((reg.types@, res.1, res.2)));
                assert(out@ == spec_render_program(reg.types@, res.1, res.2));
            }
            Ok(out)
        },
    }
}

/// The compiler entry point: parses the whole schema text, compiles it
/// declaration by declaration into fresh registries, and renders the
/// generated artifact. Any failure — syntactic or semantic — yields a
/// descriptive error and no output text.
///
/// Every successful output is the rendering of the registries that the
/// declaration transitions produce for the program the parser read; the
/// empty schema always compiles. (The grammar itself has no spec-level
/// statement, so this contract ties the output to a program, not yet to
/// the input text; `compile_program` carries the exact, success-owed
/// half of the pipeline.)
pub fn compile(input: &str) -> (r: Result<String, String>)
    ensures
        r matches Ok(out) ==> exists|prog: TlProgram|
            #[trigger] program_tr(prog) matches Some(res) && out@ == spec_render_program(
                res.0,
                res.1,
                res.2,
            ),
        input@.len() == 0 ==> r is Ok,
{
    let n = input.unicode_len();
    let mut chars: Vec<char> = Vec::new();
    let mut i: usize = 0;
    while i < n
        invariant
            n == input@.len(),
            0 <= i <= n,
            chars@.len() == i,
        decreases n - i,
    {
        chars.push(input.get_char(i));
        i = i + 1;
    }
    match parse_tl_program(&chars) {
        Err(e) => {
            // Report the text matched before the failure and a prefix of
            // the remaining, unmatched buffer.
            let mut msg = String::new();
            msg.append("PARSE ERROR:\nMatched: ");
            msg.append(input.substring_char(0, e.matched));
            msg.append("\nBuffer: ");
            let end: usize = if n - e.matched > 128 {
                e.matched + 128
            } else {
                n
            };
            msg.append(input.substring_char(e.matched, end));
            Err(msg)
        },
        Ok(prog) => {
            let ghost progv = prog;
            proof {
                if input@.len() == 0 {
                    assert(progv.types@.len() == 0 && progv.sections@.len() == 0);
                    assert(program_tr(progv) is Some);
                }
            }
            compile_program(prog)
        },
    }
}

} // verus!
