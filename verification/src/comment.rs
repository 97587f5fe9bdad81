//! Documentation comments of the TL grammar: `@name text` annotation
//! blocks, their line-continuation form, and the class-description form
//! that attaches metadata to an abstract type.

use vstd::prelude::*;

use crate::Parsed;
use crate::base::is_newline_char;
use crate::base::newline_char;
use crate::base::ident_token;
use crate::base::parse_token;
use crate::base::token_at;
use crate::base::spaces_span;
use crate::base::word_at;
use crate::base::parse_word;
use crate::base::push_char;
use crate::base::skip_spaces;
use crate::compile::Meta;
use crate::compile::StringHashMap;
use crate::compile::Types;
use crate::compile::TypesV;
use crate::compile::meta_view;
use crate::compile::spec_set_meta;
use crate::syntax::TypeIdent;
use crate::syntax::VarIdent;
use crate::syntax::parse_type_ident;
use crate::syntax::type_ident_at;
use crate::syntax::vi_name;
use crate::syntax::parse_var_ident;

verus! {

/// desc ::= @ var-ident text { extended-desc }: one annotation, its free
/// text (up to a line break, an `@` or a `//`), and its continuation
/// lines (each kept with its leading `//`).
pub struct Desc {
    pub field: String,
    pub text: String,
    pub text_extended: Vec<String>,
}

/// desc-comment ::= desc | // desc
pub enum DescComment {
    NonCommented(Desc),
    Commented(Desc),
}

/// A class-description comment: `//@class Name @annotation text ...`,
/// attaching metadata to the named abstract type.
pub struct ClassDesc {
    pub type_ident: String,
    pub meta: Vec<Desc>,
}

/// The character at `i` may stand in the free text of a documentation
/// comment: anything but a line break, an `@`, or the start of a `//`.
pub open spec fn is_comment_char(inp: Seq<char>, i: int) -> bool {
    &&& !is_newline_char(inp[i])
    &&& inp[i] != '@'
    &&& !(inp[i] == '/' && i + 1 < inp.len() && inp[i + 1] == '/')
}

/// The longest run of comment-text characters starting at `pos` ends at
/// `end`.
pub open spec fn comment_text_span(inp: Seq<char>, pos: int, end: int) -> bool {
    &&& 0 <= pos <= end <= inp.len()
    &&& forall|i: int| pos <= i < end ==> is_comment_char(inp, i)
    &&& end < inp.len() ==> !is_comment_char(inp, end)
}

/// Reads the longest run of comment-text characters: anything up to a
/// line break, an `@`, or a `//`.
pub fn parse_comment_text(inp: &Vec<char>, pos: usize) -> (r: Parsed<String>)
    requires
        pos <= inp@.len(),
    ensures
        comment_text_span(inp@, pos as int, r.next as int),
        r.value@ == inp@.subrange(pos as int, r.next as int),
{
    let n = inp.len();
    let mut s = String::new();
    let mut p: usize = pos;
    proof {
        assert(s@ =~= inp@.subrange(pos as int, pos as int));
    }
    loop
        invariant
            n == inp@.len(),
            pos <= p <= n,
            s@ == inp@.subrange(pos as int, p as int),
            forall|i: int| pos <= i < p ==> is_comment_char(inp@, i),
        decreases inp@.len() - p,
    {
        if p < n && !newline_char(inp[p]) && inp[p] != '@' && !(inp[p] == '/' && p + 1 < n
            && inp[p + 1] == '/') {
            push_char(&mut s, inp[p]);
            proof {
                assert(inp@.subrange(pos as int, p + 1) =~= inp@.subrange(pos as int, p as int).push(
                    inp@[p as int],
                ));
            }
            p = p + 1;
        } else {
            return Parsed { value: s, next: p };
        }
    }
}

/// The continuation-line value `v` stands at `pos` and ends at `next`:
/// a `//` mark, whitespace, no annotation marker, then the free text,
/// which the value keeps behind the reattached mark.
pub open spec fn extended_desc_at(inp: Seq<char>, pos: int, v: Seq<char>, next: int) -> bool {
    exists|a: int, b: int|
        word_at(inp, pos, "//"@) && spaces_span(inp, pos + "//"@.len(), a) && (a < inp.len()
            ==> inp[a] != '@') && #[trigger] comment_text_span(inp, a, b) && v == "//"@
            + inp.subrange(a, b) && spaces_span(inp, b, next)
}

/// A continuation line: `//` not followed by an annotation marker, then
/// free text. The value keeps the leading `//`, as the emitted
/// documentation does.
pub fn parse_extended_desc(inp: &Vec<char>, pos: usize) -> (r: Option<Parsed<String>>)
    requires
        pos <= inp@.len(),
    ensures
        r matches Some(p) ==> pos < p.next <= inp@.len() && extended_desc_at(
            inp@,
            pos as int,
            p.value@,
            p.next as int,
        ),
{
    let after_mark = match parse_word(inp, pos, "//") {
        Some(n) => n,
        None => {
            return None;
        },
    };
    proof {
        reveal_strlit("//");
    }
    let at = skip_spaces(inp, after_mark);
    if at < inp.len() && inp[at] == '@' {
        return None;
    }
    let text = parse_comment_text(inp, at);
    let next = skip_spaces(inp, text.next);
    let mut s = String::new();
    s.append("//");
    s.append(text.value.as_str());
    proof {
        assert(s@ =~= "//"@ + inp@.subrange(at as int, text.next as int));
        assert(extended_desc_at(inp@, pos as int, s@, next as int)) by {
            assert(comment_text_span(inp@, at as int, text.next as int));
        }
    }
    Some(Parsed { value: s, next })
}

/// The continuation lines `vs` stand one after another from `pos` to
/// `next`.
pub open spec fn extended_list_at(inp: Seq<char>, pos: int, vs: Seq<String>, next: int) -> bool
    decreases vs.len(),
{
    if vs.len() == 0 {
        next == pos
    } else {
        exists|mid: int|
            #[trigger] extended_desc_at(inp, pos, vs[0]@, mid) && extended_list_at(
                inp,
                mid,
                vs.drop_first(),
                next,
            )
    }
}

/// A run of continuation lines extends by one further line at its end.
proof fn lemma_extended_list_push(
    inp: Seq<char>,
    pos: int,
    vs: Seq<String>,
    mid: int,
    x: String,
    next: int,
)
    requires
        extended_list_at(inp, pos, vs, mid),
        extended_desc_at(inp, mid, x@, next),
    ensures
        extended_list_at(inp, pos, vs.push(x), next),
    decreases vs.len(),
{
    if vs.len() == 0 {
        assert(vs.push(x)[0] == x);
        assert(vs.push(x).drop_first() =~= Seq::<String>::empty());
        assert(extended_list_at(inp, next, vs.push(x).drop_first(), next));
    } else {
        let m1 = choose|m1: int|
            #[trigger] extended_desc_at(inp, pos, vs[0]@, m1) && extended_list_at(
                inp,
                m1,
                vs.drop_first(),
                mid,
            );
        lemma_extended_list_push(inp, m1, vs.drop_first(), mid, x, next);
        assert(vs.push(x).drop_first() =~= vs.drop_first().push(x));
        assert(vs.push(x)[0] == vs[0]);
    }
}

/// The annotation `v` stands at `pos` and ends at `next`: an `@` mark,
/// the annotation name, its free text, and its continuation lines.
pub open spec fn desc_at(inp: Seq<char>, pos: int, v: Desc, next: int) -> bool {
    exists|a: int, b: int, c: int, d: int, e: int|
        token_at(inp, pos, "@"@, a) && #[trigger] ident_token(inp, a, v.field@, b) && spaces_span(
            inp,
            b,
            c,
        ) && #[trigger] comment_text_span(inp, c, d) && v.text@ == inp.subrange(c, d)
            && #[trigger] spaces_span(inp, d, e) && extended_list_at(inp, e, v.text_extended@, next)
}

/// desc ::= @ var-ident text { extended-desc }
pub fn parse_desc(inp: &Vec<char>, pos: usize) -> (r: Option<Parsed<Desc>>)
    requires
        pos <= inp@.len(),
    ensures
        r matches Some(p) ==> pos < p.next <= inp@.len() && desc_at(
            inp@,
            pos as int,
            p.value,
            p.next as int,
        ),
{
    let after_mark = match parse_token(inp, pos, "@") {
        Some(n) => n,
        None => {
            return None;
        },
    };
    proof {
        reveal_strlit("@");
    }
    let field = match parse_var_ident(inp, after_mark) {
        Some(p) => p,
        None => {
            return None;
        },
    };
    let ghost fname = vi_name(field.value);
    let field_name = match field.value {
        VarIdent::LcIdent(s) => s,
        VarIdent::UcIdent(s) => s,
    };
    proof {
        assert(field_name@ == fname);
    }
    let at = skip_spaces(inp, field.next);
    let text = parse_comment_text(inp, at);
    let start = skip_spaces(inp, text.next);
    let mut p: usize = start;
    let mut text_extended: Vec<String> = Vec::new();
    proof {
        assert(extended_list_at(inp@, start as int, text_extended@, p as int));
    }
    loop
        invariant
            pos < p <= inp@.len(),
            start <= p,
            extended_list_at(inp@, start as int, text_extended@, p as int),
        decreases inp@.len() - p,
    {
        match parse_extended_desc(inp, p) {
            Some(e) => {
                proof {
                    lemma_extended_list_push(
                        inp@,
                        start as int,
                        text_extended@,
                        p as int,
                        e.value,
                        e.next as int,
                    );
                    assert(text_extended@.push(e.value) =~= text_extended@.push(e.value));
                }
                text_extended.push(e.value);
                p = e.next;
            },
            None => {
                break;
            },
        }
    }
    let v = Desc { field: field_name, text: text.value, text_extended };
    proof {
        assert(desc_at(inp@, pos as int, v, p as int)) by {
            assert(token_at(inp@, pos as int, "@"@, after_mark as int));
            assert(ident_token(inp@, after_mark as int, v.field@, field.next as int));
            assert(spaces_span(inp@, field.next as int, at as int));
            assert(comment_text_span(inp@, at as int, text.next as int));
            assert(spaces_span(inp@, text.next as int, start as int));
        }
    }
    Some(Parsed { value: v, next: p })
}

/// The desc-comment `v` stands at `pos` and ends at `next`: a bare
/// annotation, or one behind a comment mark.
pub open spec fn desc_comment_at(inp: Seq<char>, pos: int, v: DescComment, next: int) -> bool {
    match v {
        DescComment::NonCommented(d) => desc_at(inp, pos, d, next),
        DescComment::Commented(d) => exists|a: int|
            word_at(inp, pos, "//"@) && #[trigger] spaces_span(inp, pos + "//"@.len(), a)
                && desc_at(inp, a, d, next),
    }
}

/// desc-comment ::= desc | // desc
pub fn parse_desc_comment(inp: &Vec<char>, pos: usize) -> (r: Option<Parsed<DescComment>>)
    requires
        pos <= inp@.len(),
    ensures
        r matches Some(p) ==> pos < p.next <= inp@.len() && desc_comment_at(
            inp@,
            pos as int,
            p.value,
            p.next as int,
        ),
{
    match parse_desc(inp, pos) {
        Some(p) => {
            return Some(Parsed { value: DescComment::NonCommented(p.value), next: p.next });
        },
        None => {},
    }
    let after_mark = match parse_word(inp, pos, "//") {
        Some(n) => n,
        None => {
            return None;
        },
    };
    proof {
        reveal_strlit("//");
    }
    let at = skip_spaces(inp, after_mark);
    match parse_desc(inp, at) {
        Some(p) => {
            proof {
                assert(desc_comment_at(
                    inp@,
                    pos as int,
                    DescComment::Commented(p.value),
                    p.next as int,
                )) by {
                    assert(spaces_span(inp@, pos + "//"@.len(), at as int));
                }
            }
            Some(Parsed { value: DescComment::Commented(p.value), next: p.next })
        },
        None => None,
    }
}

/// The raw text a type identifier was read from: the namespace prefix
/// and its dot where present, or `#` for the hash form.
pub open spec fn spec_type_ident_text(t: TypeIdent) -> Seq<char> {
    match t {
        TypeIdent::BoxedTypeIdent(u) => match u.namespace {
            Some(ns) => ns@ + "."@ + u.name@,
            None => u.name@,
        },
        TypeIdent::LcIdentNs(l) => match l.namespace {
            Some(ns) => ns@ + "."@ + l.ident@,
            None => l.ident@,
        },
        TypeIdent::Hash => "#"@,
    }
}

/// Rebuilds the raw text a type identifier was read from, exactly as
/// `spec_type_ident_text` states.
pub fn type_ident_text(t: &TypeIdent) -> (r: String)
    ensures
        r@ == spec_type_ident_text(*t),
{
    match t {
        TypeIdent::BoxedTypeIdent(u) => {
            let mut s = String::new();
            match &u.namespace {
                Some(ns) => {
                    s.append(ns.as_str());
                    s.append(".");
                },
                None => {},
            }
            s.append(u.name.as_str());
            proof {
                assert(s@ =~= spec_type_ident_text(*t));
            }
            s
        },
        TypeIdent::LcIdentNs(l) => {
            let mut s = String::new();
            match &l.namespace {
                Some(ns) => {
                    s.append(ns.as_str());
                    s.append(".");
                },
                None => {},
            }
            s.append(l.ident.as_str());
            proof {
                assert(s@ =~= spec_type_ident_text(*t));
            }
            s
        },
        TypeIdent::Hash => {
            let mut s = String::new();
            s.append("#");
            proof {
                assert(s@ =~= spec_type_ident_text(*t));
            }
            s
        },
    }
}

/// The annotations `vs` stand one after another from `pos` to `next`.
pub open spec fn desc_list_at(inp: Seq<char>, pos: int, vs: Seq<Desc>, next: int) -> bool
    decreases vs.len(),
{
    if vs.len() == 0 {
        next == pos
    } else {
        exists|mid: int|
            #[trigger] desc_at(inp, pos, vs[0], mid) && desc_list_at(
                inp,
                mid,
                vs.drop_first(),
                next,
            )
    }
}

/// A run of annotations extends by one further annotation at its end.
proof fn lemma_desc_list_push(
    inp: Seq<char>,
    pos: int,
    vs: Seq<Desc>,
    mid: int,
    x: Desc,
    next: int,
)
    requires
        desc_list_at(inp, pos, vs, mid),
        desc_at(inp, mid, x, next),
    ensures
        desc_list_at(inp, pos, vs.push(x), next),
    decreases vs.len(),
{
    if vs.len() == 0 {
        assert(vs.push(x)[0] == x);
        assert(vs.push(x).drop_first() =~= Seq::<Desc>::empty());
        assert(desc_list_at(inp, next, vs.push(x).drop_first(), next));
    } else {
        let m1 = choose|m1: int|
            #[trigger] desc_at(inp, pos, vs[0], m1) && desc_list_at(
                inp,
                m1,
                vs.drop_first(),
                mid,
            );
        lemma_desc_list_push(inp, m1, vs.drop_first(), mid, x, next);
        assert(vs.push(x).drop_first() =~= vs.drop_first().push(x));
        assert(vs.push(x)[0] == vs[0]);
    }
}

/// The class-description block `v` stands at `pos` and ends at `next`:
/// a comment mark, the `@class` marker, the named type (kept as its raw
/// text), and the annotations that refine it.
pub open spec fn class_desc_at(inp: Seq<char>, pos: int, v: ClassDesc, next: int) -> bool {
    exists|a: int, b: int, c: int, d: int, ti: TypeIdent|
        word_at(inp, pos, "//"@) && #[trigger] spaces_span(inp, pos + "//"@.len(), a) && token_at(
            inp,
            a,
            "@"@,
            b,
        ) && word_at(inp, b, "class"@) && #[trigger] spaces_span(inp, b + "class"@.len(), c)
            && #[trigger] type_ident_at(inp, c, ti, d) && v.type_ident@ == spec_type_ident_text(ti)
            && exists|e: int| #[trigger] spaces_span(inp, d, e) && desc_list_at(inp, e, v.meta@, next)
}

/// class-desc ::= // @ class type-ident { desc }
pub fn parse_class_desc(inp: &Vec<char>, pos: usize) -> (r: Option<Parsed<ClassDesc>>)
    requires
        pos <= inp@.len(),
    ensures
        r matches Some(p) ==> pos < p.next <= inp@.len() && class_desc_at(
            inp@,
            pos as int,
            p.value,
            p.next as int,
        ),
{
    let after_mark = match parse_word(inp, pos, "//") {
        Some(n) => n,
        None => {
            return None;
        },
    };
    proof {
        reveal_strlit("//");
    }
    let at = skip_spaces(inp, after_mark);
    let after_field_mark = match parse_token(inp, at, "@") {
        Some(n) => n,
        None => {
            return None;
        },
    };
    let after_class = match parse_word(inp, after_field_mark, "class") {
        Some(n) => n,
        None => {
            return None;
        },
    };
    let at2 = skip_spaces(inp, after_class);
    let ident = match parse_type_ident(inp, at2) {
        Some(p) => p,
        None => {
            return None;
        },
    };
    let name = type_ident_text(&ident.value);
    let start = skip_spaces(inp, ident.next);
    let mut p: usize = start;
    let mut meta: Vec<Desc> = Vec::new();
    proof {
        assert(desc_list_at(inp@, start as int, meta@, p as int));
    }
    loop
        invariant
            pos < p <= inp@.len(),
            start <= p,
            desc_list_at(inp@, start as int, meta@, p as int),
        decreases inp@.len() - p,
    {
        match parse_desc(inp, p) {
            Some(d) => {
                proof {
                    lemma_desc_list_push(
                        inp@,
                        start as int,
                        meta@,
                        p as int,
                        d.value,
                        d.next as int,
                    );
                }
                meta.push(d.value);
                p = d.next;
            },
            None => {
                break;
            },
        }
    }
    let v = ClassDesc { type_ident: name, meta };
    proof {
        assert(class_desc_at(inp@, pos as int, v, p as int)) by {
            assert(spaces_span(inp@, pos + "//"@.len(), at as int));
            assert(token_at(inp@, at as int, "@"@, after_field_mark as int));
            assert(spaces_span(inp@, after_field_mark + "class"@.len(), at2 as int));
            assert(type_ident_at(inp@, at2 as int, ident.value, ident.next as int));
            assert(spaces_span(inp@, ident.next as int, start as int));
        }
    }
    Some(Parsed { value: v, next: p })
}


/// The accumulated text of one annotation: its first line, then its
/// continuation lines joined with line breaks (each keeping its leading
/// comment mark).
pub open spec fn join_nl(es: Seq<String>) -> Seq<char>
    decreases es.len(),
{
    if es.len() == 0 {
        Seq::empty()
    } else if es.len() == 1 {
        es[0]@
    } else {
        join_nl(es.drop_last()) + "\n"@ + es.last()@
    }
}

/// The full recorded text of one annotation.
pub open spec fn desc_text(d: Desc) -> Seq<char> {
    d.text@ + join_nl(d.text_extended@)
}

/// The annotation of a desc-comment, with the comment mark discarded.
pub open spec fn dc_desc(c: DescComment) -> Desc {
    match c {
        DescComment::NonCommented(d) => d,
        DescComment::Commented(d) => d,
    }
}

/// The metadata a list of annotations collapses to: annotation names to
/// accumulated text, a later annotation overwriting an earlier one of the
/// same name.
pub open spec fn meta_of_descs(ds: Seq<Desc>) -> Map<Seq<char>, Seq<char>>
    decreases ds.len(),
{
    if ds.len() == 0 {
        Map::empty()
    } else {
        meta_of_descs(ds.drop_last()).insert(ds.last().field@, desc_text(ds.last()))
    }
}

/// The metadata a documentation block collapses to.
pub open spec fn meta_of_comments(cs: Seq<DescComment>) -> Map<Seq<char>, Seq<char>>
    decreases cs.len(),
{
    if cs.len() == 0 {
        Map::empty()
    } else {
        meta_of_comments(cs.drop_last()).insert(
            dc_desc(cs.last()).field@,
            desc_text(dc_desc(cs.last())),
        )
    }
}

/// The transition of a class-description block: the metadata of the
/// named abstract type is overwritten (or initialized, creating a
/// placeholder entry); children and dependencies of an existing entry are
/// untouched, and a primitive mapping is left alone. It never fails.
pub open spec fn class_tr(m: TypesV, c: ClassDesc) -> TypesV {
    spec_set_meta(m, c.type_ident@, meta_of_descs(c.meta@))
}

/// Builds the recorded text of one annotation, exactly as `desc_text`
/// states.
pub fn desc_text_exec(d: &Desc) -> (r: String)
    ensures
        r@ == desc_text(*d),
{
    let mut t = d.text.clone();
    let n = d.text_extended.len();
    let mut j: usize = 0;
    while j < n
        invariant
            n == d.text_extended@.len(),
            0 <= j <= n,
            t@ == d.text@ + join_nl(d.text_extended@.take(j as int)),
        decreases n - j,
    {
        if j != 0 {
            t.append("\n");
        }
        t.append(d.text_extended[j].as_str());
        proof {
            assert(d.text_extended@.take(j + 1).drop_last() =~= d.text_extended@.take(j as int));
            assert(d.text_extended@.take(j + 1).last() == d.text_extended@[j as int]);
            if j == 0 {
                assert(t@ =~= d.text@ + join_nl(d.text_extended@.take(1)));
            } else {
                assert(t@ =~= d.text@ + join_nl(d.text_extended@.take(j + 1)));
            }
        }
        j = j + 1;
    }
    proof {
        assert(d.text_extended@.take(n as int) =~= d.text_extended@);
        assert(t@ =~= d.text@ + join_nl(d.text_extended@));
    }
    t
}

/// Collapses a list of annotations into metadata, exactly as
/// `meta_of_descs` states.
pub fn descs_to_meta(ds: &Vec<Desc>) -> (r: Meta)
    ensures
        meta_view(r@) == meta_of_descs(ds@),
{
    let mut m: Meta = StringHashMap::new();
    proof {
        assert(meta_view(m@) =~= meta_of_descs(ds@.take(0)));
    }
    let n = ds.len();
    let mut i: usize = 0;
    while i < n
        invariant
            n == ds@.len(),
            0 <= i <= n,
            meta_view(m@) == meta_of_descs(ds@.take(i as int)),
        decreases n - i,
    {
        let field = ds[i].field.clone();
        let text = desc_text_exec(&ds[i]);
        let ghost textv = text@;
        m.insert(field, text);
        proof {
            assert(ds@.take(i + 1).drop_last() =~= ds@.take(i as int));
            assert(ds@.take(i + 1).last() == ds@[i as int]);
            assert(meta_view(m@) =~= meta_of_descs(ds@.take(i as int)).insert(
                ds@[i as int].field@,
                textv,
            ));
        }
        i = i + 1;
    }
    proof {
        assert(ds@.take(n as int) =~= ds@);
    }
    m
}

/// Collapses a documentation block into metadata, exactly as
/// `meta_of_comments` states.
pub fn desc_comments_to_meta(cs: &Vec<DescComment>) -> (r: Meta)
    ensures
        meta_view(r@) == meta_of_comments(cs@),
{
    let mut m: Meta = StringHashMap::new();
    proof {
        assert(meta_view(m@) =~= meta_of_comments(cs@.take(0)));
    }
    let n = cs.len();
    let mut i: usize = 0;
    while i < n
        invariant
            n == cs@.len(),
            0 <= i <= n,
            meta_view(m@) == meta_of_comments(cs@.take(i as int)),
        decreases n - i,
    {
        let d = match &cs[i] {
            DescComment::NonCommented(d) => d,
            DescComment::Commented(d) => d,
        };
        let field = d.field.clone();
        let text = desc_text_exec(d);
        let ghost textv = text@;
        m.insert(field, text);
        proof {
            assert(cs@.take(i + 1).drop_last() =~= cs@.take(i as int));
            assert(cs@.take(i + 1).last() == cs@[i as int]);
            assert(meta_view(m@) =~= meta_of_comments(cs@.take(i as int)).insert(
                dc_desc(cs@[i as int]).field@,
                textv,
            ));
        }
        i = i + 1;
    }
    proof {
        assert(cs@.take(n as int) =~= cs@);
    }
    m
}

/// Compiles a class-description block, exactly as `class_tr` states; it
/// always succeeds.
pub fn class_desc_compile(types: &mut Types, c: ClassDesc) -> (r: Result<(), String>)
    requires
        old(types).wf(),
    ensures
        final(types).wf(),
        r is Ok,
        final(types)@ == class_tr(old(types)@, c),
{
    let meta = descs_to_meta(&c.meta);
    types.set_meta(c.type_ident, meta);
    Ok(())
}


} // verus!
