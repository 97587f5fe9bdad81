//! Lexical primitives of the TL grammar: character classes, identifiers,
//! punctuation and whitespace skipping.
//!
//! Every token rule consumes a strict textual pattern and then skips the
//! trailing whitespace as part of its own match, so a later rule always
//! starts at a non-space character (or at the end of the input).

use vstd::prelude::*;

use crate::Parsed;

verus! {

broadcast use vstd::seq::group_seq_axioms;

/// lc-letter ::= a | b | ... | z
pub open spec fn is_lc_letter(c: char) -> bool {
    'a' <= c && c <= 'z'
}

/// uc-letter ::= A | B | ... | Z
pub open spec fn is_uc_letter(c: char) -> bool {
    'A' <= c && c <= 'Z'
}

/// digit ::= 0 | 1 | ... | 9
pub open spec fn is_digit_char(c: char) -> bool {
    '0' <= c && c <= '9'
}

/// The letter part of hex-digit ::= digit | a | b | c | d | e | f
pub open spec fn is_hex_letter(c: char) -> bool {
    'a' <= c && c <= 'f'
}

/// letter ::= lc-letter | uc-letter
pub open spec fn is_letter_char(c: char) -> bool {
    is_lc_letter(c) || is_uc_letter(c)
}

/// ident-char ::= letter | digit | underscore
pub open spec fn is_ident_char(c: char) -> bool {
    is_letter_char(c) || is_digit_char(c) || c == '_'
}

/// The whitespace characters skipped after each token.
pub open spec fn is_space_char(c: char) -> bool {
    c == ' ' || c == '\t' || c == '\n' || c == '\r'
}

/// A line break, which ends the free text of a documentation comment.
pub open spec fn is_newline_char(c: char) -> bool {
    c == '\n' || c == '\r'
}

/// A lower-case Latin letter consumed from the input.
pub struct LcLetter {
    pub c: char,
}

impl LcLetter {
    pub open spec fn wf(self) -> bool {
        is_lc_letter(self.c)
    }
}

/// An upper-case Latin letter consumed from the input.
pub struct UcLetter {
    pub c: char,
}

impl UcLetter {
    pub open spec fn wf(self) -> bool {
        is_uc_letter(self.c)
    }
}

/// A decimal digit consumed from the input.
pub struct Digit {
    pub c: char,
}

impl Digit {
    pub open spec fn wf(self) -> bool {
        is_digit_char(self.c)
    }
}

/// hex-digit ::= digit | a | b | c | d | e | f
pub enum HexDigit {
    Digit(Digit),
    HexLetter(char),
}

impl HexDigit {
    pub open spec fn wf(self) -> bool {
        match self {
            HexDigit::Digit(d) => d.wf(),
            HexDigit::HexLetter(c) => is_hex_letter(c),
        }
    }

    /// The character this hex digit was read from.
    pub open spec fn chr(self) -> char {
        match self {
            HexDigit::Digit(d) => d.c,
            HexDigit::HexLetter(c) => c,
        }
    }
}

/// underscore ::= _
pub struct Underscore {}

/// letter ::= lc-letter | uc-letter
pub enum Letter {
    Lc(LcLetter),
    Uc(UcLetter),
}

impl Letter {
    pub open spec fn wf(self) -> bool {
        match self {
            Letter::Lc(l) => l.wf(),
            Letter::Uc(u) => u.wf(),
        }
    }

    pub open spec fn chr(self) -> char {
        match self {
            Letter::Lc(l) => l.c,
            Letter::Uc(u) => u.c,
        }
    }
}

/// ident-char ::= letter | digit | underscore
pub enum IdentChar {
    Letter(Letter),
    Digit(Digit),
    Underscore(Underscore),
}

impl IdentChar {
    pub open spec fn wf(self) -> bool {
        match self {
            IdentChar::Letter(l) => l.wf(),
            IdentChar::Digit(d) => d.wf(),
            IdentChar::Underscore(_) => true,
        }
    }

    pub open spec fn chr(self) -> char {
        match self {
            IdentChar::Letter(l) => l.chr(),
            IdentChar::Digit(d) => d.c,
            IdentChar::Underscore(_) => '_',
        }
    }
}

/// Appends one character to a string under construction.
///
/// Relies on std's `String::push`: it appends the given `char` to the end
/// of the string.
#[verifier::external_body]
pub(crate) fn push_char(s: &mut String, c: char)
    ensures
        final(s)@ == old(s)@.push(c),
{
    s.push(c);
}

pub fn lc_letter_char(c: char) -> (b: bool)
    ensures
        b == is_lc_letter(c),
{
    'a' <= c && c <= 'z'
}

pub fn uc_letter_char(c: char) -> (b: bool)
    ensures
        b == is_uc_letter(c),
{
    'A' <= c && c <= 'Z'
}

pub fn digit_char(c: char) -> (b: bool)
    ensures
        b == is_digit_char(c),
{
    '0' <= c && c <= '9'
}

pub fn hex_letter_char(c: char) -> (b: bool)
    ensures
        b == is_hex_letter(c),
{
    'a' <= c && c <= 'f'
}

pub fn ident_char(c: char) -> (b: bool)
    ensures
        b == is_ident_char(c),
{
    lc_letter_char(c) || uc_letter_char(c) || digit_char(c) || c == '_'
}

pub fn space_char(c: char) -> (b: bool)
    ensures
        b == is_space_char(c),
{
    c == ' ' || c == '\t' || c == '\n' || c == '\r'
}

pub fn newline_char(c: char) -> (b: bool)
    ensures
        b == is_newline_char(c),
{
    c == '\n' || c == '\r'
}

/// Classifies the character at `pos` as a lower-case letter token.
pub fn parse_lc_letter(inp: &Vec<char>, pos: usize) -> (r: Option<Parsed<LcLetter>>)
    requires
        pos <= inp@.len(),
    ensures
        r is Some <==> pos < inp@.len() && is_lc_letter(inp@[pos as int]),
        r matches Some(p) ==> p.value.c == inp@[pos as int] && p.next == pos + 1,
{
    if pos < inp.len() && lc_letter_char(inp[pos]) {
        Some(Parsed { value: LcLetter { c: inp[pos] }, next: pos + 1 })
    } else {
        None
    }
}

/// Classifies the character at `pos` as an upper-case letter token.
pub fn parse_uc_letter(inp: &Vec<char>, pos: usize) -> (r: Option<Parsed<UcLetter>>)
    requires
        pos <= inp@.len(),
    ensures
        r is Some <==> pos < inp@.len() && is_uc_letter(inp@[pos as int]),
        r matches Some(p) ==> p.value.c == inp@[pos as int] && p.next == pos + 1,
{
    if pos < inp.len() && uc_letter_char(inp[pos]) {
        Some(Parsed { value: UcLetter { c: inp[pos] }, next: pos + 1 })
    } else {
        None
    }
}

/// Classifies the character at `pos` as a digit token.
pub fn parse_digit(inp: &Vec<char>, pos: usize) -> (r: Option<Parsed<Digit>>)
    requires
        pos <= inp@.len(),
    ensures
        r is Some <==> pos < inp@.len() && is_digit_char(inp@[pos as int]),
        r matches Some(p) ==> p.value.c == inp@[pos as int] && p.next == pos + 1,
{
    if pos < inp.len() && digit_char(inp[pos]) {
        Some(Parsed { value: Digit { c: inp[pos] }, next: pos + 1 })
    } else {
        None
    }
}

/// hex-digit ::= digit | a | b | c | d | e | f
pub fn parse_hex_digit(inp: &Vec<char>, pos: usize) -> (r: Option<Parsed<HexDigit>>)
    requires
        pos <= inp@.len(),
    ensures
        r is Some <==> pos < inp@.len() && (is_digit_char(inp@[pos as int]) || is_hex_letter(
            inp@[pos as int],
        )),
        r matches Some(p) ==> p.value.chr() == inp@[pos as int] && p.next == pos + 1
            && p.value.wf(),
{
    if pos < inp.len() && digit_char(inp[pos]) {
        Some(Parsed { value: HexDigit::Digit(Digit { c: inp[pos] }), next: pos + 1 })
    } else if pos < inp.len() && hex_letter_char(inp[pos]) {
        Some(Parsed { value: HexDigit::HexLetter(inp[pos]), next: pos + 1 })
    } else {
        None
    }
}

/// Classifies the character at `pos` as an identifier character.
pub fn parse_ident_char(inp: &Vec<char>, pos: usize) -> (r: Option<Parsed<IdentChar>>)
    requires
        pos <= inp@.len(),
    ensures
        r is Some <==> pos < inp@.len() && is_ident_char(inp@[pos as int]),
        r matches Some(p) ==> p.value.chr() == inp@[pos as int] && p.next == pos + 1
            && p.value.wf(),
{
    if pos < inp.len() && lc_letter_char(inp[pos]) {
        Some(
            Parsed {
                value: IdentChar::Letter(Letter::Lc(LcLetter { c: inp[pos] })),
                next: pos + 1,
            },
        )
    } else if pos < inp.len() && uc_letter_char(inp[pos]) {
        Some(
            Parsed {
                value: IdentChar::Letter(Letter::Uc(UcLetter { c: inp[pos] })),
                next: pos + 1,
            },
        )
    } else if pos < inp.len() && digit_char(inp[pos]) {
        Some(Parsed { value: IdentChar::Digit(Digit { c: inp[pos] }), next: pos + 1 })
    } else if pos < inp.len() && inp[pos] == '_' {
        Some(Parsed { value: IdentChar::Underscore(Underscore {}), next: pos + 1 })
    } else {
        None
    }
}

/// All characters in `inp[a..b)` are whitespace and `b` is the first
/// position past `a` that is not (or the end of the input).
pub open spec fn spaces_span(inp: Seq<char>, a: int, b: int) -> bool {
    &&& 0 <= a <= b <= inp.len()
    &&& forall|i: int| a <= i < b ==> is_space_char(#[trigger] inp[i])
    &&& b < inp.len() ==> !is_space_char(inp[b])
}

/// Skips the longest run of whitespace starting at `pos`.
pub fn skip_spaces(inp: &Vec<char>, pos: usize) -> (r: usize)
    requires
        pos <= inp@.len(),
    ensures
        spaces_span(inp@, pos as int, r as int),
{
    let mut p: usize = pos;
    loop
        invariant
            pos <= p <= inp@.len(),
            forall|i: int| pos <= i < p ==> is_space_char(#[trigger] inp@[i]),
        decreases inp@.len() - p,
    {
        if p < inp.len() && space_char(inp[p]) {
            p = p + 1;
        } else {
            return p;
        }
    }
}

/// The literal `w` stands at `pos` in `inp`.
pub open spec fn word_at(inp: Seq<char>, pos: int, w: Seq<char>) -> bool {
    pos + w.len() <= inp.len() && inp.subrange(pos, pos + w.len()) == w
}

/// Matches the exact literal `w` at `pos`, without skipping any
/// surrounding whitespace.
pub fn parse_word(inp: &Vec<char>, pos: usize, w: &str) -> (r: Option<usize>)
    requires
        pos <= inp@.len(),
    ensures
        r is Some <==> word_at(inp@, pos as int, w@),
        r matches Some(n) ==> n == pos + w@.len(),
{
    let wl = w.unicode_len();
    if wl > inp.len() - pos {
        assert(!word_at(inp@, pos as int, w@));
        return None;
    }
    let limit: usize = pos + wl;
    let mut j: usize = 0;
    while j < wl
        invariant
            limit == pos + wl,
            limit <= inp@.len(),
            wl == w@.len(),
            0 <= j <= wl,
            forall|k: int| 0 <= k < j ==> inp@[pos + k] == w@[k],
        decreases wl - j,
    {
        if w.get_char(j) != inp[pos + j] {
            assert(inp@.subrange(pos as int, pos + w@.len())[j as int] != w@[j as int]);
            return None;
        }
        j = j + 1;
    }
    assert(inp@.subrange(pos as int, pos + w@.len()) =~= w@);
    Some(pos + wl)
}

/// The literal `w` stands at `pos` and `next` is where the run of
/// whitespace after it ends.
pub open spec fn token_at(inp: Seq<char>, pos: int, w: Seq<char>, next: int) -> bool {
    word_at(inp, pos, w) && spaces_span(inp, pos + w.len(), next)
}

/// Matches the literal `w` at `pos` and skips the whitespace after it,
/// as every punctuation rule of the grammar does.
pub fn parse_token(inp: &Vec<char>, pos: usize, w: &str) -> (r: Option<usize>)
    requires
        pos <= inp@.len(),
    ensures
        r is Some <==> word_at(inp@, pos as int, w@),
        r matches Some(n) ==> token_at(inp@, pos as int, w@, n as int),
{
    match parse_word(inp, pos, w) {
        Some(n) => Some(skip_spaces(inp, n)),
        None => None,
    }
}

/// Compares two string slices character by character.
pub fn str_eq(a: &str, b: &str) -> (r: bool)
    ensures
        r == (a@ == b@),
{
    let la = a.unicode_len();
    let lb = b.unicode_len();
    if la != lb {
        return false;
    }
    let mut i: usize = 0;
    while i < la
        invariant
            la == a@.len(),
            lb == b@.len(),
            la == lb,
            0 <= i <= la,
            forall|k: int| 0 <= k < i ==> a@[k] == b@[k],
        decreases la - i,
    {
        if a.get_char(i) != b.get_char(i) {
            return false;
        }
        i = i + 1;
    }
    assert(a@ =~= b@);
    true
}

/// Two runs of whitespace from the same start end at the same place.
pub proof fn lemma_spaces_span_unique(inp: Seq<char>, a: int, b1: int, b2: int)
    requires
        spaces_span(inp, a, b1),
        spaces_span(inp, a, b2),
    ensures
        b1 == b2,
{
    if b1 < b2 {
        assert(is_space_char(inp[b1]));
    }
    if b2 < b1 {
        assert(is_space_char(inp[b2]));
    }
}

/// The longest run of identifier characters starting at `pos` ends at `end`.
pub open spec fn ident_span(inp: Seq<char>, pos: int, end: int) -> bool {
    &&& 0 <= pos <= end <= inp.len()
    &&& forall|i: int| pos <= i < end ==> is_ident_char(#[trigger] inp[i])
    &&& end < inp.len() ==> !is_ident_char(inp[end])
}

/// The identifier text `v` stands at `pos`, is maximal, and `next` is the
/// end of the whitespace run after it.
pub open spec fn ident_token(inp: Seq<char>, pos: int, v: Seq<char>, next: int) -> bool {
    &&& v.len() >= 1
    &&& pos + v.len() <= inp.len()
    &&& v == inp.subrange(pos, pos + v.len())
    &&& ident_span(inp, pos, pos + v.len())
    &&& spaces_span(inp, pos + v.len(), next)
}

/// Reads the maximal run of identifier characters after the already
/// accepted first letter, then skips trailing whitespace.
fn finish_ident(inp: &Vec<char>, pos: usize, first: char) -> (r: Parsed<String>)
    requires
        pos < inp@.len(),
        inp@[pos as int] == first,
        is_ident_char(first),
    ensures
        ident_token(inp@, pos as int, r.value@, r.next as int),
        r.value@[0] == first,
{
    let n = inp.len();
    let mut s = String::new();
    push_char(&mut s, first);
    let mut p: usize = pos + 1;
    loop
        invariant
            n == inp@.len(),
            pos < p <= n,
            inp@[pos as int] == first,
            s@ == inp@.subrange(pos as int, p as int),
            s@.len() == p - pos,
            forall|i: int| pos <= i < p ==> is_ident_char(#[trigger] inp@[i]),
        decreases inp@.len() - p,
    {
        if p < n && ident_char(inp[p]) {
            push_char(&mut s, inp[p]);
            assert(inp@.subrange(pos as int, p + 1) =~= inp@.subrange(pos as int, p as int).push(
                inp@[p as int],
            ));
            p = p + 1;
        } else {
            let next = skip_spaces(inp, p);
            assert(s@[0] == inp@.subrange(pos as int, p as int)[0]);
            assert(inp@.subrange(pos as int, p as int)[0] == inp@[pos as int]);
            return Parsed { value: s, next };
        }
    }
}

/// lc-ident ::= lc-letter { ident-char }, with trailing whitespace skipped.
pub fn parse_lc_ident(inp: &Vec<char>, pos: usize) -> (r: Option<Parsed<String>>)
    requires
        pos <= inp@.len(),
    ensures
        r is Some <==> pos < inp@.len() && is_lc_letter(inp@[pos as int]),
        r matches Some(p) ==> ident_token(inp@, pos as int, p.value@, p.next as int)
            && is_lc_letter(p.value@[0]),
{
    if pos < inp.len() && lc_letter_char(inp[pos]) {
        Some(finish_ident(inp, pos, inp[pos]))
    } else {
        None
    }
}

/// uc-ident ::= uc-letter { ident-char }, with trailing whitespace skipped.
pub fn parse_uc_ident(inp: &Vec<char>, pos: usize) -> (r: Option<Parsed<String>>)
    requires
        pos <= inp@.len(),
    ensures
        r is Some <==> pos < inp@.len() && is_uc_letter(inp@[pos as int]),
        r matches Some(p) ==> ident_token(inp@, pos as int, p.value@, p.next as int)
            && is_uc_letter(p.value@[0]),
{
    if pos < inp.len() && uc_letter_char(inp[pos]) {
        Some(finish_ident(inp, pos, inp[pos]))
    } else {
        None
    }
}

/// The digit text `v` stands at `pos`, is maximal, and `next` is the end
/// of the whitespace run after it.
pub open spec fn digits_token(inp: Seq<char>, pos: int, v: Seq<char>, next: int) -> bool {
    &&& v.len() >= 1
    &&& pos + v.len() <= inp.len()
    &&& v == inp.subrange(pos, pos + v.len())
    &&& forall|i: int| pos <= i < pos + v.len() ==> is_digit_char(#[trigger] inp[i])
    &&& pos + v.len() < inp.len() ==> !is_digit_char(inp[pos + v.len()])
    &&& spaces_span(inp, pos + v.len(), next)
}

/// nat-const ::= digit { digit }, with trailing whitespace skipped.
pub fn parse_nat_const(inp: &Vec<char>, pos: usize) -> (r: Option<Parsed<String>>)
    requires
        pos <= inp@.len(),
    ensures
        r is Some <==> pos < inp@.len() && is_digit_char(inp@[pos as int]),
        r matches Some(p) ==> digits_token(inp@, pos as int, p.value@, p.next as int),
{
    if !(pos < inp.len() && digit_char(inp[pos])) {
        return None;
    }
    let n = inp.len();
    let mut s = String::new();
    push_char(&mut s, inp[pos]);
    let mut p: usize = pos + 1;
    loop
        invariant
            n == inp@.len(),
            pos < p <= n,
            s@ == inp@.subrange(pos as int, p as int),
            s@.len() == p - pos,
            forall|i: int| pos <= i < p ==> is_digit_char(#[trigger] inp@[i]),
        decreases inp@.len() - p,
    {
        if p < n && digit_char(inp[p]) {
            push_char(&mut s, inp[p]);
            assert(inp@.subrange(pos as int, p + 1) =~= inp@.subrange(pos as int, p as int).push(
                inp@[p as int],
            ));
            p = p + 1;
        } else {
            let next = skip_spaces(inp, p);
            return Some(Parsed { value: s, next });
        }
    }
}

/// hex-code ::= # hex-digit *8, with whitespace skipped after `#` and
/// after the digits.
pub struct HexCode {
    pub digits: Vec<HexDigit>,
}

impl HexCode {
    pub open spec fn wf(self) -> bool {
        self.digits@.len() == 8 && forall|i: int| 0 <= i < 8 ==> (#[trigger] self.digits@[i]).wf()
    }
}

/// A hex-code stands at `pos`: a `#`, whitespace, then exactly eight hex
/// digit characters starting at `q`.
pub open spec fn hex_code_at(inp: Seq<char>, pos: int) -> bool {
    &&& pos < inp.len()
    &&& inp[pos] == '#'
    &&& exists|q: int|
        #[trigger] spaces_span(inp, pos + 1, q) && q + 8 <= inp.len() && forall|j: int|
            q <= j < q + 8 ==> is_digit_char(#[trigger] inp[j]) || is_hex_letter(inp[j])
}

pub fn parse_hex_code(inp: &Vec<char>, pos: usize) -> (r: Option<Parsed<HexCode>>)
    requires
        pos <= inp@.len(),
    ensures
        r is Some <==> hex_code_at(inp@, pos as int),
        r matches Some(p) ==> pos < p.next <= inp@.len() && p.value.wf(),
{
    if !(pos < inp.len() && inp[pos] == '#') {
        return None;
    }
    let n = inp.len();
    let q = skip_spaces(inp, pos + 1);
    let mut digits: Vec<HexDigit> = Vec::new();
    let mut j: usize = 0;
    while j < 8
        invariant
            n == inp@.len(),
            pos < inp@.len(),
            inp@[pos as int] == '#',
            spaces_span(inp@, pos + 1, q as int),
            q + j <= n,
            0 <= j <= 8,
            digits@.len() == j,
            forall|i: int| 0 <= i < j ==> (#[trigger] digits@[i]).wf(),
            forall|i: int|
                q <= i < q + j ==> is_digit_char(#[trigger] inp@[i]) || is_hex_letter(inp@[i]),
        decreases 8 - j,
    {
        match parse_hex_digit(inp, q + j) {
            Some(d) => {
                digits.push(d.value);
                j = j + 1;
            },
            None => {
                proof {
                    assert forall|q2: int| #[trigger] spaces_span(inp@, pos + 1, q2) implies !(q2
                        + 8 <= inp@.len() && forall|jj: int|
                        q2 <= jj < q2 + 8 ==> is_digit_char(#[trigger] inp@[jj]) || is_hex_letter(
                            inp@[jj],
                        )) by {
                        lemma_spaces_span_unique(inp@, pos + 1, q as int, q2);
                        if q2 + 8 <= inp@.len() {
                            assert(!(is_digit_char(inp@[q + j]) || is_hex_letter(inp@[q + j])));
                        }
                    }
                    assert(!hex_code_at(inp@, pos as int));
                }
                return None;
            },
        }
    }
    let next = skip_spaces(inp, q + 8);
    Some(Parsed { value: HexCode { digits }, next })
}

/// namespace-ident ::= lc-ident; lc-ident-ns ::= [ namespace-ident . ] lc-ident
pub struct LcIdentNs {
    pub namespace: Option<String>,
    pub ident: String,
}

/// The shape of an identifier produced by the lexical rules: non-empty,
/// made of identifier characters, with the stated first-letter class.
pub open spec fn wf_ident(v: Seq<char>) -> bool {
    v.len() >= 1 && forall|i: int| 0 <= i < v.len() ==> is_ident_char(#[trigger] v[i])
}

impl LcIdentNs {
    pub open spec fn wf(self) -> bool {
        &&& wf_ident(self.ident@)
        &&& is_lc_letter(self.ident@[0])
        &&& self.namespace matches Some(ns) ==> wf_ident(ns@) && is_lc_letter(ns@[0])
    }
}

/// uc-ident-ns ::= [ namespace-ident . ] uc-ident
pub struct UcIdentNs {
    pub namespace: Option<String>,
    pub name: String,
}

impl UcIdentNs {
    pub open spec fn wf(self) -> bool {
        &&& wf_ident(self.name@)
        &&& is_uc_letter(self.name@[0])
        &&& self.namespace matches Some(ns) ==> wf_ident(ns@) && is_lc_letter(ns@[0])
    }
}

/// lc-ident-full ::= lc-ident-ns [ # hex-digit *8 ]
pub struct LcIdentFull {
    pub ident: LcIdentNs,
    pub hex_code: Option<HexCode>,
}

impl LcIdentFull {
    pub open spec fn wf(self) -> bool {
        &&& self.ident.wf()
        &&& self.hex_code matches Some(h) ==> h.wf()
    }
}

/// The namespaced lower-case identifier `v` stands at `pos` and ends at
/// `next`: one identifier token, or a namespace token, a dot and an
/// identifier token.
pub open spec fn lc_ident_ns_at(inp: Seq<char>, pos: int, v: LcIdentNs, next: int) -> bool {
    match v.namespace {
        None => ident_token(inp, pos, v.ident@, next),
        Some(ns) => exists|a: int, b: int|
            ident_token(inp, pos, ns@, a) && #[trigger] token_at(inp, a, "."@, b) && ident_token(
                inp,
                b,
                v.ident@,
                next,
            ),
    }
}

/// As `lc_ident_ns_at`, for an upper-case identifier with an optional
/// lower-case namespace.
pub open spec fn uc_ident_ns_at(inp: Seq<char>, pos: int, v: UcIdentNs, next: int) -> bool {
    match v.namespace {
        None => ident_token(inp, pos, v.name@, next),
        Some(ns) => exists|a: int, b: int|
            ident_token(inp, pos, ns@, a) && #[trigger] token_at(inp, a, "."@, b) && ident_token(
                inp,
                b,
                v.name@,
                next,
            ),
    }
}

/// The full combinator identifier `v` stands at `pos` and ends at
/// `next`, its optional hex-code included.
pub open spec fn lc_ident_full_at(inp: Seq<char>, pos: int, v: LcIdentFull, next: int) -> bool {
    match v.hex_code {
        None => lc_ident_ns_at(inp, pos, v.ident, next),
        Some(_) => exists|a: int|
            #[trigger] lc_ident_ns_at(inp, pos, v.ident, a) && hex_code_at(inp, a) && a < next
                <= inp.len(),
    }
}

proof fn lemma_ident_token_wf(inp: Seq<char>, pos: int, v: Seq<char>, next: int)
    requires
        ident_token(inp, pos, v, next),
    ensures
        wf_ident(v),
        v[0] == inp[pos],
{
    assert forall|i: int| 0 <= i < v.len() implies is_ident_char(#[trigger] v[i]) by {
        assert(v[i] == inp.subrange(pos, pos + v.len())[i]);
        assert(inp.subrange(pos, pos + v.len())[i] == inp[pos + i]);
        assert(is_ident_char(inp[pos + i]));
    }
    assert(v[0] == inp.subrange(pos, pos + v.len())[0]);
    assert(inp.subrange(pos, pos + v.len())[0] == inp[pos + 0]);
}

/// lc-ident-ns ::= [ namespace-ident . ] lc-ident
pub fn parse_lc_ident_ns(inp: &Vec<char>, pos: usize) -> (r: Option<Parsed<LcIdentNs>>)
    requires
        pos <= inp@.len(),
    ensures
        r matches Some(p) ==> pos < p.next <= inp@.len() && p.value.wf() && lc_ident_ns_at(
            inp@,
            pos as int,
            p.value,
            p.next as int,
        ),
{
    let first = match parse_lc_ident(inp, pos) {
        Some(p) => p,
        None => {
            return None;
        },
    };
    proof {
        lemma_ident_token_wf(inp@, pos as int, first.value@, first.next as int);
    }
    match parse_token(inp, first.next, ".") {
        Some(after_dot) => {
            // A namespace prefix was committed to: the rule fails outright
            // if no identifier follows the dot.
            let second = match parse_lc_ident(inp, after_dot) {
                Some(p) => p,
                None => {
                    return None;
                },
            };
            proof {
                lemma_ident_token_wf(inp@, after_dot as int, second.value@, second.next as int);
            }
            proof {
                let v = LcIdentNs { namespace: Some(first.value), ident: second.value };
                assert(lc_ident_ns_at(inp@, pos as int, v, second.next as int)) by {
                    assert(ident_token(inp@, pos as int, first.value@, first.next as int));
                    assert(token_at(inp@, first.next as int, "."@, after_dot as int));
                    assert(ident_token(inp@, after_dot as int, second.value@, second.next as int));
                }
            }
            Some(
                Parsed {
                    value: LcIdentNs { namespace: Some(first.value), ident: second.value },
                    next: second.next,
                },
            )
        },
        None => Some(
            Parsed { value: LcIdentNs { namespace: None, ident: first.value }, next: first.next },
        ),
    }
}

/// uc-ident-ns ::= [ namespace-ident . ] uc-ident
pub fn parse_uc_ident_ns(inp: &Vec<char>, pos: usize) -> (r: Option<Parsed<UcIdentNs>>)
    requires
        pos <= inp@.len(),
    ensures
        r matches Some(p) ==> pos < p.next <= inp@.len() && p.value.wf() && uc_ident_ns_at(
            inp@,
            pos as int,
            p.value,
            p.next as int,
        ),
{
    match parse_lc_ident(inp, pos) {
        Some(ns) => {
            proof {
                lemma_ident_token_wf(inp@, pos as int, ns.value@, ns.next as int);
            }
            match parse_token(inp, ns.next, ".") {
                Some(after_dot) => {
                    let name = match parse_uc_ident(inp, after_dot) {
                        Some(p) => p,
                        None => {
                            return None;
                        },
                    };
                    proof {
                        lemma_ident_token_wf(inp@, after_dot as int, name.value@, name.next as int);
                    }
                    proof {
                        let v = UcIdentNs { namespace: Some(ns.value), name: name.value };
                        assert(uc_ident_ns_at(inp@, pos as int, v, name.next as int)) by {
                            assert(ident_token(inp@, pos as int, ns.value@, ns.next as int));
                            assert(token_at(inp@, ns.next as int, "."@, after_dot as int));
                            assert(ident_token(inp@, after_dot as int, name.value@, name.next as int));
                        }
                    }
                    Some(
                        Parsed {
                            value: UcIdentNs { namespace: Some(ns.value), name: name.value },
                            next: name.next,
                        },
                    )
                },
                None => None,
            }
        },
        None => {
            let name = match parse_uc_ident(inp, pos) {
                Some(p) => p,
                None => {
                    return None;
                },
            };
            proof {
                lemma_ident_token_wf(inp@, pos as int, name.value@, name.next as int);
            }
            Some(
                Parsed {
                    value: UcIdentNs { namespace: None, name: name.value },
                    next: name.next,
                },
            )
        },
    }
}

/// lc-ident-full ::= lc-ident-ns [ hex-code ]
pub fn parse_lc_ident_full(inp: &Vec<char>, pos: usize) -> (r: Option<Parsed<LcIdentFull>>)
    requires
        pos <= inp@.len(),
    ensures
        r matches Some(p) ==> pos < p.next <= inp@.len() && p.value.wf() && lc_ident_full_at(
            inp@,
            pos as int,
            p.value,
            p.next as int,
        ),
{
    let first = match parse_lc_ident_ns(inp, pos) {
        Some(p) => p,
        None => {
            return None;
        },
    };
    match parse_hex_code(inp, first.next) {
        Some(h) => {
            proof {
                let v = LcIdentFull { ident: first.value, hex_code: Some(h.value) };
                assert(lc_ident_full_at(inp@, pos as int, v, h.next as int)) by {
                    assert(lc_ident_ns_at(inp@, pos as int, first.value, first.next as int));
                    assert(hex_code_at(inp@, first.next as int));
                }
            }
            Some(
                Parsed {
                    value: LcIdentFull { ident: first.value, hex_code: Some(h.value) },
                    next: h.next,
                },
            )
        },
        None => Some(
            Parsed {
                value: LcIdentFull { ident: first.value, hex_code: None },
                next: first.next,
            },
        ),
    }
}

/// The needle `n` occurs contiguously somewhere in `h`.
pub open spec fn spec_has_substring(h: Seq<char>, n: Seq<char>) -> bool {
    exists|i: int| 0 <= i && i + n.len() <= h.len() && #[trigger] h.subrange(i, i + n.len()) == n
}

/// Substring search, used by the nullability heuristic on documentation
/// text.
pub fn has_substring(h: &str, n: &str) -> (r: bool)
    ensures
        r == spec_has_substring(h@, n@),
{
    let hl = h.unicode_len();
    let nl = n.unicode_len();
    if nl > hl {
        return false;
    }
    if nl == 0 {
        assert(h@.subrange(0, 0 + n@.len() as int) =~= n@);
        assert(spec_has_substring(h@, n@));
        return true;
    }
    let mut i: usize = 0;
    while i <= hl - nl
        invariant
            hl == h@.len(),
            nl == n@.len(),
            1 <= nl <= hl,
            0 <= i <= hl - nl + 1,
            forall|x: int|
                0 <= x < i ==> #[trigger] h@.subrange(x, x + n@.len()) != n@,
        decreases hl - nl + 1 - i,
    {
        let mut j: usize = 0;
        let mut all: bool = true;
        while j < nl
            invariant
                hl == h@.len(),
                nl == n@.len(),
                nl <= hl,
                0 <= i <= hl - nl,
                0 <= j <= nl,
                all ==> forall|k: int| 0 <= k < j ==> h@[i + k] == n@[k],
                !all ==> h@.subrange(i as int, i + n@.len()) != n@,
            decreases nl - j,
        {
            if h.get_char(i + j) != n.get_char(j) {
                assert(h@.subrange(i as int, i + n@.len())[j as int] != n@[j as int]);
                all = false;
                j = nl;
            } else {
                j = j + 1;
            }
        }
        if all {
            assert(h@.subrange(i as int, i + n@.len()) =~= n@);
            return true;
        }
        i = i + 1;
    }
    assert forall|x: int| !(0 <= x && x + n@.len() <= h@.len() && #[trigger] h@.subrange(
        x,
        x + n@.len(),
    ) == n@) by {
        if 0 <= x && x + n@.len() <= h@.len() {
            assert(x < i);
        }
    }
    false
}

} // verus!
