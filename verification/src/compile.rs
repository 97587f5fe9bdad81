//! The shared resolution tables of the semantic compiler: the type
//! registry, the record store and the function store, together with the
//! primitive-alias resolution that walks `inherits_from` chains.
//!
//! The registries are passed through every compile step as one explicit
//! mutable context; each key is registered exactly once and a second
//! registration of the same name is a hard error.

use vstd::prelude::*;

use crate::base::is_uc_letter;
use crate::base::str_eq;
use crate::base::uc_letter_char;

verus! {

broadcast use vstd::seq::group_seq_axioms;

/// The fixed set of host primitives a schema name can resolve to.
#[derive(Clone, Copy, Debug, PartialEq, Eq, Structural)]
pub enum Prim {
    Double,
    Str,
    Int32,
    Int64,
    Vector,
    Bool,
}

/// The host-language name a primitive is rendered as.
pub open spec fn spec_rust_name(p: Prim) -> Seq<char> {
    match p {
        Prim::Double => "::std::primitive::f64"@,
        Prim::Str => "::std::string::String"@,
        Prim::Int32 => "::std::primitive::i32"@,
        Prim::Int64 => "::std::primitive::i64"@,
        Prim::Vector => "::std::vec::Vec"@,
        Prim::Bool => "::std::primitive::bool"@,
    }
}

pub fn rust_name(p: Prim) -> (r: &'static str)
    ensures
        r@ == spec_rust_name(p),
{
    match p {
        Prim::Double => "::std::primitive::f64",
        Prim::Str => "::std::string::String",
        Prim::Int32 => "::std::primitive::i32",
        Prim::Int64 => "::std::primitive::i64",
        Prim::Vector => "::std::vec::Vec",
        Prim::Bool => "::std::primitive::bool",
    }
}

/// Maps a schema name onto a host primitive, if it is one of the fixed
/// primitive names (in either its schema or its host spelling).
pub open spec fn spec_from_schema(name: Seq<char>) -> Option<Prim> {
    if name == "::std::primitive::f64"@ || name == "f64"@ || name == "Double"@ {
        Some(Prim::Double)
    } else if name == "::std::string::String"@ || name == "bytes"@ || name == "String"@ || name
        == "Bytes"@ {
        Some(Prim::Str)
    } else if name == "::std::primitive::i32"@ || name == "i32"@ || name == "Int32"@ {
        Some(Prim::Int32)
    } else if name == "::std::primitive::i64"@ || name == "i64"@ || name == "Int53"@ || name
        == "Int64"@ {
        Some(Prim::Int64)
    } else if name == "::std::vec::Vec"@ || name == "Vector"@ {
        Some(Prim::Vector)
    } else if name == "::std::primitive::bool"@ || name == "bool"@ || name == "Bool"@ {
        Some(Prim::Bool)
    } else {
        None
    }
}

/// Annotation metadata attached to a declaration: annotation name to
/// accumulated text.
pub type Meta = StringHashMap<String>;

pub use vstd::hash_map::StringHashMap;

/// The mathematical value of a `Meta`: annotation names to text.
pub open spec fn meta_view(m: Map<Seq<char>, String>) -> Map<Seq<char>, Seq<char>> {
    m.map_values(|v: String| v@)
}

/// Types that exist in the schema.
pub enum Type {
    /// A name that maps directly onto a host primitive.
    Rust(Prim),
    /// A compound schema type.
    TD {
        /// Annotation metadata of the type.
        meta: Meta,
        /// The single parent, when this type was declared as producing
        /// values of another type.
        inherits_from: Option<String>,
        /// The constructors registered under this type, with their field
        /// counts.
        children: Vec<(String, usize)>,
        /// The field types a concrete constructor itself requires.
        depends_on: Vec<String>,
    },
}

/// The mathematical value of a `Type`.
pub enum TypeV {
    Rust(Prim),
    TD {
        meta: Map<Seq<char>, Seq<char>>,
        inherits_from: Option<Seq<char>>,
        children: Seq<(Seq<char>, usize)>,
        depends_on: Seq<Seq<char>>,
    },
}

impl View for Type {
    type V = TypeV;

    open spec fn view(&self) -> TypeV {
        match self {
            Type::Rust(p) => TypeV::Rust(*p),
            Type::TD { meta, inherits_from, children, depends_on } => TypeV::TD {
                meta: meta_view(meta@),
                inherits_from: match inherits_from {
                    Some(s) => Some(s@),
                    None => None,
                },
                children: children@.map_values(|p: (String, usize)| (p.0@, p.1)),
                depends_on: depends_on@.map_values(|s: String| s@),
            },
        }
    }
}

/// The mathematical value of the type registry: name/type pairs in
/// insertion order, with pairwise distinct names.
pub type TypesV = Seq<(Seq<char>, TypeV)>;

pub open spec fn tbl_has(m: TypesV, k: Seq<char>) -> bool {
    exists|i: int| 0 <= i < m.len() && (#[trigger] m[i]).0 == k
}

pub open spec fn tbl_idx(m: TypesV, k: Seq<char>) -> int {
    choose|i: int| 0 <= i < m.len() && (#[trigger] m[i]).0 == k
}

pub open spec fn tbl_get(m: TypesV, k: Seq<char>) -> TypeV {
    m[tbl_idx(m, k)].1
}

/// Every key occurs at most once.
pub open spec fn tbl_unique(m: TypesV) -> bool {
    forall|i: int, j: int| 0 <= i < j < m.len() ==> (#[trigger] m[i]).0 != (#[trigger] m[j]).0
}

/// Appending a fresh key keeps the table unique and leaves every other
/// key's entry unchanged.
pub proof fn lemma_tbl_push(m: TypesV, k: Seq<char>, v: TypeV)
    requires
        !tbl_has(m, k),
        tbl_unique(m),
    ensures
        tbl_unique(m.push((k, v))),
        tbl_has(m.push((k, v)), k),
        tbl_get(m.push((k, v)), k) == v,
        forall|k2: Seq<char>|
            k2 != k ==> (tbl_has(m.push((k, v)), k2) == #[trigger] tbl_has(m, k2)),
        forall|k2: Seq<char>|
            k2 != k && tbl_has(m, k2) ==> #[trigger] tbl_get(m.push((k, v)), k2) == tbl_get(m, k2),
{
    let m2 = m.push((k, v));
    assert(m2[m.len() as int].0 == k);
    assert forall|i: int, j: int| 0 <= i < j < m2.len() implies (#[trigger] m2[i]).0 != (
    #[trigger] m2[j]).0 by {
        if j < m.len() {
            assert(m2[i] == m[i] && m2[j] == m[j]);
        } else {
            assert(m2[j].0 == k);
            assert(m2[i] == m[i]);
            assert(m[i].0 != k) by {
                if m[i].0 == k {
                    assert(tbl_has(m, k));
                }
            }
        }
    }
    assert(tbl_get(m2, k) == v) by {
        let i = tbl_idx(m2, k);
        assert(0 <= i < m2.len() && m2[i].0 == k);
        if i < m.len() {
            assert(m[i].0 == k);
            assert(tbl_has(m, k));
        }
        assert(i == m.len());
    }
    assert forall|k2: Seq<char>| k2 != k implies (tbl_has(m2, k2) == #[trigger] tbl_has(
        m,
        k2,
    )) by {
        if tbl_has(m2, k2) {
            let i = choose|i: int| 0 <= i < m2.len() && (#[trigger] m2[i]).0 == k2;
            assert(i < m.len());
            assert(m[i].0 == k2);
        }
        if tbl_has(m, k2) {
            let i = choose|i: int| 0 <= i < m.len() && (#[trigger] m[i]).0 == k2;
            assert(m2[i].0 == k2);
        }
    }
    assert forall|k2: Seq<char>| k2 != k && tbl_has(m, k2) implies #[trigger] tbl_get(m2, k2)
        == tbl_get(m, k2) by {
        let i = tbl_idx(m2, k2);
        assert(0 <= i < m2.len() && m2[i].0 == k2);
        assert(i < m.len());
        let j = tbl_idx(m, k2);
        assert(0 <= j < m.len() && m[j].0 == k2);
        assert(m2[i] == m[i]);
        if i != j {
            assert(m[i].0 != m[j].0);
        }
    }
}

/// Replacing the entry at a key's index keeps the table unique and leaves
/// every other key's entry unchanged.
pub proof fn lemma_tbl_update(m: TypesV, k: Seq<char>, v: TypeV)
    requires
        tbl_has(m, k),
        tbl_unique(m),
    ensures
        tbl_unique(m.update(tbl_idx(m, k), (k, v))),
        tbl_has(m.update(tbl_idx(m, k), (k, v)), k),
        tbl_get(m.update(tbl_idx(m, k), (k, v)), k) == v,
        forall|k2: Seq<char>|
            tbl_has(m.update(tbl_idx(m, k), (k, v)), k2) == #[trigger] tbl_has(m, k2),
        forall|k2: Seq<char>|
            k2 != k && tbl_has(m, k2) ==> #[trigger] tbl_get(m.update(tbl_idx(m, k), (k, v)), k2)
                == tbl_get(m, k2),
{
    let i0 = tbl_idx(m, k);
    assert(0 <= i0 < m.len() && m[i0].0 == k);
    let m2 = m.update(i0, (k, v));
    assert forall|i: int, j: int| 0 <= i < j < m2.len() implies (#[trigger] m2[i]).0 != (
    #[trigger] m2[j]).0 by {
        assert(m2[i].0 == m[i].0 && m2[j].0 == m[j].0);
    }
    assert(m2[i0].0 == k);
    assert(tbl_get(m2, k) == v) by {
        let i = tbl_idx(m2, k);
        assert(0 <= i < m2.len() && m2[i].0 == k);
        if i != i0 {
            assert(m[i].0 == m2[i].0);
            assert(m[i].0 != m[i0].0);
        }
    }
    assert forall|k2: Seq<char>| tbl_has(m2, k2) == #[trigger] tbl_has(m, k2) by {
        if tbl_has(m2, k2) {
            let i = choose|i: int| 0 <= i < m2.len() && (#[trigger] m2[i]).0 == k2;
            assert(m[i].0 == m2[i].0);
        }
        if tbl_has(m, k2) {
            let i = choose|i: int| 0 <= i < m.len() && (#[trigger] m[i]).0 == k2;
            assert(m2[i].0 == m[i].0);
        }
    }
    assert forall|k2: Seq<char>| k2 != k && tbl_has(m, k2) implies #[trigger] tbl_get(m2, k2)
        == tbl_get(m, k2) by {
        let i = tbl_idx(m2, k2);
        assert(0 <= i < m2.len() && m2[i].0 == k2);
        assert(i != i0);
        assert(m2[i] == m[i]);
        let j = tbl_idx(m, k2);
        assert(0 <= j < m.len() && m[j].0 == k2);
        if i != j {
            assert(m[i].0 != m[j].0);
        }
    }
}

/// Dictionary of the types that exist, keyed by schema identifier, in
/// insertion order.
pub struct Types {
    entries: Vec<(String, Type)>,
}

impl View for Types {
    type V = TypesV;

    closed spec fn view(&self) -> TypesV {
        self.entries@.map_values(|p: (String, Type)| (p.0@, p.1@))
    }
}

impl Types {
    /// Keys are pairwise distinct.
    pub open spec fn wf(self) -> bool {
        tbl_unique(self@)
    }

    pub fn new() -> (r: Types)
        ensures
            r@ =~= Seq::<(Seq<char>, TypeV)>::empty(),
            r.wf(),
    {
        let r = Types { entries: Vec::new() };
        proof {
            assert(r@ =~= Seq::<(Seq<char>, TypeV)>::empty());
        }
        r
    }

    pub fn len(&self) -> (n: usize)
        ensures
            n == self@.len(),
    {
        self.entries.len()
    }

    /// The entry at position `i` in insertion order.
    pub fn entry_at(&self, i: usize) -> (r: &(String, Type))
        requires
            i < self@.len(),
        ensures
            r.0@ == self@[i as int].0,
            r.1@ == self@[i as int].1,
    {
        &self.entries[i]
    }

    fn index_of(&self, k: &str) -> (r: Option<usize>)
        ensures
            r matches Some(i) ==> i < self@.len() && self@[i as int].0 == k@,
            r is None ==> !tbl_has(self@, k@),
    {
        let n = self.entries.len();
        let mut i: usize = 0;
        while i < n
            invariant
                n == self@.len(),
                n == self.entries@.len(),
                0 <= i <= n,
                forall|j: int| 0 <= j < i ==> (#[trigger] self@[j]).0 != k@,
            decreases n - i,
        {
            if str_eq(self.entries[i].0.as_str(), k) {
                assert(self@[i as int].0 == k@);
                return Some(i);
            }
            assert(self@[i as int].0 == self.entries@[i as int].0@);
            i = i + 1;
        }
        None
    }

    pub fn contains_key(&self, k: &str) -> (r: bool)
        requires
            self.wf(),
        ensures
            r == tbl_has(self@, k@),
    {
        match self.index_of(k) {
            Some(_) => true,
            None => false,
        }
    }

    pub fn get(&self, k: &str) -> (r: Option<&Type>)
        requires
            self.wf(),
        ensures
            r matches Some(t) ==> tbl_has(self@, k@) && t@ == tbl_get(self@, k@),
            r is None <==> !tbl_has(self@, k@),
    {
        match self.index_of(k) {
            Some(i) => {
                proof {
                    lemma_tbl_witness(self@, k@, i as int);
                }
                Some(&self.entries[i].1)
            },
            None => None,
        }
    }
}

/// A compound entry with no metadata, no parent, no children and no
/// dependencies: the placeholder registered for a name seen only in a
/// reference.
pub open spec fn empty_td() -> TypeV {
    TypeV::TD {
        meta: Map::empty(),
        inherits_from: None,
        children: Seq::empty(),
        depends_on: Seq::empty(),
    }
}

/// The entry registered for a name not yet present: a primitive mapping
/// when the name is a primitive name, a bare placeholder otherwise.
pub open spec fn fresh_entry(k: Seq<char>) -> TypeV {
    match spec_from_schema(k) {
        Some(p) => TypeV::Rust(p),
        None => empty_td(),
    }
}

/// The registry after `transform_type` of `k`: unchanged if `k` is
/// present, else extended with the fresh entry for `k`.
pub open spec fn spec_transform(m: TypesV, k: Seq<char>) -> TypesV {
    if tbl_has(m, k) {
        m
    } else {
        m.push((k, fresh_entry(k)))
    }
}

/// Walks the `inherits_from` chain upward from `k` until it reaches a
/// primitive mapping (the result), a dead end (no result), or runs out of
/// fuel (no result; with fuel at least the table size every acyclic chain
/// is walked to its end).
pub open spec fn chain_resolve(m: TypesV, k: Seq<char>, fuel: nat) -> Option<Prim>
    decreases fuel,
{
    if !tbl_has(m, k) {
        None
    } else {
        match tbl_get(m, k) {
            TypeV::Rust(p) => Some(p),
            TypeV::TD { inherits_from, .. } => match inherits_from {
                None => None,
                Some(parent) => if fuel == 0 {
                    None
                } else {
                    chain_resolve(m, parent, (fuel - 1) as nat)
                },
            },
        }
    }
}

/// The primitive `k` resolves to through the alias chain, if any.
pub open spec fn spec_is_rust(m: TypesV, k: Seq<char>) -> Option<Prim> {
    chain_resolve(m, k, m.len() as nat)
}

/// What `transform_type` returns: the host primitive name when the chain
/// of `k` (after registering it) ends at a primitive, else `k` unchanged.
pub open spec fn spec_transform_name(m: TypesV, k: Seq<char>) -> Seq<char> {
    match spec_is_rust(spec_transform(m, k), k) {
        Some(p) => spec_rust_name(p),
        None => k,
    }
}

impl Type {
    /// Creates a new [`Type::Rust`] if the provided schema name maps to a
    /// host primitive.
    pub fn from_schema_type(schema_type: &str) -> (r: Option<Type>)
        ensures
            match r {
                Some(t) => spec_from_schema(schema_type@) matches Some(p) && t@ == TypeV::Rust(p),
                None => spec_from_schema(schema_type@) is None,
            },
    {
        if str_eq(schema_type, "::std::primitive::f64") || str_eq(schema_type, "f64") || str_eq(
            schema_type,
            "Double",
        ) {
            Some(Type::Rust(Prim::Double))
        } else if str_eq(schema_type, "::std::string::String") || str_eq(schema_type, "bytes")
            || str_eq(schema_type, "String") || str_eq(schema_type, "Bytes") {
            Some(Type::Rust(Prim::Str))
        } else if str_eq(schema_type, "::std::primitive::i32") || str_eq(schema_type, "i32")
            || str_eq(schema_type, "Int32") {
            Some(Type::Rust(Prim::Int32))
        } else if str_eq(schema_type, "::std::primitive::i64") || str_eq(schema_type, "i64")
            || str_eq(schema_type, "Int53") || str_eq(schema_type, "Int64") {
            Some(Type::Rust(Prim::Int64))
        } else if str_eq(schema_type, "::std::vec::Vec") || str_eq(schema_type, "Vector") {
            Some(Type::Rust(Prim::Vector))
        } else if str_eq(schema_type, "::std::primitive::bool") || str_eq(schema_type, "bool")
            || str_eq(schema_type, "Bool") {
            Some(Type::Rust(Prim::Bool))
        } else {
            None
        }
    }

    /// Checks whether the given name resolves to a host primitive by
    /// walking the `inherits_from` chain iteratively (never holding any
    /// state across the walk beyond the current key).
    pub fn is_rust(types: &Types, parent_key: &str) -> (r: Option<Prim>)
        requires
            types.wf(),
        ensures
            r == spec_is_rust(types@, parent_key@),
    {
        let mut fuel: usize = types.len();
        let mut cur: &str = parent_key;
        loop
            invariant
                types.wf(),
                chain_resolve(types@, parent_key@, types@.len() as nat) == chain_resolve(
                    types@,
                    cur@,
                    fuel as nat,
                ),
            decreases fuel,
        {
            match types.get(cur) {
                None => {
                    return None;
                },
                Some(t) => match t {
                    Type::Rust(p) => {
                        return Some(*p);
                    },
                    Type::TD { inherits_from, .. } => match inherits_from {
                        None => {
                            assert(tbl_get(types@, cur@) matches TypeV::TD { inherits_from, .. }
                                && inherits_from is None);
                            return None;
                        },
                        Some(parent) => {
                            assert(tbl_get(types@, cur@) matches TypeV::TD { inherits_from, .. }
                                && inherits_from == Some(parent@));
                            if fuel == 0 {
                                return None;
                            }
                            fuel = fuel - 1;
                            cur = parent.as_str();
                        },
                    },
                },
            }
        }
    }

    /// Registers `key` as a new entry, failing when the name has already
    /// been declared.
    pub fn insert(types: &mut Types, key: String, type_entry: Type) -> (r: Result<String, String>)
        requires
            old(types).wf(),
        ensures
            final(types).wf(),
            r is Ok <==> !tbl_has(old(types)@, key@),
            r matches Ok(k) ==> k@ == key@ && final(types)@ == old(types)@.push((
                key@,
                type_entry@,
            )),
            r is Err ==> final(types)@ == old(types)@,
    {
        if types.contains_key(key.as_str()) {
            let mut e = key;
            e.append(" has already been declared");
            Err(e)
        } else {
            let ret = key.clone();
            types.push_new(key, type_entry);
            Ok(ret)
        }
    }

    /// Transforms a schema name to its host primitive name when its
    /// resolution chain ends at a primitive, and registers the name first
    /// when it was not yet present.
    pub fn transform_type(types: &mut Types, key: String) -> (r: String)
        requires
            old(types).wf(),
        ensures
            final(types).wf(),
            final(types)@ == spec_transform(old(types)@, key@),
            r@ == spec_transform_name(old(types)@, key@),
    {
        if !types.contains_key(key.as_str()) {
            let entry = match Type::from_schema_type(key.as_str()) {
                Some(t) => t,
                None => Type::TD {
                    meta: StringHashMap::new(),
                    inherits_from: None,
                    children: Vec::new(),
                    depends_on: Vec::new(),
                },
            };
            proof {
                if spec_from_schema(key@) is None {
                    assert(meta_view(Map::<Seq<char>, String>::empty()) =~= Map::<
                        Seq<char>,
                        Seq<char>,
                    >::empty());
                    assert(Seq::<(String, usize)>::empty().map_values(
                        |p: (String, usize)| (p.0@, p.1),
                    ) =~= Seq::<(Seq<char>, usize)>::empty());
                    assert(Seq::<String>::empty().map_values(|s: String| s@) =~= Seq::<
                        Seq<char>,
                    >::empty());
                }
                assert(entry@ == fresh_entry(key@));
            }
            let k2 = key.clone();
            types.push_new(k2, entry);
            match Type::is_rust(types, key.as_str()) {
                Some(p) => String::from_str(rust_name(p)),
                None => key,
            }
        } else {
            match Type::is_rust(types, key.as_str()) {
                Some(p) => String::from_str(rust_name(p)),
                None => key,
            }
        }
    }
}

impl Types {
    /// Appends a fresh entry; callers must have checked the key is new.
    fn push_new(&mut self, k: String, t: Type)
        requires
            old(self).wf(),
            !tbl_has(old(self)@, k@),
        ensures
            final(self).wf(),
            final(self)@ == old(self)@.push((k@, t@)),
    {
        proof {
            lemma_tbl_push(self@, k@, t@);
        }
        let ghost m0 = self@;
        self.entries.push((k, t));
        proof {
            assert(self@ =~= m0.push((k@, t@)));
        }
    }

    /// Appends `(child, count)` to the `children` of the entry at `key`,
    /// creating an empty placeholder entry when `key` is absent and
    /// leaving a primitive mapping untouched.
    pub fn append_child(&mut self, key: String, child: String, count: usize)
        requires
            old(self).wf(),
        ensures
            final(self).wf(),
            final(self)@ == spec_append_child(old(self)@, key@, child@, count),
    {
        let ghost m0 = self@;
        match self.index_of(key.as_str()) {
            Some(i) => {
                proof {
                    lemma_tbl_witness(self@, key@, i as int);
                }
                let (k0, t) = self.entries.remove(i);
                match t {
                    Type::Rust(p) => {
                        self.entries.insert(i, (k0, Type::Rust(p)));
                        proof {
                            assert(self@ =~= m0);
                        }
                    },
                    Type::TD { meta, inherits_from, mut children, depends_on } => {
                        let ghost ch0 = children@;
                        children.push((child, count));
                        proof {
                            assert(children@.map_values(|p: (String, usize)| (p.0@, p.1))
                                =~= ch0.map_values(|p: (String, usize)| (p.0@, p.1)).push(
                                (child@, count),
                            ));
                        }
                        let t2 = Type::TD { meta, inherits_from, children, depends_on };
                        self.entries.insert(i, (k0, t2));
                        proof {
                            lemma_tbl_update(m0, key@, t2@);
                            assert(self@ =~= m0.update(i as int, (key@, t2@)));
                        }
                    },
                }
            },
            None => {
                let mut children: Vec<(String, usize)> = Vec::new();
                children.push((child, count));
                let t = Type::TD {
                    meta: StringHashMap::new(),
                    inherits_from: None,
                    children,
                    depends_on: Vec::new(),
                };
                proof {
                    assert(meta_view(Map::<Seq<char>, String>::empty()) =~= Map::<
                        Seq<char>,
                        Seq<char>,
                    >::empty());
                    assert(Seq::<String>::empty().map_values(|s: String| s@) =~= Seq::<
                        Seq<char>,
                    >::empty());
                    assert(t@ matches TypeV::TD { children: ch, .. } && ch =~= seq![
                        (child@, count),
                    ]);
                    lemma_tbl_push(self@, key@, t@);
                }
                let ghost mm = self@;
                self.entries.push((key, t));
                proof {
                    assert(self@ =~= mm.push((key@, t@)));
                    assert(self@ =~= spec_append_child(m0, key@, child@, count));
                }
            },
        }
    }

    /// Overwrites (or initializes) the metadata of the entry at `key`,
    /// creating the entry as a placeholder when absent; a primitive
    /// mapping is left untouched.
    pub fn set_meta(&mut self, key: String, meta: Meta)
        requires
            old(self).wf(),
        ensures
            final(self).wf(),
            final(self)@ == spec_set_meta(old(self)@, key@, meta_view(meta@)),
    {
        let ghost m0 = self@;
        match self.index_of(key.as_str()) {
            Some(i) => {
                proof {
                    lemma_tbl_witness(self@, key@, i as int);
                }
                let (k0, t) = self.entries.remove(i);
                match t {
                    Type::Rust(p) => {
                        self.entries.insert(i, (k0, Type::Rust(p)));
                        proof {
                            assert(self@ =~= m0);
                        }
                    },
                    Type::TD { meta: _old_meta, inherits_from, children, depends_on } => {
                        let t2 = Type::TD { meta, inherits_from, children, depends_on };
                        self.entries.insert(i, (k0, t2));
                        proof {
                            lemma_tbl_update(m0, key@, t2@);
                            assert(self@ =~= m0.update(i as int, (key@, t2@)));
                        }
                    },
                }
            },
            None => {
                let t = Type::TD {
                    meta,
                    inherits_from: None,
                    children: Vec::new(),
                    depends_on: Vec::new(),
                };
                proof {
                    assert(Seq::<(String, usize)>::empty().map_values(
                        |p: (String, usize)| (p.0@, p.1),
                    ) =~= Seq::<(Seq<char>, usize)>::empty());
                    assert(Seq::<String>::empty().map_values(|s: String| s@) =~= Seq::<
                        Seq<char>,
                    >::empty());
                    lemma_tbl_push(self@, key@, t@);
                }
                let ghost mm = self@;
                self.entries.push((key, t));
                proof {
                    assert(self@ =~= mm.push((key@, t@)));
                }
            },
        }
    }
}

/// The registry after appending `(child, count)` to the children of `key`.
pub open spec fn spec_append_child(m: TypesV, k: Seq<char>, c: Seq<char>, n: usize) -> TypesV {
    if tbl_has(m, k) {
        match tbl_get(m, k) {
            TypeV::Rust(_) => m,
            TypeV::TD { meta, inherits_from, children, depends_on } => m.update(
                tbl_idx(m, k),
                (
                    k,
                    TypeV::TD {
                        meta,
                        inherits_from,
                        children: children.push((c, n)),
                        depends_on,
                    },
                ),
            ),
        }
    } else {
        m.push(
            (
                k,
                TypeV::TD {
                    meta: Map::empty(),
                    inherits_from: None,
                    children: seq![(c, n)],
                    depends_on: Seq::empty(),
                },
            ),
        )
    }
}

/// The registry after a class-description block set the metadata of `key`.
pub open spec fn spec_set_meta(m: TypesV, k: Seq<char>, meta: Map<Seq<char>, Seq<char>>) -> TypesV {
    if tbl_has(m, k) {
        match tbl_get(m, k) {
            TypeV::Rust(_) => m,
            TypeV::TD { inherits_from, children, depends_on, .. } => m.update(
                tbl_idx(m, k),
                (k, TypeV::TD { meta, inherits_from, children, depends_on }),
            ),
        }
    } else {
        m.push(
            (
                k,
                TypeV::TD {
                    meta,
                    inherits_from: None,
                    children: Seq::empty(),
                    depends_on: Seq::empty(),
                },
            ),
        )
    }
}

/// The iteration budget of the bounded recursion search.
pub const RECURSION_DEPTH: usize = 128;

/// A name from the fixed primitive set; such nodes are skipped by the
/// recursion search.
pub open spec fn is_prim_name(k: Seq<char>) -> bool {
    spec_from_schema(k) is Some
}

/// A non-primitive successor equal to the searched-for name occurs in the
/// successor list.
pub open spec fn found_in(ss: Seq<Seq<char>>, target: Seq<char>) -> bool {
    exists|i: int| 0 <= i < ss.len() && !is_prim_name(#[trigger] ss[i]) && ss[i] == target
}

/// The successors that stay on the search stack: non-primitive names with
/// a registry entry, in list order.
pub open spec fn keep(m: TypesV, ss: Seq<Seq<char>>) -> Seq<Seq<char>>
    decreases ss.len(),
{
    if ss.len() == 0 {
        Seq::empty()
    } else {
        let rest = keep(m, ss.drop_last());
        if !is_prim_name(ss.last()) && tbl_has(m, ss.last()) {
            rest.push(ss.last())
        } else {
            rest
        }
    }
}

/// The bounded depth-first search of the recursion detector, one stack
/// step per unfolding: it pops the top name, fails on a missing entry, a
/// primitive mapping or an empty name, succeeds when a non-primitive
/// successor is the searched-for name, and otherwise pushes the retained
/// successors and spends one unit of budget.
pub open spec fn search(m: TypesV, target: Seq<char>, stack: Seq<Seq<char>>, budget: nat) -> bool
    decreases budget,
{
    if budget == 0 {
        false
    } else if stack.len() == 0 {
        false
    } else {
        let t = stack.last();
        if !tbl_has(m, t) {
            false
        } else {
            match tbl_get(m, t) {
                TypeV::Rust(_) => false,
                TypeV::TD { children, depends_on, .. } => {
                    if t.len() == 0 {
                        false
                    } else {
                        let ss = if is_uc_letter(t[0]) {
                            children.map_values(|c: (Seq<char>, usize)| c.0)
                        } else {
                            depends_on
                        };
                        if found_in(ss, target) {
                            true
                        } else {
                            search(m, target, stack.drop_last() + keep(m, ss), (budget - 1) as nat)
                        }
                    }
                },
            }
        }
    }
}

/// A value of the type named `in_type_id` can transitively contain a
/// value of the type named `target`, as far as the bounded search sees.
pub open spec fn spec_recursion_found(m: TypesV, target: Seq<char>, start: Seq<char>) -> bool {
    search(m, target, seq![start], (RECURSION_DEPTH + 1) as nat)
}

impl Type {
    /// Decides whether a field of type `in_type_id` inside a declaration
    /// named `look_for` can close a containment cycle back to `look_for`:
    /// a bounded graph search over `children` (for abstract, upper-case
    /// names) and `depends_on` (for concrete names), skipping primitives.
    /// A positive answer makes the renderer emit the field behind an
    /// indirection.
    pub fn recursion_check(types: &Types, look_for: &String, in_type_id: &String) -> (r: bool)
        requires
            types.wf(),
        ensures
            r == spec_recursion_found(types@, look_for@, in_type_id@),
    {
        let mut to_search: Vec<String> = Vec::new();
        to_search.push(in_type_id.clone());
        proof {
            assert(to_search@.map_values(|s: String| s@) =~= seq![in_type_id@]);
        }
        let mut count: usize = 0;
        loop
            invariant
                types.wf(),
                count <= RECURSION_DEPTH + 1,
                spec_recursion_found(types@, look_for@, in_type_id@) == search(
                    types@,
                    look_for@,
                    to_search@.map_values(|s: String| s@),
                    (RECURSION_DEPTH + 1 - count) as nat,
                ),
            decreases RECURSION_DEPTH + 1 - count,
        {
            if count > RECURSION_DEPTH {
                return false;
            }
            let ghost stack0 = to_search@.map_values(|s: String| s@);
            let ghost budget0 = (RECURSION_DEPTH + 1 - count) as nat;
            let type_id = match to_search.pop() {
                None => {
                    proof {
                        assert(stack0.len() == 0);
                    }
                    return false;
                },
                Some(t) => t,
            };
            proof {
                assert(to_search@.map_values(|s: String| s@) =~= stack0.drop_last());
                assert(stack0.last() == type_id@);
            }
            let entry = match types.get(type_id.as_str()) {
                None => {
                    return false;
                },
                Some(e) => e,
            };
            match entry {
                Type::Rust(_) => {
                    return false;
                },
                Type::TD { children, depends_on, .. } => {
                    if type_id.unicode_len() == 0 {
                        return false;
                    }
                    let first = type_id.as_str().get_char(0);
                    let ghost ssv = match tbl_get(types@, type_id@) {
                        TypeV::TD { children: cs, depends_on: ds, .. } => if is_uc_letter(
                            type_id@[0],
                        ) {
                            cs.map_values(|c: (Seq<char>, usize)| c.0)
                        } else {
                            ds
                        },
                        TypeV::Rust(_) => Seq::empty(),
                    };
                    let mut succs: Vec<String> = Vec::new();
                    if uc_letter_char(first) {
                        let n = children.len();
                        let mut j: usize = 0;
                        while j < n
                            invariant
                                n == children@.len(),
                                0 <= j <= n,
                                succs@.len() == j,
                                ssv.len() == n,
                                forall|k: int|
                                    0 <= k < n ==> ssv[k] == (#[trigger] children@[k]).0@,
                                forall|k: int| 0 <= k < j ==> (#[trigger] succs@[k])@ == ssv[k],
                            decreases n - j,
                        {
                            succs.push(children[j].0.clone());
                            j = j + 1;
                        }
                    } else {
                        let n = depends_on.len();
                        let mut j: usize = 0;
                        while j < n
                            invariant
                                n == depends_on@.len(),
                                0 <= j <= n,
                                succs@.len() == j,
                                ssv.len() == n,
                                forall|k: int| 0 <= k < n ==> ssv[k] == (#[trigger] depends_on@[k])@,
                                forall|k: int| 0 <= k < j ==> (#[trigger] succs@[k])@ == ssv[k],
                            decreases n - j,
                        {
                            succs.push(depends_on[j].clone());
                            j = j + 1;
                        }
                    }
                    proof {
                        assert(succs@.map_values(|s: String| s@) =~= ssv);
                        if found_in(ssv, look_for@) {
                            assert(search(types@, look_for@, stack0, budget0));
                        }
                    }
                    // First pass over the successors: is the searched-for
                    // name itself among the non-primitive successors?
                    let sn = succs.len();
                    let mut j: usize = 0;
                    while j < sn
                        invariant
                            sn == succs@.len(),
                            0 <= j <= sn,
                            ssv == succs@.map_values(|s: String| s@),
                            found_in(ssv, look_for@) ==> spec_recursion_found(
                                types@,
                                look_for@,
                                in_type_id@,
                            ),
                            forall|k: int|
                                0 <= k < j ==> !(!is_prim_name(#[trigger] ssv[k]) && ssv[k]
                                    == look_for@),
                        decreases sn - j,
                    {
                        let s = &succs[j];
                        let prim = match Type::from_schema_type(s.as_str()) {
                            Some(_) => true,
                            None => false,
                        };
                        if !prim && str_eq(s.as_str(), look_for.as_str()) {
                            proof {
                                assert(ssv[j as int] == succs@[j as int]@);
                                assert(found_in(ssv, look_for@));
                            }
                            return true;
                        }
                        proof {
                            assert(ssv[j as int] == succs@[j as int]@);
                        }
                        j = j + 1;
                    }
                    proof {
                        assert(!found_in(ssv, look_for@));
                    }
                    // Second pass: push the retained successors.
                    let ghost base = to_search@.map_values(|s: String| s@);
                    let mut j2: usize = 0;
                    while j2 < sn
                        invariant
                            types.wf(),
                            sn == succs@.len(),
                            0 <= j2 <= sn,
                            ssv == succs@.map_values(|s: String| s@),
                            to_search@.map_values(|s: String| s@) =~= base + keep(
                                types@,
                                ssv.take(j2 as int),
                            ),
                        decreases sn - j2,
                    {
                        let ghost before = to_search@.map_values(|s: String| s@);
                        let s = &succs[j2];
                        let prim = match Type::from_schema_type(s.as_str()) {
                            Some(_) => true,
                            None => false,
                        };
                        proof {
                            assert(ssv[j2 as int] == succs@[j2 as int]@);
                            assert(ssv.take(j2 + 1).drop_last() =~= ssv.take(j2 as int));
                            assert(ssv.take(j2 + 1).last() == ssv[j2 as int]);
                        }
                        if !prim && types.contains_key(s.as_str()) {
                            let s2 = s.clone();
                            to_search.push(s2);
                            proof {
                                assert(to_search@.map_values(|s: String| s@) =~= before.push(
                                    ssv[j2 as int],
                                ));
                            }
                        }
                        j2 = j2 + 1;
                    }
                    proof {
                        assert(ssv.take(sn as int) =~= ssv);
                        assert(to_search@.map_values(|s: String| s@) =~= stack0.drop_last() + keep(
                            types@,
                            ssv,
                        ));
                        assert(search(types@, look_for@, stack0, budget0) == search(
                            types@,
                            look_for@,
                            stack0.drop_last() + keep(types@, ssv),
                            (budget0 - 1) as nat,
                        ));
                    }
                    count = count + 1;
                },
            }
        }
    }
}


/// One step of the containment graph the recursion search walks: `b` is
/// a successor of `a` — a registered child constructor when `a` is an
/// abstract (upper-case) name, a field dependency when it is concrete —
/// and `b` is not a primitive name.
pub open spec fn step_edge(m: TypesV, a: Seq<char>, b: Seq<char>) -> bool {
    &&& tbl_has(m, a)
    &&& a.len() > 0
    &&& match tbl_get(m, a) {
        TypeV::Rust(_) => false,
        TypeV::TD { children, depends_on, .. } => {
            let ss = if is_uc_letter(a[0]) {
                children.map_values(|c: (Seq<char>, usize)| c.0)
            } else {
                depends_on
            };
            ss.contains(b)
        },
    }
    &&& !is_prim_name(b)
}

/// `path` witnesses that `to` can be reached from `from` in one or more
/// steps of the containment graph.
pub open spec fn reaches_via(m: TypesV, path: Seq<Seq<char>>, from: Seq<char>, to: Seq<char>) -> bool {
    &&& path.len() >= 2
    &&& path[0] == from
    &&& path.last() == to
    &&& forall|i: int| 0 <= i < path.len() - 1 ==> step_edge(m, #[trigger] path[i], path[i + 1])
}

/// `to` is reachable from `from` in one or more steps of the containment
/// graph.
pub open spec fn spec_reaches(m: TypesV, from: Seq<char>, to: Seq<char>) -> bool {
    exists|path: Seq<Seq<char>>| #[trigger] reaches_via(m, path, from, to)
}

/// A reachability witness extends by one further edge.
proof fn lemma_reaches_extend(m: TypesV, from: Seq<char>, mid: Seq<char>, to: Seq<char>)
    requires
        spec_reaches(m, from, mid),
        step_edge(m, mid, to),
    ensures
        spec_reaches(m, from, to),
{
    let path = choose|path: Seq<Seq<char>>| #[trigger] reaches_via(m, path, from, mid);
    let p2 = path.push(to);
    assert(p2[0] == path[0]);
    assert(p2.last() == to);
    assert forall|i: int| 0 <= i < p2.len() - 1 implies step_edge(m, #[trigger] p2[i], p2[i + 1]) by {
        if i < path.len() - 1 {
            assert(p2[i] == path[i] && p2[i + 1] == path[i + 1]);
        } else {
            assert(p2[i] == path.last() && p2[i + 1] == to);
        }
    }
    assert(reaches_via(m, p2, from, to));
}

/// A single edge is a reachability witness.
proof fn lemma_reaches_base(m: TypesV, from: Seq<char>, to: Seq<char>)
    requires
        step_edge(m, from, to),
    ensures
        spec_reaches(m, from, to),
{
    let p = seq![from, to];
    assert(p[0] == from && p.last() == to);
    assert forall|i: int| 0 <= i < p.len() - 1 implies step_edge(m, #[trigger] p[i], p[i + 1]) by {
        assert(p[0] == from && p[1] == to);
    }
    assert(reaches_via(m, p, from, to));
}

/// Everything the search keeps on its stack is a real successor.
proof fn lemma_keep_membership(m: TypesV, ss: Seq<Seq<char>>, x: Seq<char>)
    requires
        keep(m, ss).contains(x),
    ensures
        ss.contains(x),
        !is_prim_name(x),
    decreases ss.len(),
{
    if ss.len() > 0 {
        let rest = keep(m, ss.drop_last());
        if !is_prim_name(ss.last()) && tbl_has(m, ss.last()) {
            if x == ss.last() {
                assert(ss[ss.len() - 1] == x);
            } else {
                let i = choose|i: int| 0 <= i < rest.push(ss.last()).len() && rest.push(
                    ss.last(),
                )[i] == x;
                assert(rest[i] == x);
                lemma_keep_membership(m, ss.drop_last(), x);
                let j = choose|j: int| 0 <= j < ss.drop_last().len() && ss.drop_last()[j] == x;
                assert(ss[j] == x);
            }
        } else {
            lemma_keep_membership(m, ss.drop_last(), x);
            let j = choose|j: int| 0 <= j < ss.drop_last().len() && ss.drop_last()[j] == x;
            assert(ss[j] == x);
        }
    }
}

/// When every name on the stack is the start or reachable from it, a
/// successful search means the searched-for name is reachable too.
proof fn lemma_search_sound(
    m: TypesV,
    target: Seq<char>,
    stack: Seq<Seq<char>>,
    budget: nat,
    start: Seq<char>,
)
    requires
        search(m, target, stack, budget),
        forall|i: int|
            0 <= i < stack.len() ==> (#[trigger] stack[i]) == start || spec_reaches(
                m,
                start,
                stack[i],
            ),
    ensures
        spec_reaches(m, start, target),
    decreases budget,
{
    let t = stack.last();
    match tbl_get(m, t) {
        TypeV::Rust(_) => {},
        TypeV::TD { children, depends_on, .. } => {
            let ss = if is_uc_letter(t[0]) {
                children.map_values(|c: (Seq<char>, usize)| c.0)
            } else {
                depends_on
            };
            assert(stack[stack.len() - 1] == t);
            if found_in(ss, target) {
                let i = choose|i: int|
                    0 <= i < ss.len() && !is_prim_name(#[trigger] ss[i]) && ss[i] == target;
                assert(ss.contains(target)) by {
                    assert(ss[i] == target);
                }
                assert(step_edge(m, t, target));
                if t == start {
                    lemma_reaches_base(m, start, target);
                } else {
                    lemma_reaches_extend(m, start, t, target);
                }
            } else {
                let stack2 = stack.drop_last() + keep(m, ss);
                assert forall|i: int|
                    0 <= i < stack2.len() implies (#[trigger] stack2[i]) == start
                    || spec_reaches(m, start, stack2[i]) by {
                    if i < stack.drop_last().len() {
                        assert(stack2[i] == stack[i]);
                    } else {
                        let x = stack2[i];
                        assert(keep(m, ss)[i - stack.drop_last().len()] == x);
                        assert(keep(m, ss).contains(x));
                        lemma_keep_membership(m, ss, x);
                        assert(step_edge(m, t, x));
                        if t == start {
                            lemma_reaches_base(m, start, x);
                        } else {
                            lemma_reaches_extend(m, start, t, x);
                        }
                    }
                }
                lemma_search_sound(m, target, stack2, (budget - 1) as nat, start);
            }
        },
    }
}

/// What the bounded recursion search flags is sound: whenever it reports
/// a cycle from a field type back to the enclosing declaration, a real
/// path of child and dependency edges connects them. (The converse does
/// not hold in general: the search gives up beyond its fixed depth, as
/// the inline-or-indirect decision only needs a conservative answer.)
pub proof fn lemma_recursion_check_sound(m: TypesV, target: Seq<char>, start: Seq<char>)
    requires
        spec_recursion_found(m, target, start),
    ensures
        spec_reaches(m, start, target),
{
    let stack = seq![start];
    assert forall|i: int|
        0 <= i < stack.len() implies (#[trigger] stack[i]) == start || spec_reaches(
        m,
        start,
        stack[i],
    ) by {
        assert(stack[0] == start);
    }
    lemma_search_sound(m, target, stack, (RECURSION_DEPTH + 1) as nat, start);
}


/// Values in a record: one field name and its resolved type.
pub struct ObjectValue {
    pub key: String,
    pub type_id: String,
}

/// The mathematical value of an [`ObjectValue`].
pub struct ObjectValueV {
    pub key: Seq<char>,
    pub type_id: Seq<char>,
}

impl View for ObjectValue {
    type V = ObjectValueV;

    open spec fn view(&self) -> ObjectValueV {
        ObjectValueV { key: self.key@, type_id: self.type_id@ }
    }
}

/// A concrete record: name, metadata, and its ordered fields.
pub struct Object {
    pub name: String,
    pub meta: Meta,
    pub fields: Vec<ObjectValue>,
}

/// The mathematical value of an [`Object`].
pub struct ObjectV {
    pub name: Seq<char>,
    pub meta: Map<Seq<char>, Seq<char>>,
    pub fields: Seq<ObjectValueV>,
}

impl View for Object {
    type V = ObjectV;

    open spec fn view(&self) -> ObjectV {
        ObjectV {
            name: self.name@,
            meta: meta_view(self.meta@),
            fields: self.fields@.map_values(|v: ObjectValue| v@),
        }
    }
}

impl Object {
    /// Appends a new record to the record store.
    pub fn push(objects: &mut Vec<Object>, object: Object)
        ensures
            final(objects)@ == old(objects)@.push(object),
    {
        objects.push(object);
    }
}

/// A remote-callable operation: name, metadata, ordered fields, and the
/// resolved result type.
pub struct Function {
    pub name: String,
    pub meta: Meta,
    pub fields: Vec<ObjectValue>,
    pub result_type: String,
}

/// The mathematical value of a [`Function`].
pub struct FunctionV {
    pub name: Seq<char>,
    pub meta: Map<Seq<char>, Seq<char>>,
    pub fields: Seq<ObjectValueV>,
    pub result_type: Seq<char>,
}

impl View for Function {
    type V = FunctionV;

    open spec fn view(&self) -> FunctionV {
        FunctionV {
            name: self.name@,
            meta: meta_view(self.meta@),
            fields: self.fields@.map_values(|v: ObjectValue| v@),
            result_type: self.result_type@,
        }
    }
}

impl Function {
    /// Appends a new function to the function store.
    pub fn push(functions: &mut Vec<Function>, function: Function)
        ensures
            final(functions)@ == old(functions)@.push(function),
    {
        functions.push(function);
    }
}

/// The compilation context threaded through every compile step: the three
/// registries the declarations populate and the renderer reads.
pub struct Registry {
    pub types: Types,
    pub objects: Vec<Object>,
    pub functions: Vec<Function>,
}

impl Registry {
    pub open spec fn wf(self) -> bool {
        self.types.wf()
    }

    pub fn new() -> (r: Registry)
        ensures
            r.wf(),
            r.types@ =~= Seq::<(Seq<char>, TypeV)>::empty(),
            r.objects@ =~= Seq::<Object>::empty(),
            r.functions@ =~= Seq::<Function>::empty(),
    {
        Registry { types: Types::new(), objects: Vec::new(), functions: Vec::new() }
    }
}



/// `m2` extends `m1` only by freshly registered names: every name
/// already present keeps exactly its entry, and every new name carries
/// the bare entry the transform step registers. In particular no
/// existing children list gains an element, and every new entry has an
/// empty one.
pub open spec fn only_fresh_extension(m1: TypesV, m2: TypesV) -> bool {
    &&& forall|k: Seq<char>|
        #[trigger] tbl_has(m1, k) ==> tbl_has(m2, k) && tbl_get(m2, k) == tbl_get(m1, k)
    &&& forall|k: Seq<char>|
        #[trigger] tbl_has(m2, k) && !tbl_has(m1, k) ==> tbl_get(m2, k) == fresh_entry(k)
    &&& tbl_unique(m2)
}

pub proof fn lemma_ofe_refl(m: TypesV)
    requires
        tbl_unique(m),
    ensures
        only_fresh_extension(m, m),
{
}

pub proof fn lemma_ofe_trans(m1: TypesV, m2: TypesV, m3: TypesV)
    requires
        only_fresh_extension(m1, m2),
        only_fresh_extension(m2, m3),
    ensures
        only_fresh_extension(m1, m3),
{
    assert forall|k: Seq<char>| #[trigger] tbl_has(m3, k) && !tbl_has(m1, k) implies tbl_get(
        m3,
        k,
    ) == fresh_entry(k) by {
        if tbl_has(m2, k) {
            assert(tbl_get(m2, k) == fresh_entry(k));
        }
    }
}

/// The promise the error paths make, spelled out for children lists:
/// after a failed step, an entry that existed keeps exactly its children,
/// and an entry that is new has none — so no children list has gained an
/// element.
pub proof fn lemma_fresh_extension_no_new_children(m1: TypesV, m2: TypesV, k: Seq<char>)
    requires
        only_fresh_extension(m1, m2),
        tbl_has(m2, k),
    ensures
        tbl_has(m1, k) ==> tbl_get(m2, k) == tbl_get(m1, k),
        !tbl_has(m1, k) ==> (tbl_get(m2, k) matches TypeV::TD { children, .. } ==> children.len()
            == 0),
{
    if !tbl_has(m1, k) {
        assert(tbl_get(m2, k) == fresh_entry(k));
    }
}

/// The transform step is a fresh extension of the registry.
pub proof fn lemma_transform_ofe(m: TypesV, k: Seq<char>)
    requires
        tbl_unique(m),
    ensures
        only_fresh_extension(m, spec_transform(m, k)),
{
    if !tbl_has(m, k) {
        lemma_tbl_push(m, k, fresh_entry(k));
        let m2 = m.push((k, fresh_entry(k)));
        assert forall|k2: Seq<char>| #[trigger] tbl_has(m, k2) implies tbl_has(m2, k2)
            && tbl_get(m2, k2) == tbl_get(m, k2) by {
            assert(k2 != k);
        }
        assert forall|k2: Seq<char>| #[trigger] tbl_has(m2, k2) && !tbl_has(m, k2) implies tbl_get(
            m2,
            k2,
        ) == fresh_entry(k2) by {
            assert(k2 == k);
        }
    }
}

/// The transform step only ever appends an absent key: every name
/// already registered stays registered, with its entry unchanged.
pub proof fn lemma_transform_mono(m: TypesV, k: Seq<char>, k2: Seq<char>)
    requires
        tbl_has(m, k2),
    ensures
        tbl_has(spec_transform(m, k), k2),
{
    if !tbl_has(m, k) {
        let i = choose|i: int| 0 <= i < m.len() && (#[trigger] m[i]).0 == k2;
        assert(m.push((k, fresh_entry(k)))[i].0 == k2);
    }
}

/// With unique keys, any index whose entry carries the key is the index
/// `tbl_idx` picks.
pub proof fn lemma_tbl_witness(m: TypesV, k: Seq<char>, i: int)
    requires
        tbl_unique(m),
        0 <= i < m.len(),
        m[i].0 == k,
    ensures
        tbl_has(m, k),
        tbl_idx(m, k) == i,
        tbl_get(m, k) == m[i].1,
{
    assert(tbl_has(m, k));
    let j = tbl_idx(m, k);
    assert(0 <= j < m.len() && m[j].0 == k);
    if i != j {
        if i < j {
            assert(m[i].0 != m[j].0);
        } else {
            assert(m[j].0 != m[i].0);
        }
    }
}

} // verus!
