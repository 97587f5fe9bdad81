//! Deterministic text synthesis from the final registries: one
//! documented record declaration per stored object, one tagged-union
//! declaration per abstract type with children, and one interface
//! declaration with an asynchronous call stub per function.

use vstd::prelude::*;

use crate::base::has_substring;
use crate::base::spec_has_substring;
use crate::compile::Function;
use crate::compile::FunctionV;
use crate::compile::Object;
use crate::compile::ObjectV;
use crate::compile::ObjectValueV;
use crate::compile::Registry;
use crate::compile::Type;
use crate::compile::TypeV;
use crate::compile::Types;
use crate::compile::TypesV;
use crate::compile::spec_from_schema;
use crate::compile::spec_recursion_found;

verus! {

broadcast use vstd::seq::group_seq_axioms;

/// The text of one record member: its optional documentation line, then
/// the member itself, indirected when the recursion search flags it and
/// optional when its documentation text contains "null".
pub open spec fn spec_object_field(m: TypesV, o: ObjectV, f: ObjectValueV) -> Seq<char> {
    let doc = if o.meta.contains_key(f.key) {
        "   /// "@ + o.meta[f.key] + "\n"@
    } else {
        Seq::<char>::empty()
    };
    let nullable = o.meta.contains_key(f.key) && spec_has_substring(o.meta[f.key], "null"@);
    let boxed = spec_recursion_found(m, o.name, f.type_id);
    let t1 = if boxed {
        "Box<"@ + f.type_id + ">"@
    } else {
        f.type_id
    };
    let t2 = if nullable {
        "Option<"@ + t1 + ">"@
    } else {
        t1
    };
    doc + "   pub "@ + f.key + ": "@ + t2 + ",\n"@
}

/// One member per stored field, in source order.
pub open spec fn spec_object_fields(m: TypesV, o: ObjectV, fs: Seq<ObjectValueV>) -> Seq<char>
    decreases fs.len(),
{
    if fs.len() == 0 {
        Seq::<char>::empty()
    } else {
        spec_object_fields(m, o, fs.drop_last()) + spec_object_field(m, o, fs.last())
    }
}

/// The full text of one emitted record declaration.
pub open spec fn spec_render_object(m: TypesV, o: ObjectV) -> Seq<char> {
    let head = "#[allow(non_camel_case_types)]\n"@
        + "#[derive(Debug, Clone, PartialEq, Serialize, Deserialize)]\n"@ + "/// # "@ + o.name
        + "\n"@;
    let doc = if o.meta.contains_key("description"@) {
        "/// "@ + o.meta["description"@] + "\n"@
    } else {
        Seq::<char>::empty()
    };
    head + doc + "pub struct "@ + o.name + " {\n"@ + spec_object_fields(m, o, o.fields)
        + "}\n\n\n"@
}

/// Emits one record declaration, exactly as `spec_render_object` states.
pub fn render_object(types: &Types, o: &Object) -> (r: String)
    requires
        types.wf(),
    ensures
        r@ == spec_render_object(types@, o@),
{
    let mut s = String::new();
    s.append("#[allow(non_camel_case_types)]\n");
    s.append("#[derive(Debug, Clone, PartialEq, Serialize, Deserialize)]\n");
    s.append("/// # ");
    s.append(o.name.as_str());
    s.append("\n");
    match o.meta.get("description") {
        Some(d) => {
            s.append("/// ");
            s.append(d.as_str());
            s.append("\n");
        },
        None => {},
    }
    s.append("pub struct ");
    s.append(o.name.as_str());
    s.append(" {\n");
    let ghost head = s@;
    proof {
        assert(s@ =~= head + spec_object_fields(types@, o@, o@.fields.take(0)));
    }
    let n = o.fields.len();
    let mut i: usize = 0;
    while i < n
        invariant
            types.wf(),
            n == o.fields@.len(),
            0 <= i <= n,
            o@.fields.len() == n,
            s@ == head + spec_object_fields(types@, o@, o@.fields.take(i as int)),
        decreases n - i,
    {
        let f = &o.fields[i];
        let ghost fv = o@.fields[i as int];
        let ghost s0 = s@;
        proof {
            assert(fv == f@);
            assert(o@.meta.contains_key(fv.key) == o.meta@.contains_key(f.key@));
            if o.meta@.contains_key(f.key@) {
                assert(o@.meta[fv.key] == o.meta@[f.key@]@);
            }
        }
        let ghost doc_s = if o@.meta.contains_key(fv.key) {
            "   /// "@ + o@.meta[fv.key] + "\n"@
        } else {
            Seq::<char>::empty()
        };
        let ghost nullable_s = o@.meta.contains_key(fv.key) && spec_has_substring(
            o@.meta[fv.key],
            "null"@,
        );
        let boxed = Type::recursion_check(types, &o.name, &f.type_id);
        let mut nullable: bool = false;
        match o.meta.get(f.key.as_str()) {
            Some(d) => {
                s.append("   /// ");
                s.append(d.as_str());
                s.append("\n");
                nullable = has_substring(d.as_str(), "null");
            },
            None => {},
        }
        proof {
            assert(s@ =~= s0 + doc_s);
            assert(nullable == nullable_s);
        }
        let ghost t1_s = if spec_recursion_found(types@, o@.name, fv.type_id) {
            "Box<"@ + fv.type_id + ">"@
        } else {
            fv.type_id
        };
        let mut t: String = String::new();
        if boxed {
            t.append("Box<");
            t.append(f.type_id.as_str());
            t.append(">");
        } else {
            t.append(f.type_id.as_str());
        }
        proof {
            assert(t@ =~= t1_s);
        }
        let ghost t2_s = if nullable_s {
            "Option<"@ + t1_s + ">"@
        } else {
            t1_s
        };
        let mut t2: String = String::new();
        if nullable {
            t2.append("Option<");
            t2.append(t.as_str());
            t2.append(">");
        } else {
            t2.append(t.as_str());
        }
        proof {
            assert(t2@ =~= t2_s);
        }
        s.append("   pub ");
        s.append(f.key.as_str());
        s.append(": ");
        s.append(t2.as_str());
        s.append(",\n");
        proof {
            assert(s@ =~= s0 + spec_object_field(types@, o@, fv));
            assert(o@.fields.take(i + 1).drop_last() =~= o@.fields.take(i as int));
            assert(o@.fields.take(i + 1).last() == fv);
            assert(spec_object_fields(types@, o@, o@.fields.take(i + 1)) == spec_object_fields(
                types@,
                o@,
                o@.fields.take(i as int),
            ) + spec_object_field(types@, o@, fv));
            assert(s@ =~= head + spec_object_fields(types@, o@, o@.fields.take(i + 1)));
        }
        i = i + 1;
    }
    proof {
        assert(o@.fields.take(n as int) =~= o@.fields);
    }
    s.append("}\n\n\n");
    proof {
        assert(s@ =~= spec_render_object(types@, o@));
    }
    s
}

/// The text of one variant of a tagged union: the constructor name, with
/// a payload reference exactly when its field count is positive.
pub open spec fn spec_type_child(c: (Seq<char>, usize)) -> Seq<char> {
    let payload = if c.1 == 0 {
        Seq::<char>::empty()
    } else {
        "("@ + c.0 + ")"@
    };
    "   "@ + c.0 + payload + ",\n"@
}

pub open spec fn spec_type_children(cs: Seq<(Seq<char>, usize)>) -> Seq<char>
    decreases cs.len(),
{
    if cs.len() == 0 {
        Seq::<char>::empty()
    } else {
        spec_type_children(cs.drop_last()) + spec_type_child(cs.last())
    }
}

/// The full text of one emitted type declaration: empty for a primitive
/// mapping, for a primitive-named entry and for an entry without
/// children (a pure alias), else a tagged union listing exactly the
/// registered children.
pub open spec fn spec_render_type_def(name: Seq<char>, t: TypeV) -> Seq<char> {
    match t {
        TypeV::Rust(_) => Seq::<char>::empty(),
        TypeV::TD { meta, children, .. } => {
            if spec_from_schema(name) is Some {
                Seq::<char>::empty()
            } else if children.len() == 0 {
                Seq::<char>::empty()
            } else {
                let doc = if meta.contains_key("description"@) {
                    "/// "@ + meta["description"@] + "\n"@
                } else {
                    Seq::<char>::empty()
                };
                "#[allow(non_camel_case_types)]\n"@
                    + "#[derive(Debug, Clone, PartialEq, Serialize, Deserialize)]\n"@
                    + "#[serde(tag = \"@type\")]\n"@ + doc + "pub enum "@ + name + "{\n"@
                    + spec_type_children(children) + "}\n\n\n"@
            }
        },
    }
}

/// A documented tagged-union (or elided alias) declaration, read from
/// one registry entry.
pub struct TypeDef<'a>(pub &'a String, pub &'a Type);

impl<'a> TypeDef<'a> {
    /// Emits the type declaration, exactly as `spec_render_type_def`
    /// states.
    pub fn render(&self) -> (r: String)
        ensures
            r@ == spec_render_type_def(self.0@, self.1@),
    {
        let mut s = String::new();
        match self.1 {
            Type::Rust(_) => s,
            Type::TD { meta, children, .. } => {
                match Type::from_schema_type(self.0.as_str()) {
                    Some(_) => {
                        return s;
                    },
                    None => {},
                }
                if children.len() == 0 {
                    proof {
                        assert(self.1@ matches TypeV::TD { children: cs, .. } && cs.len() == 0);
                    }
                    return s;
                }
                s.append("#[allow(non_camel_case_types)]\n");
                s.append("#[derive(Debug, Clone, PartialEq, Serialize, Deserialize)]\n");
                s.append("#[serde(tag = \"@type\")]\n");
                match meta.get("description") {
                    Some(d) => {
                        s.append("/// ");
                        s.append(d.as_str());
                        s.append("\n");
                    },
                    None => {},
                }
                s.append("pub enum ");
                s.append(self.0.as_str());
                s.append("{\n");
                let ghost head = s@;
                proof {
                    assert(s@ =~= head + spec_type_children(Seq::<(Seq<char>, usize)>::empty()));
                }
                let ghost cs = match self.1@ {
                    TypeV::TD { children: cs, .. } => cs,
                    TypeV::Rust(_) => Seq::empty(),
                };
                let n = children.len();
                let mut i: usize = 0;
                while i < n
                    invariant
                        n == children@.len(),
                        0 <= i <= n,
                        cs.len() == n,
                        forall|k: int| 0 <= k < n ==> cs[k] == ((#[trigger] children@[k]).0@,
                            children@[k].1,
                        ),
                        s@ == head + spec_type_children(cs.take(i as int)),
                    decreases n - i,
                {
                    let c = &children[i];
                    s.append("   ");
                    s.append(c.0.as_str());
                    if c.1 != 0 {
                        s.append("(");
                        s.append(c.0.as_str());
                        s.append(")");
                    }
                    s.append(",\n");
                    proof {
                        assert(cs.take(i + 1).drop_last() =~= cs.take(i as int));
                        assert(cs.take(i + 1).last() == cs[i as int]);
                        assert(s@ =~= head + spec_type_children(cs.take(i + 1)));
                    }
                    i = i + 1;
                }
                proof {
                    assert(cs.take(n as int) =~= cs);
                }
                s.append("}\n\n\n");
                proof {
                    assert(s@ =~= spec_render_type_def(self.0@, self.1@));
                }
                s
            },
        }
    }
}

/// The documentation line of one call-stub parameter, or empty when the
/// field has no annotation.
pub open spec fn spec_fn_comment(meta: Map<Seq<char>, Seq<char>>, f: ObjectValueV) -> Seq<char> {
    if meta.contains_key(f.key) {
        "    /// -`"@ + f.key + "`: "@ + meta[f.key]
    } else {
        Seq::<char>::empty()
    }
}

/// The parameter documentation lines joined with line breaks.
pub open spec fn spec_fn_comments(meta: Map<Seq<char>, Seq<char>>, fs: Seq<ObjectValueV>) -> Seq<
    char,
>
    decreases fs.len(),
{
    if fs.len() == 0 {
        Seq::<char>::empty()
    } else if fs.len() == 1 {
        spec_fn_comment(meta, fs[0])
    } else {
        spec_fn_comments(meta, fs.drop_last()) + "\n"@ + spec_fn_comment(meta, fs.last())
    }
}

/// One call-stub parameter, optional when the field's recorded
/// annotation text contains "null" — the same rule the record members
/// follow: the description text governs nullability.
pub open spec fn spec_fn_argument(meta: Map<Seq<char>, Seq<char>>, f: ObjectValueV) -> Seq<char> {
    let t = if meta.contains_key(f.key) && spec_has_substring(meta[f.key], "null"@) {
        "Option<"@ + f.type_id + ">"@
    } else {
        f.type_id
    };
    ", "@ + f.key + ": "@ + t
}

pub open spec fn spec_fn_arguments(meta: Map<Seq<char>, Seq<char>>, fs: Seq<ObjectValueV>) -> Seq<
    char,
>
    decreases fs.len(),
{
    if fs.len() == 0 {
        Seq::<char>::empty()
    } else {
        spec_fn_arguments(meta, fs.drop_last()) + spec_fn_argument(meta, fs.last())
    }
}

/// The field name with the reserved-word escape prefix removed.
pub open spec fn spec_sanitized_key(k: Seq<char>) -> Seq<char> {
    if k.len() >= 2 && k[0] == 'r' && k[1] == '#' {
        k.skip(2)
    } else {
        k
    }
}

/// One member of the keyed request payload.
pub open spec fn spec_fn_value_field(f: ObjectValueV) -> Seq<char> {
    ",\""@ + spec_sanitized_key(f.key) + "\": "@ + f.key
}

pub open spec fn spec_fn_value_fields(fs: Seq<ObjectValueV>) -> Seq<char>
    decreases fs.len(),
{
    if fs.len() == 0 {
        Seq::<char>::empty()
    } else {
        spec_fn_value_fields(fs.drop_last()) + spec_fn_value_field(fs.last())
    }
}

/// The full text of one emitted asynchronous call stub.
pub open spec fn spec_render_function(fun: FunctionV) -> Seq<char> {
    let metadata = "/// # "@ + fun.name + (if fun.meta.contains_key("description"@) {
        "\n/// "@ + fun.meta["description"@]
    } else {
        Seq::<char>::empty()
    });
    "#[allow(async_fn_in_trait, non_snake_case, non_camel_case_types)]\n"@ + "\n    "@ + metadata
        + "\n"@ + spec_fn_comments(fun.meta, fun.fields) + "\n    async fn "@ + fun.name
        + "(&self"@ + spec_fn_arguments(fun.meta, fun.fields)
        + ") -> ::std::result::Result<"@ + fun.result_type
        + ", crate::Failure> {\n        // Create payload\n        let payload = json!({\n            \"@type\": \""@
        + fun.name + "\""@ + spec_fn_value_fields(fun.fields)
        + "\n        });\n    \n        // Send payload and await reesponse\n        <Self as Api>::send::<Value, "@
        + fun.result_type + ">(self, payload).await\n    }\n"@ + "\n"@
}

/// Emits one asynchronous call stub, exactly as `spec_render_function`
/// states.
pub fn render_function(fun: &Function) -> (r: String)
    ensures
        r@ == spec_render_function(fun@),
{
    let n = fun.fields.len();
    // The joined parameter documentation lines, the parameter list and
    // the payload members, built field by field.
    let mut comments = String::new();
    let mut arguments = String::new();
    let mut value_fields = String::new();
    let mut i: usize = 0;
    while i < n
        invariant
            n == fun.fields@.len(),
            0 <= i <= n,
            fun@.fields.len() == n,
            comments@ == spec_fn_comments(fun@.meta, fun@.fields.take(i as int)),
            arguments@ == spec_fn_arguments(fun@.meta, fun@.fields.take(i as int)),
            value_fields@ == spec_fn_value_fields(fun@.fields.take(i as int)),
        decreases n - i,
    {
        let f = &fun.fields[i];
        let ghost fv = fun@.fields[i as int];
        proof {
            assert(fv == f@);
            assert(fun@.meta.contains_key(fv.key) == fun.meta@.contains_key(f.key@));
            if fun.meta@.contains_key(f.key@) {
                assert(fun@.meta[fv.key] == fun.meta@[f.key@]@);
            }
            assert(fun@.fields.take(i + 1).drop_last() =~= fun@.fields.take(i as int));
            assert(fun@.fields.take(i + 1).last() == fv);
        }
        // The documentation line of this field, and the nullability of
        // the parameter, read from the recorded annotation text.
        let mut cf = String::new();
        let mut nullable: bool = false;
        match fun.meta.get(f.key.as_str()) {
            Some(d) => {
                cf.append("    /// -`");
                cf.append(f.key.as_str());
                cf.append("`: ");
                cf.append(d.as_str());
                nullable = has_substring(d.as_str(), "null");
            },
            None => {},
        }
        proof {
            assert(cf@ =~= spec_fn_comment(fun@.meta, fv));
        }
        if i != 0 {
            comments.append("\n");
        }
        comments.append(cf.as_str());
        proof {
            assert(comments@ =~= spec_fn_comments(fun@.meta, fun@.fields.take(i + 1)));
        }
        arguments.append(", ");
        arguments.append(f.key.as_str());
        arguments.append(": ");
        if nullable {
            arguments.append("Option<");
            arguments.append(f.type_id.as_str());
            arguments.append(">");
        } else {
            arguments.append(f.type_id.as_str());
        }
        proof {
            assert(arguments@ =~= spec_fn_arguments(fun@.meta, fun@.fields.take(i + 1)));
        }
        // The payload member, with the escape prefix stripped.
        let kl = f.key.unicode_len();
        value_fields.append(",\"");
        if kl >= 2 && f.key.as_str().get_char(0) == 'r' && f.key.as_str().get_char(1) == '#' {
            let stripped = f.key.as_str().substring_char(2, kl);
            proof {
                assert(stripped@ =~= spec_sanitized_key(fv.key));
            }
            value_fields.append(stripped);
        } else {
            value_fields.append(f.key.as_str());
        }
        value_fields.append("\": ");
        value_fields.append(f.key.as_str());
        proof {
            assert(value_fields@ =~= spec_fn_value_fields(fun@.fields.take(i + 1)));
        }
        i = i + 1;
    }
    proof {
        assert(fun@.fields.take(n as int) =~= fun@.fields);
    }
    let mut s = String::new();
    s.append("#[allow(async_fn_in_trait, non_snake_case, non_camel_case_types)]\n");
    s.append("\n    ");
    s.append("/// # ");
    s.append(fun.name.as_str());
    match fun.meta.get("description") {
        Some(d) => {
            s.append("\n/// ");
            s.append(d.as_str());
        },
        None => {},
    }
    s.append("\n");
    s.append(comments.as_str());
    s.append("\n    async fn ");
    s.append(fun.name.as_str());
    s.append("(&self");
    s.append(arguments.as_str());
    s.append(") -> ::std::result::Result<");
    s.append(fun.result_type.as_str());
    s.append(
        ", crate::Failure> {\n        // Create payload\n        let payload = json!({\n            \"@type\": \"",
    );
    s.append(fun.name.as_str());
    s.append("\"");
    s.append(value_fields.as_str());
    s.append(
        "\n        });\n    \n        // Send payload and await reesponse\n        <Self as Api>::send::<Value, ",
    );
    s.append(fun.result_type.as_str());
    s.append(">(self, payload).await\n    }\n");
    s.append("\n");
    proof {
        assert(s@ =~= spec_render_function(fun@));
    }
    s
}

/// The record declarations, in store order.
pub open spec fn spec_render_objects(m: TypesV, os: Seq<ObjectV>) -> Seq<char>
    decreases os.len(),
{
    if os.len() == 0 {
        Seq::<char>::empty()
    } else {
        spec_render_objects(m, os.drop_last()) + spec_render_object(m, os.last())
    }
}

/// The type declarations, in registry (insertion) order.
pub open spec fn spec_render_type_defs(m: TypesV) -> Seq<char>
    decreases m.len(),
{
    if m.len() == 0 {
        Seq::<char>::empty()
    } else {
        spec_render_type_defs(m.drop_last()) + spec_render_type_def(m.last().0, m.last().1)
    }
}

/// The call stubs, in store order.
pub open spec fn spec_render_functions(fs: Seq<FunctionV>) -> Seq<char>
    decreases fs.len(),
{
    if fs.len() == 0 {
        Seq::<char>::empty()
    } else {
        spec_render_functions(fs.drop_last()) + spec_render_function(fs.last())
    }
}

/// The whole generated artifact: the import header, the records, the
/// tagged unions, and the interface declaration holding the generic send
/// operation and one call stub per function.
pub open spec fn spec_render_program(m: TypesV, os: Seq<ObjectV>, fs: Seq<FunctionV>) -> Seq<
    char,
> {
    "\nuse serde::Serialize;\nuse serde::Deserialize;\nuse serde::de::DeserializeOwned;\nuse serde_json::*;\n\n\n"@
        + spec_render_objects(m, os) + spec_render_type_defs(m)
        + "\npub trait Api {\n\n    #[allow(async_fn_in_trait)]\n    /// Handler to send the `payload` to the [crate::Driver]\n    async fn send<Payload: Serialize, Target: DeserializeOwned>(\n        &self,\n        payload: Payload,\n    ) -> ::std::result::Result<Target, crate::Failure>;\n\n"@
        + spec_render_functions(fs) + "}\n"@
}

/// Emits the whole artifact from the final registries, exactly as
/// `spec_render_program` states.
pub fn render_program(reg: &Registry) -> (r: String)
    requires
        reg.wf(),
    ensures
        r@ == spec_render_program(
            reg.types@,
            reg.objects@.map_values(|o: Object| o@),
            reg.functions@.map_values(|f: Function| f@),
        ),
{
    let ghost osv = reg.objects@.map_values(|o: Object| o@);
    let ghost fsv = reg.functions@.map_values(|f: Function| f@);
    let mut s = String::new();
    s.append(
        "\nuse serde::Serialize;\nuse serde::Deserialize;\nuse serde::de::DeserializeOwned;\nuse serde_json::*;\n\n\n",
    );
    let ghost h0 = s@;
    let on = reg.objects.len();
    let mut i: usize = 0;
    while i < on
        invariant
            reg.wf(),
            on == reg.objects@.len(),
            0 <= i <= on,
            osv.len() == on,
            osv == reg.objects@.map_values(|o: Object| o@),
            s@ == h0 + spec_render_objects(reg.types@, osv.take(i as int)),
        decreases on - i,
    {
        let text = render_object(&reg.types, &reg.objects[i]);
        s.append(text.as_str());
        proof {
            assert(osv.take(i + 1).drop_last() =~= osv.take(i as int));
            assert(osv.take(i + 1).last() == osv[i as int]);
            assert(osv[i as int] == reg.objects@[i as int]@);
            assert(s@ =~= h0 + spec_render_objects(reg.types@, osv.take(i + 1)));
        }
        i = i + 1;
    }
    proof {
        assert(osv.take(on as int) =~= osv);
    }
    let ghost h1 = s@;
    let tn = reg.types.len();
    let mut j: usize = 0;
    while j < tn
        invariant
            reg.wf(),
            tn == reg.types@.len(),
            0 <= j <= tn,
            s@ == h1 + spec_render_type_defs(reg.types@.take(j as int)),
        decreases tn - j,
    {
        let entry = reg.types.entry_at(j);
        let text = TypeDef(&entry.0, &entry.1).render();
        s.append(text.as_str());
        proof {
            assert(reg.types@.take(j + 1).drop_last() =~= reg.types@.take(j as int));
            assert(reg.types@.take(j + 1).last() == reg.types@[j as int]);
            assert(s@ =~= h1 + spec_render_type_defs(reg.types@.take(j + 1)));
        }
        j = j + 1;
    }
    proof {
        assert(reg.types@.take(tn as int) =~= reg.types@);
    }
    s.append(
        "\npub trait Api {\n\n    #[allow(async_fn_in_trait)]\n    /// Handler to send the `payload` to the [crate::Driver]\n    async fn send<Payload: Serialize, Target: DeserializeOwned>(\n        &self,\n        payload: Payload,\n    ) -> ::std::result::Result<Target, crate::Failure>;\n\n",
    );
    let ghost h2 = s@;
    let fnn = reg.functions.len();
    let mut k: usize = 0;
    while k < fnn
        invariant
            fnn == reg.functions@.len(),
            0 <= k <= fnn,
            fsv.len() == fnn,
            fsv == reg.functions@.map_values(|f: Function| f@),
            s@ == h2 + spec_render_functions(fsv.take(k as int)),
        decreases fnn - k,
    {
        let text = render_function(&reg.functions[k]);
        s.append(text.as_str());
        proof {
            assert(fsv.take(k + 1).drop_last() =~= fsv.take(k as int));
            assert(fsv.take(k + 1).last() == fsv[k as int]);
            assert(fsv[k as int] == reg.functions@[k as int]@);
            assert(s@ =~= h2 + spec_render_functions(fsv.take(k + 1)));
        }
        k = k + 1;
    }
    proof {
        assert(fsv.take(fnn as int) =~= fsv);
    }
    s.append("}\n");
    proof {
        assert(s@ =~= spec_render_program(reg.types@, osv, fsv));
    }
    s
}

} // verus!
