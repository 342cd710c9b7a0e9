//! Expansion of a whole shader block: its WGSL source, its generated Rust
//! structs and its vertex and result types.
use vstd::prelude::*;

use crate::shader_gen::{
    block_wgsl, field_table, rust_field_type, table_fields, table_names, translate_block,
    translate_type_dual, wgsl_type,
};
use crate::shader_model::{
    GeneratedField, GeneratedStruct, ShaderAttr, ShaderBlock, ShaderExpansion, ShaderField,
    ShaderFn, ShaderItem, ShaderParam, ShaderStruct, StructFields,
};
use crate::text::{join, join_strings, lemma_assoc_values, str_eq, views};

verus! {

/// Whether the attribute's path is the single identifier `name`.
pub open spec fn attr_is(a: ShaderAttr, name: Seq<char>) -> bool {
    a.path matches Some(p) && p@ == name
}

/// Whether some attribute of `attrs` has the path `name`.
pub open spec fn has_attr(attrs: Seq<ShaderAttr>, name: Seq<char>) -> bool {
    exists|k: int| 0 <= k < attrs.len() && attr_is(#[trigger] attrs[k], name)
}

/// A `builtin` attribute must name its builtin with one identifier.
pub open spec fn attr_ok(a: ShaderAttr) -> bool {
    attr_is(a, "builtin"@) ==> a.arg is Some
}

/// A struct field must be named, and its attributes well formed.
pub open spec fn field_ok(f: ShaderField) -> bool {
    &&& f.name is Some
    &&& forall|k: int| 0 <= k < f.attrs@.len() ==> attr_ok(#[trigger] f.attrs@[k])
}

/// Every field of the struct is well formed.
pub open spec fn struct_ok(s: ShaderStruct) -> bool {
    forall|j: int| 0 <= j < s.fields@.len() ==> field_ok(#[trigger] s.fields@[j])
}

/// An item is well formed when it is a function or a well-formed struct.
pub open spec fn item_ok(it: ShaderItem) -> bool {
    match it {
        ShaderItem::Struct(s) => struct_ok(s),
        ShaderItem::Fn(_) => true,
    }
}

/// The shader blocks that can be expanded: every struct field is named and
/// every `builtin` attribute names one builtin.
pub open spec fn shader_block_ok(block: ShaderBlock) -> bool {
    forall|i: int| 0 <= i < block.items@.len() ==> item_ok(#[trigger] block.items@[i])
}

/// The names of the fields, in order.
pub open spec fn field_names(fields: Seq<ShaderField>) -> Seq<Seq<char>> {
    fields.map_values(|f: ShaderField| f.name.unwrap()@)
}

/// The map from struct name to field names that the first `n` items declare;
/// a later struct replaces an earlier one of the same name.
pub open spec fn items_table(items: Seq<ShaderItem>, n: nat) -> Map<Seq<char>, Seq<Seq<char>>>
    decreases n,
{
    if n == 0 || n > items.len() {
        Map::empty()
    } else {
        let m = items_table(items, (n - 1) as nat);
        match items[n - 1] {
            ShaderItem::Struct(s) => m.insert(s.name@, field_names(s.fields@)),
            ShaderItem::Fn(_) => m,
        }
    }
}

/// Function bodies look a struct up in a table that maps its name to its
/// field names in declaration order: for a struct item that no later struct
/// item of the same name follows, the `i`-th entry is its `i`-th field's name.
pub proof fn law_table_keeps_declared_order(items: Seq<ShaderItem>, k: int, s: ShaderStruct)
    requires
        0 <= k < items.len(),
        items[k] == ShaderItem::Struct(s),
        forall|j: int| k < j < items.len() ==> !is_struct_named(#[trigger] items[j], s.name@),
    ensures
        items_table(items, items.len()).contains_key(s.name@),
        items_table(items, items.len())[s.name@].len() == s.fields@.len(),
        forall|i: int|
            0 <= i < s.fields@.len() ==> #[trigger] items_table(items, items.len())[s.name@][i]
                == s.fields@[i].name.unwrap()@,
{
    lemma_table_from(items, k, s, items.len());
}

/// `law_table_keeps_declared_order` for the table of the first `n` items.
proof fn lemma_table_from(items: Seq<ShaderItem>, k: int, s: ShaderStruct, n: nat)
    requires
        0 <= k < n <= items.len(),
        items[k] == ShaderItem::Struct(s),
        forall|j: int| k < j < items.len() ==> !is_struct_named(#[trigger] items[j], s.name@),
    ensures
        items_table(items, n).contains_key(s.name@),
        items_table(items, n)[s.name@] == field_names(s.fields@),
        items_table(items, n)[s.name@].len() == s.fields@.len(),
        forall|i: int|
            0 <= i < s.fields@.len() ==> #[trigger] items_table(items, n)[s.name@][i]
                == s.fields@[i].name.unwrap()@,
    decreases n,
{
    if n > k + 1 {
        lemma_table_from(items, k, s, (n - 1) as nat);
        assert(!is_struct_named(items[n - 1], s.name@));
    }
}

/// The structs among the first `n` items, in order.
pub open spec fn structs_of(items: Seq<ShaderItem>, n: nat) -> Seq<ShaderStruct>
    decreases n,
{
    if n == 0 || n > items.len() {
        Seq::empty()
    } else {
        let p = structs_of(items, (n - 1) as nat);
        match items[n - 1] {
            ShaderItem::Struct(s) => p.push(s),
            ShaderItem::Fn(_) => p,
        }
    }
}

/// Whether the item is a struct called `name`.
pub open spec fn is_struct_named(it: ShaderItem, name: Seq<char>) -> bool {
    it matches ShaderItem::Struct(s) && s.name@ == name
}

/// Whether the items declare a struct called `name`.
pub open spec fn declares(items: Seq<ShaderItem>, name: Seq<char>) -> bool {
    exists|i: int| 0 <= i < items.len() && is_struct_named(#[trigger] items[i], name)
}

/// The `@builtin(..)` markers that the first `n` attributes of a field give.
pub open spec fn builtin_markers(attrs: Seq<ShaderAttr>, n: nat) -> Seq<char>
    decreases n,
{
    if n == 0 || n > attrs.len() {
        Seq::empty()
    } else {
        builtin_markers(attrs, (n - 1) as nat) + (if attr_is(attrs[n - 1], "builtin"@) {
            "  @builtin("@ + attrs[n - 1].arg.unwrap()@ + ") "@
        } else {
            Seq::empty()
        })
    }
}

/// The WGSL member declaration of a struct field.
pub open spec fn field_wgsl(f: ShaderField) -> Seq<char> {
    builtin_markers(f.attrs@, f.attrs@.len()) + f.name.unwrap()@ + ": "@ + wgsl_type(f.ty@)
        + ";\n"@
}

/// The WGSL member declarations of the first `n` fields.
pub open spec fn fields_wgsl(fields: Seq<ShaderField>, n: nat) -> Seq<char>
    decreases n,
{
    if n == 0 || n > fields.len() {
        Seq::empty()
    } else {
        fields_wgsl(fields, (n - 1) as nat) + field_wgsl(fields[n - 1])
    }
}

/// The WGSL declaration of a shader struct.
pub open spec fn struct_wgsl(s: ShaderStruct) -> Seq<char> {
    "struct "@ + s.name@ + " {\n"@ + fields_wgsl(s.fields@, s.fields@.len()) + "};\n"@
}

/// The stage markers that the first `n` attributes of a function give.
pub open spec fn stage_markers(attrs: Seq<ShaderAttr>, n: nat) -> Seq<char>
    decreases n,
{
    if n == 0 || n > attrs.len() {
        Seq::empty()
    } else {
        stage_markers(attrs, (n - 1) as nat) + (if attr_is(attrs[n - 1], "vertex"@) {
            "@vertex "@
        } else if attr_is(attrs[n - 1], "fragment"@) {
            "@fragment "@
        } else {
            Seq::empty()
        })
    }
}

/// The WGSL text of a parameter; a `self` parameter gives none.
pub open spec fn param_wgsl(p: ShaderParam) -> Seq<char> {
    match p {
        ShaderParam::Receiver => Seq::empty(),
        ShaderParam::Typed { pat, ty } => pat@ + ": "@ + wgsl_type(ty@),
    }
}

/// The WGSL return clause of a function: a fragment function returning
/// `vec4<f32>` writes it to location 0.
pub open spec fn ret_wgsl(f: ShaderFn) -> Seq<char> {
    match f.ret {
        None => Seq::empty(),
        Some(t) => {
            let w = wgsl_type(t@);
            if has_attr(f.attrs@, "fragment"@) && w == "vec4<f32>"@ {
                "-> @location(0) "@ + w
            } else {
                "-> "@ + w
            }
        },
    }
}

/// The return clause of a function with a return type is `-> ` and the
/// type's WGSL; only a `fragment` function returning `vec4<f32>` marks it
/// `@location(0)`. A function without a return type has no clause.
pub proof fn law_return_clause(f: ShaderFn, t: String)
    ensures
        f.ret is None ==> ret_wgsl(f) == Seq::<char>::empty(),
        f.ret == Some(t) && !has_attr(f.attrs@, "fragment"@) ==> ret_wgsl(f) == "-> "@ + wgsl_type(
            t@,
        ),
        f.ret == Some(t) && wgsl_type(t@) != "vec4<f32>"@ ==> ret_wgsl(f) == "-> "@ + wgsl_type(t@),
        f.ret == Some(t) && has_attr(f.attrs@, "fragment"@) && wgsl_type(t@) == "vec4<f32>"@
            ==> ret_wgsl(f) == "-> @location(0) "@ + "vec4<f32>"@,
{
}

/// A shader function that is not a `fragment` function returning
/// `vec4<f32>` has its definition end with `) -> `, its return type's WGSL,
/// a space, its body, and a blank line: no location marker.
pub proof fn law_fn_return_has_no_location(f: ShaderFn, t: String, tbl: Map<Seq<char>, Seq<Seq<char>>>)
    requires
        f.ret == Some(t),
        !has_attr(f.attrs@, "fragment"@) || wgsl_type(t@) != "vec4<f32>"@,
    ensures
        exists|head: Seq<char>|
            fn_wgsl(f, tbl) == head + ") "@ + "-> "@ + wgsl_type(t@) + " "@ + block_wgsl(f.body@, tbl)
                + "\n\n"@,
{
    let head = stage_markers(f.attrs@, f.attrs@.len()) + "fn "@ + f.name@ + "("@ + join(
        f.params@.map_values(|p: ShaderParam| param_wgsl(p)),
        ", "@,
    );
    assert(fn_wgsl(f, tbl) == head + ") "@ + "-> "@ + wgsl_type(t@) + " "@ + block_wgsl(f.body@, tbl)
        + "\n\n"@);
}

/// The WGSL definition of a shader function.
pub open spec fn fn_wgsl(f: ShaderFn, tbl: Map<Seq<char>, Seq<Seq<char>>>) -> Seq<char> {
    stage_markers(f.attrs@, f.attrs@.len()) + "fn "@ + f.name@ + "("@ + join(
        f.params@.map_values(|p: ShaderParam| param_wgsl(p)),
        ", "@,
    ) + ") "@ + ret_wgsl(f) + " "@ + block_wgsl(f.body@, tbl) + "\n\n"@
}

/// The WGSL text of an item.
pub open spec fn item_wgsl(it: ShaderItem, tbl: Map<Seq<char>, Seq<Seq<char>>>) -> Seq<char> {
    match it {
        ShaderItem::Struct(s) => struct_wgsl(s),
        ShaderItem::Fn(f) => fn_wgsl(f, tbl),
    }
}

/// The WGSL text of the first `n` items.
pub open spec fn items_wgsl(items: Seq<ShaderItem>, n: nat, tbl: Map<Seq<char>, Seq<Seq<char>>>) -> Seq<
    char,
>
    decreases n,
{
    if n == 0 || n > items.len() {
        Seq::empty()
    } else {
        items_wgsl(items, (n - 1) as nat, tbl) + item_wgsl(items[n - 1], tbl)
    }
}

/// The WGSL source of a shader block: its items in order, function bodies
/// read with the fields of all the block's structs.
pub open spec fn shader_wgsl(block: ShaderBlock) -> Seq<char> {
    items_wgsl(
        block.items@,
        block.items@.len(),
        items_table(block.items@, block.items@.len()),
    )
}

/// The Rust struct generated for the shader struct `s` of the shader `shader`:
/// named `shader` followed by the struct's name, with the struct's fields in order.
pub open spec fn generated_for(g: GeneratedStruct, shader: Seq<char>, s: ShaderStruct) -> bool {
    &&& g.name@ == shader + s.name@
    &&& g.fields@.len() == s.fields@.len()
    &&& forall|j: int|
        0 <= j < s.fields@.len() ==> {
            &&& (#[trigger] g.fields@[j]).name@ == s.fields@[j].name.unwrap()@
            &&& g.fields@[j].ty == rust_field_type(s.fields@[j].ty@)
        }
}

/// Whether the attribute's path is the single identifier `name`.
fn attr_is_exec(a: &ShaderAttr, name: &str) -> (r: bool)
    ensures
        r == attr_is(*a, name@),
{
    match &a.path {
        Some(p) => str_eq(p.as_str(), name),
        None => false,
    }
}

/// The WGSL declaration of a well-formed shader struct.
fn struct_text(s: &ShaderStruct) -> (r: String)
    requires
        struct_ok(*s),
    ensures
        r@ == struct_wgsl(*s),
{
    let mut out = String::new();
    out.append("struct ");
    out.append(s.name.as_str());
    out.append(" {\n");
    let ghost start = out@;
    let mut j: usize = 0;
    while j < s.fields.len()
        invariant
            struct_ok(*s),
            j <= s.fields@.len(),
            out@ == start + fields_wgsl(s.fields@, j as nat),
        decreases s.fields@.len() - j,
    {
        let f = &s.fields[j];
        assert(field_ok(s.fields@[j as int]));
        let ghost field_start = out@;
        let mut k: usize = 0;
        while k < f.attrs.len()
            invariant
                field_ok(*f),
                k <= f.attrs@.len(),
                out@ == field_start + builtin_markers(f.attrs@, k as nat),
            decreases f.attrs@.len() - k,
        {
            let a = &f.attrs[k];
            assert(attr_ok(f.attrs@[k as int]));
            if attr_is_exec(a, "builtin") {
                match &a.arg {
                    Some(arg) => {
                        out.append("  @builtin(");
                        out.append(arg.as_str());
                        out.append(") ");
                    },
                    None => {},
                }
            }
            k += 1;
        }
        match &f.name {
            Some(n) => {
                out.append(n.as_str());
            },
            None => {},
        }
        out.append(": ");
        let (wgsl_ty, _) = translate_type_dual(f.ty.as_str());
        out.append(wgsl_ty.as_str());
        out.append(";\n");
        j += 1;
    }
    out.append("};\n");
    out
}

/// The Rust struct generated for a well-formed shader struct.
fn generated_struct(shader_name: &String, s: &ShaderStruct) -> (r: GeneratedStruct)
    requires
        struct_ok(*s),
    ensures
        generated_for(r, shader_name@, *s),
{
    let mut name = shader_name.clone();
    name.append(s.name.as_str());
    let mut fields: Vec<GeneratedField> = Vec::new();
    let mut j: usize = 0;
    while j < s.fields.len()
        invariant
            struct_ok(*s),
            j <= s.fields@.len(),
            fields@.len() == j,
            forall|k: int|
                0 <= k < j ==> {
                    &&& (#[trigger] fields@[k]).name@ == s.fields@[k].name.unwrap()@
                    &&& fields@[k].ty == rust_field_type(s.fields@[k].ty@)
                },
        decreases s.fields@.len() - j,
    {
        let f = &s.fields[j];
        assert(field_ok(s.fields@[j as int]));
        let field_name = match &f.name {
            Some(n) => n.clone(),
            None => String::new(),
        };
        let (_, ty) = translate_type_dual(f.ty.as_str());
        fields.push(GeneratedField { name: field_name, ty });
        j += 1;
    }
    GeneratedStruct { name, fields }
}

/// The WGSL definition of a shader function, given the declared fields of the
/// shader's structs.
fn fn_text(f: &ShaderFn, struct_fields: &Vec<StructFields>) -> (r: String)
    ensures
        r@ == fn_wgsl(*f, field_table(struct_fields@)),
{
    let mut out = String::new();
    let mut k: usize = 0;
    let mut fragment = false;
    while k < f.attrs.len()
        invariant
            k <= f.attrs@.len(),
            out@ == stage_markers(f.attrs@, k as nat),
            fragment == exists|m: int| 0 <= m < k && attr_is(#[trigger] f.attrs@[m], "fragment"@),
        decreases f.attrs@.len() - k,
    {
        let a = &f.attrs[k];
        if attr_is_exec(a, "vertex") {
            out.append("@vertex ");
        } else if attr_is_exec(a, "fragment") {
            out.append("@fragment ");
        }
        if attr_is_exec(a, "fragment") {
            fragment = true;
        }
        proof {
            if !fragment {
                assert forall|m: int| 0 <= m < k + 1 implies !attr_is(
                    #[trigger] f.attrs@[m],
                    "fragment"@,
                ) by {}
            }
        }
        k += 1;
    }
    assert(fragment == has_attr(f.attrs@, "fragment"@));
    let mut params: Vec<String> = Vec::new();
    let mut i: usize = 0;
    while i < f.params.len()
        invariant
            i <= f.params@.len(),
            params@.len() == i,
            forall|m: int| 0 <= m < i ==> (#[trigger] params@[m])@ == param_wgsl(f.params@[m]),
        decreases f.params@.len() - i,
    {
        let text = match &f.params[i] {
            ShaderParam::Receiver => String::new(),
            ShaderParam::Typed { pat, ty } => {
                let mut t = pat.clone();
                t.append(": ");
                let (wgsl_ty, _) = translate_type_dual(ty.as_str());
                t.append(wgsl_ty.as_str());
                t
            },
        };
        params.push(text);
        i += 1;
    }
    assert(views(params@) =~= f.params@.map_values(|p: ShaderParam| param_wgsl(p)));
    out.append("fn ");
    out.append(f.name.as_str());
    out.append("(");
    out.append(join_strings(&params, ", ").as_str());
    out.append(") ");
    match &f.ret {
        None => {},
        Some(t) => {
            let (wgsl_ty, _) = translate_type_dual(t.as_str());
            if fragment && str_eq(wgsl_ty.as_str(), "vec4<f32>") {
                out.append("-> @location(0) ");
            } else {
                out.append("-> ");
            }
            out.append(wgsl_ty.as_str());
        },
    }
    out.append(" ");
    out.append(translate_block(&f.body, struct_fields).as_str());
    out.append("\n\n");
    out
}

/// The declared field names of a well-formed struct.
fn names_of_fields(fields: &Vec<ShaderField>) -> (r: Vec<String>)
    requires
        forall|j: int| 0 <= j < fields@.len() ==> field_ok(#[trigger] fields@[j]),
    ensures
        views(r@) == field_names(fields@),
{
    let mut out: Vec<String> = Vec::new();
    let mut j: usize = 0;
    while j < fields.len()
        invariant
            forall|j: int| 0 <= j < fields@.len() ==> field_ok(#[trigger] fields@[j]),
            j <= fields@.len(),
            out@.len() == j,
            forall|k: int| 0 <= k < j ==> (#[trigger] out@[k])@ == fields@[k].name.unwrap()@,
        decreases fields@.len() - j,
    {
        let name = match &fields[j].name {
            Some(n) => n.clone(),
            None => String::new(),
        };
        out.push(name);
        j += 1;
    }
    assert(views(out@) =~= field_names(fields@));
    out
}

/// Expands a shader block into its WGSL source, one Rust struct per shader
/// struct, and its vertex and result types (`Name` followed by `Vertex` or
/// `VertexResult`, present when the block declares a struct of that name).
pub fn shader(block: &ShaderBlock) -> (r: ShaderExpansion)
    requires
        shader_block_ok(*block),
    ensures
        r.shader_name@ == block.name@,
        r.wgsl@ == shader_wgsl(*block),
        r.structs@.len() == structs_of(block.items@, block.items@.len()).len(),
        forall|i: int|
            0 <= i < r.structs@.len() ==> generated_for(
                #[trigger] r.structs@[i],
                block.name@,
                structs_of(block.items@, block.items@.len())[i],
            ),
        r.vertex_type is Some <==> declares(block.items@, "Vertex"@),
        r.vertex_type matches Some(t) ==> t@ == block.name@ + "Vertex"@,
        r.result_type is Some <==> declares(block.items@, "VertexResult"@),
        r.result_type matches Some(t) ==> t@ == block.name@ + "VertexResult"@,
{
    proof {
        reveal_strlit("Vertex");
        reveal_strlit("VertexResult");
        assert("Vertex"@.len() == 6);
        assert("VertexResult"@.len() == 12);
        assert("Vertex"@ != "VertexResult"@);
    }
    let items = &block.items;
    let mut table: Vec<StructFields> = Vec::new();
    let mut has_vertex = false;
    let mut has_result = false;
    let mut i: usize = 0;
    while i < items.len()
        invariant
            shader_block_ok(*block),
            items == &block.items,
            "Vertex"@ != "VertexResult"@,
            i <= items@.len(),
            field_table(table@) == items_table(items@, i as nat),
            has_vertex == exists|k: int| 0 <= k < i && is_struct_named(#[trigger] items@[k], "Vertex"@),
            has_result == exists|k: int|
                0 <= k < i && is_struct_named(#[trigger] items@[k], "VertexResult"@),
        decreases items@.len() - i,
    {
        assert(item_ok(items@[i as int]));
        match &items[i] {
            ShaderItem::Struct(st) => {
                let names = names_of_fields(&st.fields);
                let ghost old_names = table_names(table@);
                let ghost old_fields = table_fields(table@);
                table.push(StructFields { name: st.name.clone(), fields: names });
                proof {
                    assert(table_names(table@).drop_last() =~= old_names);
                    lemma_assoc_values(old_names, old_fields, table_fields(table@));
                }
                if str_eq(st.name.as_str(), "Vertex") {
                    has_vertex = true;
                } else if str_eq(st.name.as_str(), "VertexResult") {
                    has_result = true;
                }
            },
            ShaderItem::Fn(_) => {},
        }
        proof {
            if !has_vertex {
                assert forall|k: int| 0 <= k < i + 1 implies !is_struct_named(
                    #[trigger] items@[k],
                    "Vertex"@,
                ) by {}
            }
            if !has_result {
                assert forall|k: int| 0 <= k < i + 1 implies !is_struct_named(
                    #[trigger] items@[k],
                    "VertexResult"@,
                ) by {}
            }
        }
        i += 1;
    }
    let ghost tbl = items_table(items@, items@.len());
    let mut wgsl = String::new();
    let mut structs: Vec<GeneratedStruct> = Vec::new();
    let mut i: usize = 0;
    while i < items.len()
        invariant
            shader_block_ok(*block),
            items == &block.items,
            i <= items@.len(),
            field_table(table@) == tbl,
            wgsl@ == items_wgsl(items@, i as nat, tbl),
            structs@.len() == structs_of(items@, i as nat).len(),
            forall|k: int|
                0 <= k < structs@.len() ==> generated_for(
                    #[trigger] structs@[k],
                    block.name@,
                    structs_of(items@, i as nat)[k],
                ),
        decreases items@.len() - i,
    {
        assert(item_ok(items@[i as int]));
        match &items[i] {
            ShaderItem::Struct(st) => {
                wgsl.append(struct_text(st).as_str());
                structs.push(generated_struct(&block.name, st));
            },
            ShaderItem::Fn(f) => {
                wgsl.append(fn_text(f, &table).as_str());
            },
        }
        i += 1;
    }
    let vertex_type = if has_vertex {
        let mut t = block.name.clone();
        t.append("Vertex");
        Some(t)
    } else {
        None
    };
    let result_type = if has_result {
        let mut t = block.name.clone();
        t.append("VertexResult");
        Some(t)
    } else {
        None
    };
    ShaderExpansion {
        shader_name: block.name.clone(),
        structs,
        vertex_type,
        result_type,
        wgsl,
    }
}

} // verus!
