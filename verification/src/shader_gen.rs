//! Translation of a shader block to WGSL and to the Rust structs that
//! mirror its data types.
use vstd::prelude::*;

use crate::shader_model::{FieldInit, RustFieldType, ShaderExpr, ShaderStmt, StructFields};
use crate::text::{
    assoc, find_last, join, join_strings, lemma_assoc_hit, lemma_assoc_miss,
    lemma_assoc_values, lemma_no_occurrence_after_replace, lemma_replace_absent,
    lemma_without_spaces_twice, law_strip_spaces_keeps_other_characters, occurs_in, replace, replace_all, str_eq, strip_spaces, views,
    without_spaces,
};

verus! {

/// `s` with the vector type names `Vec4`, `Vec3` and `Vec2` spelled as the
/// WGSL types `vec4<f32>`, `vec3<f32>` and `vec2<f32>`, in that order.
pub open spec fn fixed_symbols(s: Seq<char>) -> Seq<char> {
    replace_all(
        replace_all(replace_all(s, "Vec4"@, "vec4<f32>"@), "Vec3"@, "vec3<f32>"@),
        "Vec2"@,
        "vec2<f32>"@,
    )
}

/// Rewrites the vector type names of `s` into WGSL spelling.
pub fn fix_symbols(s: &mut String)
    ensures
        final(s)@ == fixed_symbols(old(s)@),
{
    proof {
        reveal_strlit("Vec4");
        reveal_strlit("Vec3");
        reveal_strlit("Vec2");
    }
    let a = replace(s.as_str(), "Vec4", "vec4<f32>");
    let b = replace(a.as_str(), "Vec3", "vec3<f32>");
    let c = replace(b.as_str(), "Vec2", "vec2<f32>");
    *s = c;
}

/// Rewriting leaves none of the Rust vector type names `Vec4`, `Vec3` and
/// `Vec2` in the text.
pub proof fn law_fixed_has_no_vector_names(s: Seq<char>)
    ensures
        !occurs_in(fixed_symbols(s), "Vec4"@),
        !occurs_in(fixed_symbols(s), "Vec3"@),
        !occurs_in(fixed_symbols(s), "Vec2"@),
{
    reveal_strlit("Vec4");
    reveal_strlit("Vec3");
    reveal_strlit("Vec2");
    reveal_strlit("vec4<f32>");
    reveal_strlit("vec3<f32>");
    reveal_strlit("vec2<f32>");
    let (p4, p3, p2) = ("Vec4"@, "Vec3"@, "Vec2"@);
    let (w4, w3, w2) = ("vec4<f32>"@, "vec3<f32>"@, "vec2<f32>"@);
    assert(!w4.contains('V') && !w3.contains('V') && !w2.contains('V')) by {
        assert forall|i: int| 0 <= i < 9 implies w4[i] != 'V' && w3[i] != 'V' && w2[i] != 'V' by {}
    }
    assert(!p4.skip(1).contains('v') && !p3.skip(1).contains('v') && !p2.skip(1).contains('v')) by {
        assert forall|i: int| 0 <= i < 3 implies p4.skip(1)[i] != 'v' && p3.skip(1)[i] != 'v'
            && p2.skip(1)[i] != 'v' by {}
    }
    let a = replace_all(s, p4, w4);
    lemma_no_occurrence_after_replace(s, p4, w4, p4);
    let b = replace_all(a, p3, w3);
    lemma_no_occurrence_after_replace(a, p3, w3, p3);
    lemma_no_occurrence_after_replace(a, p3, w3, p4);
    lemma_no_occurrence_after_replace(b, p2, w2, p2);
    lemma_no_occurrence_after_replace(b, p2, w2, p3);
    lemma_no_occurrence_after_replace(b, p2, w2, p4);
}

/// Rewriting twice gives what rewriting once gives.
pub proof fn law_fix_symbols_idempotent(s: Seq<char>)
    ensures
        fixed_symbols(fixed_symbols(s)) == fixed_symbols(s),
{
    reveal_strlit("Vec4");
    reveal_strlit("Vec3");
    reveal_strlit("Vec2");
    law_fixed_has_no_vector_names(s);
    let f = fixed_symbols(s);
    lemma_replace_absent(f, "Vec4"@, "vec4<f32>"@);
    lemma_replace_absent(f, "Vec3"@, "vec3<f32>"@);
    lemma_replace_absent(f, "Vec2"@, "vec2<f32>"@);
}

/// The WGSL spelling of a field or parameter type given as token text.
pub open spec fn wgsl_type(ty: Seq<char>) -> Seq<char> {
    let t = without_spaces(ty);
    if t == "Vec2<f32>"@ {
        "vec2<f32>"@
    } else if t == "Vec3<f32>"@ {
        "vec3<f32>"@
    } else if t == "Vec4<f32>"@ {
        "vec4<f32>"@
    } else if t == "f32"@ {
        "f32"@
    } else {
        t
    }
}

/// The Rust type that a generated struct uses for a type given as token text.
pub open spec fn rust_field_type(ty: Seq<char>) -> RustFieldType {
    let t = without_spaces(ty);
    if t == "Vec2<f32>"@ {
        RustFieldType::F32x2
    } else if t == "Vec3<f32>"@ {
        RustFieldType::F32x3
    } else if t == "Vec4<f32>"@ {
        RustFieldType::F32x4
    } else if t == "f32"@ {
        RustFieldType::F32
    } else {
        RustFieldType::Declared
    }
}

/// How the tokens of a type are spaced does not change its translation.
pub proof fn law_type_spacing_irrelevant(ty: Seq<char>)
    ensures
        wgsl_type(without_spaces(ty)) == wgsl_type(ty),
        rust_field_type(without_spaces(ty)) == rust_field_type(ty),
{
    lemma_without_spaces_twice(ty);
}

/// The WGSL type and the Rust type for a type given as token text.
pub fn translate_type_dual(ty: &str) -> (r: (String, RustFieldType))
    ensures
        r.0@ == wgsl_type(ty@),
        r.1 == rust_field_type(ty@),
{
    let t = strip_spaces(ty);
    if str_eq(t.as_str(), "Vec2<f32>") {
        (String::from_str("vec2<f32>"), RustFieldType::F32x2)
    } else if str_eq(t.as_str(), "Vec3<f32>") {
        (String::from_str("vec3<f32>"), RustFieldType::F32x3)
    } else if str_eq(t.as_str(), "Vec4<f32>") {
        (String::from_str("vec4<f32>"), RustFieldType::F32x4)
    } else if str_eq(t.as_str(), "f32") {
        (String::from_str("f32"), RustFieldType::F32)
    } else {
        (t, RustFieldType::Declared)
    }
}

/// A constructor for a declared struct gets one argument per declared field,
/// in declaration order: the value given for that field, or `0.0`.
pub proof fn law_constructor_arity(declared: Seq<Seq<char>>, given: Map<Seq<char>, Seq<char>>)
    ensures
        ordered_values(declared, given).len() == declared.len(),
        forall|i: int|
            0 <= i < declared.len() ==> #[trigger] ordered_values(declared, given)[i] == (if given.contains_key(
                declared[i],
            ) {
                given[declared[i]]
            } else {
                "0.0"@
            }),
{
}

/// A path whose token text has no spaces and names no `Vec4`, `Vec3` or
/// `Vec2` translates to its own text: identifiers keep every character.
pub proof fn law_plain_path_is_kept(tokens: String, tbl: Map<Seq<char>, Seq<Seq<char>>>)
    requires
        !tokens@.contains(' '),
        !occurs_in(tokens@, "Vec4"@),
        !occurs_in(tokens@, "Vec3"@),
        !occurs_in(tokens@, "Vec2"@),
    ensures
        expr_wgsl(ShaderExpr::Path { tokens }, tbl) == tokens@,
{
    reveal_strlit("Vec4");
    reveal_strlit("Vec3");
    reveal_strlit("Vec2");
    law_strip_spaces_keeps_other_characters(tokens@, 'a');
    let t = tokens@;
    lemma_replace_absent(t, "Vec4"@, "vec4<f32>"@);
    lemma_replace_absent(t, "Vec3"@, "vec3<f32>"@);
    lemma_replace_absent(t, "Vec2"@, "vec2<f32>"@);
}

/// A call whose name has no spaces and names no vector type keeps its name:
/// its translation is the name, `(`, the translated arguments, and `)`.
pub proof fn law_plain_call_name_is_kept(
    func: String,
    args: Vec<ShaderExpr>,
    tbl: Map<Seq<char>, Seq<Seq<char>>>,
)
    requires
        !func@.contains(' '),
        !occurs_in(func@, "Vec4"@),
        !occurs_in(func@, "Vec3"@),
        !occurs_in(func@, "Vec2"@),
    ensures
        expr_wgsl(ShaderExpr::Call { func, args }, tbl) == func@ + "("@ + join(
            args_wgsl(args@, args@.len(), tbl),
            ", "@,
        ) + ")"@,
{
    reveal_strlit("Vec4");
    reveal_strlit("Vec3");
    reveal_strlit("Vec2");
    law_strip_spaces_keeps_other_characters(func@, 'a');
    let t = func@;
    lemma_replace_absent(t, "Vec4"@, "vec4<f32>"@);
    lemma_replace_absent(t, "Vec3"@, "vec3<f32>"@);
    lemma_replace_absent(t, "Vec2"@, "vec2<f32>"@);
}

/// The last statement of a block, when it is an expression without `;`,
/// returns that expression, whatever kind of expression it is: the block
/// ends with `  return `, the expression's WGSL, `;`, a newline and `}`.
pub proof fn law_tail_expression_is_returned(
    stmts: Seq<ShaderStmt>,
    e: ShaderExpr,
    tbl: Map<Seq<char>, Seq<Seq<char>>>,
)
    ensures
        exists|head: Seq<char>|
            block_wgsl(stmts.push(ShaderStmt::Expr { expr: e, semi: false }), tbl) == head
                + "  return "@ + expr_wgsl(e, tbl) + ";\n"@ + "}"@,
{
    let all = stmts.push(ShaderStmt::Expr { expr: e, semi: false });
    let head = "{\n"@ + stmts_wgsl(all, stmts.len(), tbl);
    assert(all[all.len() - 1] == ShaderStmt::Expr { expr: e, semi: false });
    assert(stmts_wgsl(all, all.len(), tbl) == stmts_wgsl(all, stmts.len(), tbl) + stmt_wgsl(
        all[all.len() - 1],
        true,
        tbl,
    ));
    assert(block_wgsl(all, tbl) == head + "  return "@ + expr_wgsl(e, tbl) + ";\n"@ + "}"@);
}

/// The names of the structs of a field table.
pub open spec fn table_names(tbl: Seq<StructFields>) -> Seq<Seq<char>> {
    tbl.map_values(|s: StructFields| s.name@)
}

/// The declared field names of the structs of a field table.
pub open spec fn table_fields(tbl: Seq<StructFields>) -> Seq<Seq<Seq<char>>> {
    tbl.map_values(|s: StructFields| views(s.fields@))
}

/// The map from struct name to declared field names that a field table
/// stands for; a later struct replaces an earlier one of the same name.
pub open spec fn field_table(tbl: Seq<StructFields>) -> Map<Seq<char>, Seq<Seq<char>>> {
    assoc(table_names(tbl), table_fields(tbl))
}

/// The declared field names of the struct called `name`, if the table has one.
fn lookup_fields<'a>(tbl: &'a Vec<StructFields>, name: &str) -> (r: Option<&'a Vec<String>>)
    ensures
        r is Some <==> field_table(tbl@).contains_key(name@),
        r matches Some(v) ==> views(v@) == field_table(tbl@)[name@],
{
    let mut names: Vec<String> = Vec::new();
    let mut i: usize = 0;
    while i < tbl.len()
        invariant
            i <= tbl@.len(),
            names@.len() == i,
            forall|j: int| 0 <= j < i ==> names@[j]@ == tbl@[j].name@,
        decreases tbl@.len() - i,
    {
        names.push(tbl[i].name.clone());
        i += 1;
    }
    assert(views(names@) =~= table_names(tbl@));
    match find_last(&names, name) {
        Some(k) => {
            proof {
                assert(table_names(tbl@)[k as int] == name@);
                lemma_assoc_hit(table_names(tbl@), table_fields(tbl@), k as int);
            }
            Some(&tbl[k].fields)
        },
        None => {
            proof {
                lemma_assoc_miss(table_names(tbl@), table_fields(tbl@), name@);
            }
            None
        },
    }
}

/// The WGSL text of an expression, given the declared fields of the structs.
pub open spec fn expr_wgsl(e: ShaderExpr, tbl: Map<Seq<char>, Seq<Seq<char>>>) -> Seq<char>
    decreases e, 0nat,
{
    match e {
        ShaderExpr::Struct { name, fields, tokens } => {
            if tbl.contains_key(name@) {
                name@ + "("@ + join(
                    ordered_values(tbl[name@], inits_wgsl(fields@, fields@.len(), tbl)),
                    ", "@,
                ) + ")"@
            } else {
                fixed_symbols(tokens@)
            }
        },
        ShaderExpr::Call { func, args } => fixed_symbols(without_spaces(func@)) + "("@ + join(
            args_wgsl(args@, args@.len(), tbl),
            ", "@,
        ) + ")"@,
        ShaderExpr::Field { base, member } => expr_wgsl(*base, tbl) + "."@ + member@,
        ShaderExpr::Path { tokens } => fixed_symbols(without_spaces(tokens@)),
        ShaderExpr::Other { tokens } => fixed_symbols(tokens@),
    }
}

/// The WGSL texts of the first `n` expressions of `args`.
pub open spec fn args_wgsl(args: Seq<ShaderExpr>, n: nat, tbl: Map<Seq<char>, Seq<Seq<char>>>) -> Seq<
    Seq<char>,
>
    decreases args, n,
{
    if n == 0 || n > args.len() {
        Seq::empty()
    } else {
        args_wgsl(args, (n - 1) as nat, tbl).push(expr_wgsl(args[n - 1], tbl))
    }
}

/// The map from member name to WGSL value that the first `n` initializers
/// of a struct expression give; a later member replaces an earlier one.
pub open spec fn inits_wgsl(fields: Seq<FieldInit>, n: nat, tbl: Map<Seq<char>, Seq<Seq<char>>>) -> Map<
    Seq<char>,
    Seq<char>,
>
    decreases fields, n,
{
    if n == 0 || n > fields.len() {
        Map::empty()
    } else {
        let m = inits_wgsl(fields, (n - 1) as nat, tbl);
        match fields[n - 1].member {
            Some(k) => m.insert(k@, expr_wgsl(fields[n - 1].value, tbl)),
            None => m,
        }
    }
}

/// The value given for each declared field, in declaration order, `0.0` where none is given.
pub open spec fn ordered_values(declared: Seq<Seq<char>>, given: Map<Seq<char>, Seq<char>>) -> Seq<
    Seq<char>,
> {
    declared.map_values(
        |f: Seq<char>|
            if given.contains_key(f) {
                given[f]
            } else {
                "0.0"@
            },
    )
}

/// The member values of a struct expression, as the map from member name
/// to WGSL text that `inits_wgsl` describes, kept as two parallel lists.
fn translate_inits(fields: &Vec<FieldInit>, struct_fields: &Vec<StructFields>, Ghost(whole): Ghost<
    ShaderExpr,
>) -> (r: (Vec<String>, Vec<String>))
    requires
        whole matches ShaderExpr::Struct { fields: fs, .. } && fs == *fields,
    ensures
        r.0@.len() == r.1@.len(),
        assoc(views(r.0@), views(r.1@)) == inits_wgsl(
            fields@,
            fields@.len(),
            field_table(struct_fields@),
        ),
    decreases whole, 1nat,
{
    let ghost tbl = field_table(struct_fields@);
    let mut keys: Vec<String> = Vec::new();
    let mut vals: Vec<String> = Vec::new();
    let mut i: usize = 0;
    while i < fields.len()
        invariant
            whole matches ShaderExpr::Struct { fields: fs, .. } && fs == *fields,
            tbl == field_table(struct_fields@),
            i <= fields@.len(),
            keys@.len() == vals@.len(),
            assoc(views(keys@), views(vals@)) == inits_wgsl(fields@, i as nat, tbl),
        decreases fields@.len() - i,
    {
        match &fields[i].member {
            Some(m) => {
                proof {
                    assert(decreases_to!(whole => fields@[i as int].value));
                }
                let v = translate_expr(&fields[i].value, struct_fields);
                let ghost old_keys = views(keys@);
                let ghost old_vals = views(vals@);
                keys.push(m.clone());
                vals.push(v);
                proof {
                    assert(views(keys@).drop_last() =~= old_keys);
                    assert forall|j: int| 0 <= j < old_keys.len() implies old_vals[j] == views(
                        vals@,
                    )[j] by {}
                    lemma_assoc_values(old_keys, old_vals, views(vals@));
                }
            },
            None => {},
        }
        i += 1;
    }
    (keys, vals)
}

/// The WGSL text of an expression, given the declared fields of the shader's structs.
pub fn translate_expr(expr: &ShaderExpr, struct_fields: &Vec<StructFields>) -> (r: String)
    ensures
        r@ == expr_wgsl(*expr, field_table(struct_fields@)),
    decreases *expr, 2nat,
{
    let ghost tbl = field_table(struct_fields@);
    match expr {
        ShaderExpr::Struct { name, fields, tokens } => {
            match lookup_fields(struct_fields, name.as_str()) {
                Some(declared) => {
                    let (keys, vals) = translate_inits(fields, struct_fields, Ghost(*expr));
                    let ghost given = inits_wgsl(fields@, fields@.len(), tbl);
                    let mut ordered: Vec<String> = Vec::new();
                    let mut j: usize = 0;
                    while j < declared.len()
                        invariant
                            j <= declared@.len(),
                            keys@.len() == vals@.len(),
                            assoc(views(keys@), views(vals@)) == given,
                            ordered@.len() == j,
                            forall|k: int|
                                0 <= k < j ==> ordered@[k]@ == ordered_values(
                                    views(declared@),
                                    given,
                                )[k],
                        decreases declared@.len() - j,
                    {
                        match find_last(&keys, declared[j].as_str()) {
                            Some(k) => {
                                proof {
                                    lemma_assoc_hit(views(keys@), views(vals@), k as int);
                                }
                                ordered.push(vals[k].clone());
                            },
                            None => {
                                proof {
                                    lemma_assoc_miss(views(keys@), views(vals@), declared@[j as int]@);
                                }
                                ordered.push(String::from_str("0.0"));
                            },
                        }
                        j += 1;
                    }
                    assert(views(ordered@) =~= ordered_values(views(declared@), given));
                    let mut out = name.clone();
                    out.append("(");
                    out.append(join_strings(&ordered, ", ").as_str());
                    out.append(")");
                    out
                },
                None => {
                    let mut out = tokens.clone();
                    fix_symbols(&mut out);
                    out
                },
            }
        },
        ShaderExpr::Call { func, args } => {
            let mut out = strip_spaces(func.as_str());
            fix_symbols(&mut out);
            let mut parts: Vec<String> = Vec::new();
            let mut i: usize = 0;
            while i < args.len()
                invariant
                    i <= args@.len(),
                    views(parts@) == args_wgsl(args@, i as nat, tbl),
                    tbl == field_table(struct_fields@),
                    *expr == (ShaderExpr::Call { func: *func, args: *args }),
                decreases args@.len() - i,
            {
                proof {
                    assert(decreases_to!(*expr => (*expr)->args));
                    assert(decreases_to!((*expr)->args => args@));
                }
                let part = translate_expr(&args[i], struct_fields);
                let ghost before = views(parts@);
                parts.push(part);
                assert(views(parts@) =~= before.push(part@));
                i += 1;
            }
            out.append("(");
            out.append(join_strings(&parts, ", ").as_str());
            out.append(")");
            out
        },
        ShaderExpr::Field { base, member } => {
            let mut out = translate_expr(base, struct_fields);
            out.append(".");
            out.append(member.as_str());
            out
        },
        ShaderExpr::Path { tokens } => {
            let mut out = strip_spaces(tokens.as_str());
            fix_symbols(&mut out);
            out
        },
        ShaderExpr::Other { tokens } => {
            let mut out = tokens.clone();
            fix_symbols(&mut out);
            out
        },
    }
}

/// The WGSL line of a statement; `is_last` tells whether it ends its block,
/// where an expression without `;` becomes the returned value.
pub open spec fn stmt_wgsl(st: ShaderStmt, is_last: bool, tbl: Map<Seq<char>, Seq<Seq<char>>>) -> Seq<
    char,
> {
    match st {
        ShaderStmt::Expr { expr, semi } => {
            if is_last && !semi {
                "  return "@ + expr_wgsl(expr, tbl) + ";\n"@
            } else {
                "  "@ + expr_wgsl(expr, tbl) + (if semi {
                    ";"@
                } else {
                    Seq::empty()
                }) + "\n"@
            }
        },
        ShaderStmt::Local { pat, init } => "  var "@ + pat@ + " = "@ + (match init {
            Some(e) => expr_wgsl(e, tbl),
            None => Seq::empty(),
        }) + ";\n"@,
        ShaderStmt::Other { tokens } => "  "@ + fixed_symbols(tokens@) + "\n"@,
    }
}

/// The WGSL lines of the first `n` statements of a block.
pub open spec fn stmts_wgsl(stmts: Seq<ShaderStmt>, n: nat, tbl: Map<Seq<char>, Seq<Seq<char>>>) -> Seq<
    char,
>
    decreases n,
{
    if n == 0 || n > stmts.len() {
        Seq::empty()
    } else {
        stmts_wgsl(stmts, (n - 1) as nat, tbl) + stmt_wgsl(stmts[n - 1], n == stmts.len(), tbl)
    }
}

/// The WGSL text of a function body.
pub open spec fn block_wgsl(stmts: Seq<ShaderStmt>, tbl: Map<Seq<char>, Seq<Seq<char>>>) -> Seq<char> {
    "{\n"@ + stmts_wgsl(stmts, stmts.len(), tbl) + "}"@
}

/// The WGSL line of one statement.
fn translate_stmt(st: &ShaderStmt, is_last: bool, struct_fields: &Vec<StructFields>) -> (r: String)
    ensures
        r@ == stmt_wgsl(*st, is_last, field_table(struct_fields@)),
{
    proof {
        reveal_strlit(";");
    }
    let mut out = String::new();
    match st {
        ShaderStmt::Expr { expr, semi } => {
            if is_last && !*semi {
                out.append("  return ");
                out.append(translate_expr(expr, struct_fields).as_str());
                out.append(";\n");
            } else {
                out.append("  ");
                out.append(translate_expr(expr, struct_fields).as_str());
                if *semi {
                    out.append(";");
                }
                out.append("\n");
            }
        },
        ShaderStmt::Local { pat, init } => {
            out.append("  var ");
            out.append(pat.as_str());
            out.append(" = ");
            match init {
                Some(e) => {
                    out.append(translate_expr(e, struct_fields).as_str());
                },
                None => {},
            }
            out.append(";\n");
        },
        ShaderStmt::Other { tokens } => {
            let mut text = tokens.clone();
            fix_symbols(&mut text);
            out.append("  ");
            out.append(text.as_str());
            out.append("\n");
        },
    }
    out
}

/// The WGSL text of a function body, given the declared fields of the shader's structs.
pub fn translate_block(block: &Vec<ShaderStmt>, struct_fields: &Vec<StructFields>) -> (r: String)
    ensures
        r@ == block_wgsl(block@, field_table(struct_fields@)),
{
    let ghost tbl = field_table(struct_fields@);
    let mut out = String::new();
    out.append("{\n");
    let mut i: usize = 0;
    while i < block.len()
        invariant
            i <= block@.len(),
            tbl == field_table(struct_fields@),
            out@ == "{\n"@ + stmts_wgsl(block@, i as nat, tbl),
        decreases block@.len() - i,
    {
        let is_last = i + 1 == block.len();
        let line = translate_stmt(&block[i], is_last, struct_fields);
        out.append(line.as_str());
        i += 1;
    }
    out.append("}");
    out
}

} // verus!
