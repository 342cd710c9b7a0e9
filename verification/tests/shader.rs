use luma::shader_expand::shader;
use luma::shader_gen::{fix_symbols, translate_block, translate_expr, translate_type_dual};
use luma::shader_model::{
    next_item_kind, FieldInit, RustFieldType, ShaderAttr, ShaderBlock, ShaderExpr, ShaderField,
    ShaderFn, ShaderItem, ShaderItemKind, ShaderParam, ShaderStmt, ShaderStruct, StructFields,
};

fn s(text: &str) -> String {
    text.to_string()
}

fn path(text: &str) -> ShaderExpr {
    ShaderExpr::Path { tokens: s(text) }
}

fn other(text: &str) -> ShaderExpr {
    ShaderExpr::Other { tokens: s(text) }
}

fn field(base: ShaderExpr, member: &str) -> ShaderExpr {
    ShaderExpr::Field { base: Box::new(base), member: s(member) }
}

fn call(func: &str, args: Vec<ShaderExpr>) -> ShaderExpr {
    ShaderExpr::Call { func: s(func), args }
}

fn attr(path: &str, arg: Option<&str>) -> ShaderAttr {
    ShaderAttr { path: Some(s(path)), arg: arg.map(s) }
}

fn plain_field(name: &str, ty: &str, attrs: Vec<ShaderAttr>) -> ShaderField {
    ShaderField { name: Some(s(name)), ty: s(ty), attrs }
}

fn table(entries: &[(&str, &[&str])]) -> Vec<StructFields> {
    entries
        .iter()
        .map(|(name, fields)| StructFields {
            name: s(name),
            fields: fields.iter().map(|f| s(f)).collect(),
        })
        .collect()
}

/// The block that the triangle example declares.
fn triangle_block() -> ShaderBlock {
    let vertex = ShaderStruct {
        name: s("Vertex"),
        fields: vec![
            plain_field("position", "Vec2 < f32 >", vec![attr("location", None)]),
            plain_field("color", "Vec3 < f32 >", vec![attr("location", None)]),
        ],
    };
    let result = ShaderStruct {
        name: s("VertexResult"),
        fields: vec![plain_field("position", "Vec4 < f32 >", vec![attr("builtin", Some("position"))])],
    };
    let vertex_body = vec![ShaderStmt::Expr {
        expr: ShaderExpr::Struct {
            name: s("VertexResult"),
            fields: vec![FieldInit {
                member: Some(s("position")),
                value: call(
                    "Vec4",
                    vec![
                        field(field(path("vertex"), "position"), "x"),
                        field(field(path("vertex"), "position"), "y"),
                        other("0.0"),
                        other("1.0"),
                    ],
                ),
            }],
            tokens: s("VertexResult { position : Vec4 (vertex . position . x , vertex . position . y , 0.0 , 1.0) }"),
        },
        semi: false,
    }];
    let vertex_main = ShaderFn {
        name: s("vertex_main"),
        attrs: vec![attr("vertex", None)],
        params: vec![ShaderParam::Typed { pat: s("vertex"), ty: s("Vertex") }],
        ret: Some(s("VertexResult")),
        body: vertex_body,
    };
    let fragment_main = ShaderFn {
        name: s("fragment_main"),
        attrs: vec![attr("fragment", None)],
        params: vec![ShaderParam::Typed { pat: s("vertex"), ty: s("VertexResult") }],
        ret: Some(s("Vec4 < f32 >")),
        body: vec![ShaderStmt::Expr {
            expr: call("Vec4", vec![other("1.0"), other("1.0"), other("0.0"), other("1.0")]),
            semi: false,
        }],
    };
    ShaderBlock {
        name: s("Triangle"),
        items: vec![
            ShaderItem::Struct(vertex),
            ShaderItem::Struct(result),
            ShaderItem::Fn(vertex_main),
            ShaderItem::Fn(fragment_main),
        ],
    }
}

#[test]
fn fix_symbols_rewrites_every_vector_name() {
    let mut text = s("Vec4(a) + Vec3(b) * Vec2(c) + Vec4");
    fix_symbols(&mut text);
    assert_eq!(text, "vec4<f32>(a) + vec3<f32>(b) * vec2<f32>(c) + vec4<f32>");
}

#[test]
fn fix_symbols_leaves_other_text() {
    let mut text = s("vec4 Vec5 Ve c4 vec2<f32>");
    fix_symbols(&mut text);
    assert_eq!(text, "vec4 Vec5 Ve c4 vec2<f32>");
}

#[test]
fn fix_symbols_twice_is_once() {
    let mut once = s("VVec44 Vec3Vec2");
    fix_symbols(&mut once);
    let mut twice = once.clone();
    fix_symbols(&mut twice);
    assert_eq!(once, "Vvec4<f32>4 vec3<f32>vec2<f32>");
    assert_eq!(twice, once);
}

#[test]
fn type_translation_of_vectors() {
    assert_eq!(translate_type_dual("Vec2 < f32 >"), (s("vec2<f32>"), RustFieldType::F32x2));
    assert_eq!(translate_type_dual("Vec3<f32>"), (s("vec3<f32>"), RustFieldType::F32x3));
    assert_eq!(translate_type_dual("Vec4 <f32>"), (s("vec4<f32>"), RustFieldType::F32x4));
    assert_eq!(translate_type_dual("f32"), (s("f32"), RustFieldType::F32));
}

#[test]
fn type_translation_keeps_other_types_without_spaces() {
    assert_eq!(translate_type_dual("Vertex Result"), (s("VertexResult"), RustFieldType::Declared));
    assert_eq!(translate_type_dual("Vec2 < u32 >"), (s("Vec2<u32>"), RustFieldType::Declared));
}

#[test]
fn expr_path_and_field() {
    let tbl = table(&[]);
    assert_eq!(translate_expr(&path("Vec4"), &tbl), "vec4<f32>");
    assert_eq!(translate_expr(&path("a :: b"), &tbl), "a::b");
    assert_eq!(translate_expr(&field(field(path("v"), "position"), "0"), &tbl), "v.position.0");
}

#[test]
fn expr_call_joins_arguments() {
    let tbl = table(&[]);
    let e = call("Vec3", vec![other("1.0"), path("x"), call("f", vec![])]);
    assert_eq!(translate_expr(&e, &tbl), "vec3<f32>(1.0, x, f())");
}

#[test]
fn expr_nested_vector_calls() {
    let tbl = table(&[]);
    let e = call("Vec4", vec![call("Vec2", vec![path("a")]), call("Vec3", vec![path("b")])]);
    assert_eq!(translate_expr(&e, &tbl), "vec4<f32>(vec2<f32>(a), vec3<f32>(b))");
}

#[test]
fn expr_other_keeps_spacing() {
    let tbl = table(&[]);
    assert_eq!(translate_expr(&other("a + Vec2 (1.0 , 2.0)"), &tbl), "a + vec2<f32> (1.0 , 2.0)");
}

#[test]
fn expr_struct_orders_arguments_by_declaration() {
    let tbl = table(&[("Pair", &["a", "b", "c"])]);
    let e = ShaderExpr::Struct {
        name: s("Pair"),
        fields: vec![
            FieldInit { member: Some(s("c")), value: other("3.0") },
            FieldInit { member: Some(s("a")), value: other("1.0") },
            FieldInit { member: None, value: other("9.0") },
            FieldInit { member: Some(s("a")), value: path("Vec2") },
        ],
        tokens: s("Pair { c : 3.0 , a : 1.0 }"),
    };
    assert_eq!(translate_expr(&e, &tbl), "Pair(vec2<f32>, 0.0, 3.0)");
}

#[test]
fn expr_struct_unknown_keeps_tokens() {
    let tbl = table(&[("Pair", &["a"])]);
    let e = ShaderExpr::Struct {
        name: s("Other"),
        fields: vec![FieldInit { member: Some(s("a")), value: other("1.0") }],
        tokens: s("Other { a : Vec4 (1.0) }"),
    };
    assert_eq!(translate_expr(&e, &tbl), "Other { a : vec4<f32> (1.0) }");
}

#[test]
fn expr_struct_later_declaration_wins() {
    let tbl = table(&[("P", &["a"]), ("P", &["b", "a"])]);
    let e = ShaderExpr::Struct {
        name: s("P"),
        fields: vec![FieldInit { member: Some(s("a")), value: other("1.0") }],
        tokens: s("P { a : 1.0 }"),
    };
    assert_eq!(translate_expr(&e, &tbl), "P(0.0, 1.0)");
}

#[test]
fn block_statements() {
    let tbl = table(&[]);
    let body = vec![
        ShaderStmt::Local { pat: s("x"), init: Some(call("Vec2", vec![other("1.0"), other("2.0")])) },
        ShaderStmt::Local { pat: s("y : f32"), init: None },
        ShaderStmt::Expr { expr: path("x"), semi: true },
        ShaderStmt::Other { tokens: s("let_me ! (Vec3)") },
        ShaderStmt::Expr { expr: path("y"), semi: false },
    ];
    assert_eq!(
        translate_block(&body, &tbl),
        "{\n  var x = vec2<f32>(1.0, 2.0);\n  var y : f32 = ;\n  x;\n  let_me ! (vec3<f32>)\n  return y;\n}"
    );
}

#[test]
fn block_expression_without_semicolon_before_the_end() {
    let tbl = table(&[]);
    let body = vec![
        ShaderStmt::Expr { expr: path("a"), semi: false },
        ShaderStmt::Expr { expr: path("b"), semi: true },
    ];
    assert_eq!(translate_block(&body, &tbl), "{\n  a\n  b;\n}");
}

#[test]
fn empty_block() {
    assert_eq!(translate_block(&vec![], &table(&[])), "{\n}");
}

#[test]
fn triangle_shader_expansion() {
    let expansion = shader(&triangle_block());
    assert_eq!(expansion.shader_name, "Triangle");
    assert_eq!(expansion.vertex_type, Some(s("TriangleVertex")));
    assert_eq!(expansion.result_type, Some(s("TriangleVertexResult")));
    let expected = "struct Vertex {\n\
                    position: vec2<f32>;\n\
                    color: vec3<f32>;\n\
                    };\n\
                    struct VertexResult {\n  @builtin(position) position: vec4<f32>;\n};\n\
                    @vertex fn vertex_main(vertex: Vertex) -> VertexResult {\n  \
                    return VertexResult(vec4<f32>(vertex.position.x, vertex.position.y, 0.0, 1.0));\n}\n\n\
                    @fragment fn fragment_main(vertex: VertexResult) -> @location(0) vec4<f32> {\n  \
                    return vec4<f32>(1.0, 1.0, 0.0, 1.0);\n}\n\n";
    assert_eq!(expansion.wgsl, expected);
    assert_eq!(expansion.structs.len(), 2);
    assert_eq!(expansion.structs[0].name, "TriangleVertex");
    assert_eq!(expansion.structs[0].fields.len(), 2);
    assert_eq!(expansion.structs[0].fields[0].name, "position");
    assert_eq!(expansion.structs[0].fields[0].ty, RustFieldType::F32x2);
    assert_eq!(expansion.structs[0].fields[1].name, "color");
    assert_eq!(expansion.structs[0].fields[1].ty, RustFieldType::F32x3);
    assert_eq!(expansion.structs[1].name, "TriangleVertexResult");
    assert_eq!(expansion.structs[1].fields[0].ty, RustFieldType::F32x4);
}

#[test]
fn shader_without_vertex_structs() {
    let block = ShaderBlock {
        name: s("Plain"),
        items: vec![ShaderItem::Fn(ShaderFn {
            name: s("helper"),
            attrs: vec![],
            params: vec![ShaderParam::Receiver, ShaderParam::Typed { pat: s("a"), ty: s("f32") }],
            ret: None,
            body: vec![],
        })],
    };
    let expansion = shader(&block);
    assert_eq!(expansion.vertex_type, None);
    assert_eq!(expansion.result_type, None);
    assert!(expansion.structs.is_empty());
    assert_eq!(expansion.wgsl, "fn helper(, a: f32)  {\n}\n\n");
}

#[test]
fn fragment_returning_other_type_has_no_location() {
    let block = ShaderBlock {
        name: s("F"),
        items: vec![ShaderItem::Fn(ShaderFn {
            name: s("main"),
            attrs: vec![attr("vertex", None), attr("fragment", None)],
            params: vec![],
            ret: Some(s("f32")),
            body: vec![],
        })],
    };
    assert_eq!(shader(&block).wgsl, "@vertex @fragment fn main() -> f32 {\n}\n\n");
}

#[test]
fn struct_field_types_keep_declared_type() {
    let block = ShaderBlock {
        name: s("S"),
        items: vec![ShaderItem::Struct(ShaderStruct {
            name: s("Data"),
            fields: vec![plain_field("count", "u32", vec![])],
        })],
    };
    let expansion = shader(&block);
    assert_eq!(expansion.wgsl, "struct Data {\ncount: u32;\n};\n");
    assert_eq!(expansion.structs[0].name, "SData");
    assert_eq!(expansion.structs[0].fields[0].ty, RustFieldType::Declared);
}

#[test]
fn item_kind_from_next_token() {
    assert_eq!(next_item_kind(true, false, false), Some(ShaderItemKind::Struct));
    assert_eq!(next_item_kind(false, true, false), Some(ShaderItemKind::Fn));
    assert_eq!(next_item_kind(false, false, true), Some(ShaderItemKind::Fn));
    assert_eq!(next_item_kind(false, false, false), None);
}
