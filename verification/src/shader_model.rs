//! The shader description language: a block of Rust-like structs and
//! functions that is translated to WGSL.
//!
//! Every piece of source text is kept as the token text that the Rust
//! tokenizer prints for it (tokens separated by single spaces).
use vstd::prelude::*;

verus! {

/// An attribute such as `#[builtin(position)]` or `#[vertex]`.
pub struct ShaderAttr {
    /// The attribute's path when it is a single identifier (`builtin`, `vertex`, ...).
    pub path: Option<String>,
    /// The attribute's argument when its arguments are exactly one identifier.
    pub arg: Option<String>,
}

/// A field of a shader struct.
pub struct ShaderField {
    /// The field's name; `None` for a positional field.
    pub name: Option<String>,
    /// The token text of the field's type.
    pub ty: String,
    pub attrs: Vec<ShaderAttr>,
}

/// A struct declared in a shader block.
pub struct ShaderStruct {
    pub name: String,
    pub fields: Vec<ShaderField>,
}

/// A parameter of a shader function.
pub enum ShaderParam {
    /// A `self` parameter.
    Receiver,
    /// A `pattern: Type` parameter, both as token text.
    Typed { pat: String, ty: String },
}

/// One initializer `member: value` of a struct expression.
pub struct FieldInit {
    /// The member's name, `None` for a positional member such as `0`.
    pub member: Option<String>,
    pub value: ShaderExpr,
}

/// An expression of a shader function body.
pub enum ShaderExpr {
    /// `Path { member: value, .. }`: `name` is the last segment of the path,
    /// `tokens` the token text of the whole expression.
    Struct { name: String, fields: Vec<FieldInit>, tokens: String },
    /// `func(args..)`: `func` is the token text of the called expression.
    Call { func: String, args: Vec<ShaderExpr> },
    /// `base.member`: `member` is the field's name or its index.
    Field { base: Box<ShaderExpr>, member: String },
    /// A path such as `vertex` or `Vec4`, as token text.
    Path { tokens: String },
    /// Any other expression, as token text.
    Other { tokens: String },
}

/// A statement of a shader function body.
pub enum ShaderStmt {
    /// An expression statement; `semi` tells whether a `;` follows it.
    Expr { expr: ShaderExpr, semi: bool },
    /// `let pat = init;`, the pattern as token text.
    Local { pat: String, init: Option<ShaderExpr> },
    /// Any other statement (an item or a macro), as token text.
    Other { tokens: String },
}

/// A function declared in a shader block.
pub struct ShaderFn {
    pub name: String,
    pub attrs: Vec<ShaderAttr>,
    pub params: Vec<ShaderParam>,
    /// The token text of the return type, `None` when the function declares none.
    pub ret: Option<String>,
    pub body: Vec<ShaderStmt>,
}

/// An item of a shader block.
pub enum ShaderItem {
    Struct(ShaderStruct),
    Fn(ShaderFn),
}

/// A named shader: `Name { items.. }`.
pub struct ShaderBlock {
    pub name: String,
    pub items: Vec<ShaderItem>,
}

/// What the next item of a shader block starts with decides how it is read.
#[derive(Clone, Copy, Debug, PartialEq, Eq, Structural)]
pub enum ShaderItemKind {
    Struct,
    Fn,
}

/// The kind of item that a shader block reads next: a struct when the next
/// token is `struct`, a function when it is `fn` or `#`, and `None` (an
/// "expected struct or fn" error) otherwise.
pub fn next_item_kind(starts_with_struct: bool, starts_with_fn: bool, starts_with_attr: bool) -> (r:
    Option<ShaderItemKind>)
    ensures
        starts_with_struct ==> r == Some(ShaderItemKind::Struct),
        !starts_with_struct && (starts_with_fn || starts_with_attr) ==> r == Some(ShaderItemKind::Fn),
        !starts_with_struct && !starts_with_fn && !starts_with_attr ==> r is None,
{
    if starts_with_struct {
        Some(ShaderItemKind::Struct)
    } else if starts_with_fn || starts_with_attr {
        Some(ShaderItemKind::Fn)
    } else {
        None
    }
}

/// The Rust type that a generated struct gives a field.
#[derive(Clone, Copy, Debug, PartialEq, Eq, Structural)]
pub enum RustFieldType {
    /// `[f32; 2]`
    F32x2,
    /// `[f32; 3]`
    F32x3,
    /// `[f32; 4]`
    F32x4,
    /// `f32`
    F32,
    /// The type that the field was declared with.
    Declared,
}

/// A field of a generated Rust struct.
pub struct GeneratedField {
    pub name: String,
    pub ty: RustFieldType,
}

/// A `#[repr(C)]` plain-data Rust struct generated for a shader struct.
pub struct GeneratedStruct {
    pub name: String,
    pub fields: Vec<GeneratedField>,
}

/// Everything that a shader block expands to.
pub struct ShaderExpansion {
    /// The shader's name, also the name of its marker type.
    pub shader_name: String,
    /// One generated struct per shader struct, in order.
    pub structs: Vec<GeneratedStruct>,
    /// The generated vertex type, `None` when the block declares no `Vertex` struct.
    pub vertex_type: Option<String>,
    /// The generated result type, `None` when the block declares no `VertexResult` struct.
    pub result_type: Option<String>,
    /// The WGSL source of the shader.
    pub wgsl: String,
}

/// The declared field names of one struct, as the translator looks them up.
pub struct StructFields {
    pub name: String,
    pub fields: Vec<String>,
}

} // verus!
