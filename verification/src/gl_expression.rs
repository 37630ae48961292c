//! Expression nodes: a GLSL expression, evaluated for each pixel, is wrapped
//! into a fragment shader that writes it as a colour.
use vstd::prelude::*;
use vstd::string::StringExecFns;

use crate::strings::str_eq;
use glsl::parser::Parse;
use glsl::syntax::{Expr, FunIdentifier, Identifier};

verus! {

/// The type of a GLSL expression, as far as the wrapping needs it; ordered
/// from the narrowest to the widest.
#[derive(Clone, Copy, Debug, PartialEq, Eq, Structural)]
pub enum GlType {
    Float,
    Vec2,
    Vec3,
    Vec4,
}

/// The place of a type in the order from narrowest to widest.
pub open spec fn gl_type_rank(t: GlType) -> nat {
    match t {
        GlType::Float => 0,
        GlType::Vec2 => 1,
        GlType::Vec3 => 2,
        GlType::Vec4 => 3,
    }
}

/// The wider of two types.
pub open spec fn gl_type_max(a: GlType, b: GlType) -> GlType {
    if gl_type_rank(a) >= gl_type_rank(b) {
        a
    } else {
        b
    }
}

/// The type of a vector with `len` components: a float for one, `vec4` from four on.
pub open spec fn gl_type_of_length(len: nat) -> GlType {
    if len == 1 {
        GlType::Float
    } else if len == 2 {
        GlType::Vec2
    } else if len == 3 {
        GlType::Vec3
    } else {
        GlType::Vec4
    }
}

impl GlType {
    /// The type of a vector with `len` components (a swizzle of that length);
    /// `vec4` for any other length.
    pub fn from_length(len: usize) -> (r: GlType)
        ensures
            r == gl_type_of_length(len as nat),
    {
        match len {
            1 => GlType::Float,
            2 => GlType::Vec2,
            3 => GlType::Vec3,
            _ => GlType::Vec4,
        }
    }

    /// The wider of two types.
    pub fn max(self, other: GlType) -> (r: GlType)
        ensures
            r == gl_type_max(self, other),
    {
        let a: u8 = match self { GlType::Float => 0, GlType::Vec2 => 1, GlType::Vec3 => 2, GlType::Vec4 => 3 };
        let b: u8 = match other { GlType::Float => 0, GlType::Vec2 => 1, GlType::Vec3 => 2, GlType::Vec4 => 3 };
        if a >= b {
            self
        } else {
            other
        }
    }
}

/// The parts of a parsed GLSL expression that decide its type.
#[derive(Debug)]
pub enum GlExpr {
    /// A float literal.
    FloatConst,
    /// A field selection; the length in bytes of the field's name.
    Dot(usize),
    /// A call of a function named by an identifier.
    FunCall(String),
    /// A binary operation on two expressions.
    Binary(Box<GlExpr>, Box<GlExpr>),
    /// Anything else.
    Other,
}

/// The type of an expression: a float literal is a float; a swizzle is as wide
/// as its number of components; `vec2(..)` and `vec3(..)` are those vectors,
/// any other call a `vec4`; a binary operation is as wide as its wider operand;
/// anything else is taken as a `vec4`.
pub open spec fn gl_type_spec(e: GlExpr) -> GlType
    decreases e,
{
    match e {
        GlExpr::FloatConst => GlType::Float,
        GlExpr::Dot(len) => gl_type_of_length(len as nat),
        GlExpr::FunCall(name) => if name@ == "vec2"@ {
            GlType::Vec2
        } else if name@ == "vec3"@ {
            GlType::Vec3
        } else {
            GlType::Vec4
        },
        GlExpr::Binary(a, b) => gl_type_max(gl_type_spec(*a), gl_type_spec(*b)),
        GlExpr::Other => GlType::Vec4,
    }
}

/// The type of a parsed expression (see `gl_type_spec`).
pub fn parse_gl_type(expr: &GlExpr) -> (r: GlType)
    ensures
        r == gl_type_spec(*expr),
    decreases expr,
{
    match expr {
        GlExpr::FloatConst => GlType::Float,
        GlExpr::Dot(len) => GlType::from_length(*len),
        GlExpr::FunCall(name) => {
            if str_eq(name.as_str(), "vec2") {
                GlType::Vec2
            } else if str_eq(name.as_str(), "vec3") {
                GlType::Vec3
            } else {
                GlType::Vec4
            }
        },
        GlExpr::Binary(a, b) => parse_gl_type(a).max(parse_gl_type(b)),
        GlExpr::Other => GlType::Vec4,
    }
}

/// The snippet made into a `vec4`: a float spread over the colour with alpha
/// one, a `vec2` completed with 0 and 1, a `vec3` given alpha one (with no
/// closing parenthesis, which leaves such a shader unbuildable), a `vec4` or
/// an unparsed snippet left as it is.
pub open spec fn wrap_snippet(snippet: Seq<char>, t: Option<GlType>) -> Seq<char> {
    match t {
        Some(GlType::Float) => "vec4(vec3("@ + snippet + "),1)"@,
        Some(GlType::Vec2) => "vec4("@ + snippet + ", 0,1)"@,
        Some(GlType::Vec3) => "vec4("@ + snippet + ",1"@,
        _ => snippet,
    }
}

/// The start of an expression node's fragment shader.
pub const SHADER_HEAD: &'static str = "
    #version 140
    uniform sampler2D pixels;

    out vec4 out_color;
    
    void main() {
        vec4 pixel = texture(pixels, gl_FragCoord.xy/textureSize(pixels, 0));
        out_color = ";

/// The end of an expression node's fragment shader.
pub const SHADER_TAIL: &'static str = ";
    }
    ";

/// The fragment shader for a snippet, given the snippet's parse (`None` where
/// it does not parse as a GLSL expression): the input texture is sampled into
/// `pixel`, and the wrapped snippet is written as the colour.
pub open spec fn shader_from_snippet(snippet: Seq<char>, parsed: Option<GlExpr>) -> Seq<char> {
    let t = match parsed {
        Some(e) => Some(gl_type_spec(e)),
        None => None,
    };
    SHADER_HEAD@ + wrap_snippet(snippet, t) + SHADER_TAIL@
}

/// Builds the fragment shader for a snippet from the snippet and its parse.
pub fn build_shader_from_snippet(snippet: &str, parsed: Option<&GlExpr>) -> (r: String)
    ensures
        r@ == shader_from_snippet(snippet@, match parsed { Some(e) => Some(*e), None => None }),
{
    let t = match parsed {
        Some(e) => Some(parse_gl_type(e)),
        None => None,
    };
    let mut wrapped = String::new();
    match t {
        Some(GlType::Float) => {
            wrapped.append("vec4(vec3(");
            wrapped.append(snippet);
            wrapped.append("),1)");
        },
        Some(GlType::Vec2) => {
            wrapped.append("vec4(");
            wrapped.append(snippet);
            wrapped.append(", 0,1)");
        },
        Some(GlType::Vec3) => {
            wrapped.append("vec4(");
            wrapped.append(snippet);
            wrapped.append(",1");
        },
        _ => {
            wrapped.append(snippet);
        },
    }
    let mut shader = String::new();
    shader.append(SHADER_HEAD);
    shader.append(wrapped.as_str());
    shader.append(SHADER_TAIL);
    assert(wrapped@ =~= wrap_snippet(snippet@, t));
    shader
}

/// A parsed GLSL expression (`glsl::syntax::Expr`).
#[verifier::external_type_specification]
#[verifier::external_body]
pub struct ExGlslExpr(glsl::syntax::Expr);

/// What the `glsl` crate's expression parser makes of a snippet, kept to the
/// parts that decide its type (see `GlExpr`): `None` where the snippet does not
/// parse as a GLSL expression. It depends on the snippet alone.
pub uninterp spec fn glsl_expr_parse(snippet: Seq<char>) -> Option<GlExpr>;

/// Converts a parsed expression, one arm per kind of expression: a float
/// literal, a field selection (the byte length of the field's name), a call of
/// a function named by an identifier, a binary operation (both operands
/// converted in turn), anything else.
#[verifier::external_body]
fn gl_expr_of(e: &Expr) -> GlExpr {
    match e {
        Expr::FloatConst(_) => GlExpr::FloatConst,
        Expr::Dot(_, Identifier(field)) => GlExpr::Dot(field.len()),
        Expr::FunCall(FunIdentifier::Identifier(Identifier(name)), _) => GlExpr::FunCall(name.clone()),
        Expr::Binary(_, a, b) => GlExpr::Binary(Box::new(gl_expr_of(a)), Box::new(gl_expr_of(b))),
        _ => GlExpr::Other,
    }
}

/// Calls `Expr::parse` of the `glsl` crate on a snippet and converts the
/// expression it gives (see `gl_expr_of`): the result is named by
/// `glsl_expr_parse`, `None` where the parse fails.
#[verifier::external_body]
fn parse_expr(snippet: &str) -> (r: Option<GlExpr>)
    ensures
        r == glsl_expr_parse(snippet@),
{
    match Expr::parse(snippet) {
        Ok(e) => Some(gl_expr_of(&e)),
        Err(_) => None,
    }
}

/// The fragment shader of an expression node for `snippet`: the snippet is
/// parsed as a GLSL expression, and wrapped by the type of that parse (left as
/// it is where it does not parse).
pub fn shader_for_snippet(snippet: &str) -> (r: String)
    ensures
        r@ == shader_from_snippet(snippet@, glsl_expr_parse(snippet@)),
{
    let parsed = parse_expr(snippet);
    build_shader_from_snippet(snippet, parsed.as_ref())
}

/// Remembers the source an expression node's shader was last built from.
#[derive(Debug)]
pub struct GlExpressionUpdater {
    pub frag_source: Option<String>,
}

/// Whether a shader last built from `built` (none where it never was) must be
/// rebuilt for the source `new_frag`.
pub open spec fn needs_rebuild(built: Option<String>, new_frag: Seq<char>) -> bool {
    match built {
        Some(s) => s@ != new_frag,
        None => true,
    }
}

/// Law of expression types: an expression's type is the GLSL type of the value
/// it produces. A float literal is a `float`; a swizzle of one, two or three
/// components a `float`, `vec2` or `vec3`, and of any other length a `vec4`; a
/// call of `vec2` or `vec3` that vector, and of any other function a `vec4`; a
/// binary operation the wider of its operands' types; anything else a `vec4`.
pub proof fn law_gl_expr_types(name: String, len: usize, a: GlExpr, b: GlExpr)
    ensures
        gl_type_spec(GlExpr::FloatConst) == GlType::Float,
        len == 1 ==> gl_type_spec(GlExpr::Dot(len)) == GlType::Float,
        len == 2 ==> gl_type_spec(GlExpr::Dot(len)) == GlType::Vec2,
        len == 3 ==> gl_type_spec(GlExpr::Dot(len)) == GlType::Vec3,
        (len == 0 || len > 3) ==> gl_type_spec(GlExpr::Dot(len)) == GlType::Vec4,
        name@ == "vec2"@ ==> gl_type_spec(GlExpr::FunCall(name)) == GlType::Vec2,
        name@ == "vec3"@ ==> gl_type_spec(GlExpr::FunCall(name)) == GlType::Vec3,
        name@ != "vec2"@ && name@ != "vec3"@ ==> gl_type_spec(GlExpr::FunCall(name)) == GlType::Vec4,
        gl_type_spec(GlExpr::Other) == GlType::Vec4,
        ({
            let t = gl_type_spec(GlExpr::Binary(Box::new(a), Box::new(b)));
            &&& t == gl_type_spec(a) || t == gl_type_spec(b)
            &&& gl_type_spec(a) == GlType::Vec4 || gl_type_spec(b) == GlType::Vec4 ==> t == GlType::Vec4
            &&& gl_type_spec(a) == GlType::Float ==> t == gl_type_spec(b)
            &&& gl_type_spec(b) == GlType::Float ==> t == gl_type_spec(a)
            &&& gl_type_spec(a) == GlType::Vec3 && gl_type_spec(b) == GlType::Vec2 ==> t == GlType::Vec3
            &&& gl_type_spec(a) == GlType::Vec2 && gl_type_spec(b) == GlType::Vec3 ==> t == GlType::Vec3
        }),
{
    reveal_strlit("vec2");
    reveal_strlit("vec3");
    assert("vec2"@[3] != "vec3"@[3]);
}

/// Law of expression shaders: the snippet is written out as a `vec4` colour
/// by its type, between the fixed start and end of the shader. A float is
/// spread over the colour with alpha one, a `vec2` completed with 0 and 1, a
/// `vec3` given alpha one (with no closing parenthesis), a `vec4` or a snippet
/// that does not parse written as it is. In particular a call of `vec2` is
/// written as `vec4(<snippet>, 0,1)`.
pub proof fn law_snippet_wrapping(snippet: Seq<char>, e: GlExpr, name: String)
    ensures
        shader_from_snippet(snippet, None) == SHADER_HEAD@ + snippet + SHADER_TAIL@,
        gl_type_spec(e) == GlType::Float ==> shader_from_snippet(snippet, Some(e)) == SHADER_HEAD@ + (
        "vec4(vec3("@ + snippet + "),1)"@) + SHADER_TAIL@,
        gl_type_spec(e) == GlType::Vec2 ==> shader_from_snippet(snippet, Some(e)) == SHADER_HEAD@ + (
        "vec4("@ + snippet + ", 0,1)"@) + SHADER_TAIL@,
        gl_type_spec(e) == GlType::Vec3 ==> shader_from_snippet(snippet, Some(e)) == SHADER_HEAD@ + (
        "vec4("@ + snippet + ",1"@) + SHADER_TAIL@,
        gl_type_spec(e) == GlType::Vec4 ==> shader_from_snippet(snippet, Some(e)) == SHADER_HEAD@ + snippet
            + SHADER_TAIL@,
        name@ == "vec2"@ ==> shader_from_snippet(snippet, Some(GlExpr::FunCall(name))) == SHADER_HEAD@ + (
        "vec4("@ + snippet + ", 0,1)"@) + SHADER_TAIL@,
{
}

/// Law of expression nodes: once a shader was built from a source, that same
/// source asks for no rebuild, and any other source does.
pub proof fn law_built_source_is_current(built: String, new_frag: Seq<char>)
    ensures
        !needs_rebuild(Some(built), built@),
        needs_rebuild(Some(built), new_frag) <==> new_frag != built@,
{
}

impl GlExpressionUpdater {
    /// Whether the shader must be rebuilt for `new_frag`: when it differs from
    /// the source last built, or none was.
    pub fn should_update(&self, new_frag: &String) -> (b: bool)
        ensures
            b == needs_rebuild(self.frag_source, new_frag@),
    {
        match &self.frag_source {
            Some(shader) => !str_eq(shader.as_str(), new_frag.as_str()),
            None => true,
        }
    }

    /// Records the outcome of rebuilding the shader from `new_frag`: on success
    /// the source is remembered; an error is passed on and the old source kept,
    /// so that the next frame tries again.
    pub fn finish_update<E>(&mut self, new_frag: String, outcome: Result<(), E>) -> (r: Result<(), E>)
        ensures
            r == outcome,
            outcome is Ok ==> final(self).frag_source == Some(new_frag),
            outcome is Err ==> final(self).frag_source == old(self).frag_source,
    {
        if outcome.is_ok() {
            self.frag_source = Some(new_frag);
        }
        outcome
    }
}

} // verus!
