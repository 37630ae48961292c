//! Connection types, and the definitions of a node's inputs and outputs.
use vstd::prelude::*;
use vstd::string::StringExecFns;

use crate::common::TextStyle;

verus! {

/// The kind of data that flows through a connection.
#[derive(Clone, Copy, Debug, PartialEq, Eq, Structural, Hash)]
pub enum ConnectionType {
    Texture2D,
    NoConnection,
}

/// The name of a connection type, as it is displayed.
pub open spec fn connection_type_name(ty: ConnectionType) -> Seq<char> {
    match ty {
        ConnectionType::Texture2D => "Texture2D"@,
        ConnectionType::NoConnection => "None"@,
    }
}

impl ConnectionType {
    /// The name of the type, as it is displayed.
    pub fn name(&self) -> (r: String)
        ensures
            r@ == connection_type_name(*self),
    {
        match self {
            ConnectionType::Texture2D => String::from_str("Texture2D"),
            ConnectionType::NoConnection => String::from_str("None"),
        }
    }
}

/// The value an input starts with, where it has one. The numeric values
/// themselves are kept by the editor; this says which they are.
#[derive(Clone, Debug)]
pub enum ValueDef {
    /// The input has no value of its own: it only takes a connection.
    Empty,
    Text(String, TextStyle),
    /// A file path, not chosen yet.
    Path,
    /// A transform starting at the identity.
    Mat4Identity,
    /// A transform starting at the default view (five units back).
    Mat4View,
    /// The default of input `i` of the node's ISF shader.
    IsfInput(usize),
}

/// The definition of an input of a node: its name, the connection it takes,
/// and the value it starts with.
#[derive(Clone, Debug)]
pub struct InputDef {
    pub name: String,
    pub ty: ConnectionType,
    pub value: ValueDef,
}

impl InputDef {
    /// An input that takes a texture and has no value of its own.
    pub fn texture(name: String) -> (r: Self)
        ensures
            r.name == name,
            r.ty == ConnectionType::Texture2D,
            r.value is Empty,
    {
        InputDef { name, ty: ConnectionType::Texture2D, value: ValueDef::Empty }
    }

    /// An input that holds a value and takes no connection.
    pub fn from_value(name: String, value: ValueDef) -> (r: Self)
        ensures
            r.name == name,
            r.ty == ConnectionType::NoConnection,
            r.value == value,
    {
        InputDef { name, ty: ConnectionType::NoConnection, value }
    }
}

/// The definition of an output of a node.
#[derive(Clone, Debug)]
pub struct OutputDef {
    pub name: String,
    pub ty: ConnectionType,
}

impl OutputDef {
    /// An output of type `ty`, named after the type.
    pub fn from_type(ty: ConnectionType) -> (r: Self)
        ensures
            r.name@ == connection_type_name(ty),
            r.ty == ty,
    {
        OutputDef { name: ty.name(), ty }
    }

    /// An output with the given name and type.
    pub fn named(name: String, ty: ConnectionType) -> (r: Self)
        ensures
            r.name == name,
            r.ty == ty,
    {
        OutputDef { name, ty }
    }
}

/// How an input parameter of a node is fed.
#[derive(Clone, Copy, Debug, PartialEq, Eq, Structural)]
pub enum InputParamKind {
    ConnectionOnly,
    ConstantOnly,
    ConnectionOrConstant,
}

/// How an input is fed, from whether it takes a connection and whether it has
/// a value of its own; `None` for an input that has neither, which is not added.
pub open spec fn param_kind_spec(connection: bool, value: bool) -> Option<InputParamKind> {
    if connection && value {
        Some(InputParamKind::ConnectionOrConstant)
    } else if connection {
        Some(InputParamKind::ConnectionOnly)
    } else if value {
        Some(InputParamKind::ConstantOnly)
    } else {
        None
    }
}

/// How an input is fed, from whether it takes a connection and whether it has
/// a value of its own; `None` for an input that has neither.
pub fn input_param_kind(connection: bool, value: bool) -> (r: Option<InputParamKind>)
    ensures
        r == param_kind_spec(connection, value),
{
    match (connection, value) {
        (true, true) => Some(InputParamKind::ConnectionOrConstant),
        (true, false) => Some(InputParamKind::ConnectionOnly),
        (false, true) => Some(InputParamKind::ConstantOnly),
        (false, false) => None,
    }
}

/// The kind of parameter an input definition becomes on a node, if any.
pub open spec fn def_param_kind(d: InputDef) -> Option<InputParamKind> {
    param_kind_spec(d.ty != ConnectionType::NoConnection, !(d.value is Empty))
}

/// The definition of a node's input, under the name the node templates use.
pub type NodeInputDef = InputDef;

/// The definition of a node's output, under the name the node templates use.
pub type NodeOutputDef = OutputDef;

/// A shader input as computed for a frame: the texture made by the node that
/// feeds it (`T` is the texture handle), or a value of its own.
#[derive(Clone, Debug)]
pub enum ComputedShaderInput<T> {
    Texture(T),
    Value,
}

/// The first texture among `v[i..]`, if there is one.
pub open spec fn first_texture_from<T>(v: Seq<(String, ComputedShaderInput<T>)>, i: int) -> Option<T>
    decreases v.len() - i,
{
    if i < 0 || i >= v.len() {
        None
    } else {
        match v[i].1 {
            ComputedShaderInput::Texture(t) => Some(t),
            ComputedShaderInput::Value => first_texture_from(v, i + 1),
        }
    }
}

/// The named inputs of a shader, computed for a frame, in order.
#[derive(Debug)]
pub struct ComputedInputs<T> {
    pub vec: Vec<(String, ComputedShaderInput<T>)>,
}

impl<T> ComputedInputs<T> {
    /// The inputs, in the order given.
    pub fn new(vec: Vec<(String, ComputedShaderInput<T>)>) -> (r: Self)
        ensures
            r.vec@ == vec@,
    {
        ComputedInputs { vec }
    }

    /// The first input that is a texture, if any.
    pub fn first_texture(&self) -> (r: Option<&T>)
        ensures
            match r {
                Some(t) => first_texture_from(self.vec@, 0) == Some(*t),
                None => first_texture_from(self.vec@, 0) is None,
            },
    {
        let mut i: usize = 0;
        while i < self.vec.len()
            invariant
                0 <= i <= self.vec@.len(),
                first_texture_from(self.vec@, 0) == first_texture_from(self.vec@, i as int),
            decreases self.vec@.len() - i,
        {
            match &self.vec[i].1 {
                ComputedShaderInput::Texture(t) => {
                    return Some(t);
                },
                ComputedShaderInput::Value => {},
            }
            i = i + 1;
        }
        None
    }
}

} // verus!
