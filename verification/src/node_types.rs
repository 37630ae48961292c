//! The kinds of node a graph can hold, the inputs and outputs each kind has,
//! and how those become parameters of a node.
use vstd::prelude::*;
use vstd::string::StringExecFns;

use crate::common::TextStyle;
use crate::connections::{
    def_param_kind, input_param_kind, ConnectionType, InputDef, InputParamKind, OutputDef, ValueDef,
    connection_type_name,
};
use crate::isf::{isf_input_at, isf_input_count, isf_inputs, IsfInfo, IsfInputKind};

verus! {

/// A kind of node, used to create a node of the graph.
#[derive(Debug)]
pub enum NodeType {
    /// Shares its input texture with other applications.
    SharedOut,
    /// Renders an OBJ model.
    ObjRender,
    /// Runs an ISF shader.
    Isf { info: IsfInfo },
    /// Evaluates a GLSL expression for each pixel.
    Expression { inputs: Option<Vec<InputDef>> },
}

/// The name shown for a kind of node.
pub open spec fn node_type_name(t: NodeType) -> Seq<char> {
    match t {
        NodeType::SharedOut => "SpoutOut"@,
        NodeType::ObjRender => "ObjRender"@,
        NodeType::Isf { info } => info.name@,
        NodeType::Expression { .. } => "Expression"@,
    }
}

/// The connection an input of an ISF shader takes: a texture for an image.
pub open spec fn isf_connection(kind: IsfInputKind) -> ConnectionType {
    if kind == IsfInputKind::Image {
        ConnectionType::Texture2D
    } else {
        ConnectionType::NoConnection
    }
}

/// Whether an ISF input type comes with no value of its own.
pub open spec fn isf_kind_has_no_value(kind: IsfInputKind) -> bool {
    kind == IsfInputKind::Image || kind == IsfInputKind::Audio || kind == IsfInputKind::AudioFft
}

/// `d` is the definition of input `i` of an ISF shader, `input`.
pub open spec fn is_isf_input_def(d: InputDef, input: (Seq<char>, IsfInputKind), i: int) -> bool {
    &&& d.name@ == input.0
    &&& d.ty == isf_connection(input.1)
    &&& if isf_kind_has_no_value(input.1) {
        d.value is Empty
    } else {
        d.value == ValueDef::IsfInput(i as usize)
    }
}

/// `d` is an input named `name` that takes no connection and starts with the text `text`.
pub open spec fn is_text_def(d: InputDef, name: Seq<char>, text: Seq<char>, style: TextStyle) -> bool {
    &&& d.name@ == name
    &&& d.ty == ConnectionType::NoConnection
    &&& d.value matches ValueDef::Text(t, s) && t@ == text && s == style
}

/// `d` is an input named `name` that takes a texture and has no value.
pub open spec fn is_texture_def(d: InputDef, name: Seq<char>) -> bool {
    &&& d.name@ == name
    &&& d.ty == ConnectionType::Texture2D
    &&& d.value is Empty
}

/// `d` is an input named `name` that takes no connection and starts with `value`.
pub open spec fn is_value_def(d: InputDef, name: Seq<char>, value: ValueDef) -> bool {
    &&& d.name@ == name
    &&& d.ty == ConnectionType::NoConnection
    &&& d.value == value
}

/// `defs` are the input definitions of a node of kind `t`.
pub open spec fn input_types_of(t: NodeType, defs: Seq<InputDef>) -> bool {
    match t {
        NodeType::Isf { info } => {
            &&& defs.len() == isf_inputs(info.def).len()
            &&& forall|i: int|
                0 <= i < defs.len() ==> is_isf_input_def(#[trigger] defs[i], isf_inputs(info.def)[i], i)
        },
        NodeType::SharedOut => {
            &&& defs.len() == 2
            &&& is_text_def(defs[0], "name"@, "RustSpout"@, TextStyle::Oneline)
            &&& is_texture_def(defs[1], "texture"@)
        },
        NodeType::ObjRender => {
            &&& defs.len() == 3
            &&& is_value_def(defs[0], "obj"@, ValueDef::Path)
            &&& is_value_def(defs[1], "model"@, ValueDef::Mat4Identity)
            &&& is_value_def(defs[2], "view"@, ValueDef::Mat4View)
        },
        NodeType::Expression { .. } => {
            &&& defs.len() == 2
            &&& is_text_def(defs[0], "text"@, "vec4(1.0,1.0,1.0,1.0)"@, TextStyle::Multiline)
            &&& is_texture_def(defs[1], "pixels"@)
        },
    }
}

/// Whether a kind of node has an input that takes a texture.
pub open spec fn takes_texture(t: NodeType) -> bool {
    match t {
        NodeType::Isf { info } => exists|i: int|
            0 <= i < isf_inputs(info.def).len() && (#[trigger] isf_inputs(info.def)[i]).1
                == IsfInputKind::Image,
        NodeType::SharedOut => true,
        NodeType::ObjRender => false,
        NodeType::Expression { .. } => true,
    }
}

/// The parameters made from input definitions: each with how it is fed, in
/// order, leaving out those that neither take a connection nor hold a value.
pub open spec fn params_of(defs: Seq<InputDef>) -> Seq<(InputDef, InputParamKind)>
    decreases defs.len(),
{
    if defs.len() == 0 {
        Seq::empty()
    } else {
        params_of(defs.drop_last()) + match def_param_kind(defs.last()) {
            Some(k) => seq![(defs.last(), k)],
            None => Seq::empty(),
        }
    }
}

proof fn lemma_params_contains(defs: Seq<InputDef>, i: int, k: InputParamKind)
    requires
        0 <= i < defs.len(),
        def_param_kind(defs[i]) == Some(k),
    ensures
        params_of(defs).contains((defs[i], k)),
    decreases defs.len(),
{
    let pre = params_of(defs.drop_last());
    if i == defs.len() - 1 {
        let r = pre + seq![(defs.last(), k)];
        assert(r[pre.len() as int] == (defs[i], k));
    } else {
        assert(defs.drop_last()[i] == defs[i]);
        lemma_params_contains(defs.drop_last(), i, k);
        let j = choose|j: int| 0 <= j < pre.len() && pre[j] == (defs[i], k);
        let r = params_of(defs);
        assert(r[j] == pre[j]);
    }
}

/// Law of ISF nodes: each input of the shader's header gives the node what the
/// ISF standard says of its kind. An input that carries a value (event, bool,
/// long, float, point2D, color) becomes a parameter held as a constant, named
/// after the input, whose value is that input's; an image becomes a parameter
/// fed only by a texture connection; audio and audio FFT inputs take no
/// connection and hold no value.
pub proof fn law_isf_inputs_become_parameters(info: IsfInfo, defs: Seq<InputDef>, i: int)
    requires
        input_types_of(NodeType::Isf { info }, defs),
        0 <= i < isf_inputs(info.def).len(),
    ensures
        defs[i].name@ == isf_inputs(info.def)[i].0,
        ({
            let kind = isf_inputs(info.def)[i].1;
            kind == IsfInputKind::Event || kind == IsfInputKind::Bool || kind == IsfInputKind::Long || kind
                == IsfInputKind::Float || kind == IsfInputKind::Point2d || kind == IsfInputKind::Color
        }) ==> {
            &&& defs[i].ty == ConnectionType::NoConnection
            &&& defs[i].value == ValueDef::IsfInput(i as usize)
            &&& params_of(defs).contains((defs[i], InputParamKind::ConstantOnly))
        },
        isf_inputs(info.def)[i].1 == IsfInputKind::Image ==> {
            &&& defs[i].ty == ConnectionType::Texture2D
            &&& defs[i].value is Empty
            &&& params_of(defs).contains((defs[i], InputParamKind::ConnectionOnly))
        },
        (isf_inputs(info.def)[i].1 == IsfInputKind::Audio || isf_inputs(info.def)[i].1 == IsfInputKind::AudioFft)
            ==> defs[i].ty == ConnectionType::NoConnection && defs[i].value is Empty,
{
    assert(is_isf_input_def(defs[i], isf_inputs(info.def)[i], i));
    let kind = isf_inputs(info.def)[i].1;
    if kind == IsfInputKind::Image {
        lemma_params_contains(defs, i, InputParamKind::ConnectionOnly);
    } else if !(kind == IsfInputKind::Audio || kind == IsfInputKind::AudioFft) {
        lemma_params_contains(defs, i, InputParamKind::ConstantOnly);
    }
}

impl NodeType {
    /// The name shown for this kind of node.
    pub fn get_name(&self) -> (r: &str)
        ensures
            r@ == node_type_name(*self),
    {
        match self {
            NodeType::SharedOut => "SpoutOut",
            NodeType::ObjRender => "ObjRender",
            NodeType::Isf { info } => info.name.as_str(),
            NodeType::Expression { .. } => "Expression",
        }
    }

    /// The kinds of node that need no shader file.
    pub fn get_builtin() -> (r: Vec<NodeType>)
        ensures
            r@.len() == 3,
            r@[0] is ObjRender,
            r@[1] is SharedOut,
            r@[2] matches NodeType::Expression { inputs } && inputs is None,
    {
        let mut types = Vec::new();
        types.push(NodeType::ObjRender);
        types.push(NodeType::SharedOut);
        types.push(NodeType::Expression { inputs: None });
        types
    }

    /// The definitions of the inputs of this kind of node.
    pub fn get_input_types(&self) -> (r: Vec<InputDef>)
        ensures
            input_types_of(*self, r@),
    {
        match self {
            NodeType::Isf { info } => {
                let n = isf_input_count(&info.def);
                let mut defs: Vec<InputDef> = Vec::new();
                let mut i: usize = 0;
                while i < n
                    invariant
                        n == isf_inputs(info.def).len(),
                        0 <= i <= n,
                        defs@.len() == i,
                        forall|k: int|
                            0 <= k < i ==> is_isf_input_def(#[trigger] defs@[k], isf_inputs(info.def)[k], k),
                    decreases n - i,
                {
                    let (name, kind) = isf_input_at(&info.def, i);
                    let ty = if kind == IsfInputKind::Image {
                        ConnectionType::Texture2D
                    } else {
                        ConnectionType::NoConnection
                    };
                    let value = match kind {
                        IsfInputKind::Image | IsfInputKind::Audio | IsfInputKind::AudioFft => ValueDef::Empty,
                        _ => ValueDef::IsfInput(i),
                    };
                    defs.push(InputDef { name, ty, value });
                    i = i + 1;
                }
                defs
            },
            NodeType::SharedOut => {
                let mut defs = Vec::new();
                defs.push(
                    InputDef::from_value(
                        String::from_str("name"),
                        ValueDef::Text(String::from_str("RustSpout"), TextStyle::Oneline),
                    ),
                );
                defs.push(InputDef::texture(String::from_str("texture")));
                defs
            },
            NodeType::ObjRender => {
                let mut defs = Vec::new();
                defs.push(InputDef::from_value(String::from_str("obj"), ValueDef::Path));
                defs.push(InputDef::from_value(String::from_str("model"), ValueDef::Mat4Identity));
                defs.push(InputDef::from_value(String::from_str("view"), ValueDef::Mat4View));
                defs
            },
            NodeType::Expression { .. } => {
                let mut defs = Vec::new();
                defs.push(
                    InputDef::from_value(
                        String::from_str("text"),
                        ValueDef::Text(String::from_str("vec4(1.0,1.0,1.0,1.0)"), TextStyle::Multiline),
                    ),
                );
                defs.push(InputDef::texture(String::from_str("pixels")));
                defs
            },
        }
    }

    /// The definitions of the outputs of this kind of node: one texture,
    /// except for the shared output, which has none.
    pub fn get_output_types(&self) -> (r: Vec<OutputDef>)
        ensures
            self is SharedOut ==> r@.len() == 0,
            !(self is SharedOut) ==> r@.len() == 1 && r@[0].ty == ConnectionType::Texture2D
                && r@[0].name@ == connection_type_name(ConnectionType::Texture2D),
    {
        match self {
            NodeType::SharedOut => Vec::new(),
            _ => {
                let mut v = Vec::new();
                v.push(OutputDef::from_type(ConnectionType::Texture2D));
                v
            },
        }
    }

    /// Whether this kind of node has an input that takes a texture.
    pub fn has_texture_input(&self) -> (b: bool)
        ensures
            b == takes_texture(*self),
    {
        let defs = self.get_input_types();
        let mut i: usize = 0;
        while i < defs.len()
            invariant
                input_types_of(*self, defs@),
                0 <= i <= defs@.len(),
                forall|k: int| 0 <= k < i ==> (#[trigger] defs@[k]).ty != ConnectionType::Texture2D,
            decreases defs@.len() - i,
        {
            if defs[i].ty == ConnectionType::Texture2D {
                proof {
                    if let NodeType::Isf { info } = self {
                        assert(is_isf_input_def(defs@[i as int], isf_inputs(info.def)[i as int], i as int));
                    }
                }
                return true;
            }
            i = i + 1;
        }
        proof {
            if let NodeType::Isf { info } = self {
                assert forall|k: int| 0 <= k < isf_inputs(info.def).len() implies (
                #[trigger] isf_inputs(info.def)[k]).1 != IsfInputKind::Image by {
                    assert(is_isf_input_def(defs@[k], isf_inputs(info.def)[k], k));
                }
            }
        }
        false
    }

    /// The parameters a node of this kind is built with: each input that takes
    /// a connection or holds a value, with how it is fed, and the outputs.
    pub fn node_params(&self) -> (r: (Vec<(InputDef, InputParamKind)>, Vec<OutputDef>))
        ensures
            exists|defs: Seq<InputDef>| input_types_of(*self, defs) && r.0@ == params_of(defs),
            self is SharedOut ==> r.1@.len() == 0,
            !(self is SharedOut) ==> r.1@.len() == 1 && r.1@[0].ty == ConnectionType::Texture2D
                && r.1@[0].name@ == connection_type_name(ConnectionType::Texture2D),
    {
        let mut defs = self.get_input_types();
        let ghost all = defs@;
        let mut params: Vec<(InputDef, InputParamKind)> = Vec::new();
        let n = defs.len();
        let mut i: usize = 0;
        while i < n
            invariant
                n == all.len(),
                0 <= i <= n,
                defs@ == all.subrange(i as int, n as int),
                params@ == params_of(all.subrange(0, i as int)),
            decreases n - i,
        {
            let d = defs.remove(0);
            assert(d == all[i as int]);
            let connection = d.ty != ConnectionType::NoConnection;
            let value = match d.value {
                ValueDef::Empty => false,
                _ => true,
            };
            let kind = input_param_kind(connection, value);
            assert(all.subrange(0, i + 1).drop_last() =~= all.subrange(0, i as int));
            assert(all.subrange(0, i + 1).last() == d);
            match kind {
                Some(k) => {
                    params.push((d, k));
                },
                None => {},
            }
            assert(params@ =~= params_of(all.subrange(0, i + 1)));
            assert(defs@ =~= all.subrange(i + 1, n as int));
            i = i + 1;
        }
        assert(all.subrange(0, n as int) =~= all);
        (params, self.get_output_types())
    }
}

/// All the kinds of node offered when adding a node.
pub struct AllNodeTypes;

impl AllNodeTypes {
    /// The kinds of node offered: the built-in ones.
    pub fn all_kinds(&self) -> (r: Vec<NodeType>)
        ensures
            r@.len() == 3,
            r@[0] is ObjRender,
            r@[1] is SharedOut,
            r@[2] is Expression,
    {
        NodeType::get_builtin()
    }
}

} // verus!
