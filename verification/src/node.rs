//! What a render node is to the graph: its ports, its kernel's salt, the
//! errors it reports and the regions it reads.

use vstd::prelude::*;
use vstd::utf8::encode_utf8;

use crate::params::declared;
use crate::params::Declared;
use crate::params::FieldDecl;
use crate::types::Extent;
use crate::types::NodeId;
use crate::types::PortType;
use crate::types::Roi;

verus! {

/// A node's port.
#[derive(Clone, Copy, Debug, PartialEq, Eq)]
pub struct PortDecl {
    /// Its name.
    pub name: &'static str,
    /// What travels through it.
    pub ty: PortType,
}

/// A port, mathematically.
pub struct Port {
    /// Its name.
    pub name: Seq<char>,
    /// What travels through it.
    pub ty: PortType,
}

impl View for PortDecl {
    type V = Port;

    open spec fn view(&self) -> Port {
        Port { name: self.name@, ty: self.ty }
    }
}

/// The ports of a list of declarations.
pub open spec fn ports(v: Seq<PortDecl>) -> Seq<Port> {
    Seq::new(v.len(), |i: int| v[i]@)
}

/// A node's identity, ports and declared parameters.
#[derive(Clone, Debug, PartialEq, Eq)]
pub struct NodeDescriptor {
    /// Registry identity.
    pub id: NodeId,
    /// Input ports.
    pub inputs: Vec<PortDecl>,
    /// Output port.
    pub output: PortDecl,
    /// Declared parameters.
    pub params_schema: Vec<FieldDecl>,
}

/// A descriptor, mathematically.
pub struct Descriptor {
    /// Registry identity.
    pub id: Seq<char>,
    /// Input ports.
    pub inputs: Seq<Port>,
    /// Output port.
    pub output: Port,
    /// Declared parameters.
    pub schema: Seq<Declared>,
}

impl View for NodeDescriptor {
    type V = Descriptor;

    open spec fn view(&self) -> Descriptor {
        Descriptor {
            id: self.id@,
            inputs: ports(self.inputs@),
            output: self.output@,
            schema: declared(self.params_schema@),
        }
    }
}

/// The descriptor of a develop node: one working-format input `in`, one
/// working-format output `out`.
pub open spec fn develop_node(id: Seq<char>, schema: Seq<Declared>) -> Descriptor {
    Descriptor {
        id,
        inputs: seq![Port { name: "in"@, ty: PortType::LinearRgbaF16 }],
        output: Port { name: "out"@, ty: PortType::LinearRgbaF16 },
        schema,
    }
}

/// A descriptor with one working-format input and one working-format output.
pub fn develop_descriptor(id: NodeId, params_schema: Vec<FieldDecl>) -> (r: NodeDescriptor)
    ensures
        r@ == develop_node(id@, declared(params_schema@)),
{
    let mut inputs: Vec<PortDecl> = Vec::new();
    inputs.push(PortDecl { name: "in", ty: PortType::LinearRgbaF16 });
    let r = NodeDescriptor {
        id,
        inputs,
        output: PortDecl { name: "out", ty: PortType::LinearRgbaF16 },
        params_schema,
    };
    assert(ports(r.inputs@) =~= seq![Port { name: "in"@, ty: PortType::LinearRgbaF16 }]);
    r
}

/// A kernel's content hash, part of every cache key that depends on it.
#[derive(Clone, Copy, Debug, PartialEq, Eq)]
pub struct KernelSalt(pub [u8; 32]);

impl View for KernelSalt {
    type V = Seq<u8>;

    open spec fn view(&self) -> Seq<u8> {
        self.0@
    }
}

/// The 32-byte BLAKE3 digest of a byte string.
pub uninterp spec fn blake3_digest(input: Seq<u8>) -> Seq<u8>;

/// Calls `blake3::hash` and takes the digest's raw bytes. The digest is a
/// function of the input bytes alone.
#[verifier::external_body]
fn blake3_hash(input: &[u8]) -> (r: [u8; 32])
    ensures
        r@ == blake3_digest(input@),
{
    *blake3::hash(input).as_bytes()
}

/// The salt of a kernel's source text.
pub fn kernel_salt(source: &[u8]) -> (r: KernelSalt)
    ensures
        r@ == blake3_digest(source@),
{
    KernelSalt(blake3_hash(source))
}

/// The salt of a node without a kernel: the digest of its name.
pub open spec fn name_salt(id: Seq<char>) -> Seq<u8> {
    blake3_digest(encode_utf8(id))
}

/// The salt of a node without a kernel: the digest of its name.
pub fn salt_of_name(id: NodeId) -> (r: KernelSalt)
    ensures
        r@ == name_salt(id@),
{
    kernel_salt(id.0.as_bytes())
}

/// Why a node's evaluation stopped.
#[derive(Clone, Debug, PartialEq, Eq)]
pub enum NodeError {
    /// The render was cancelled.
    Cancelled,
    /// The GPU path cannot run.
    Gpu(String),
    /// The CPU path cannot run.
    Cpu(String),
    /// Something else is missing.
    Other(String),
}

/// A node error, mathematically.
pub enum EvalFault {
    /// The render was cancelled.
    Cancelled,
    /// The GPU path cannot run.
    Gpu(Seq<char>),
    /// The CPU path cannot run.
    Cpu(Seq<char>),
    /// Something else is missing.
    Other(Seq<char>),
}

impl View for NodeError {
    type V = EvalFault;

    open spec fn view(&self) -> EvalFault {
        match self {
            NodeError::Cancelled => EvalFault::Cancelled,
            NodeError::Gpu(m) => EvalFault::Gpu(m@),
            NodeError::Cpu(m) => EvalFault::Cpu(m@),
            NodeError::Other(m) => EvalFault::Other(m@),
        }
    }
}

/// The fault an evaluation reports, if any.
pub open spec fn fault_of(r: Result<(), NodeError>) -> Option<EvalFault> {
    match r {
        Ok(_) => None,
        Err(e) => Some(e@),
    }
}

/// A message that starts with the node's name.
fn complaint(id: NodeId, what: &str) -> (r: String)
    ensures
        r@ == id@ + what@,
{
    let mut r: String = id.0.to_owned();
    r.append(what);
    r
}

/// Whether a GPU evaluation can start: not cancelled, an input is there, and
/// the output is a GPU tile. The first thing that is wrong is reported.
pub fn gpu_gate(id: NodeId, cancelled: bool, has_input: bool, output_is_gpu: bool) -> (r: Result<
    (),
    NodeError,
>)
    ensures
        fault_of(r) == if cancelled {
            Some(EvalFault::Cancelled)
        } else if !has_input {
            Some(EvalFault::Other(id@ + ": missing input tile"@))
        } else if !output_is_gpu {
            Some(EvalFault::Gpu(id@ + ": output is not a GPU tile"@))
        } else {
            None
        },
        r is Ok <==> !cancelled && has_input && output_is_gpu,
        cancelled <==> r matches Err(NodeError::Cancelled),
{
    if cancelled {
        Err(NodeError::Cancelled)
    } else if !has_input {
        Err(NodeError::Other(complaint(id, ": missing input tile")))
    } else if !output_is_gpu {
        Err(NodeError::Gpu(complaint(id, ": output is not a GPU tile")))
    } else {
        Ok(())
    }
}

/// Whether a CPU evaluation can start: not cancelled, and an input is there.
pub fn cpu_gate(id: NodeId, cancelled: bool, has_input: bool) -> (r: Result<(), NodeError>)
    ensures
        fault_of(r) == if cancelled {
            Some(EvalFault::Cancelled)
        } else if !has_input {
            Some(EvalFault::Cpu(id@ + ": missing input tile"@))
        } else {
            None
        },
        r is Ok <==> !cancelled && has_input,
        cancelled <==> r matches Err(NodeError::Cancelled),
{
    if cancelled {
        Err(NodeError::Cancelled)
    } else if !has_input {
        Err(NodeError::Cpu(complaint(id, ": missing input tile")))
    } else {
        Ok(())
    }
}

/// [`cpu_gate`] for the colour nodes, which report a cancelled render as a
/// missing input.
pub fn color_cpu_gate(id: NodeId, cancelled: bool, has_input: bool) -> (r: Result<(), NodeError>)
    ensures
        fault_of(r) == if cancelled || !has_input {
            Some(EvalFault::Cpu(id@ + ": missing input tile"@))
        } else {
            None
        },
        r is Ok <==> !cancelled && has_input,
        r is Err ==> r->Err_0 is Cpu,
{
    if cancelled || !has_input {
        Err(NodeError::Cpu(complaint(id, ": missing input tile")))
    } else {
        Ok(())
    }
}

/// The extent a GPU evaluation covers: the output tile's, or else the input
/// region's.
pub fn eval_extent(output: Option<Extent>, input: Roi) -> (r: Extent)
    ensures
        r == match output {
            Some(e) => e,
            None => Extent { w: input.w, h: input.h },
        },
{
    match output {
        Some(e) => e,
        None => Extent { w: input.w, h: input.h },
    }
}

/// The coordinate, inside an input tile of `len` pixels that starts at
/// `in_origin`, of the output tile's `local`-th pixel: clamped to the tile's
/// edge, and zero in an empty tile.
pub open spec fn edge_clamped(out_origin: int, in_origin: int, local: int, len: int) -> int {
    let at = out_origin - in_origin + local;
    if at < 0 || len <= 0 {
        0
    } else if at >= len {
        len - 1
    } else {
        at
    }
}

/// Maps an output pixel to the input tile it is read from, along one axis.
pub fn source_index(out_origin: i32, in_origin: i32, local: u32, len: u32) -> (r: u32)
    ensures
        r == edge_clamped(out_origin as int, in_origin as int, local as int, len as int),
        len > 0 ==> r < len,
{
    let at: i64 = out_origin as i64 - in_origin as i64 + local as i64;
    if at < 0 || len == 0 {
        0
    } else if at >= len as i64 {
        len - 1
    } else {
        at as u32
    }
}

/// An input tile grown by the apron a neighborhood node asked for answers every
/// read of that neighborhood without clamping: the pixel read is the one meant.
pub proof fn law_apron_reads_are_exact(out: Roi, margin: u32, local: int, delta: int)
    requires
        0 <= local < out.w,
        -(margin as int) <= delta <= margin,
        out.x - margin >= i32::MIN,
        out.w + 2 * margin <= u32::MAX,
    ensures
        ({
            let tile = out.expanded(margin as int);
            let at = edge_clamped(out.x as int, tile.x as int, local, tile.w as int) + delta;
            &&& 0 <= at < tile.w
            &&& tile.x + at == out.x + local + delta
        }),
{
}

/// With the same region in and out every pixel is read from its own place.
pub proof fn law_matching_tiles_read_in_place(origin: int, local: int, len: int)
    requires
        0 <= local < len,
    ensures
        edge_clamped(origin, origin, local, len) == local,
{
}

/// An output pixel is read from its own place wherever the input tile has it,
/// and else from the nearest pixel that the tile has.
pub proof fn law_reads_are_from_the_nearest_pixel(
    out_origin: int,
    in_origin: int,
    local: int,
    len: int,
)
    requires
        len > 0,
    ensures
        ({
            let at = edge_clamped(out_origin, in_origin, local, len);
            let wanted = out_origin + local;
            &&& 0 <= at < len
            &&& in_origin <= wanted < in_origin + len ==> in_origin + at == wanted
            &&& wanted < in_origin ==> at == 0
            &&& wanted >= in_origin + len ==> at == len - 1
        }),
{
}

/// A develop node has one input and one output, both in the working format.
pub proof fn law_develop_nodes_stay_in_the_working_format(id: Seq<char>, schema: Seq<Declared>)
    ensures
        develop_node(id, schema).id == id,
        develop_node(id, schema).inputs.len() == 1,
        develop_node(id, schema).inputs[0].ty == PortType::LinearRgbaF16,
        develop_node(id, schema).output.ty == PortType::LinearRgbaF16,
        develop_node(id, schema).inputs[0].name == "in"@,
        develop_node(id, schema).output.name == "out"@,
{
}

} // verus!
