//! ComfyUI workflow graphs for a generation: the model family it uses
//! (from the architecture the user picked and, failing that, the model's
//! file name), the nodes that load the model, encode the prompts, sample and
//! decode, and the patches applied for particular model families. A graph
//! maps node ids to nodes; a node has a class and named inputs, each a link
//! to another node's output or a literal value.
use vstd::prelude::*;
use crate::process::{to_lowercase, unicode_lowercase};
use crate::strmap::{str_eq, entries_map, StrMap};
use crate::text::{contains, str_contains, decimal, u64_to_string};
use crate::types::ModelLoadResult;

pub mod txt2img;
pub mod img2img;
pub mod inpainting;
pub mod controlnet;
pub mod facefix;

use crate::templates::controlnet::{ControlNetParam, inject_controlnet, with_controlnet};
use crate::templates::txt2img::txt2img_workflow;
use crate::templates::img2img::img2img_workflow;
use crate::templates::inpainting::inpainting_workflow;
use crate::templates::facefix::face_detailer;

verus! {

/// What the model-family checks read of the generation parameters.
pub struct ModelIdentity {
    /// The architecture the user picked (`sd3`, `flux`, ...), or empty.
    pub model_architecture: String,
    /// The checkpoint file.
    pub checkpoint: String,
    /// The diffusion model file of a split model.
    pub diffusion_model: Option<String>,
    /// The text-encoder type of a split model.
    pub clip_type: Option<String>,
}

/// The model's file name: the diffusion model of a split model, else the
/// checkpoint.
pub open spec fn model_name(p: &ModelIdentity) -> Seq<char> {
    match p.diffusion_model {
        Some(d) => d@,
        None => p.checkpoint@,
    }
}

/// The model's file name, lowercased.
pub open spec fn lower_name(p: &ModelIdentity) -> Seq<char> {
    unicode_lowercase(model_name(p))
}

/// The model is of the family `arch`: picked as such, or `key` occurs in its
/// lowercased file name.
pub open spec fn family_is(p: &ModelIdentity, arch: Seq<char>, key: Seq<char>) -> bool {
    p.model_architecture@ == arch || contains(lower_name(p), key)
}

/// The lowercased model file name.
pub(crate) fn model_name_lower(p: &ModelIdentity) -> (r: String)
    ensures
        r@ == lower_name(p),
{
    match &p.diffusion_model {
        Some(d) => to_lowercase(d.as_str()),
        None => to_lowercase(p.checkpoint.as_str()),
    }
}

fn family_matches(p: &ModelIdentity, arch: &str, key: &str) -> (r: bool)
    ensures
        r == family_is(p, arch@, key@),
{
    if str_eq(p.model_architecture.as_str(), arch) {
        return true;
    }
    let name = model_name_lower(p);
    str_contains(name.as_str(), key)
}

/// Stable Diffusion 3: picked as `sd3`, named after it, or loaded with the
/// `sd3` text-encoder type.
pub open spec fn sd3_family(p: &ModelIdentity) -> bool {
    ||| family_is(p, "sd3"@, "sd3"@)
    ||| contains(lower_name(p), "stable-diffusion-3"@)
    ||| contains(lower_name(p), "stable_diffusion_3"@)
    ||| (p.clip_type matches Some(c) && c@ == "sd3"@)
}

/// Whether the model is Stable Diffusion 3.
pub fn is_sd3_architecture(params: &ModelIdentity) -> (r: bool)
    ensures
        r == sd3_family(params),
{
    if family_matches(params, "sd3", "sd3") {
        return true;
    }
    let name = model_name_lower(params);
    if str_contains(name.as_str(), "stable-diffusion-3") || str_contains(name.as_str(), "stable_diffusion_3") {
        return true;
    }
    match &params.clip_type {
        Some(c) => str_eq(c.as_str(), "sd3"),
        None => false,
    }
}

/// Whether the model is Flux.
pub fn is_flux_architecture(params: &ModelIdentity) -> (r: bool)
    ensures
        r == family_is(params, "flux"@, "flux"@),
{
    family_matches(params, "flux", "flux")
}

/// Whether the model is Pony Diffusion (SDXL based).
pub fn is_pony_architecture(params: &ModelIdentity) -> (r: bool)
    ensures
        r == family_is(params, "pony"@, "pony"@),
{
    family_matches(params, "pony", "pony")
}

/// Whether the model is AuraFlow.
pub fn is_auraflow_architecture(params: &ModelIdentity) -> (r: bool)
    ensures
        r == family_is(params, "auraflow"@, "auraflow"@),
{
    family_matches(params, "auraflow", "auraflow")
}

/// Whether the model is PixArt.
pub fn is_pixart_architecture(params: &ModelIdentity) -> (r: bool)
    ensures
        r == family_is(params, "pixart"@, "pixart"@),
{
    family_matches(params, "pixart", "pixart")
}

/// Whether the model is HunyuanDiT.
pub fn is_hunyuandit_architecture(params: &ModelIdentity) -> (r: bool)
    ensures
        r == family_is(params, "hunyuandit"@, "hunyuan"@),
{
    family_matches(params, "hunyuandit", "hunyuan")
}

/// Whether the model is Stable Cascade.
pub fn is_cascade_architecture(params: &ModelIdentity) -> (r: bool)
    ensures
        r == family_is(params, "cascade"@, "cascade"@),
{
    family_matches(params, "cascade", "cascade")
}

/// Whether the model is Kolors.
pub fn is_kolors_architecture(params: &ModelIdentity) -> (r: bool)
    ensures
        r == family_is(params, "kolors"@, "kolors"@),
{
    family_matches(params, "kolors", "kolors")
}

/// Whether the model is Mugen (SDXL with the Flux2 VAE and rectified-flow
/// scheduling).
pub fn is_mugen_architecture(params: &ModelIdentity) -> (r: bool)
    ensures
        r == family_is(params, "mugen"@, "mugen"@),
{
    family_matches(params, "mugen", "mugen")
}

/// Whether the model is Nanosaur, loaded by the `NanoSaurLoader` node.
pub fn is_nanosaur_architecture(params: &ModelIdentity) -> (r: bool)
    ensures
        r == family_is(params, "nanosaur"@, "nanosaur"@),
{
    family_matches(params, "nanosaur", "nanosaur")
}

/// The model needs a 16-channel latent: SD3, Flux, or a name with `anima`
/// or `wan` in it.
pub open spec fn needs_16_channel_latent(p: &ModelIdentity) -> bool {
    ||| sd3_family(p)
    ||| family_is(p, "flux"@, "flux"@)
    ||| contains(lower_name(p), "anima"@)
    ||| contains(lower_name(p), "wan"@)
}

/// Whether the model needs a 16-channel latent.
pub fn needs_sd3_latent(params: &ModelIdentity) -> (r: bool)
    ensures
        r == needs_16_channel_latent(params),
{
    if is_sd3_architecture(params) || is_flux_architecture(params) {
        return true;
    }
    let name = model_name_lower(params);
    str_contains(name.as_str(), "anima") || str_contains(name.as_str(), "wan")
}

/// The node class that decodes latents for this model: the tiled decoder for
/// Mugen, whose Flux2 VAE needs it, the plain one otherwise.
pub fn vae_decode_class(params: &ModelIdentity) -> (r: &'static str)
    ensures
        r@ == if family_is(params, "mugen"@, "mugen"@) { "VAEDecodeTiled"@ } else { "VAEDecode"@ },
{
    if is_mugen_architecture(params) {
        "VAEDecodeTiled"
    } else {
        "VAEDecode"
    }
}


// ---------------------------------------------------------------------------
// Graphs
// ---------------------------------------------------------------------------

/// A value fed to a node input.
pub enum InputValue {
    /// Output `.1` of the node with id `.0`.
    Link(String, u32),
    Text(String),
    Int(i64),
    /// A number with a fractional part, as JSON writes it.
    Number(String),
}

/// An input value as values.
pub enum InputView {
    Link(Seq<char>, u32),
    Text(Seq<char>),
    Int(i64),
    Number(Seq<char>),
}

impl DeepView for InputValue {
    type V = InputView;

    open spec fn deep_view(&self) -> InputView {
        match self {
            InputValue::Link(id, o) => InputView::Link(id@, *o),
            InputValue::Text(t) => InputView::Text(t@),
            InputValue::Int(i) => InputView::Int(*i),
            InputValue::Number(t) => InputView::Number(t@),
        }
    }
}

/// A workflow node: its class and its inputs (a later entry for the same
/// input name replaces an earlier one).
pub struct WorkflowNode {
    pub class_type: String,
    pub inputs: Vec<(String, InputValue)>,
}

/// A node as values: its class and its inputs by name.
pub type NodeView = (Seq<char>, Map<Seq<char>, InputView>);

impl DeepView for WorkflowNode {
    type V = NodeView;

    open spec fn deep_view(&self) -> NodeView {
        (self.class_type@, entries_map(self.inputs@))
    }
}

/// A graph as values: nodes by id.
pub type GraphView = Map<Seq<char>, NodeView>;

/// An output of a node: (node id, output index).
pub type Source = (Seq<char>, u32);

/// A source as values.
pub open spec fn src(s: (String, u32)) -> Source {
    (s.0@, s.1)
}

/// The id of the node numbered `n`.
pub open spec fn id_of(n: int) -> Seq<char> {
    decimal(n as nat)
}

/// A link to `s`.
pub open spec fn link(s: Source) -> InputView {
    InputView::Link(s.0, s.1)
}

pub(crate) fn new_node(class: &str) -> (n: WorkflowNode)
    ensures
        n.deep_view() == (class@, Map::<Seq<char>, InputView>::empty()),
{
    let n = WorkflowNode { class_type: String::from_str(class), inputs: Vec::new() };
    assert(entries_map(n.inputs@) =~= Map::<Seq<char>, InputView>::empty());
    n
}

/// Set input `key` of `n` to `v`.
pub(crate) fn set_input(n: &mut WorkflowNode, key: &str, v: InputValue)
    ensures
        final(n).deep_view() == (old(n).deep_view().0, old(n).deep_view().1.insert(key@, v.deep_view())),
{
    let ghost before = n.inputs@;
    n.inputs.push((String::from_str(key), v));
    assert(n.inputs@.drop_last() =~= before);
}

pub(crate) fn link_to(s: &(String, u32)) -> (v: InputValue)
    ensures
        v.deep_view() == link(src(*s)),
{
    InputValue::Link(s.0.clone(), s.1)
}

pub(crate) fn link_id(id: &String, o: u32) -> (v: InputValue)
    ensures
        v.deep_view() == InputView::Link(id@, o),
{
    InputValue::Link(id.clone(), o)
}

pub(crate) fn text(t: &str) -> (v: InputValue)
    ensures
        v.deep_view() == InputView::Text(t@),
{
    InputValue::Text(String::from_str(t))
}

pub(crate) fn number(t: &str) -> (v: InputValue)
    ensures
        v.deep_view() == InputView::Number(t@),
{
    InputValue::Number(String::from_str(t))
}

/// `o` with `d` in place of None.
pub open spec fn or_default(o: Option<String>, d: Seq<char>) -> Seq<char> {
    match o {
        Some(s) => s@,
        None => d,
    }
}

pub(crate) fn text_or(o: &Option<String>, d: &str) -> (v: InputValue)
    ensures
        v.deep_view() == InputView::Text(or_default(*o, d@)),
{
    match o {
        Some(s) => InputValue::Text(s.clone()),
        None => text(d),
    }
}

/// Add node `n` to the graph under the id numbered `next_id`.
pub(crate) fn add_node(g: &mut StrMap<WorkflowNode>, next_id: u32, n: WorkflowNode) -> (id: String)
    requires
        old(g).wf(),
    ensures
        final(g).wf(),
        id@ == id_of(next_id as int),
        final(g).view() == old(g).view().insert(id_of(next_id as int), n.deep_view()),
{
    let id = u64_to_string(next_id as u64);
    g.insert(id.clone(), n);
    id
}

/// Set input `key` of the node `node_id` in the graph, when there is such a
/// node.
pub open spec fn rewired(g: GraphView, node_id: Seq<char>, key: Seq<char>, v: InputView) -> GraphView {
    if g.contains_key(node_id) {
        g.insert(node_id, (g[node_id].0, g[node_id].1.insert(key, v)))
    } else {
        g
    }
}

pub(crate) fn rewire(g: &mut StrMap<WorkflowNode>, node_id: &String, key: &str, v: InputValue)
    requires
        old(g).wf(),
    ensures
        final(g).wf(),
        final(g).view() == rewired(old(g).view(), node_id@, key@, v.deep_view()),
{
    let ghost g0 = g.view();
    match g.take(node_id.as_str()) {
        Some(mut n) => {
            set_input(&mut n, key, v);
            g.insert(node_id.clone(), n);
            assert(g.view() =~= rewired(g0, node_id@, key@, v.deep_view()));
        },
        None => {
            assert(g.view() =~= g0);
        },
    }
}

// ---------------------------------------------------------------------------
// Decoding
// ---------------------------------------------------------------------------

/// The node decoding the sampler's latents with the VAE: tiled for Mugen.
pub open spec fn vae_decode_node(p: &ModelIdentity, sampler_id: Seq<char>, vae: Source) -> NodeView {
    if family_is(p, "mugen"@, "mugen"@) {
        ("VAEDecodeTiled"@, Map::empty().insert("samples"@, InputView::Link(sampler_id, 0)).insert("vae"@, link(vae))
            .insert("tile_size"@, InputView::Int(512)).insert("overlap"@, InputView::Int(64)).insert(
            "temporal_size"@,
            InputView::Int(64),
        ).insert("temporal_overlap"@, InputView::Int(8)))
    } else {
        ("VAEDecode"@, Map::empty().insert("samples"@, InputView::Link(sampler_id, 0)).insert("vae"@, link(vae)))
    }
}

/// Add the VAE decode node under the id numbered `next_id`; gives its id
/// and the next free number.
pub fn insert_vae_decode(
    workflow: &mut StrMap<WorkflowNode>,
    next_id: u32,
    sampler_id: &String,
    vae_source: &(String, u32),
    params: &ModelIdentity,
) -> (r: (String, u32))
    requires
        old(workflow).wf(),
        next_id < u32::MAX,
    ensures
        final(workflow).wf(),
        r.0@ == id_of(next_id as int),
        r.1 == next_id + 1,
        final(workflow).view() == old(workflow).view().insert(
            id_of(next_id as int),
            vae_decode_node(params, sampler_id@, src(*vae_source)),
        ),
{
    let mut n = if is_mugen_architecture(params) {
        new_node("VAEDecodeTiled")
    } else {
        new_node("VAEDecode")
    };
    set_input(&mut n, "samples", link_id(sampler_id, 0));
    set_input(&mut n, "vae", link_to(vae_source));
    if is_mugen_architecture(params) {
        set_input(&mut n, "tile_size", InputValue::Int(512));
        set_input(&mut n, "overlap", InputValue::Int(64));
        set_input(&mut n, "temporal_size", InputValue::Int(64));
        set_input(&mut n, "temporal_overlap", InputValue::Int(8));
    }
    let id = add_node(workflow, next_id, n);
    (id, next_id + 1)
}


// ---------------------------------------------------------------------------
// Generation parameters
// ---------------------------------------------------------------------------

/// A LoRA applied to the model; the strengths are JSON numbers.
pub struct LoraParam {
    pub name: String,
    pub strength_model: String,
    pub strength_clip: String,
}

/// A prompt part active over part of the sampling schedule; the bounds are
/// JSON numbers.
pub struct PromptSegment {
    pub text: String,
    pub start: String,
    pub end: String,
}

/// What the workflow builders read of the generation parameters; the
/// fractional parameters are JSON numbers.
pub struct WorkflowParams {
    /// `txt2img`, `img2img` or `inpainting`.
    pub mode: String,
    pub model: ModelIdentity,
    pub use_split_model: bool,
    pub clip_model: Option<String>,
    pub vae: Option<String>,
    pub loras: Vec<LoraParam>,
    pub positive_prompt: String,
    pub negative_prompt: String,
    pub sampler_name: String,
    pub scheduler: String,
    pub steps: u32,
    pub cfg: String,
    pub denoise: String,
    pub width: u32,
    pub height: u32,
    pub batch_size: u32,
    pub input_image: Option<String>,
    pub mask_image: Option<String>,
    pub differential_diffusion: bool,
    pub controlnet: Option<ControlNetParam>,
    pub upscale_enabled: bool,
    pub smart_guidance: bool,
    pub facefix_enabled: bool,
    pub facefix_detector: Option<String>,
    pub facefix_denoise: String,
    pub facefix_steps: u32,
    pub facefix_guide_size: u32,
    pub output_format: String,
    pub output_bit_depth: String,
}

// ---------------------------------------------------------------------------
// Loading the model
// ---------------------------------------------------------------------------

/// The all-in-one Nanosaur loader.
pub open spec fn nanosaur_loader(p: &WorkflowParams) -> NodeView {
    ("NanoSaurLoader"@, Map::empty().insert(
        "unet_name"@,
        InputView::Text(or_default(p.model.diffusion_model, "nanosaur_diffusion_model.safetensors"@)),
    ).insert("text_encoder_name"@, InputView::Text(or_default(p.clip_model, "nanosaur_text_encoder.safetensors"@)))
        .insert("vae_name"@, InputView::Text(or_default(p.vae, "nanosaur_vae_decoder.safetensors"@))).insert(
        "uncond_crossover_percent"@,
        InputView::Number("1.0"@),
    ).insert("weight_dtype"@, InputView::Text("default"@)).insert("clip_device"@, InputView::Text("default"@)))
}

/// The diffusion-model loader of a split model.
pub open spec fn unet_loader(p: &WorkflowParams) -> NodeView {
    ("UNETLoader"@, Map::empty().insert("unet_name"@, InputView::Text(or_default(p.model.diffusion_model, ""@)))
        .insert("weight_dtype"@, InputView::Text("default"@)))
}

/// The text-encoder loader of a split model (type `wan` by default).
pub open spec fn clip_loader(p: &WorkflowParams) -> NodeView {
    ("CLIPLoader"@, Map::empty().insert("clip_name"@, InputView::Text(or_default(p.clip_model, ""@))).insert(
        "type"@,
        InputView::Text(or_default(p.model.clip_type, "wan"@)),
    ))
}

/// A VAE loader.
pub open spec fn vae_loader(name: Seq<char>) -> NodeView {
    ("VAELoader"@, Map::empty().insert("vae_name"@, InputView::Text(name)))
}

/// The checkpoint loader.
pub open spec fn checkpoint_loader(p: &WorkflowParams) -> NodeView {
    ("CheckpointLoaderSimple"@, Map::empty().insert("ckpt_name"@, InputView::Text(p.model.checkpoint@)))
}

/// A LoRA loader patching `model` and `clip`.
pub open spec fn lora_node(model: Source, clip: Source, l: LoraParam) -> NodeView {
    ("LoraLoader"@, Map::empty().insert("model"@, link(model)).insert("clip"@, link(clip)).insert(
        "lora_name"@,
        InputView::Text(l.name@),
    ).insert("strength_model"@, InputView::Number(l.strength_model@)).insert(
        "strength_clip"@,
        InputView::Number(l.strength_clip@),
    ))
}

/// A graph, the model, CLIP and VAE sources, and the next free node number.
pub type Stage = (GraphView, Source, Source, Source, int);

/// The LoRA loaders chained from `model` and `clip`, numbered from `next`:
/// the graph, the patched model and CLIP, and the next free number.
pub open spec fn lora_chain(g: GraphView, next: int, model: Source, clip: Source, loras: Seq<LoraParam>) -> (
    GraphView,
    Source,
    Source,
    int,
)
    decreases loras.len(),
{
    if loras.len() == 0 {
        (g, model, clip, next)
    } else {
        let id = id_of(next);
        lora_chain(g.insert(id, lora_node(model, clip, loras[0])), next + 1, (id, 0), (id, 1), loras.drop_first())
    }
}

/// The model loaders, numbered from `next`: the Nanosaur loader; or the
/// diffusion-model, text-encoder and VAE loaders of a split model; or the
/// checkpoint loader.
pub open spec fn base_loaders(g: GraphView, next: int, p: &WorkflowParams) -> Stage {
    if family_is(&p.model, "nanosaur"@, "nanosaur"@) {
        let id = id_of(next);
        (g.insert(id, nanosaur_loader(p)), (id, 0), (id, 1), (id, 2), next + 1)
    } else if p.use_split_model {
        let u = id_of(next);
        let c = id_of(next + 1);
        let v = id_of(next + 2);
        (g.insert(u, unet_loader(p)).insert(c, clip_loader(p)).insert(v, vae_loader(or_default(p.vae, ""@))), (u, 0), (
            c,
            0,
        ), (v, 0), next + 3)
    } else {
        let k = id_of(next);
        (g.insert(k, checkpoint_loader(p)), (k, 0), (k, 1), (k, 2), next + 1)
    }
}

/// The separate VAE that replaces a checkpoint's own: a non-empty `vae` of
/// a model that is not split.
pub open spec fn vae_override(p: &WorkflowParams) -> Option<Seq<char>> {
    if !p.use_split_model && p.vae is Some && p.vae->0@.len() > 0 {
        Some(p.vae->0@)
    } else {
        None
    }
}

/// The model-loading stage numbered from `next`: the loaders, then (but for
/// Nanosaur) the LoRA chain and the separate VAE.
pub open spec fn model_nodes(g: GraphView, next: int, p: &WorkflowParams) -> Stage {
    let b = base_loaders(g, next, p);
    if family_is(&p.model, "nanosaur"@, "nanosaur"@) {
        b
    } else {
        let l = lora_chain(b.0, b.4, b.1, b.2, p.loras@);
        match vae_override(p) {
            Some(name) => (l.0.insert(id_of(l.3), vae_loader(name)), l.1, l.2, (id_of(l.3), 0), l.3 + 1),
            None => (l.0, l.1, l.2, b.3, l.3),
        }
    }
}

/// Add the nodes that load the model (see [`model_nodes`]), numbered from
/// `next_id`.
pub fn load_model_nodes(workflow: &mut StrMap<WorkflowNode>, next_id: u32, params: &WorkflowParams) -> (r:
    ModelLoadResult)
    requires
        old(workflow).wf(),
        next_id + params.loras@.len() + 4 <= u32::MAX,
    ensures
        final(workflow).wf(),
        (final(workflow).view(), src(r.model_source), src(r.clip_source), src(r.vae_source), r.next_id as int)
            == model_nodes(old(workflow).view(), next_id as int, params),
        next_id < r.next_id <= next_id + params.loras@.len() + 4,
{
    let ghost g0 = workflow.view();
    let mut next_id = next_id;
    let ghost n0 = next_id as int;
    let model_source: (String, u32);
    let clip_source: (String, u32);
    let vae_source: (String, u32);
    if is_nanosaur_architecture(&params.model) {
        let mut n = new_node("NanoSaurLoader");
        set_input(&mut n, "unet_name", text_or(&params.model.diffusion_model, "nanosaur_diffusion_model.safetensors"));
        set_input(&mut n, "text_encoder_name", text_or(&params.clip_model, "nanosaur_text_encoder.safetensors"));
        set_input(&mut n, "vae_name", text_or(&params.vae, "nanosaur_vae_decoder.safetensors"));
        set_input(&mut n, "uncond_crossover_percent", number("1.0"));
        set_input(&mut n, "weight_dtype", text("default"));
        set_input(&mut n, "clip_device", text("default"));
        let id = add_node(workflow, next_id, n);
        return ModelLoadResult {
            model_source: (id.clone(), 0),
            clip_source: (id.clone(), 1),
            vae_source: (id, 2),
            next_id: next_id + 1,
        };
    } else if params.use_split_model {
        let mut u = new_node("UNETLoader");
        set_input(&mut u, "unet_name", text_or(&params.model.diffusion_model, ""));
        set_input(&mut u, "weight_dtype", text("default"));
        let uid = add_node(workflow, next_id, u);
        model_source = (uid, 0);
        next_id += 1;
        let mut c = new_node("CLIPLoader");
        set_input(&mut c, "clip_name", text_or(&params.clip_model, ""));
        set_input(&mut c, "type", text_or(&params.model.clip_type, "wan"));
        let cid = add_node(workflow, next_id, c);
        clip_source = (cid, 0);
        next_id += 1;
        let mut v = new_node("VAELoader");
        set_input(&mut v, "vae_name", text_or(&params.vae, ""));
        let vid = add_node(workflow, next_id, v);
        vae_source = (vid, 0);
        next_id += 1;
    } else {
        let mut k = new_node("CheckpointLoaderSimple");
        set_input(&mut k, "ckpt_name", InputValue::Text(params.model.checkpoint.clone()));
        let kid = add_node(workflow, next_id, k);
        model_source = (kid.clone(), 0);
        clip_source = (kid.clone(), 1);
        vae_source = (kid, 2);
        next_id += 1;
    }
    let ghost b = base_loaders(g0, n0, params);
    assert((workflow.view(), src(model_source), src(clip_source), src(vae_source), next_id as int) == b);
    let mut model_source = model_source;
    let mut clip_source = clip_source;
    let mut vae_source = vae_source;
    let ghost whole = lora_chain(b.0, b.4, b.1, b.2, params.loras@);
    assert(params.loras@.skip(0) =~= params.loras@);
    let mut i: usize = 0;
    while i < params.loras.len()
        invariant
            workflow.wf(),
            i <= params.loras@.len(),
            next_id == b.4 + i,
            n0 < b.4 <= n0 + 3,
            b.4 + params.loras@.len() + 1 <= u32::MAX,
            whole == lora_chain(workflow.view(), next_id as int, src(model_source), src(clip_source),
                params.loras@.skip(i as int)),
        decreases params.loras@.len() - i,
    {
        let lora = &params.loras[i];
        let mut n = new_node("LoraLoader");
        set_input(&mut n, "model", link_to(&model_source));
        set_input(&mut n, "clip", link_to(&clip_source));
        set_input(&mut n, "lora_name", InputValue::Text(lora.name.clone()));
        set_input(&mut n, "strength_model", InputValue::Number(lora.strength_model.clone()));
        set_input(&mut n, "strength_clip", InputValue::Number(lora.strength_clip.clone()));
        proof {
            assert(params.loras@.skip(i as int)[0] == params.loras@[i as int]);
            assert(params.loras@.skip(i as int).drop_first() =~= params.loras@.skip(i + 1));
        }
        let id = add_node(workflow, next_id, n);
        model_source = (id.clone(), 0);
        clip_source = (id, 1);
        next_id += 1;
        i += 1;
    }
    assert(params.loras@.skip(i as int) =~= Seq::<LoraParam>::empty());
    if !params.use_split_model {
        if let Some(vae_name) = &params.vae {
            if vae_name.as_str().unicode_len() > 0 {
                let mut v = new_node("VAELoader");
                set_input(&mut v, "vae_name", InputValue::Text(vae_name.clone()));
                let vid = add_node(workflow, next_id, v);
                vae_source = (vid, 0);
                next_id += 1;
            }
        }
    }
    ModelLoadResult { model_source, clip_source, vae_source, next_id }
}


// ---------------------------------------------------------------------------
// Prompts, sampling, results
// ---------------------------------------------------------------------------

/// A prompt encoder.
pub open spec fn clip_encode(clip: Source, t: Seq<char>) -> NodeView {
    ("CLIPTextEncode"@, Map::empty().insert("clip"@, link(clip)).insert("text"@, InputView::Text(t)))
}

/// Conditioning limited to part of the schedule.
pub open spec fn timestep_range(cond: Source, start: Seq<char>, end: Seq<char>) -> NodeView {
    ("ConditioningSetTimestepRange"@, Map::empty().insert("conditioning"@, link(cond)).insert(
        "start"@,
        InputView::Number(start),
    ).insert("end"@, InputView::Number(end)))
}

/// Two conditionings combined.
pub open spec fn combine(a: Source, b: Source) -> NodeView {
    ("ConditioningCombine"@, Map::empty().insert("conditioning_1"@, link(a)).insert("conditioning_2"@, link(b)))
}

/// Each segment encoded, limited to its range and combined into `combined`,
/// numbered from `next`: the graph, the combined conditioning and the next
/// free number.
pub open spec fn segment_chain(g: GraphView, next: int, clip: Source, combined: Source, segs: Seq<PromptSegment>) -> (
    GraphView,
    Source,
    int,
)
    decreases segs.len(),
{
    if segs.len() == 0 {
        (g, combined, next)
    } else {
        let e = id_of(next);
        let r = id_of(next + 1);
        let c = id_of(next + 2);
        let g1 = g.insert(e, clip_encode(clip, segs[0].text@)).insert(
            r,
            timestep_range((e, 0), segs[0].start@, segs[0].end@),
        ).insert(c, combine(combined, (r, 0)));
        segment_chain(g1, next + 3, clip, (c, 0), segs.drop_first())
    }
}

/// The base prompt encoded, then the segments chained onto it.
pub open spec fn scheduled_conditioning(g: GraphView, next: int, clip: Source, base: Seq<char>, segs: Seq<
    PromptSegment,
>) -> (GraphView, Source, int) {
    let b = id_of(next);
    segment_chain(g.insert(b, clip_encode(clip, base)), next + 1, clip, (b, 0), segs)
}

fn clip_encode_node(clip: &(String, u32), t: &str) -> (n: WorkflowNode)
    ensures
        n.deep_view() == clip_encode(src(*clip), t@),
{
    let mut n = new_node("CLIPTextEncode");
    set_input(&mut n, "clip", link_to(clip));
    set_input(&mut n, "text", text(t));
    n
}

/// Add the conditioning of a base prompt with timestep-scheduled segments
/// (see [`scheduled_conditioning`]), numbered from `next_id`; gives the
/// conditioning and the next free number.
pub fn build_scheduled_conditioning(
    workflow: &mut StrMap<WorkflowNode>,
    next_id: u32,
    clip_source: &(String, u32),
    base_prompt: &str,
    segments: &Vec<PromptSegment>,
) -> (r: ((String, u32), u32))
    requires
        old(workflow).wf(),
        next_id + 1 + 3 * segments@.len() <= u32::MAX,
    ensures
        final(workflow).wf(),
        (final(workflow).view(), src(r.0), r.1 as int) == scheduled_conditioning(
            old(workflow).view(),
            next_id as int,
            src(*clip_source),
            base_prompt@,
            segments@,
        ),
{
    let ghost whole = scheduled_conditioning(workflow.view(), next_id as int, src(*clip_source), base_prompt@, segments@);
    let base_id = add_node(workflow, next_id, clip_encode_node(clip_source, base_prompt));
    let mut next_id = next_id + 1;
    let mut combined: (String, u32) = (base_id, 0);
    assert(segments@.skip(0) =~= segments@);
    let mut i: usize = 0;
    while i < segments.len()
        invariant
            workflow.wf(),
            i <= segments@.len(),
            next_id + 3 * (segments@.len() - i) <= u32::MAX,
            whole == segment_chain(workflow.view(), next_id as int, src(*clip_source), src(combined), segments@.skip(
                i as int,
            )),
        decreases segments@.len() - i,
    {
        let seg = &segments[i];
        proof {
            assert(segments@.skip(i as int)[0] == segments@[i as int]);
            assert(segments@.skip(i as int).drop_first() =~= segments@.skip(i + 1));
        }
        let enc = add_node(workflow, next_id, clip_encode_node(clip_source, seg.text.as_str()));
        let mut range = new_node("ConditioningSetTimestepRange");
        set_input(&mut range, "conditioning", link_id(&enc, 0));
        set_input(&mut range, "start", InputValue::Number(seg.start.clone()));
        set_input(&mut range, "end", InputValue::Number(seg.end.clone()));
        let range_id = add_node(workflow, next_id + 1, range);
        let mut comb = new_node("ConditioningCombine");
        set_input(&mut comb, "conditioning_1", link_to(&combined));
        set_input(&mut comb, "conditioning_2", link_id(&range_id, 0));
        let comb_id = add_node(workflow, next_id + 2, comb);
        combined = (comb_id, 0);
        next_id += 3;
        i += 1;
    }
    assert(segments@.skip(i as int) =~= Seq::<PromptSegment>::empty());
    (combined, next_id)
}

/// The sampler.
pub open spec fn ksampler(
    model: Source,
    positive: Source,
    negative: Source,
    latent: Source,
    seed: i64,
    p: &WorkflowParams,
    denoise: Seq<char>,
) -> NodeView {
    ("KSampler"@, Map::empty().insert("model"@, link(model)).insert("positive"@, link(positive)).insert(
        "negative"@,
        link(negative),
    ).insert("latent_image"@, link(latent)).insert("seed"@, InputView::Int(seed)).insert(
        "steps"@,
        InputView::Int(p.steps as i64),
    ).insert("cfg"@, InputView::Number(p.cfg@)).insert("sampler_name"@, InputView::Text(p.sampler_name@)).insert(
        "scheduler"@,
        InputView::Text(p.scheduler@),
    ).insert("denoise"@, InputView::Number(denoise)))
}

pub(crate) fn ksampler_node(
    model: &(String, u32),
    positive: &String,
    negative: &String,
    latent: &String,
    seed: i64,
    p: &WorkflowParams,
    denoise: &str,
) -> (n: WorkflowNode)
    ensures
        n.deep_view() == ksampler(src(*model), (positive@, 0), (negative@, 0), (latent@, 0), seed, p, denoise@),
{
    let mut n = new_node("KSampler");
    set_input(&mut n, "model", link_to(model));
    set_input(&mut n, "positive", link_id(positive, 0));
    set_input(&mut n, "negative", link_id(negative, 0));
    set_input(&mut n, "latent_image", link_id(latent, 0));
    set_input(&mut n, "seed", InputValue::Int(seed));
    set_input(&mut n, "steps", InputValue::Int(p.steps as i64));
    set_input(&mut n, "cfg", InputValue::Number(p.cfg.clone()));
    set_input(&mut n, "sampler_name", InputValue::Text(p.sampler_name.clone()));
    set_input(&mut n, "scheduler", InputValue::Text(p.scheduler.clone()));
    set_input(&mut n, "denoise", number(denoise));
    n
}

pub(crate) fn prompt_nodes(
    workflow: &mut StrMap<WorkflowNode>,
    next_id: u32,
    clip: &(String, u32),
    p: &WorkflowParams,
) -> (r: (String, String))
    requires
        old(workflow).wf(),
        next_id + 2 <= u32::MAX,
    ensures
        final(workflow).wf(),
        r.0@ == id_of(next_id as int),
        r.1@ == id_of(next_id + 1),
        final(workflow).view() == old(workflow).view().insert(
            id_of(next_id as int),
            clip_encode(src(*clip), p.positive_prompt@),
        ).insert(id_of(next_id + 1), clip_encode(src(*clip), p.negative_prompt@)),
{
    let pos = add_node(workflow, next_id, clip_encode_node(clip, p.positive_prompt.as_str()));
    let neg = add_node(workflow, next_id + 1, clip_encode_node(clip, p.negative_prompt.as_str()));
    (pos, neg)
}

/// A workflow under construction: the graph, the next free node number, the
/// image produced so far, the model, CLIP, positive and negative
/// conditioning and VAE sources, and the main sampler's id.
pub struct WorkflowResult {
    pub workflow: StrMap<WorkflowNode>,
    pub next_id: u32,
    pub image_output: (String, u32),
    pub model_source: (String, u32),
    pub clip_source: (String, u32),
    pub positive_source: (String, u32),
    pub negative_source: (String, u32),
    pub vae_source: (String, u32),
    pub sampler_id: String,
}

/// A workflow under construction as values, in the order of its fields.
pub type ResultView = (GraphView, int, Source, Source, Source, Source, Source, Source, Seq<char>);

impl WorkflowResult {
    pub open spec fn view(&self) -> ResultView {
        (self.workflow.view(), self.next_id as int, src(self.image_output), src(self.model_source), src(
            self.clip_source,
        ), src(self.positive_source), src(self.negative_source), src(self.vae_source), self.sampler_id@)
    }

    pub open spec fn wf(&self) -> bool {
        self.workflow.wf()
    }
}


// ---------------------------------------------------------------------------
// Patches for model families
// ---------------------------------------------------------------------------

/// The workflow with `n` added under the next free number as the new model,
/// the main sampler rewired to it.
pub open spec fn with_model_patch(r: ResultView, n: NodeView) -> ResultView {
    let id = id_of(r.1);
    (rewired(r.0.insert(id, n), r.8, "model"@, InputView::Link(id, 0)), r.1 + 1, r.2, (id, 0), r.4, r.5, r.6, r.7, r.8)
}

/// The workflow with `n` added under the next free number as the new
/// positive conditioning, the main sampler rewired to it.
pub open spec fn with_positive_patch(r: ResultView, n: NodeView) -> ResultView {
    let id = id_of(r.1);
    (rewired(r.0.insert(id, n), r.8, "positive"@, InputView::Link(id, 0)), r.1 + 1, r.2, r.3, r.4, (id, 0), r.6, r.7,
        r.8)
}

fn apply_model_patch(result: &mut WorkflowResult, n: WorkflowNode)
    requires
        old(result).wf(),
        old(result).next_id < u32::MAX,
    ensures
        final(result).wf(),
        final(result).view() == with_model_patch(old(result).view(), n.deep_view()),
{
    let id = add_node(&mut result.workflow, result.next_id, n);
    result.next_id = result.next_id + 1;
    rewire(&mut result.workflow, &result.sampler_id, "model", link_id(&id, 0));
    result.model_source = (id, 0);
}

fn apply_positive_patch(result: &mut WorkflowResult, n: WorkflowNode)
    requires
        old(result).wf(),
        old(result).next_id < u32::MAX,
    ensures
        final(result).wf(),
        final(result).view() == with_positive_patch(old(result).view(), n.deep_view()),
{
    let id = add_node(&mut result.workflow, result.next_id, n);
    result.next_id = result.next_id + 1;
    rewire(&mut result.workflow, &result.sampler_id, "positive", link_id(&id, 0));
    result.positive_source = (id, 0);
}

/// A model-sampling node of class `class` with a `shift`.
pub open spec fn shift_node(class: Seq<char>, model: Source, shift: Seq<char>) -> NodeView {
    (class, Map::empty().insert("model"@, link(model)).insert("shift"@, InputView::Number(shift)))
}

/// The rectified-flow sampling patch of the model family, if it has one:
/// none for Nanosaur (its loader handles it); shift 10 for Mugen; shift 3
/// for SD3; the resolution-dependent Flux sampling; shift 1.73 for
/// AuraFlow.
pub open spec fn rectified_flow_node(p: &WorkflowParams, model: Source) -> Option<NodeView> {
    if family_is(&p.model, "nanosaur"@, "nanosaur"@) {
        None
    } else if family_is(&p.model, "mugen"@, "mugen"@) {
        Some(shift_node("ModelSamplingSD3"@, model, "10.0"@))
    } else if sd3_family(&p.model) {
        Some(shift_node("ModelSamplingSD3"@, model, "3.0"@))
    } else if family_is(&p.model, "flux"@, "flux"@) {
        Some(("ModelSamplingFlux"@, Map::empty().insert("model"@, link(model)).insert(
            "max_shift"@,
            InputView::Number("1.15"@),
        ).insert("base_shift"@, InputView::Number("0.5"@)).insert("width"@, InputView::Int(p.width as i64)).insert(
            "height"@,
            InputView::Int(p.height as i64),
        )))
    } else if family_is(&p.model, "auraflow"@, "auraflow"@) {
        Some(shift_node("ModelSamplingAuraFlow"@, model, "1.73"@))
    } else {
        None
    }
}

fn shift_patch(class: &str, model: &(String, u32), shift: &str) -> (n: WorkflowNode)
    ensures
        n.deep_view() == shift_node(class@, src(*model), shift@),
{
    let mut n = new_node(class);
    set_input(&mut n, "model", link_to(model));
    set_input(&mut n, "shift", number(shift));
    n
}

/// A Stable Diffusion 3 model that is neither Nanosaur nor Mugen (those have
/// sampling of their own).
pub open spec fn sd3_sampled(p: &WorkflowParams) -> bool {
    sd3_family(&p.model) && !family_is(&p.model, "nanosaur"@, "nanosaur"@) && !family_is(&p.model, "mugen"@,
        "mugen"@)
}

/// Law: a Stable Diffusion 3 model (not Nanosaur or Mugen) is sampled
/// through a `ModelSamplingSD3` node of shift 3.0 fed by the current model.
pub proof fn law_sd3_sampling(p: &WorkflowParams, model: Source)
    requires
        sd3_sampled(p),
    ensures
        rectified_flow_node(p, model) matches Some(n) && n.0 == "ModelSamplingSD3"@ && n.1.contains_key("model"@)
            && n.1["model"@] == link(model) && n.1.contains_key("shift"@) && n.1["shift"@] == InputView::Number(
            "3.0"@),
{
    reveal_strlit("model");
    reveal_strlit("shift");
    assert("model"@[0] != "shift"@[0]);
}

/// Patch the model with the family's rectified-flow sampling (see
/// [`rectified_flow_node`]) and rewire the main sampler to it.
pub fn inject_rectified_flow(result: &mut WorkflowResult, params: &WorkflowParams)
    requires
        old(result).wf(),
        old(result).next_id < u32::MAX,
    ensures
        final(result).wf(),
        final(result).view() == match rectified_flow_node(params, old(result).view().3) {
            Some(n) => with_model_patch(old(result).view(), n),
            None => old(result).view(),
        },
        sd3_sampled(params) ==> ({
            let before = old(result).view();
            let after = final(result).view();
            let id = id_of(before.1);
            &&& after.0.contains_key(id)
            &&& after.0[id].0 == "ModelSamplingSD3"@
            &&& after.0[id].1.contains_key("shift"@)
            &&& after.0[id].1["shift"@] == InputView::Number("3.0"@)
            &&& (before.8 != id ==> after.0[id].1.contains_key("model"@) && after.0[id].1["model"@] == link(before.3))
            &&& (before.0.contains_key(before.8) ==> after.0[before.8].1["model"@] == InputView::Link(id, 0u32))
            &&& after.3 == (id, 0u32)
        }),
{
    proof {
        if sd3_sampled(params) {
            law_sd3_sampling(params, old(result).view().3);
        }
    }
    if is_nanosaur_architecture(&params.model) {
        return;
    }
    if is_mugen_architecture(&params.model) {
        let n = shift_patch("ModelSamplingSD3", &result.model_source, "10.0");
        apply_model_patch(result, n);
    } else if is_sd3_architecture(&params.model) {
        let n = shift_patch("ModelSamplingSD3", &result.model_source, "3.0");
        apply_model_patch(result, n);
    } else if is_flux_architecture(&params.model) {
        let mut n = new_node("ModelSamplingFlux");
        set_input(&mut n, "model", link_to(&result.model_source));
        set_input(&mut n, "max_shift", number("1.15"));
        set_input(&mut n, "base_shift", number("0.5"));
        set_input(&mut n, "width", InputValue::Int(params.width as i64));
        set_input(&mut n, "height", InputValue::Int(params.height as i64));
        apply_model_patch(result, n);
    } else if is_auraflow_architecture(&params.model) {
        let n = shift_patch("ModelSamplingAuraFlow", &result.model_source, "1.73");
        apply_model_patch(result, n);
    }
}

/// Patch a Stable Cascade model with its sampling (shift 2) and rewire the
/// main sampler to it; other models are left alone.
pub fn inject_cascade_sampling(result: &mut WorkflowResult, params: &WorkflowParams)
    requires
        old(result).wf(),
        old(result).next_id < u32::MAX,
    ensures
        final(result).wf(),
        final(result).view() == if family_is(&params.model, "cascade"@, "cascade"@) {
            with_model_patch(old(result).view(), shift_node("ModelSamplingStableCascade"@, old(result).view().3, "2.0"@))
        } else {
            old(result).view()
        },
{
    if !is_cascade_architecture(&params.model) {
        return;
    }
    let n = shift_patch("ModelSamplingStableCascade", &result.model_source, "2.0");
    apply_model_patch(result, n);
}

/// Flux guidance applies to Flux models but Schnell, which is
/// guidance-distilled.
pub open spec fn flux_guidance_applies(p: &WorkflowParams) -> bool {
    family_is(&p.model, "flux"@, "flux"@) && !contains(lower_name(&p.model), "schnell"@)
}

/// Guide a Flux model's positive conditioning (guidance 3.5) and rewire the
/// main sampler to it (see [`flux_guidance_applies`]).
pub fn inject_flux_guidance(result: &mut WorkflowResult, params: &WorkflowParams)
    requires
        old(result).wf(),
        old(result).next_id < u32::MAX,
    ensures
        final(result).wf(),
        final(result).view() == if flux_guidance_applies(params) {
            with_positive_patch(old(result).view(), ("FluxGuidance"@, Map::empty().insert(
                "conditioning"@,
                link(old(result).view().5),
            ).insert("guidance"@, InputView::Number("3.5"@))))
        } else {
            old(result).view()
        },
{
    if !is_flux_architecture(&params.model) {
        return;
    }
    let name = model_name_lower(&params.model);
    if str_contains(name.as_str(), "schnell") {
        return;
    }
    let mut n = new_node("FluxGuidance");
    set_input(&mut n, "conditioning", link_to(&result.positive_source));
    set_input(&mut n, "guidance", number("3.5"));
    apply_positive_patch(result, n);
}

/// Patch the model with Smart Guidance when it is asked for, and rewire the
/// main sampler to it; every later sampler uses the patched model too.
pub fn inject_smart_guidance(result: &mut WorkflowResult, params: &WorkflowParams)
    requires
        old(result).wf(),
        old(result).next_id < u32::MAX,
    ensures
        final(result).wf(),
        final(result).view() == if params.smart_guidance {
            with_model_patch(old(result).view(), ("MooshieSmartGuidance"@, Map::empty().insert(
                "model"@,
                link(old(result).view().3),
            )))
        } else {
            old(result).view()
        },
{
    if !params.smart_guidance {
        return;
    }
    let mut n = new_node("MooshieSmartGuidance");
    set_input(&mut n, "model", link_to(&result.model_source));
    apply_model_patch(result, n);
}


// ---------------------------------------------------------------------------
// The whole workflow
// ---------------------------------------------------------------------------

/// The workflow of the generation mode: image-to-image, inpainting, or
/// text-to-image for any other mode.
pub open spec fn base_workflow(p: &WorkflowParams, seed: i64) -> ResultView {
    if p.mode@ == "img2img"@ {
        img2img_workflow(p, seed)
    } else if p.mode@ == "inpainting"@ {
        inpainting_workflow(p, seed)
    } else {
        txt2img_workflow(p, seed)
    }
}

/// The Flux guidance node for the positive conditioning `positive`.
pub open spec fn flux_guidance_node(positive: Source) -> NodeView {
    ("FluxGuidance"@, Map::empty().insert("conditioning"@, link(positive)).insert("guidance"@, InputView::Number("3.5"@)))
}

/// The family patches applied in turn: rectified flow, Stable Cascade
/// sampling, Flux guidance, Smart Guidance.
pub open spec fn patched(r: ResultView, p: &WorkflowParams) -> ResultView {
    let r1 = match rectified_flow_node(p, r.3) {
        Some(n) => with_model_patch(r, n),
        None => r,
    };
    let r2 = if family_is(&p.model, "cascade"@, "cascade"@) {
        with_model_patch(r1, shift_node("ModelSamplingStableCascade"@, r1.3, "2.0"@))
    } else {
        r1
    };
    let r3 = if flux_guidance_applies(p) { with_positive_patch(r2, flux_guidance_node(r2.5)) } else { r2 };
    if p.smart_guidance {
        with_model_patch(r3, ("MooshieSmartGuidance"@, Map::empty().insert("model"@, link(r3.3))))
    } else {
        r3
    }
}

/// ControlNet applies when it is enabled with a model and an image.
pub open spec fn controlnet_applies(p: &WorkflowParams) -> bool {
    p.controlnet matches Some(c) && c.enabled && c.controlnet_model is Some && c.image is Some
}

/// The workflow with ControlNet applied and the main sampler rewired to the
/// ControlNet conditioning.
pub open spec fn with_controlnet_rewired(r: ResultView, c: &ControlNetParam) -> ResultView {
    let r1 = with_controlnet(r, c);
    (rewired(rewired(r1.0, r1.8, "positive"@, link(r1.5)), r1.8, "negative"@, link(r1.6)), r1.1, r1.2, r1.3, r1.4,
        r1.5, r1.6, r1.7, r1.8)
}

/// The node saving the final image: at the requested bit depth, as raw JXL
/// when JXL output is asked for, else as PNG.
pub open spec fn save_node(image: Source, p: &WorkflowParams) -> NodeView {
    ("MooshieSaveImage"@, Map::empty().insert("images"@, link(image)).insert(
        "bit_depth"@,
        InputView::Text(p.output_bit_depth@),
    ).insert("output_format"@, InputView::Text(if p.output_format@ == "jxl"@ { "jxl_raw"@ } else { "png"@ })))
}

/// The generation's workflow: the mode's workflow, the family patches,
/// ControlNet when it applies, the face fix when asked for, and the save
/// node for the final image.
pub open spec fn workflow_graph(p: &WorkflowParams, seed: i64) -> GraphView {
    let r1 = patched(base_workflow(p, seed), p);
    let r2 = if controlnet_applies(p) { with_controlnet_rewired(r1, &p.controlnet->0) } else { r1 };
    let fixed = p.facefix_enabled;
    let g3 = if fixed { r2.0.insert(id_of(r2.1), face_detailer(r2, r2.2, p, seed)) } else { r2.0 };
    let n3 = if fixed { r2.1 + 1 } else { r2.1 };
    let image = if fixed { (id_of(r2.1), 0u32) } else { r2.2 };
    g3.insert(id_of(n3), save_node(image, p))
}

/// Build the generation's workflow graph (see [`workflow_graph`]). The
/// upscale pass is not part of this library, so `upscale_enabled` must be
/// off.
pub fn build_workflow(params: &WorkflowParams, seed: i64) -> (r: StrMap<WorkflowNode>)
    requires
        !params.upscale_enabled,
        params.loras@.len() + 40 <= u32::MAX,
        seed <= i64::MAX - 2,
    ensures
        r.wf(),
        r.view() == workflow_graph(params, seed),
{
    let mut result = if str_eq(params.mode.as_str(), "img2img") {
        img2img::build(params, seed)
    } else if str_eq(params.mode.as_str(), "inpainting") {
        inpainting::build(params, seed)
    } else {
        txt2img::build(params, seed)
    };
    assert(result.view() == base_workflow(params, seed));
    inject_rectified_flow(&mut result, params);
    inject_cascade_sampling(&mut result, params);
    inject_flux_guidance(&mut result, params);
    inject_smart_guidance(&mut result, params);
    assert(result.view() == patched(base_workflow(params, seed), params));
    match &params.controlnet {
        Some(cn) => {
            if cn.enabled && cn.controlnet_model.is_some() && cn.image.is_some() {
                inject_controlnet(&mut result, cn);
                let pos = link_to(&result.positive_source);
                rewire(&mut result.workflow, &result.sampler_id, "positive", pos);
                let neg = link_to(&result.negative_source);
                rewire(&mut result.workflow, &result.sampler_id, "negative", neg);
            }
        },
        None => {},
    }
    let final_image = (result.image_output.0.clone(), result.image_output.1);
    let final_image = if params.facefix_enabled {
        facefix::append_facefix_chain(&mut result, params, final_image, seed)
    } else {
        final_image
    };
    let mut save = new_node("MooshieSaveImage");
    set_input(&mut save, "images", link_to(&final_image));
    set_input(&mut save, "bit_depth", InputValue::Text(params.output_bit_depth.clone()));
    if str_eq(params.output_format.as_str(), "jxl") {
        set_input(&mut save, "output_format", text("jxl_raw"));
    } else {
        set_input(&mut save, "output_format", text("png"));
    }
    add_node(&mut result.workflow, result.next_id, save);
    result.workflow
}


// ---------------------------------------------------------------------------
// Every link resolves
// ---------------------------------------------------------------------------

/// Every link of node `n` points at a node of `g`.
pub open spec fn links_in(n: NodeView, g: GraphView) -> bool {
    forall|k: Seq<char>| #[trigger] n.1.contains_key(k) ==> (n.1[k] matches InputView::Link(t, _) ==> g.contains_key(t))
}

/// Every link in the graph points at a node of the graph.
pub open spec fn links_closed(g: GraphView) -> bool {
    forall|id: Seq<char>| #[trigger] g.contains_key(id) ==> links_in(g[id], g)
}

/// A workflow under construction whose links all resolve and whose
/// sources and sampler are nodes of it.
pub open spec fn result_ok(r: ResultView) -> bool {
    &&& links_closed(r.0)
    &&& r.0.contains_key(r.2.0)
    &&& r.0.contains_key(r.3.0)
    &&& r.0.contains_key(r.4.0)
    &&& r.0.contains_key(r.5.0)
    &&& r.0.contains_key(r.6.0)
    &&& r.0.contains_key(r.7.0)
    &&& r.0.contains_key(r.8)
}

proof fn lemma_insert_closed(g: GraphView, id: Seq<char>, n: NodeView)
    requires
        links_closed(g),
        links_in(n, g),
    ensures
        links_closed(g.insert(id, n)),
{
    let g2 = g.insert(id, n);
    assert forall|x: Seq<char>| #[trigger] g2.contains_key(x) implies links_in(g2[x], g2) by {
        let m = g2[x];
        assert forall|k: Seq<char>| #[trigger] m.1.contains_key(k) implies (m.1[k] matches InputView::Link(t, _)
            ==> g2.contains_key(t)) by {
            if x != id {
                assert(links_in(g[x], g));
            }
        }
    }
}

proof fn lemma_rewired_closed(g: GraphView, node: Seq<char>, key: Seq<char>, t: Source)
    requires
        links_closed(g),
        g.contains_key(t.0),
    ensures
        links_closed(rewired(g, node, key, link(t))),
        rewired(g, node, key, link(t)).dom() == g.dom(),
{
    if g.contains_key(node) {
        let n = (g[node].0, g[node].1.insert(key, link(t)));
        assert(links_in(g[node], g));
        assert(links_in(n, g));
        lemma_insert_closed(g, node, n);
        assert(g.insert(node, n).dom() =~= g.dom());
    }
}

proof fn lemma_lora_chain_ok(g: GraphView, next: int, model: Source, clip: Source, loras: Seq<LoraParam>)
    requires
        links_closed(g),
        g.contains_key(model.0),
        g.contains_key(clip.0),
    ensures
        ({
            let l = lora_chain(g, next, model, clip, loras);
            links_closed(l.0) && l.0.contains_key(l.1.0) && l.0.contains_key(l.2.0) && (forall|x: Seq<char>|
                g.contains_key(x) ==> #[trigger] l.0.contains_key(x))
        }),
    decreases loras.len(),
{
    if loras.len() > 0 {
        let id = id_of(next);
        lemma_insert_closed(g, id, lora_node(model, clip, loras[0]));
        lemma_lora_chain_ok(g.insert(id, lora_node(model, clip, loras[0])), next + 1, (id, 0), (id, 1),
            loras.drop_first());
    }
}

proof fn lemma_model_nodes_ok(p: &WorkflowParams)
    ensures
        ({
            let m = model_nodes(Map::empty(), 1, p);
            links_closed(m.0) && m.0.contains_key(m.1.0) && m.0.contains_key(m.2.0) && m.0.contains_key(m.3.0)
        }),
{
    let e = Map::<Seq<char>, NodeView>::empty();
    assert(links_closed(e));
    let b = base_loaders(e, 1, p);
    if family_is(&p.model, "nanosaur"@, "nanosaur"@) {
        lemma_insert_closed(e, id_of(1), nanosaur_loader(p));
    } else if p.use_split_model {
        lemma_insert_closed(e, id_of(1), unet_loader(p));
        let g1 = e.insert(id_of(1), unet_loader(p));
        lemma_insert_closed(g1, id_of(2), clip_loader(p));
        let g2 = g1.insert(id_of(2), clip_loader(p));
        lemma_insert_closed(g2, id_of(3), vae_loader(or_default(p.vae, ""@)));
    } else {
        lemma_insert_closed(e, id_of(1), checkpoint_loader(p));
    }
    if !family_is(&p.model, "nanosaur"@, "nanosaur"@) {
        lemma_lora_chain_ok(b.0, b.4, b.1, b.2, p.loras@);
        let l = lora_chain(b.0, b.4, b.1, b.2, p.loras@);
        assert(l.0.contains_key(b.3.0));
        match vae_override(p) {
            Some(name) => {
                lemma_insert_closed(l.0, id_of(l.3), vae_loader(name));
            },
            None => {},
        }
    }
}

proof fn lemma_base_ok(p: &WorkflowParams, seed: i64)
    ensures
        result_ok(base_workflow(p, seed)),
{
    lemma_model_nodes_ok(p);
    let m = model_nodes(Map::empty(), 1, p);
    let n = m.4;
    let pos = id_of(n);
    let neg = id_of(n + 1);
    let g1 = m.0.insert(pos, clip_encode(m.2, p.positive_prompt@));
    lemma_insert_closed(m.0, pos, clip_encode(m.2, p.positive_prompt@));
    let g2 = g1.insert(neg, clip_encode(m.2, p.negative_prompt@));
    lemma_insert_closed(g1, neg, clip_encode(m.2, p.negative_prompt@));
    if p.mode@ == "img2img"@ || p.mode@ == "inpainting"@ {
        let img = id_of(n + 2);
        let scl = id_of(n + 3);
        lemma_insert_closed(g2, img, img2img::load_image(p));
        let g3 = g2.insert(img, img2img::load_image(p));
        lemma_insert_closed(g3, scl, img2img::scale_image((img, 0), p));
        let g4 = g3.insert(scl, img2img::scale_image((img, 0), p));
        if p.mode@ == "img2img"@ {
            let enc = id_of(n + 4);
            let smp = id_of(n + 5);
            let dec = id_of(n + 6);
            lemma_insert_closed(g4, enc, img2img::vae_encode((scl, 0), m.3));
            let g5 = g4.insert(enc, img2img::vae_encode((scl, 0), m.3));
            let ks = ksampler(m.1, (pos, 0), (neg, 0), (enc, 0), seed, p, p.denoise@);
            lemma_insert_closed(g5, smp, ks);
            let g6 = g5.insert(smp, ks);
            lemma_insert_closed(g6, dec, vae_decode_node(&p.model, smp, m.3));
        } else {
            let msk = id_of(n + 4);
            let enc = id_of(n + 5);
            let lat = id_of(n + 6);
            lemma_insert_closed(g4, msk, inpainting::load_mask(p));
            let g5 = g4.insert(msk, inpainting::load_mask(p));
            lemma_insert_closed(g5, enc, img2img::vae_encode((scl, 0), m.3));
            let g6 = g5.insert(enc, img2img::vae_encode((scl, 0), m.3));
            lemma_insert_closed(g6, lat, inpainting::noise_mask((enc, 0), (msk, 0)));
            let g7 = g6.insert(lat, inpainting::noise_mask((enc, 0), (msk, 0)));
            let dd = inpainting::uses_differential_diffusion(p);
            let ddn = ("DifferentialDiffusion"@, Map::empty().insert("model"@, link(m.1)));
            lemma_insert_closed(g7, id_of(n + 7), ddn);
            let g8 = if dd { g7.insert(id_of(n + 7), ddn) } else { g7 };
            let sampler_model = if dd { (id_of(n + 7), 0u32) } else { m.1 };
            let s = if dd { n + 8 } else { n + 7 };
            let ks = ksampler(sampler_model, (pos, 0), (neg, 0), (lat, 0), seed, p, p.denoise@);
            lemma_insert_closed(g8, id_of(s), ks);
            let g9 = g8.insert(id_of(s), ks);
            lemma_insert_closed(g9, id_of(s + 1), vae_decode_node(&p.model, id_of(s), m.3));
        }
    } else {
        let lat = id_of(n + 2);
        let smp = id_of(n + 3);
        let dec = id_of(n + 4);
        lemma_insert_closed(g2, lat, txt2img::empty_latent(p));
        let g3 = g2.insert(lat, txt2img::empty_latent(p));
        let ks = ksampler(m.1, (pos, 0), (neg, 0), (lat, 0), seed, p, "1.0"@);
        lemma_insert_closed(g3, smp, ks);
        let g4 = g3.insert(smp, ks);
        lemma_insert_closed(g4, dec, vae_decode_node(&p.model, smp, m.3));
    }
}

proof fn lemma_model_patch_ok(r: ResultView, n: NodeView)
    requires
        result_ok(r),
        links_in(n, r.0),
    ensures
        result_ok(with_model_patch(r, n)),
{
    let id = id_of(r.1);
    lemma_insert_closed(r.0, id, n);
    lemma_rewired_closed(r.0.insert(id, n), r.8, "model"@, (id, 0));
}

proof fn lemma_positive_patch_ok(r: ResultView, n: NodeView)
    requires
        result_ok(r),
        links_in(n, r.0),
    ensures
        result_ok(with_positive_patch(r, n)),
{
    let id = id_of(r.1);
    lemma_insert_closed(r.0, id, n);
    lemma_rewired_closed(r.0.insert(id, n), r.8, "positive"@, (id, 0));
}

proof fn lemma_patched_ok(r: ResultView, p: &WorkflowParams)
    requires
        result_ok(r),
    ensures
        result_ok(patched(r, p)),
{
    let r1 = match rectified_flow_node(p, r.3) {
        Some(n) => with_model_patch(r, n),
        None => r,
    };
    match rectified_flow_node(p, r.3) {
        Some(n) => lemma_model_patch_ok(r, n),
        None => {},
    }
    let r2 = if family_is(&p.model, "cascade"@, "cascade"@) {
        with_model_patch(r1, shift_node("ModelSamplingStableCascade"@, r1.3, "2.0"@))
    } else {
        r1
    };
    if family_is(&p.model, "cascade"@, "cascade"@) {
        lemma_model_patch_ok(r1, shift_node("ModelSamplingStableCascade"@, r1.3, "2.0"@));
    }
    let r3 = if flux_guidance_applies(p) { with_positive_patch(r2, flux_guidance_node(r2.5)) } else { r2 };
    if flux_guidance_applies(p) {
        lemma_positive_patch_ok(r2, flux_guidance_node(r2.5));
    }
    if p.smart_guidance {
        lemma_model_patch_ok(r3, ("MooshieSmartGuidance"@, Map::empty().insert("model"@, link(r3.3))));
    }
}

proof fn lemma_controlnet_ok(r: ResultView, c: &ControlNetParam)
    requires
        result_ok(r),
    ensures
        result_ok(with_controlnet_rewired(r, c)),
{
    let n = r.1;
    let load = id_of(n);
    let ln = controlnet::load_control_image(or_default(c.image, ""@));
    lemma_insert_closed(r.0, load, ln);
    let g1 = r.0.insert(load, ln);
    let pre = controlnet::preprocessor_of(c);
    match pre {
        Some(pp) => {
            lemma_insert_closed(g1, id_of(n + 1), (pp, controlnet::preprocessor_inputs_of(pp, (load, 0))));
        },
        None => {},
    }
    let g2 = match pre {
        Some(pp) => g1.insert(id_of(n + 1), (pp, controlnet::preprocessor_inputs_of(pp, (load, 0)))),
        None => g1,
    };
    let n2 = if pre is Some { n + 2 } else { n + 1 };
    let ldr = id_of(n2);
    let ldn = ("ControlNetLoader"@, Map::empty().insert(
        "control_net_name"@,
        InputView::Text(or_default(c.controlnet_model, ""@)),
    ));
    lemma_insert_closed(g2, ldr, ldn);
    let r1 = with_controlnet(r, c);
    let g3 = g2.insert(ldr, ldn);
    let app = id_of(n2 + 1);
    assert(r1.0 == g3.insert(app, r1.0[app]));
    lemma_insert_closed(g3, app, r1.0[app]);
    lemma_rewired_closed(r1.0, r1.8, "positive"@, r1.5);
    let g4 = rewired(r1.0, r1.8, "positive"@, link(r1.5));
    lemma_rewired_closed(g4, r1.8, "negative"@, r1.6);
}

/// Law: in the workflow built for any parameters and seed, every link
/// between nodes points at a node of the workflow.
pub proof fn law_workflow_links_resolve(p: &WorkflowParams, seed: i64)
    ensures
        links_closed(workflow_graph(p, seed)),
{
    lemma_base_ok(p, seed);
    let r1 = patched(base_workflow(p, seed), p);
    lemma_patched_ok(base_workflow(p, seed), p);
    if controlnet_applies(p) {
        lemma_controlnet_ok(r1, &p.controlnet->0);
    }
    let r2 = if controlnet_applies(p) { with_controlnet_rewired(r1, &p.controlnet->0) } else { r1 };
    let fixed = p.facefix_enabled;
    if fixed {
        lemma_insert_closed(r2.0, id_of(r2.1), facefix::face_detailer(r2, r2.2, p, seed));
    }
    let g3 = if fixed { r2.0.insert(id_of(r2.1), facefix::face_detailer(r2, r2.2, p, seed)) } else { r2.0 };
    let n3 = if fixed { r2.1 + 1 } else { r2.1 };
    let image = if fixed { (id_of(r2.1), 0u32) } else { r2.2 };
    lemma_insert_closed(g3, id_of(n3), save_node(image, p));
}

} // verus!
