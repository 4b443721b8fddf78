//! The text-to-image workflow.
use vstd::prelude::*;
use crate::strmap::StrMap;
use crate::templates::{
    add_node, clip_encode, family_is, id_of, insert_vae_decode, ksampler, ksampler_node, load_model_nodes,
    model_nodes, needs_16_channel_latent, needs_sd3_latent, new_node, prompt_nodes, set_input, src, vae_decode_node,
    InputValue, InputView, NodeView, ResultView, WorkflowNode, WorkflowParams, WorkflowResult,
};

verus! {

/// An empty latent of the requested size and batch, with 16 channels for
/// the models that need them.
pub open spec fn empty_latent(p: &WorkflowParams) -> NodeView {
    (if needs_16_channel_latent(&p.model) { "EmptySD3LatentImage"@ } else { "EmptyLatentImage"@ }, Map::empty().insert(
        "width"@,
        InputView::Int(p.width as i64),
    ).insert("height"@, InputView::Int(p.height as i64)).insert("batch_size"@, InputView::Int(p.batch_size as i64)))
}

/// The text-to-image workflow: the model loaders from node 1, the positive
/// and negative prompts, an empty latent, the sampler at full denoise and
/// the VAE decode.
pub open spec fn txt2img_workflow(p: &WorkflowParams, seed: i64) -> ResultView {
    let m = model_nodes(Map::empty(), 1, p);
    let n = m.4;
    let pos = id_of(n);
    let neg = id_of(n + 1);
    let lat = id_of(n + 2);
    let smp = id_of(n + 3);
    let dec = id_of(n + 4);
    let g = m.0.insert(pos, clip_encode(m.2, p.positive_prompt@)).insert(neg, clip_encode(m.2, p.negative_prompt@))
        .insert(lat, empty_latent(p)).insert(smp, ksampler(m.1, (pos, 0), (neg, 0), (lat, 0), seed, p, "1.0"@)).insert(
        dec,
        vae_decode_node(&p.model, smp, m.3),
    );
    (g, n + 5, (dec, 0), m.1, m.2, (pos, 0), (neg, 0), m.3, smp)
}

/// Build the text-to-image workflow (see [`txt2img_workflow`]).
pub fn build(params: &WorkflowParams, seed: i64) -> (r: WorkflowResult)
    requires
        params.loras@.len() + 10 <= u32::MAX,
    ensures
        r.wf(),
        r.next_id <= params.loras@.len() + 16,
        r.view() == txt2img_workflow(params, seed),
{
    let mut workflow: StrMap<WorkflowNode> = StrMap::new();
    let ml = load_model_nodes(&mut workflow, 1, params);
    let next_id = ml.next_id;
    let (pos_id, neg_id) = prompt_nodes(&mut workflow, next_id, &ml.clip_source, params);
    let mut latent = if needs_sd3_latent(&params.model) {
        new_node("EmptySD3LatentImage")
    } else {
        new_node("EmptyLatentImage")
    };
    set_input(&mut latent, "width", InputValue::Int(params.width as i64));
    set_input(&mut latent, "height", InputValue::Int(params.height as i64));
    set_input(&mut latent, "batch_size", InputValue::Int(params.batch_size as i64));
    let latent_id = add_node(&mut workflow, next_id + 2, latent);
    let sampler = ksampler_node(&ml.model_source, &pos_id, &neg_id, &latent_id, seed, params, "1.0");
    let sampler_id = add_node(&mut workflow, next_id + 3, sampler);
    let (decode_id, next_id) = insert_vae_decode(&mut workflow, next_id + 4, &sampler_id, &ml.vae_source, &params.model);
    WorkflowResult {
        workflow,
        next_id,
        image_output: (decode_id, 0),
        model_source: ml.model_source,
        clip_source: ml.clip_source,
        positive_source: (pos_id, 0),
        negative_source: (neg_id, 0),
        vae_source: ml.vae_source,
        sampler_id,
    }
}

} // verus!
