//! The image-to-image workflow.
use vstd::prelude::*;
use crate::strmap::StrMap;
use crate::templates::{
    add_node, clip_encode, id_of, insert_vae_decode, ksampler, ksampler_node, link, link_id, link_to,
    load_model_nodes, model_nodes, new_node, or_default, prompt_nodes, set_input, src, text, text_or,
    vae_decode_node, InputValue, InputView, NodeView, ResultView, Source, WorkflowNode, WorkflowParams,
    WorkflowResult,
};

verus! {

/// The input image loaded by name.
pub open spec fn load_image(p: &WorkflowParams) -> NodeView {
    ("LoadImage"@, Map::empty().insert("image"@, InputView::Text(or_default(p.input_image, ""@))))
}

/// The input image scaled to the requested size (Lanczos, no crop).
pub open spec fn scale_image(image: Source, p: &WorkflowParams) -> NodeView {
    ("ImageScale"@, Map::empty().insert("image"@, link(image)).insert("width"@, InputView::Int(p.width as i64)).insert(
        "height"@,
        InputView::Int(p.height as i64),
    ).insert("upscale_method"@, InputView::Text("lanczos"@)).insert("crop"@, InputView::Text("disabled"@)))
}

/// The pixels encoded to latents with the VAE.
pub open spec fn vae_encode(pixels: Source, vae: Source) -> NodeView {
    ("VAEEncode"@, Map::empty().insert("pixels"@, link(pixels)).insert("vae"@, link(vae)))
}

/// The image-to-image workflow: the model loaders from node 1, the positive
/// and negative prompts, the input image loaded, scaled and encoded, the
/// sampler at the requested denoise and the VAE decode.
pub open spec fn img2img_workflow(p: &WorkflowParams, seed: i64) -> ResultView {
    let m = model_nodes(Map::empty(), 1, p);
    let n = m.4;
    let pos = id_of(n);
    let neg = id_of(n + 1);
    let img = id_of(n + 2);
    let scl = id_of(n + 3);
    let enc = id_of(n + 4);
    let smp = id_of(n + 5);
    let dec = id_of(n + 6);
    let g = m.0.insert(pos, clip_encode(m.2, p.positive_prompt@)).insert(neg, clip_encode(m.2, p.negative_prompt@))
        .insert(img, load_image(p)).insert(scl, scale_image((img, 0), p)).insert(enc, vae_encode((scl, 0), m.3)).insert(
        smp,
        ksampler(m.1, (pos, 0), (neg, 0), (enc, 0), seed, p, p.denoise@),
    ).insert(dec, vae_decode_node(&p.model, smp, m.3));
    (g, n + 7, (dec, 0), m.1, m.2, (pos, 0), (neg, 0), m.3, smp)
}

/// Build the image-to-image workflow (see [`img2img_workflow`]).
pub fn build(params: &WorkflowParams, seed: i64) -> (r: WorkflowResult)
    requires
        params.loras@.len() + 12 <= u32::MAX,
    ensures
        r.wf(),
        r.next_id <= params.loras@.len() + 16,
        r.view() == img2img_workflow(params, seed),
{
    let mut workflow: StrMap<WorkflowNode> = StrMap::new();
    let ml = load_model_nodes(&mut workflow, 1, params);
    let next_id = ml.next_id;
    let (pos_id, neg_id) = prompt_nodes(&mut workflow, next_id, &ml.clip_source, params);
    let mut load = new_node("LoadImage");
    set_input(&mut load, "image", text_or(&params.input_image, ""));
    let load_id = add_node(&mut workflow, next_id + 2, load);
    let mut scale = new_node("ImageScale");
    set_input(&mut scale, "image", link_id(&load_id, 0));
    set_input(&mut scale, "width", InputValue::Int(params.width as i64));
    set_input(&mut scale, "height", InputValue::Int(params.height as i64));
    set_input(&mut scale, "upscale_method", text("lanczos"));
    set_input(&mut scale, "crop", text("disabled"));
    let scale_id = add_node(&mut workflow, next_id + 3, scale);
    let mut encode = new_node("VAEEncode");
    set_input(&mut encode, "pixels", link_id(&scale_id, 0));
    set_input(&mut encode, "vae", link_to(&ml.vae_source));
    let encode_id = add_node(&mut workflow, next_id + 4, encode);
    let sampler = ksampler_node(&ml.model_source, &pos_id, &neg_id, &encode_id, seed, params, params.denoise.as_str());
    let sampler_id = add_node(&mut workflow, next_id + 5, sampler);
    let (decode_id, next_id) = insert_vae_decode(&mut workflow, next_id + 6, &sampler_id, &ml.vae_source, &params.model);
    WorkflowResult {
        workflow,
        next_id,
        image_output: (decode_id, 0),
        model_source: ml.model_source,
        clip_source: ml.clip_source,
        positive_source: (pos_id, 0),
        negative_source: (neg_id, 0),
        vae_source: ml.vae_source,
        sampler_id,
    }
}

} // verus!
