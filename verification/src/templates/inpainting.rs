//! The inpainting workflow: the input image re-sampled where its mask is
//! set.
use vstd::prelude::*;
use crate::process::{to_lowercase, unicode_lowercase};
use crate::strmap::StrMap;
use crate::templates::{
    add_node, clip_encode, id_of, insert_vae_decode, ksampler, ksampler_node, link, link_id, link_to,
    load_model_nodes, model_nodes, new_node, or_default, prompt_nodes, set_input, src, text, text_or,
    vae_decode_node, InputValue, InputView, NodeView, ResultView, Source, WorkflowNode, WorkflowParams,
    WorkflowResult,
};
use crate::templates::img2img::{load_image, scale_image, vae_encode};
use crate::text::{contains, str_contains};

verus! {

/// The mask loaded from the red channel of the mask image.
pub open spec fn load_mask(p: &WorkflowParams) -> NodeView {
    ("LoadImageMask"@, Map::empty().insert("image"@, InputView::Text(or_default(p.mask_image, ""@))).insert(
        "channel"@,
        InputView::Text("red"@),
    ))
}

/// The latents with the mask as their noise mask.
pub open spec fn noise_mask(samples: Source, mask: Source) -> NodeView {
    ("SetLatentNoiseMask"@, Map::empty().insert("samples"@, link(samples)).insert("mask"@, link(mask)))
}

/// Differential diffusion is used when asked for, or for v-prediction and
/// Anima models (by checkpoint or diffusion-model name) unless the sampler
/// is a CFG++ one.
pub open spec fn uses_differential_diffusion(p: &WorkflowParams) -> bool {
    let ck = unicode_lowercase(p.model.checkpoint@);
    let df = match p.model.diffusion_model {
        Some(d) => unicode_lowercase(d@),
        None => Seq::empty(),
    };
    let vpred_or_anima = contains(ck, "vpred"@) || contains(ck, "anima"@) || contains(df, "vpred"@) || contains(
        df,
        "anima"@,
    );
    p.differential_diffusion || (vpred_or_anima && !contains(unicode_lowercase(p.sampler_name@), "cfg_pp"@))
}

/// The inpainting workflow: the model loaders from node 1, the positive and
/// negative prompts, the input image loaded and scaled, the mask, the image
/// encoded and masked, differential diffusion when it is used (see
/// [`uses_differential_diffusion`]), the sampler at the requested denoise
/// and the VAE decode. The workflow's model stays the loaded one.
pub open spec fn inpainting_workflow(p: &WorkflowParams, seed: i64) -> ResultView {
    let m = model_nodes(Map::empty(), 1, p);
    let n = m.4;
    let pos = id_of(n);
    let neg = id_of(n + 1);
    let img = id_of(n + 2);
    let scl = id_of(n + 3);
    let msk = id_of(n + 4);
    let enc = id_of(n + 5);
    let lat = id_of(n + 6);
    let g = m.0.insert(pos, clip_encode(m.2, p.positive_prompt@)).insert(neg, clip_encode(m.2, p.negative_prompt@))
        .insert(img, load_image(p)).insert(scl, scale_image((img, 0), p)).insert(msk, load_mask(p)).insert(
        enc,
        vae_encode((scl, 0), m.3),
    ).insert(lat, noise_mask((enc, 0), (msk, 0)));
    let dd = uses_differential_diffusion(p);
    let g2 = if dd {
        g.insert(id_of(n + 7), ("DifferentialDiffusion"@, Map::empty().insert("model"@, link(m.1))))
    } else {
        g
    };
    let sampler_model = if dd { (id_of(n + 7), 0u32) } else { m.1 };
    let s = if dd { n + 8 } else { n + 7 };
    let smp = id_of(s);
    let dec = id_of(s + 1);
    let g3 = g2.insert(smp, ksampler(sampler_model, (pos, 0), (neg, 0), (lat, 0), seed, p, p.denoise@)).insert(
        dec,
        vae_decode_node(&p.model, smp, m.3),
    );
    (g3, s + 2, (dec, 0), m.1, m.2, (pos, 0), (neg, 0), m.3, smp)
}

fn differential_diffusion_used(p: &WorkflowParams) -> (r: bool)
    ensures
        r == uses_differential_diffusion(p),
{
    let sampler_lc = to_lowercase(p.sampler_name.as_str());
    let is_cfgpp = str_contains(sampler_lc.as_str(), "cfg_pp");
    let ck = to_lowercase(p.model.checkpoint.as_str());
    let df = match &p.model.diffusion_model {
        Some(d) => to_lowercase(d.as_str()),
        None => String::new(),
    };
    let vpred_or_anima = str_contains(ck.as_str(), "vpred") || str_contains(ck.as_str(), "anima") || str_contains(
        df.as_str(),
        "vpred",
    ) || str_contains(df.as_str(), "anima");
    p.differential_diffusion || (vpred_or_anima && !is_cfgpp)
}

/// Build the inpainting workflow (see [`inpainting_workflow`]).
pub fn build(params: &WorkflowParams, seed: i64) -> (r: WorkflowResult)
    requires
        params.loras@.len() + 16 <= u32::MAX,
    ensures
        r.wf(),
        r.next_id <= params.loras@.len() + 16,
        r.view() == inpainting_workflow(params, seed),
{
    let mut workflow: StrMap<WorkflowNode> = StrMap::new();
    let ml = load_model_nodes(&mut workflow, 1, params);
    let next_id = ml.next_id;
    let (pos_id, neg_id) = prompt_nodes(&mut workflow, next_id, &ml.clip_source, params);
    let mut load = new_node("LoadImage");
    set_input(&mut load, "image", text_or(&params.input_image, ""));
    let load_id = add_node(&mut workflow, next_id + 2, load);
    let mut scale = new_node("ImageScale");
    set_input(&mut scale, "image", link_id(&load_id, 0));
    set_input(&mut scale, "width", InputValue::Int(params.width as i64));
    set_input(&mut scale, "height", InputValue::Int(params.height as i64));
    set_input(&mut scale, "upscale_method", text("lanczos"));
    set_input(&mut scale, "crop", text("disabled"));
    let scale_id = add_node(&mut workflow, next_id + 3, scale);
    let mut mask = new_node("LoadImageMask");
    set_input(&mut mask, "image", text_or(&params.mask_image, ""));
    set_input(&mut mask, "channel", text("red"));
    let mask_id = add_node(&mut workflow, next_id + 4, mask);
    let mut encode = new_node("VAEEncode");
    set_input(&mut encode, "pixels", link_id(&scale_id, 0));
    set_input(&mut encode, "vae", link_to(&ml.vae_source));
    let encode_id = add_node(&mut workflow, next_id + 5, encode);
    let mut masked = new_node("SetLatentNoiseMask");
    set_input(&mut masked, "samples", link_id(&encode_id, 0));
    set_input(&mut masked, "mask", link_id(&mask_id, 0));
    let masked_id = add_node(&mut workflow, next_id + 6, masked);
    let mut next_id = next_id + 7;
    let mut sampler_model = (ml.model_source.0.clone(), ml.model_source.1);
    if differential_diffusion_used(params) {
        let mut dd = new_node("DifferentialDiffusion");
        set_input(&mut dd, "model", link_to(&ml.model_source));
        let dd_id = add_node(&mut workflow, next_id, dd);
        sampler_model = (dd_id, 0);
        next_id += 1;
    }
    let sampler = ksampler_node(&sampler_model, &pos_id, &neg_id, &masked_id, seed, params, params.denoise.as_str());
    let sampler_id = add_node(&mut workflow, next_id, sampler);
    let (decode_id, next_id) = insert_vae_decode(&mut workflow, next_id + 1, &sampler_id, &ml.vae_source, &params.model);
    WorkflowResult {
        workflow,
        next_id,
        image_output: (decode_id, 0),
        model_source: ml.model_source,
        clip_source: ml.clip_source,
        positive_source: (pos_id, 0),
        negative_source: (neg_id, 0),
        vae_source: ml.vae_source,
        sampler_id,
    }
}

} // verus!
