//! Face fixing: the bundled `MooshieFaceDetailer` node, which detects faces,
//! re-denoises each and composites them back.
use vstd::prelude::*;
use crate::templates::{
    add_node, id_of, link, link_to, new_node, or_default, set_input, src, text_or, InputValue, InputView, NodeView,
    ResultView, Source, WorkflowParams, WorkflowResult,
};

verus! {

/// The face detailer fixing the faces of `image` with the workflow's model,
/// VAE and conditioning.
pub open spec fn face_detailer(r: ResultView, image: Source, p: &WorkflowParams, seed: i64) -> NodeView {
    ("MooshieFaceDetailer"@, Map::empty().insert("image"@, link(image)).insert("model"@, link(r.3)).insert(
        "vae"@,
        link(r.7),
    ).insert("positive"@, link(r.5)).insert("negative"@, link(r.6)).insert(
        "detector_model"@,
        InputView::Text(or_default(p.facefix_detector, "Anzhc Face seg 640 v4 y11n.pt"@)),
    ).insert("seed"@, InputView::Int((seed + 2) as i64)).insert("steps"@, InputView::Int(p.facefix_steps as i64))
        .insert("cfg"@, InputView::Number(p.cfg@)).insert("sampler_name"@, InputView::Text(p.sampler_name@)).insert(
        "scheduler"@,
        InputView::Text(p.scheduler@),
    ).insert("denoise"@, InputView::Number(p.facefix_denoise@)).insert(
        "guide_size"@,
        InputView::Int(p.facefix_guide_size as i64),
    ).insert("bbox_threshold"@, InputView::Number("0.5"@)).insert("bbox_padding"@, InputView::Number("1.5"@)).insert(
        "feather"@,
        InputView::Int(20),
    ))
}

/// Add the face detailer for `current_image` under the next free number;
/// gives the fixed image. Nothing else of the workflow changes.
pub fn append_facefix_chain(
    result: &mut WorkflowResult,
    params: &WorkflowParams,
    current_image: (String, u32),
    seed: i64,
) -> (r: (String, u32))
    requires
        old(result).wf(),
        old(result).next_id < u32::MAX,
        seed <= i64::MAX - 2,
    ensures
        final(result).wf(),
        src(r) == (id_of(old(result).next_id as int), 0u32),
        final(result).view() == (old(result).view().0.insert(
            id_of(old(result).next_id as int),
            face_detailer(old(result).view(), src(current_image), params, seed),
        ), old(result).next_id + 1, old(result).view().2, old(result).view().3, old(result).view().4,
            old(result).view().5, old(result).view().6, old(result).view().7, old(result).view().8),
{
    let detector = text_or(&params.facefix_detector, "Anzhc Face seg 640 v4 y11n.pt");
    let mut n = new_node("MooshieFaceDetailer");
    set_input(&mut n, "image", link_to(&current_image));
    set_input(&mut n, "model", link_to(&result.model_source));
    set_input(&mut n, "vae", link_to(&result.vae_source));
    set_input(&mut n, "positive", link_to(&result.positive_source));
    set_input(&mut n, "negative", link_to(&result.negative_source));
    set_input(&mut n, "detector_model", detector);
    set_input(&mut n, "seed", InputValue::Int(seed + 2));
    set_input(&mut n, "steps", InputValue::Int(params.facefix_steps as i64));
    set_input(&mut n, "cfg", InputValue::Number(params.cfg.clone()));
    set_input(&mut n, "sampler_name", InputValue::Text(params.sampler_name.clone()));
    set_input(&mut n, "scheduler", InputValue::Text(params.scheduler.clone()));
    set_input(&mut n, "denoise", InputValue::Number(params.facefix_denoise.clone()));
    set_input(&mut n, "guide_size", InputValue::Int(params.facefix_guide_size as i64));
    set_input(&mut n, "bbox_threshold", InputValue::Number(String::from_str("0.5")));
    set_input(&mut n, "bbox_padding", InputValue::Number(String::from_str("1.5")));
    set_input(&mut n, "feather", InputValue::Int(20));
    let id = add_node(&mut result.workflow, result.next_id, n);
    result.next_id = result.next_id + 1;
    (id, 0)
}

} // verus!
