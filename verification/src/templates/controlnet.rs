//! ControlNet: the control image (optionally preprocessed), the ControlNet
//! loader and its application to the conditioning; and the small workflow
//! that previews a preprocessor's output.
use vstd::prelude::*;
use crate::strmap::{str_eq, StrMap};
use crate::templates::{
    add_node, id_of, link, link_id, link_to, new_node, or_default, set_input, src, text, text_or, GraphView,
    InputValue, InputView, NodeView, ResultView, Source, WorkflowNode, WorkflowResult,
};
use crate::text::{chars_of, trim, trim_chars};

verus! {

/// The ControlNet settings of a generation; the fractional values are JSON
/// numbers.
pub struct ControlNetParam {
    pub enabled: bool,
    pub controlnet_model: Option<String>,
    pub image: Option<String>,
    pub preprocessor: Option<String>,
    pub strength: String,
    pub start_percent: String,
    pub end_percent: String,
}

/// The inputs of the preprocessor node `pre` reading `image`: the image and
/// a 1024 resolution, plus the options of the OpenPose, DWPose, line-art,
/// HED and fake-scribble preprocessors.
pub open spec fn preprocessor_inputs_of(pre: Seq<char>, image: Source) -> Map<Seq<char>, InputView> {
    let base = Map::empty().insert("image"@, link(image)).insert("resolution"@, InputView::Int(1024));
    if pre == "OpenposePreprocessor"@ {
        base.insert("detect_hand"@, InputView::Text("enable"@)).insert("detect_body"@, InputView::Text("enable"@)).insert(
            "detect_face"@,
            InputView::Text("enable"@),
        ).insert("scale_stick_for_xinsr_cn"@, InputView::Text("disable"@))
    } else if pre == "DWPreprocessor"@ {
        base.insert("detect_hand"@, InputView::Text("enable"@)).insert("detect_body"@, InputView::Text("enable"@)).insert(
            "detect_face"@,
            InputView::Text("enable"@),
        ).insert("bbox_detector"@, InputView::Text("yolox_l.onnx"@)).insert(
            "pose_estimator"@,
            InputView::Text("dw-ll_ucoco_384.onnx"@),
        ).insert("scale_stick_for_xinsr_cn"@, InputView::Text("disable"@))
    } else if pre == "LineArtPreprocessor"@ {
        base.insert("coarse"@, InputView::Text("disable"@))
    } else if pre == "HEDPreprocessor"@ || pre == "FakeScribblePreprocessor"@ {
        base.insert("safe"@, InputView::Text("enable"@))
    } else {
        base
    }
}

fn preprocessor_node(pre: &str, image_id: &String) -> (n: WorkflowNode)
    ensures
        n.deep_view() == (pre@, preprocessor_inputs_of(pre@, (image_id@, 0))),
{
    let mut n = new_node(pre);
    set_input(&mut n, "image", link_id(image_id, 0));
    set_input(&mut n, "resolution", InputValue::Int(1024));
    if str_eq(pre, "OpenposePreprocessor") {
        set_input(&mut n, "detect_hand", text("enable"));
        set_input(&mut n, "detect_body", text("enable"));
        set_input(&mut n, "detect_face", text("enable"));
        set_input(&mut n, "scale_stick_for_xinsr_cn", text("disable"));
    } else if str_eq(pre, "DWPreprocessor") {
        set_input(&mut n, "detect_hand", text("enable"));
        set_input(&mut n, "detect_body", text("enable"));
        set_input(&mut n, "detect_face", text("enable"));
        set_input(&mut n, "bbox_detector", text("yolox_l.onnx"));
        set_input(&mut n, "pose_estimator", text("dw-ll_ucoco_384.onnx"));
        set_input(&mut n, "scale_stick_for_xinsr_cn", text("disable"));
    } else if str_eq(pre, "LineArtPreprocessor") {
        set_input(&mut n, "coarse", text("disable"));
    } else if str_eq(pre, "HEDPreprocessor") || str_eq(pre, "FakeScribblePreprocessor") {
        set_input(&mut n, "safe", text("enable"));
    }
    n
}

/// The control image loaded by name.
pub open spec fn load_control_image(name: Seq<char>) -> NodeView {
    ("LoadImage"@, Map::empty().insert("image"@, InputView::Text(name)))
}

/// The preprocessor of the settings, when one is named.
pub open spec fn preprocessor_of(c: &ControlNetParam) -> Option<Seq<char>> {
    match c.preprocessor {
        Some(p) => if p@.len() > 0 { Some(p@) } else { None },
        None => None,
    }
}

/// The workflow with ControlNet applied to its conditioning: the control
/// image, its preprocessor when one is named, the ControlNet loader and the
/// application, whose outputs become the positive and negative
/// conditioning.
pub open spec fn with_controlnet(r: ResultView, c: &ControlNetParam) -> ResultView {
    let n = r.1;
    let load = id_of(n);
    let g1 = r.0.insert(load, load_control_image(or_default(c.image, ""@)));
    let pre = preprocessor_of(c);
    let g2 = match pre {
        Some(p) => g1.insert(id_of(n + 1), (p, preprocessor_inputs_of(p, (load, 0)))),
        None => g1,
    };
    let image: Source = match pre {
        Some(_) => (id_of(n + 1), 0),
        None => (load, 0),
    };
    let n2 = if pre is Some { n + 2 } else { n + 1 };
    let ldr = id_of(n2);
    let app = id_of(n2 + 1);
    let g3 = g2.insert(ldr, ("ControlNetLoader"@, Map::empty().insert(
        "control_net_name"@,
        InputView::Text(or_default(c.controlnet_model, ""@)),
    ))).insert(app, ("ControlNetApplyAdvanced"@, Map::empty().insert("positive"@, link(r.5)).insert(
        "negative"@,
        link(r.6),
    ).insert("control_net"@, InputView::Link(ldr, 0)).insert("image"@, link(image)).insert(
        "strength"@,
        InputView::Number(c.strength@),
    ).insert("start_percent"@, InputView::Number(c.start_percent@)).insert(
        "end_percent"@,
        InputView::Number(c.end_percent@),
    )));
    (g3, n2 + 2, r.2, r.3, r.4, (app, 0), (app, 1), r.7, r.8)
}

/// Apply ControlNet to the workflow's conditioning (see
/// [`with_controlnet`]); the samplers are left to the caller.
pub fn inject_controlnet(result: &mut WorkflowResult, params: &ControlNetParam)
    requires
        old(result).wf(),
        old(result).next_id + 4 <= u32::MAX,
    ensures
        final(result).wf(),
        final(result).view() == with_controlnet(old(result).view(), params),
{
    let mut load = new_node("LoadImage");
    set_input(&mut load, "image", text_or(&params.image, ""));
    let load_id = add_node(&mut result.workflow, result.next_id, load);
    result.next_id = result.next_id + 1;
    let mut image_source: (String, u32) = (load_id.clone(), 0);
    match &params.preprocessor {
        Some(pre) => {
            if pre.as_str().unicode_len() > 0 {
                let pid = add_node(&mut result.workflow, result.next_id, preprocessor_node(pre.as_str(), &load_id));
                result.next_id = result.next_id + 1;
                image_source = (pid, 0);
            }
        },
        None => {},
    }
    let mut loader = new_node("ControlNetLoader");
    set_input(&mut loader, "control_net_name", text_or(&params.controlnet_model, ""));
    let loader_id = add_node(&mut result.workflow, result.next_id, loader);
    let mut apply = new_node("ControlNetApplyAdvanced");
    set_input(&mut apply, "positive", link_to(&result.positive_source));
    set_input(&mut apply, "negative", link_to(&result.negative_source));
    set_input(&mut apply, "control_net", link_id(&loader_id, 0));
    set_input(&mut apply, "image", link_to(&image_source));
    set_input(&mut apply, "strength", InputValue::Number(params.strength.clone()));
    set_input(&mut apply, "start_percent", InputValue::Number(params.start_percent.clone()));
    set_input(&mut apply, "end_percent", InputValue::Number(params.end_percent.clone()));
    let apply_id = add_node(&mut result.workflow, result.next_id + 1, apply);
    result.next_id = result.next_id + 2;
    result.positive_source = (apply_id.clone(), 0);
    result.negative_source = (apply_id, 1);
}

/// The save node of a preprocessor preview.
pub open spec fn preview_save(image: Source) -> NodeView {
    ("MooshieSaveImage"@, Map::empty().insert("images"@, link(image)).insert("bit_depth"@, InputView::Text("8bit"@))
        .insert("output_format"@, InputView::Text("png"@)).insert(
        "output_role"@,
        InputView::Text("controlnet_preprocessor"@),
    ))
}

/// The preview workflow of a preprocessor: the image loaded as node 1, the
/// preprocessor as node 2 unless its name is blank, and the save node.
pub open spec fn preview_workflow(image: Seq<char>, pre: Seq<char>) -> GraphView {
    let g1 = Map::empty().insert(id_of(1), load_control_image(image));
    if trim(pre).len() == 0 {
        g1.insert(id_of(2), preview_save((id_of(1), 0)))
    } else {
        g1.insert(id_of(2), (pre, preprocessor_inputs_of(pre, (id_of(1), 0)))).insert(
            id_of(3),
            preview_save((id_of(2), 0)),
        )
    }
}

/// Build the workflow previewing what a preprocessor makes of an image (see
/// [`preview_workflow`]).
pub fn build_preprocessor_preview_workflow(image: &str, preprocessor: &str) -> (r: StrMap<WorkflowNode>)
    ensures
        r.wf(),
        r.view() == preview_workflow(image@, preprocessor@),
{
    let mut workflow: StrMap<WorkflowNode> = StrMap::new();
    let mut load = new_node("LoadImage");
    set_input(&mut load, "image", text(image));
    let load_id = add_node(&mut workflow, 1, load);
    let pc = chars_of(preprocessor);
    let trimmed = trim_chars(&pc, 0, pc.len());
    assert(pc@.subrange(0, pc@.len() as int) =~= pc@);
    let (image_source, next_id): ((String, u32), u32) = if trimmed.as_str().unicode_len() == 0 {
        ((load_id, 0), 2)
    } else {
        let pid = add_node(&mut workflow, 2, preprocessor_node(preprocessor, &load_id));
        ((pid, 0), 3)
    };
    let mut save = new_node("MooshieSaveImage");
    set_input(&mut save, "images", link_to(&image_source));
    set_input(&mut save, "bit_depth", text("8bit"));
    set_input(&mut save, "output_format", text("png"));
    set_input(&mut save, "output_role", text("controlnet_preprocessor"));
    add_node(&mut workflow, next_id, save);
    workflow
}

} // verus!
