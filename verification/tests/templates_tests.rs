use comfyui_desktop::strmap::StrMap;
use comfyui_desktop::templates::controlnet::{build_preprocessor_preview_workflow, ControlNetParam};
use comfyui_desktop::templates::{
    build_scheduled_conditioning, build_workflow, txt2img, InputValue, LoraParam, PromptSegment, WorkflowNode,
    WorkflowParams,
    is_auraflow_architecture, is_cascade_architecture, is_flux_architecture, is_hunyuandit_architecture,
    is_kolors_architecture, is_mugen_architecture, is_nanosaur_architecture, is_pixart_architecture,
    is_pony_architecture, is_sd3_architecture, needs_sd3_latent, vae_decode_class, ModelIdentity,
};

fn model(arch: &str, checkpoint: &str, diffusion: Option<&str>, clip_type: Option<&str>) -> ModelIdentity {
    ModelIdentity {
        model_architecture: arch.to_string(),
        checkpoint: checkpoint.to_string(),
        diffusion_model: diffusion.map(|s| s.to_string()),
        clip_type: clip_type.map(|s| s.to_string()),
    }
}

#[test]
fn families_from_picked_architecture() {
    assert!(is_flux_architecture(&model("flux", "x.safetensors", None, None)));
    assert!(is_pony_architecture(&model("pony", "x.safetensors", None, None)));
    assert!(is_sd3_architecture(&model("sd3", "x.safetensors", None, None)));
    assert!(is_hunyuandit_architecture(&model("hunyuandit", "x", None, None)));
    assert!(!is_flux_architecture(&model("sdxl", "x.safetensors", None, None)));
}

#[test]
fn families_from_file_name() {
    assert!(is_flux_architecture(&model("", "FLUX1-dev.safetensors", None, None)));
    assert!(is_sd3_architecture(&model("", "Stable-Diffusion-3.5.safetensors", None, None)));
    assert!(is_sd3_architecture(&model("", "x.safetensors", None, Some("sd3"))));
    assert!(is_hunyuandit_architecture(&model("", "HunyuanDiT.ckpt", None, None)));
    assert!(is_auraflow_architecture(&model("", "AuraFlow-v0.3", None, None)));
    assert!(is_pixart_architecture(&model("", "PixArt-Sigma", None, None)));
    assert!(is_cascade_architecture(&model("", "stable_cascade_stage_c", None, None)));
    assert!(is_kolors_architecture(&model("", "Kolors.safetensors", None, None)));
    assert!(is_nanosaur_architecture(&model("", "ckpt", Some("NanoSaur_diffusion.safetensors"), None)));
    // The diffusion model of a split model is what is named, not the checkpoint.
    assert!(!is_pony_architecture(&model("", "pony.safetensors", Some("other.safetensors"), None)));
}

#[test]
fn latent_channels_and_decoder() {
    assert!(needs_sd3_latent(&model("", "flux.safetensors", None, None)));
    assert!(needs_sd3_latent(&model("", "x", Some("wan2.1_t2v.safetensors"), None)));
    assert!(needs_sd3_latent(&model("", "Anima-preview.safetensors", None, None)));
    assert!(!needs_sd3_latent(&model("", "sdxl_base.safetensors", None, None)));
    assert_eq!(vae_decode_class(&model("", "MugenXL.safetensors", None, None)), "VAEDecodeTiled");
    assert!(is_mugen_architecture(&model("mugen", "x", None, None)));
    assert_eq!(vae_decode_class(&model("", "sdxl.safetensors", None, None)), "VAEDecode");
}

fn params(checkpoint: &str) -> WorkflowParams {
    WorkflowParams {
        mode: "txt2img".to_string(),
        model: model("", checkpoint, None, None),
        use_split_model: false,
        clip_model: None,
        vae: None,
        loras: Vec::new(),
        positive_prompt: "a cat".to_string(),
        negative_prompt: "blurry".to_string(),
        sampler_name: "euler".to_string(),
        scheduler: "normal".to_string(),
        steps: 20,
        cfg: "7.0".to_string(),
        denoise: "0.6".to_string(),
        width: 512,
        height: 768,
        batch_size: 1,
        input_image: Some("in.png".to_string()),
        mask_image: Some("mask.png".to_string()),
        differential_diffusion: false,
        controlnet: None,
        upscale_enabled: false,
        smart_guidance: false,
        facefix_enabled: false,
        facefix_detector: None,
        facefix_denoise: "0.4".to_string(),
        facefix_steps: 20,
        facefix_guide_size: 512,
        output_format: "png".to_string(),
        output_bit_depth: "8bit".to_string(),
    }
}

fn node<'a>(g: &'a StrMap<WorkflowNode>, id: &str) -> &'a WorkflowNode {
    g.get(id).unwrap_or_else(|| panic!("no node {}", id))
}

fn class(g: &StrMap<WorkflowNode>, id: &str) -> String {
    node(g, id).class_type.clone()
}

fn input<'a>(g: &'a StrMap<WorkflowNode>, id: &str, key: &str) -> &'a InputValue {
    node(g, id).inputs.iter().rev().find(|(k, _)| k == key).map(|(_, v)| v).unwrap()
}

fn link_of(v: &InputValue) -> (String, u32) {
    match v {
        InputValue::Link(id, o) => (id.clone(), *o),
        _ => panic!("not a link"),
    }
}

fn text_of(v: &InputValue) -> String {
    match v {
        InputValue::Text(t) | InputValue::Number(t) => t.clone(),
        InputValue::Int(i) => i.to_string(),
        _ => panic!("not text"),
    }
}

#[test]
fn txt2img_graph() {
    let p = params("sdxl_base.safetensors");
    let r = txt2img::build(&p, 42);
    let g = &r.workflow;
    assert_eq!(g.len(), 6);
    assert_eq!(class(g, "1"), "CheckpointLoaderSimple");
    assert_eq!(class(g, "2"), "CLIPTextEncode");
    assert_eq!(text_of(input(g, "2", "text")), "a cat");
    assert_eq!(link_of(input(g, "3", "clip")), ("1".to_string(), 1));
    assert_eq!(class(g, "4"), "EmptyLatentImage");
    assert_eq!(class(g, "5"), "KSampler");
    assert_eq!(text_of(input(g, "5", "denoise")), "1.0");
    assert_eq!(text_of(input(g, "5", "seed")), "42");
    assert_eq!(link_of(input(g, "5", "latent_image")), ("4".to_string(), 0));
    assert_eq!(class(g, "6"), "VAEDecode");
    assert_eq!(link_of(input(g, "6", "vae")), ("1".to_string(), 2));
    assert_eq!(r.next_id, 7);
    assert_eq!(r.sampler_id, "5");

    let full = build_workflow(&p, 42);
    assert_eq!(full.len(), 7);
    assert_eq!(class(&full, "7"), "MooshieSaveImage");
    assert_eq!(text_of(input(&full, "7", "output_format")), "png");
    assert_eq!(link_of(input(&full, "7", "images")), ("6".to_string(), 0));
}

#[test]
fn flux_graph_is_patched() {
    let mut p = params("flux1-dev.safetensors");
    p.output_format = "jxl".to_string();
    p.smart_guidance = true;
    let g = build_workflow(&p, 1);
    assert_eq!(class(&g, "4"), "EmptySD3LatentImage");
    assert_eq!(class(&g, "7"), "ModelSamplingFlux");
    assert_eq!(class(&g, "8"), "FluxGuidance");
    assert_eq!(class(&g, "9"), "MooshieSmartGuidance");
    assert_eq!(link_of(input(&g, "9", "model")), ("7".to_string(), 0));
    assert_eq!(link_of(input(&g, "5", "model")), ("9".to_string(), 0));
    assert_eq!(link_of(input(&g, "5", "positive")), ("8".to_string(), 0));
    assert_eq!(text_of(input(&g, "10", "output_format")), "jxl_raw");
    let schnell = build_workflow(&params("flux1-schnell.safetensors"), 1);
    assert_eq!(class(&schnell, "8"), "MooshieSaveImage");
}

#[test]
fn loras_split_models_and_vae_override() {
    let mut p = params("base.safetensors");
    p.loras = vec![
        LoraParam { name: "a.safetensors".to_string(), strength_model: "1.0".to_string(), strength_clip: "0.5".to_string() },
        LoraParam { name: "b.safetensors".to_string(), strength_model: "0.8".to_string(), strength_clip: "0.8".to_string() },
    ];
    p.vae = Some("vae.safetensors".to_string());
    let r = txt2img::build(&p, 0);
    let g = &r.workflow;
    assert_eq!(class(g, "2"), "LoraLoader");
    assert_eq!(link_of(input(g, "3", "model")), ("2".to_string(), 0));
    assert_eq!(class(g, "4"), "VAELoader");
    assert_eq!(link_of(input(g, "5", "clip")), ("3".to_string(), 1));
    assert_eq!(link_of(input(g, "8", "model")), ("3".to_string(), 0));
    assert_eq!(link_of(input(g, "9", "vae")), ("4".to_string(), 0));

    let mut split = params("unused");
    split.use_split_model = true;
    split.model.diffusion_model = Some("wan2.1.safetensors".to_string());
    split.vae = Some("wan_vae.safetensors".to_string());
    let r = txt2img::build(&split, 0);
    let g = &r.workflow;
    assert_eq!(class(g, "1"), "UNETLoader");
    assert_eq!(class(g, "2"), "CLIPLoader");
    assert_eq!(text_of(input(g, "2", "type")), "wan");
    assert_eq!(class(g, "3"), "VAELoader");
    assert_eq!(class(g, "6"), "EmptySD3LatentImage");
}

#[test]
fn inpainting_and_controlnet_graph() {
    let mut p = params("model_vpred.safetensors");
    p.mode = "inpainting".to_string();
    p.facefix_enabled = true;
    p.controlnet = Some(ControlNetParam {
        enabled: true,
        controlnet_model: Some("cn.safetensors".to_string()),
        image: Some("pose.png".to_string()),
        preprocessor: Some("OpenposePreprocessor".to_string()),
        strength: "1.0".to_string(),
        start_percent: "0.0".to_string(),
        end_percent: "1.0".to_string(),
    });
    let g = build_workflow(&p, 5);
    assert_eq!(class(&g, "6"), "LoadImageMask");
    assert_eq!(class(&g, "8"), "SetLatentNoiseMask");
    assert_eq!(class(&g, "9"), "DifferentialDiffusion");
    assert_eq!(class(&g, "10"), "KSampler");
    assert_eq!(link_of(input(&g, "10", "model")), ("9".to_string(), 0));
    assert_eq!(class(&g, "12"), "LoadImage");
    assert_eq!(class(&g, "13"), "OpenposePreprocessor");
    assert_eq!(text_of(input(&g, "13", "detect_face")), "enable");
    assert_eq!(class(&g, "15"), "ControlNetApplyAdvanced");
    assert_eq!(link_of(input(&g, "10", "positive")), ("15".to_string(), 0));
    assert_eq!(link_of(input(&g, "10", "negative")), ("15".to_string(), 1));
    assert_eq!(class(&g, "16"), "MooshieFaceDetailer");
    assert_eq!(text_of(input(&g, "16", "seed")), "7");
    assert_eq!(link_of(input(&g, "16", "model")), ("1".to_string(), 0));
    assert_eq!(link_of(input(&g, "17", "images")), ("16".to_string(), 0));
    assert_eq!(g.len(), 17);
}

#[test]
fn preprocessor_preview_and_scheduled_prompts() {
    let blank = build_preprocessor_preview_workflow("in.png", "  ");
    assert_eq!(blank.len(), 2);
    assert_eq!(link_of(input(&blank, "2", "images")), ("1".to_string(), 0));
    let hed = build_preprocessor_preview_workflow("in.png", "HEDPreprocessor");
    assert_eq!(text_of(input(&hed, "2", "safe")), "enable");
    assert_eq!(text_of(input(&hed, "3", "output_role")), "controlnet_preprocessor");

    let mut g: StrMap<WorkflowNode> = StrMap::new();
    let segs = vec![PromptSegment { text: "later".to_string(), start: "0.5".to_string(), end: "1.0".to_string() }];
    let (cond, next) = build_scheduled_conditioning(&mut g, 10, &("1".to_string(), 1), "base", &segs);
    assert_eq!(cond, ("13".to_string(), 0));
    assert_eq!(next, 14);
    assert_eq!(class(&g, "12"), "ConditioningSetTimestepRange");
    assert_eq!(link_of(input(&g, "13", "conditioning_1")), ("10".to_string(), 0));
    let (only, next) = build_scheduled_conditioning(&mut g, 20, &("1".to_string(), 1), "x", &Vec::new());
    assert_eq!((only, next), (("20".to_string(), 0), 21));
}

#[test]
fn every_link_resolves() {
    let mut p = params("flux1-dev.safetensors");
    p.mode = "img2img".to_string();
    p.facefix_enabled = true;
    p.smart_guidance = true;
    p.loras = vec![LoraParam { name: "a".to_string(), strength_model: "1.0".to_string(), strength_clip: "1.0".to_string() }];
    let g = build_workflow(&p, 3);
    for i in 0..g.len() {
        let (_, n) = g.entry(i);
        for (_, v) in &n.inputs {
            if let InputValue::Link(t, _) = v {
                assert!(g.contains_key(t), "dangling link to {}", t);
            }
        }
    }
}
