use comfyui_desktop::client::{civitai_api_key, civitai_hash_url, data_url, modelspec_fields, nsfw_label, sidecar_mime, sidecar_names};
use comfyui_desktop::setup::{
    amd_pytorch_index_url, gfx_candidates, is_intel_discrete_card, macos_vram_mb, max_listed_number,
    nvidia_pytorch_index_url, preferred_amd_arch, pytorch_index_for, sysfs_card_arch, windows_gpu_kind,
};
use comfyui_desktop::nodes::command_output_excerpt;
use comfyui_desktop::text::words_of;
use comfyui_desktop::client::{
    check_safetensors_extent, check_safetensors_file_size, check_safetensors_header_size,
    download_status_error_message, huggingface_token_for_url, is_huggingface_url, is_optional_model_category,
    reject_non_model_download_content_type, safetensors_extent, validate_downloaded_model_file,
};
use comfyui_desktop::error::AppError;
use comfyui_desktop::media::{
    autov2_hash, category_subdirs, detect_image_mime, extra_dirs, infer_image_mime, is_image_extension,
    model_path_candidates,
};
use comfyui_desktop::process::{
    check_launch_paths, checks_process_at, classify_flat_model_dir, extra_model_dirs, extra_model_paths_yaml,
    has_blackwell_gpu, has_vae_flag, host_path, is_structured_model_dir, launch_args, log_tail, lsof_pids,
    main_script_path, process_exit_error, python_path, pyvenv_homes, ready_poll_count, ready_timeout_error,
    vram_flag, worker_exit_error, worker_log_name, worker_timeout_error, worker_vram_mode, yaml_quote, ModelDir,
};
use comfyui_desktop::setup::{ort_download_info, recommended_vram_mode, uv_download_url, Platform};
use comfyui_desktop::types::{
    default_facefix_guide_size, default_facefix_max_faces, default_facefix_steps, default_output_bit_depth,
};

fn strings(v: &[&str]) -> Vec<String> {
    v.iter().map(|s| s.to_string()).collect()
}

#[test]
fn blackwell_detected_from_compute_capability() {
    assert!(has_blackwell_gpu("8.9\n12.0\n"));
    assert!(has_blackwell_gpu("  12.1  \r\n"));
    assert!(!has_blackwell_gpu("8.9\n9.0\n"));
    assert!(!has_blackwell_gpu("12\n"));
    assert!(!has_blackwell_gpu(""));
    assert!(!has_blackwell_gpu("abc.def\n"));
}

#[test]
fn vram_flags() {
    assert_eq!(vram_flag("high"), Some("--highvram"));
    assert_eq!(vram_flag("low"), Some("--lowvram"));
    assert_eq!(vram_flag("none"), Some("--novram"));
    assert_eq!(vram_flag("normal"), None);
    assert_eq!(vram_flag("auto"), None);
}

#[test]
fn vae_flag_detection() {
    assert!(has_vae_flag(&strings(&["--fp32-vae"])));
    assert!(has_vae_flag(&strings(&["--foo", "--cpu-vae"])));
    assert!(!has_vae_flag(&strings(&["--fp16-unet"])));
    assert!(!has_vae_flag(&Vec::new()));
}

#[test]
fn launch_arguments_in_order() {
    let args = launch_args("/c/main.py", 8188, "low", true, Some("/tmp/paths.yaml"), &strings(&["--x"]));
    assert_eq!(
        args,
        strings(&[
            "/c/main.py",
            "--listen",
            "127.0.0.1",
            "--port",
            "8188",
            "--preview-method",
            "auto",
            "--lowvram",
            "--bf16-vae",
            "--extra-model-paths-config",
            "/tmp/paths.yaml",
            "--x",
        ])
    );
    let args = launch_args("m.py", 8190, "normal", true, None, &strings(&["--fp16-vae"]));
    assert_eq!(
        args,
        strings(&["m.py", "--listen", "127.0.0.1", "--port", "8190", "--preview-method", "auto", "--fp16-vae"])
    );
    let args = launch_args("m.py", 1, "auto", false, None, &Vec::new());
    assert_eq!(args.len(), 7);
}

#[test]
fn interpreter_and_entry_paths() {
    assert_eq!(python_path("/v", false), "/v/bin/python");
    assert_eq!(python_path("C:/v", true), "C:/v/Scripts/python.exe");
    assert_eq!(main_script_path("/c"), "/c/main.py");
    assert_eq!(worker_vram_mode(&Some("low".to_string()), "high"), "low");
    assert_eq!(worker_vram_mode(&None, "high"), "high");
}

#[test]
fn extra_model_dirs_trimmed_and_nonblank() {
    assert_eq!(extra_model_dirs("  /a \n\n/b\r\n   \n"), strings(&["/a", "/b"]));
    assert!(extra_model_dirs("").is_empty());
    assert_eq!(extra_dirs(" /x \n\n /y/z"), strings(&["/x", "/y/z"]));
}

#[test]
fn structured_and_flat_model_dirs() {
    assert!(is_structured_model_dir(&strings(&["misc", "Lora"])));
    assert!(!is_structured_model_dir(&strings(&["misc", "LORAS"])));
    assert!(!is_structured_model_dir(&Vec::new()));
    assert_eq!(classify_flat_model_dir("MyLoRA_Collection"), "loras");
    assert_eq!(classify_flat_model_dir("SD Checkpoints"), "checkpoints");
    assert_eq!(classify_flat_model_dir("vae-files"), "vae");
    assert_eq!(classify_flat_model_dir("ESRGAN"), "upscale_models");
    assert_eq!(classify_flat_model_dir("control_net"), "controlnet");
    assert_eq!(classify_flat_model_dir("Textual Inversions"), "embeddings");
    assert_eq!(classify_flat_model_dir("CLIP"), "clip");
    assert_eq!(classify_flat_model_dir("diffusion"), "diffusion_models");
    assert_eq!(classify_flat_model_dir("random"), "loras");
}

#[test]
fn yaml_quoting_escapes() {
    assert_eq!(yaml_quote("C:\\Models \"x\""), "\"C:\\\\Models \\\"x\\\"\"");
    assert_eq!(yaml_quote("/plain"), "\"/plain\"");
}

#[test]
fn extra_model_paths_yaml_entries() {
    let dirs = vec![
        ModelDir { path: "/flat/loras".to_string(), name: "loras".to_string(), structured: false },
        ModelDir { path: "/s".to_string(), name: "s".to_string(), structured: true },
    ];
    let yaml = extra_model_paths_yaml(&dirs);
    assert!(yaml.starts_with("mooshieui_1:\n  base_path: \"/flat/loras\"\n  loras: \".\"\nmooshieui_2:\n  base_path: \"/s\"\n  checkpoints: |\n    checkpoints\n"));
    assert!(yaml.ends_with("    dlbackend/comfyui/models/text_encoders\n"));
    assert_eq!(extra_model_paths_yaml(&Vec::new()), "");
}

#[test]
fn pyvenv_home_values() {
    let cfg = "home = /usr/lib/python3\ninclude-system-site-packages = false\nhome=/opt/py\nhome =  \nhomedir = /x\n";
    assert_eq!(pyvenv_homes(cfg), strings(&["/usr/lib/python3", "/opt/py"]));
    assert!(pyvenv_homes("version = 3.11").is_empty());
}

#[test]
fn log_tail_last_lines() {
    assert_eq!(log_tail("a\nb\nc\n", 2), Some("b\nc".to_string()));
    assert_eq!(log_tail("a\nb", 30), Some("a\nb".to_string()));
    assert_eq!(log_tail("", 30), None);
}

#[test]
fn readiness_polling() {
    assert_eq!(ready_poll_count(60), 120);
    assert!(checks_process_at(3));
    assert!(checks_process_at(7));
    assert!(!checks_process_at(4));
}

#[test]
fn failure_messages() {
    match process_exit_error("exit status: 1", Some("line\nTorch not compiled with CUDA enabled")) {
        AppError::ProcessSpawnFailed(m) => assert!(m.starts_with("PyTorch was installed without GPU support.")),
        _ => panic!("wrong error kind"),
    }
    match process_exit_error("exit status: 1", Some("boom")) {
        AppError::ProcessSpawnFailed(m) => {
            assert_eq!(m, "ComfyUI process exited with exit status: 1 \u{2014} last log output:\nboom")
        },
        _ => panic!("wrong error kind"),
    }
    match process_exit_error("exit status: 2", None) {
        AppError::ProcessSpawnFailed(m) => assert_eq!(m, "ComfyUI process exited with exit status: 2"),
        _ => panic!("wrong error kind"),
    }
    match ready_timeout_error(90, None) {
        AppError::ConnectionFailed(m) => assert_eq!(m, "ComfyUI did not start within 90 seconds"),
        _ => panic!("wrong error kind"),
    }
    match ready_timeout_error(5, Some("x")) {
        AppError::ConnectionFailed(m) => {
            assert_eq!(m, "ComfyUI did not start within 5 seconds \u{2014} last log output:\nx")
        },
        _ => panic!("wrong error kind"),
    }
    match worker_exit_error(1, 0, "exit status: 3", Some("tail")) {
        AppError::ProcessSpawnFailed(m) => assert_eq!(m, "Worker 1 (GPU 0): process exited with exit status: 3 \u{2014} tail"),
        _ => panic!("wrong error kind"),
    }
    match worker_timeout_error(2, 1, 120) {
        AppError::ConnectionFailed(m) => assert_eq!(m, "Worker 2 (GPU 1): did not start within 120 seconds"),
        _ => panic!("wrong error kind"),
    }
    assert_eq!(worker_log_name(3), "comfyui-desktop-worker3-stderr.log");
}

#[test]
fn launch_path_checks() {
    assert!(check_launch_paths("/v", "/v/bin/python", true, "/c", "/c/main.py", true, false).is_ok());
    match check_launch_paths("", "/bin/python", false, "/c", "/c/main.py", true, false) {
        Err(AppError::ProcessSpawnFailed(m)) => assert_eq!(
            m,
            "Python not found at '/bin/python'. Run setup first or check your venv_path config."
        ),
        _ => panic!("expected a spawn error"),
    }
    match check_launch_paths("/v", "/v/bin/python", true, "/c", "/c/main.py", false, true) {
        Err(AppError::ProcessSpawnFailed(m)) => assert_eq!(m, "ComfyUI main.py not found at '/c/main.py'."),
        _ => panic!("expected a spawn error"),
    }
}

#[test]
fn appimage_path_filtered() {
    assert_eq!(host_path("/usr/bin:/tmp/.mount_abc/usr/bin:/bin"), "/usr/bin:/bin");
    assert_eq!(host_path("/usr/bin"), "/usr/bin");
}

#[test]
fn lsof_pid_lines() {
    assert_eq!(lsof_pids("123\n 456 \nx\n"), vec![123, 456]);
}

#[test]
fn optional_categories() {
    assert!(is_optional_model_category("clip"));
    assert!(is_optional_model_category("ultralytics"));
    assert!(!is_optional_model_category("checkpoints"));
}

#[test]
fn huggingface_hosts_and_tokens() {
    assert!(is_huggingface_url("https://huggingface.co/x/y"));
    assert!(is_huggingface_url("https://cdn-lfs.HuggingFace.co/file"));
    assert!(!is_huggingface_url("https://civitai.com/x"));
    assert!(!is_huggingface_url("not a url"));
    let env = vec![None, Some("   ".to_string()), Some("tok".to_string())];
    assert_eq!(huggingface_token_for_url("https://huggingface.co/a", &env), Some("tok".to_string()));
    assert_eq!(huggingface_token_for_url("https://example.com/a", &env), None);
}

#[test]
fn download_status_messages() {
    assert_eq!(
        download_status_error_message("https://huggingface.co/a", 401, "401 Unauthorized"),
        "Failed to download https://huggingface.co/a: HTTP 401 Unauthorized. This Hugging Face file requires access; set HF_TOKEN, HUGGINGFACE_HUB_TOKEN, or HUGGINGFACE_TOKEN, or install the file manually."
    );
    assert_eq!(
        download_status_error_message("https://x.org/a", 404, "404 Not Found"),
        "Failed to download https://x.org/a: HTTP 404 Not Found"
    );
}

#[test]
fn content_type_rejection() {
    assert!(reject_non_model_download_content_type("u", "application/octet-stream").is_ok());
    match reject_non_model_download_content_type("http://m", "Text/HTML; charset=utf-8") {
        Err(AppError::ApiError { status, message }) => {
            assert_eq!(status, 200);
            assert_eq!(message, "The URL returned 'text/html; charset=utf-8' instead of model bytes for http://m. This usually means the download requires authentication, a direct file URL, or a different token.");
        },
        _ => panic!("expected an API error"),
    }
}

#[test]
fn downloaded_file_checks() {
    match validate_downloaded_model_file("m.safetensors", 0, Some("safetensors")) {
        Err(AppError::Other(m)) => assert_eq!(m, "Downloaded model 'm.safetensors' is empty"),
        _ => panic!("expected an error"),
    }
    assert!(matches!(validate_downloaded_model_file("m", 10, Some("SFT")), Ok(true)));
    assert!(matches!(validate_downloaded_model_file("m", 10, Some("ckpt")), Ok(false)));
    assert!(matches!(validate_downloaded_model_file("m", 10, None), Ok(false)));
    assert!(check_safetensors_file_size("m", 8).is_err());
    assert!(check_safetensors_file_size("m", 9).is_ok());
    match check_safetensors_header_size("m", 100, 0) {
        Err(AppError::Other(m)) => assert_eq!(m, "'m' has an invalid safetensors header size (0)"),
        _ => panic!("expected an error"),
    }
    match check_safetensors_header_size("m", 100, 200) {
        Err(AppError::Other(m)) => assert_eq!(
            m,
            "'m' is incomplete: safetensors header declares 200 bytes but the file is only 100 bytes"
        ),
        _ => panic!("expected an error"),
    }
    assert!(check_safetensors_header_size("m", 100, 92).is_ok());
    let entries = vec![
        ("__metadata__".to_string(), Some(999)),
        ("a".to_string(), Some(10)),
        ("b".to_string(), Some(40)),
        ("c".to_string(), None),
    ];
    assert_eq!(safetensors_extent(&entries), (3, 40));
    assert!(check_safetensors_extent("m", 100, 50, 3, 40).is_ok());
    match check_safetensors_extent("m", 90, 50, 3, 40) {
        Err(AppError::Other(m)) => {
            assert_eq!(m, "'m' is incomplete: tensor data ends at byte 98 but the file is only 90 bytes")
        },
        _ => panic!("expected an error"),
    }
    match check_safetensors_extent("m", 90, 50, 0, 0) {
        Err(AppError::Other(m)) => assert_eq!(m, "'m' has no tensors in its safetensors header"),
        _ => panic!("expected an error"),
    }
}

#[test]
fn short_hash_and_mime_types() {
    assert_eq!(autov2_hash("0123456789abcdef"), "0123456789");
    assert_eq!(infer_image_mime(&[0xFF, 0xD8, 0xFF, 0xE1, 0], None), "image/jpeg");
    assert_eq!(infer_image_mime(b"RIFFxxxx", Some("png")), "image/webp");
    assert_eq!(infer_image_mime(b"\x89PNG", Some("jpeg")), "image/jpeg");
    assert_eq!(infer_image_mime(b"", Some("webp")), "image/webp");
    assert_eq!(infer_image_mime(b"", None), "image/png");
    assert_eq!(detect_image_mime(b"\x89PNG\r\n"), "image/png");
    assert_eq!(detect_image_mime(&[0xFF, 0xD8, 0]), "image/jpeg");
    assert_eq!(detect_image_mime(b"GIF89a"), "image/gif");
    assert_eq!(detect_image_mime(b"RIFF\0\0\0\0WEBPVP8 "), "image/webp");
    assert_eq!(detect_image_mime(b"RIFF\0\0\0\0WAVE    "), "image/jpeg");
    assert!(is_image_extension("JPG"));
    assert!(!is_image_extension("gif"));
}

#[test]
fn model_search_order() {
    assert_eq!(category_subdirs("vae"), vec!["vae", "VAE", "models/VAE", "Models/VAE"]);
    assert!(category_subdirs("unknown").is_empty());
    let c = model_path_candidates("/comfy", Some(" /extra \n\n"), "vae", "a.safetensors");
    assert_eq!(c.len(), 6);
    assert_eq!(c[0], strings(&["/comfy", "models", "vae", "a.safetensors"]));
    assert_eq!(c[1], strings(&["/extra", "vae", "a.safetensors"]));
    assert_eq!(c[5], strings(&["/extra", "a.safetensors"]));
    assert_eq!(model_path_candidates("/comfy", None, "x", "f").len(), 1);
}

#[test]
fn setup_choices() {
    assert_eq!(recommended_vram_mode(24000), "high");
    assert_eq!(recommended_vram_mode(8000), "high");
    assert_eq!(recommended_vram_mode(6000), "normal");
    assert_eq!(recommended_vram_mode(2048), "low");
    assert_eq!(recommended_vram_mode(0), "normal");
    assert_eq!(
        uv_download_url(Platform::WindowsX64),
        "https://github.com/astral-sh/uv/releases/latest/download/uv-x86_64-pc-windows-msvc.zip"
    );
    let (url, file) = ort_download_info(false);
    assert_eq!(
        url,
        "https://github.com/microsoft/onnxruntime/releases/download/v1.24.2/onnxruntime-linux-x64-1.24.2.tgz"
    );
    assert_eq!(file, "ort_runtime.tgz");
    assert_eq!(ort_download_info(true).1, "ort_runtime.zip");
}

#[test]
fn generation_defaults() {
    assert_eq!(default_output_bit_depth(), "8bit");
    assert_eq!(default_facefix_steps(), 20);
    assert_eq!(default_facefix_guide_size(), 512);
    assert_eq!(default_facefix_max_faces(), 8);
}

#[test]
fn pytorch_indexes_for_gpus() {
    assert_eq!(nvidia_pytorch_index_url(Some("8.6\n12.0\n")), "https://download.pytorch.org/whl/cu130");
    assert_eq!(nvidia_pytorch_index_url(Some("8.9\n")), "https://download.pytorch.org/whl/cu128");
    assert_eq!(nvidia_pytorch_index_url(None), "https://download.pytorch.org/whl/cu128");
    assert_eq!(amd_pytorch_index_url(Some("gfx1201")), "https://rocm.nightlies.amd.com/v2/gfx120X-all/");
    assert_eq!(amd_pytorch_index_url(Some("gfx1100")), "https://download.pytorch.org/whl/rocm6.2");
    assert_eq!(amd_pytorch_index_url(None), "https://download.pytorch.org/whl/rocm6.2");
}

#[test]
fn amd_architectures_found() {
    let report = "GPU[0] : Card Series: Navi31 GFX1100\nGPU[1] : gfx1201 gfx1100 other\n";
    let c = gfx_candidates(report);
    assert_eq!(c, vec!["gfx1100".to_string(), "gfx1201".to_string()]);
    assert_eq!(preferred_amd_arch(&c).as_deref(), Some("gfx1201"));
    assert_eq!(preferred_amd_arch(&vec!["gfx1030".to_string()]).as_deref(), Some("gfx1030"));
    assert_eq!(preferred_amd_arch(&Vec::new()), None);
    assert_eq!(sysfs_card_arch("0x1002\n", Some("12\n"), None), Some("gfx1200"));
    assert_eq!(sysfs_card_arch("0x1002", Some("11"), Some("0x7550")), Some("gfx1201"));
    assert_eq!(sysfs_card_arch("0x1002", None, Some("0x744C")), None);
    assert_eq!(sysfs_card_arch("0x10de", Some("12"), None), None);
}

#[test]
fn gpu_kinds_and_vram() {
    assert_eq!(windows_gpu_kind("AMD Radeon RX 7900 XTX\r\nAMD Radeon Graphics"), Some("amd"));
    assert_eq!(windows_gpu_kind("Intel Arc A770 Graphics"), Some("intel"));
    assert_eq!(windows_gpu_kind("Intel(R) Arc(TM) A770 Graphics"), None);
    assert_eq!(windows_gpu_kind("AMD Radeon Graphics"), None);
    assert!(is_intel_discrete_card("0x8086\n", "0x030000\n"));
    assert!(!is_intel_discrete_card("0x8086", "0x038000"));
    assert_eq!(max_listed_number("8192\n 24576 \nN/A\n"), Some(24576));
    assert_eq!(max_listed_number("none"), None);
    assert_eq!(macos_vram_mb("Graphics:\n      VRAM (Total): 8 GB\n"), Some(8192));
    assert_eq!(macos_vram_mb("  Memory: 1536 MB\n"), Some(1536));
    assert_eq!(macos_vram_mb("Chipset Model: Apple M2\n"), None);
    assert_eq!(words_of("  a\tbc  d \n"), vec!["a".to_string(), "bc".to_string(), "d".to_string()]);
}

#[test]
fn command_output_excerpts() {
    assert_eq!(command_output_excerpt("out", "  \n", "exit status: 1"), "out");
    assert_eq!(command_output_excerpt("out", "err1\nerr2\n", "exit status: 1"), "err1\nerr2");
    assert_eq!(command_output_excerpt("", " ", "exit status: 2"), "process exited with exit status: 2");
    let long: String = (0..30).map(|i| format!("l{}\n", i)).collect();
    let e = command_output_excerpt(&long, "", "x");
    assert!(e.starts_with("l10\n") && e.ends_with("l29"));
}

#[test]
fn pytorch_index_per_gpu_kind() {
    assert_eq!(pytorch_index_for("nvidia", Some("12.0"), None), "https://download.pytorch.org/whl/cu130");
    assert_eq!(pytorch_index_for("amd", None, Some("gfx1200")), "https://rocm.nightlies.amd.com/v2/gfx120X-all/");
    assert_eq!(pytorch_index_for("intel", None, None), "https://download.pytorch.org/whl/xpu");
    assert_eq!(pytorch_index_for("mps", None, None), "");
    assert_eq!(pytorch_index_for("cpu", None, None), "https://download.pytorch.org/whl/cpu");
}

#[test]
fn civitai_and_sidecar_helpers() {
    assert_eq!(civitai_hash_url("ABCDEF0123"), "https://civitai.com/api/v1/model-versions/by-hash/ABCDEF0123");
    assert_eq!(civitai_api_key(&Some("  key ".to_string())), Some("  key "));
    assert_eq!(civitai_api_key(&Some("   ".to_string())), None);
    assert_eq!(civitai_api_key(&None), None);
    assert_eq!(nsfw_label(0), "None");
    assert_eq!(nsfw_label(1), "None");
    assert_eq!(nsfw_label(16), "Level16");
    let entries = vec![
        ("modelspec.title".to_string(), "T".to_string()),
        ("ss_network".to_string(), "x".to_string()),
        ("modelspec.author".to_string(), "A".to_string()),
    ];
    assert_eq!(
        modelspec_fields(&entries),
        vec![("title".to_string(), "T".to_string()), ("author".to_string(), "A".to_string())]
    );
    assert_eq!(sidecar_names("m")[3], "m.preview.png");
    assert_eq!(sidecar_names("m").len(), 5);
    assert_eq!(sidecar_mime("jpeg"), "image/jpeg");
    assert_eq!(sidecar_mime("webp"), "image/png");
    assert_eq!(data_url("image/png", b"hi!"), "data:image/png;base64,aGkh");
}
