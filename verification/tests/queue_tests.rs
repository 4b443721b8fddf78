use comfyui_desktop::config::GpuWorkerConfig;
use comfyui_desktop::gpu_manager::{auto_configure_workers, parse_gpu_list, GpuManager, WorkerStatus};
use comfyui_desktop::prompt_queue::{HeldPrompt, PromptQueue};
use comfyui_desktop::ws_events::{
    classify_frame, event_name, on_text_event, output_data_start, parse_output_frame, queue_updates, settle_prompt,
    ws_url, FrameAction, OutputFrame, PromptSignal, PreviewFormat,
};

fn user(s: &str) -> Option<String> {
    Some(s.to_string())
}

fn ids(q: &PromptQueue<u32>) -> Vec<String> {
    q.queue_ids()
}

fn cfg(gpu: u32) -> GpuWorkerConfig {
    GpuWorkerConfig { gpu_index: gpu, port: None, enabled: true, label: None, vram_mode: None }
}

#[test]
fn queue_interleaves_users_fairly() {
    let mut q: PromptQueue<u32> = PromptQueue::new();
    q.insert("a1", user("alice"));
    q.insert("a2", user("alice"));
    q.insert("b1", user("bob"));
    q.insert("b2", user("bob"));
    q.insert("c1", user("carol"));
    assert_eq!(ids(&q), vec!["a1", "b1", "c1", "a2", "b2"]);
    assert_eq!(q.user_positions(&user("bob")), vec![("b1".to_string(), 1), ("b2".to_string(), 4)]);
    assert_eq!(q.len(), 5);
    assert!(q.is_owned_by("a2", &user("alice")));
    assert!(!q.is_owned_by("a2", &user("bob")));
    assert!(q.is_owned_by("never-queued", &user("bob")));
    assert!(q.is_owned_by("a2", &None));
    assert_eq!(q.active_count_for_user(&user("alice")), 2);
}

#[test]
fn finished_prompt_leaves_queue_but_keeps_owner() {
    let mut q: PromptQueue<u32> = PromptQueue::new();
    q.insert("p1", user("alice"));
    q.set_worker("p1", 2);
    assert_eq!(q.worker_of("p1"), Some(2));
    assert_eq!(q.finish("p1"), Some(2));
    assert!(q.is_empty());
    assert_eq!(q.worker_of("p1"), None);
    assert_eq!(q.owner_of("p1"), user("alice"));
    assert_eq!(q.finish("p1"), None);
}

#[test]
fn aliases_resolve_to_placeholders() {
    let mut q: PromptQueue<u32> = PromptQueue::new();
    q.insert("ph", user("alice"));
    assert!(!q.bind_alias("ph", "real"));
    assert_eq!(q.resolve_alias("real"), "ph");
    assert_eq!(q.resolve_alias("other"), "other");
    assert_eq!(q.owner_of("real"), user("alice"));
    q.park_deferred_finish("late");
    q.insert("ph2", None);
    assert!(q.bind_alias("ph2", "late"));
    assert!(!ids(&q).contains(&"ph2".to_string()));
    q.cleanup_alias("ph");
    assert_eq!(q.resolve_alias("real"), "real");
}

#[test]
fn cancel_removes_related_ids() {
    let mut q: PromptQueue<u32> = PromptQueue::new();
    q.insert("ph", user("alice"));
    q.bind_alias("ph", "real");
    q.set_worker("real", 1);
    let removed = q.cancel_and_remove("real");
    assert!(removed.contains(&"ph".to_string()));
    assert!(removed.contains(&"real".to_string()));
    assert!(q.is_cancelled("ph"));
    assert!(q.is_empty());
    assert_eq!(q.worker_of("real"), None);
}

#[test]
fn held_prompts_in_order() {
    let mut q: PromptQueue<u32> = PromptQueue::new();
    q.hold(HeldPrompt { payload: 1, username: user("a"), placeholder_id: "h1".to_string() });
    q.hold(HeldPrompt { payload: 2, username: user("b"), placeholder_id: "h2".to_string() });
    q.hold(HeldPrompt { payload: 3, username: user("a"), placeholder_id: "h3".to_string() });
    assert_eq!(q.held_len(), 3);
    assert_eq!(q.take_next_held().map(|h| h.payload), Some(1));
    assert_eq!(q.take_held_by_placeholder("h3").map(|h| h.payload), Some(3));
    assert!(q.take_held_by_placeholder("h3").is_none());
    let taken = q.take_held_for_user(&user("b"));
    assert_eq!(taken.len(), 1);
    assert_eq!(q.held_len(), 0);
}

#[test]
fn cancelling_a_user_clears_their_prompts() {
    let mut q: PromptQueue<u32> = PromptQueue::new();
    q.insert("a1", user("alice"));
    q.insert("b1", user("bob"));
    q.set_worker("a1", 0);
    q.hold(HeldPrompt { payload: 9, username: user("alice"), placeholder_id: "a2".to_string() });
    let c = q.cancel_user_prompts(&user("alice"));
    assert_eq!(c.held.len(), 1);
    assert_eq!(c.workers, vec![0]);
    assert!(c.delete_ids.contains(&"a1".to_string()));
    assert_eq!(ids(&q), vec!["b1"]);
    assert_eq!(q.active_count_for_user(&user("alice")), 0);
    q.clear_all();
    assert!(q.is_empty());
}

#[test]
fn websocket_url() {
    assert_eq!(ws_url("http://127.0.0.1:8188", "abc"), "ws://127.0.0.1:8188/ws?clientId=abc");
    assert_eq!(ws_url("https://host", "c"), "wss://host/ws?clientId=c");
    assert_eq!(event_name("progress"), "comfyui:progress");
}

#[test]
fn text_events_track_running_prompt() {
    let s = on_text_event(None, "execution_start", Some("p1"), false);
    assert_eq!(s.current.as_deref(), Some("p1"));
    assert!(matches!(s.signal, PromptSignal::Nothing));
    let s = on_text_event(s.current, "executing", Some("p1"), false);
    assert_eq!(s.current.as_deref(), Some("p1"));
    let s = on_text_event(s.current, "executing", Some("p1"), true);
    assert_eq!(s.current, None);
    assert!(matches!(s.signal, PromptSignal::Finished(ref p) if p == "p1"));
    let s = on_text_event(Some("p2".to_string()), "executing", Some("p1"), true);
    assert_eq!(s.current.as_deref(), Some("p2"));
    let s = on_text_event(Some("p2".to_string()), "execution_error", Some("p2"), false);
    assert_eq!(s.current.as_deref(), Some("p2"));
    assert!(matches!(s.signal, PromptSignal::Failed(ref p) if p == "p2"));
    let s = on_text_event(Some("p2".to_string()), "status", None, true);
    assert_eq!(s.current.as_deref(), Some("p2"));
    assert!(matches!(s.signal, PromptSignal::Nothing));
}

#[test]
fn binary_frames_classified() {
    assert!(classify_frame(&[0, 0, 0], true) == FrameAction::Ignore);
    assert!(classify_frame(&[0, 0, 0, 1, 0, 0, 0, 2, 9], false) == FrameAction::Ignore);
    assert!(classify_frame(&[0, 0, 0, 1, 0, 0, 0, 2, 9], true) == FrameAction::Preview { format: PreviewFormat::Png, start: 8 });
    assert!(classify_frame(&[0, 0, 0, 2, 0, 0, 0, 1, 9], true) == FrameAction::Preview { format: PreviewFormat::Jpeg, start: 8 });
    assert!(classify_frame(&[0, 0, 0, 4, 0, 0, 0, 2, 7, 7, 9], true) == FrameAction::Preview { format: PreviewFormat::Jpeg, start: 10 });
    assert!(classify_frame(&[0, 0, 0, 4, 0, 0, 0, 3, 7, 7, 9], true) == FrameAction::Ignore);
    assert!(classify_frame(&[0, 0, 0, 100], true) == FrameAction::OutputImage);
    assert!(classify_frame(&[0, 0, 0, 5, 1], false) == FrameAction::Ignore);
    assert_eq!(PreviewFormat::Png.ext(), "png");
    assert_eq!(PreviewFormat::Jpeg.ext(), "jpg");
    assert_eq!(PreviewFormat::Jpeg.as_str(), "jpeg");
}

#[test]
fn output_frames_parsed() {
    let raw = [0, 0, 0, 100, 0, 0, 0, 3, 0x01, 0x00, 0x00, 0x80, 4, 16, 0, 0, 1, 2];
    let f = parse_output_frame(&raw).unwrap();
    assert!(f == OutputFrame::Raw { width: 256, height: 128, sixteen_bit: true });
    assert_eq!(output_data_start(&f), 16);
    assert!(parse_output_frame(&[0, 0, 0, 100, 0, 0, 0, 4, 0, 1, 0, 1, 3, 8, 0, 0]).is_none());
    assert!(parse_output_frame(&[0, 0, 0, 100, 0, 0, 0, 4, 0, 1]).is_none());
    assert!(parse_output_frame(&[0, 0, 0, 100, 0, 0, 0, 2, 1]) == Some(OutputFrame::Png { bit_depth: 16 }));
    assert!(parse_output_frame(&[0, 0, 0, 100, 0, 0, 0, 1, 1]) == Some(OutputFrame::Png { bit_depth: 8 }));
    assert!(parse_output_frame(&[0, 0, 0, 100]).is_none());
}

#[test]
fn queue_notices() {
    let u = queue_updates(&Vec::new());
    assert_eq!(u.len(), 1);
    assert!(u[0].prompt_id.is_none() && u[0].total == 0);
    let u = queue_updates(&vec!["x".to_string(), "y".to_string()]);
    assert_eq!(u.len(), 2);
    assert_eq!(u[1].prompt_id.as_deref(), Some("y"));
    assert_eq!((u[1].position, u[1].total), (1, 2));
}

#[test]
fn settling_releases_the_worker() {
    let mut q: PromptQueue<u32> = PromptQueue::new();
    let mut gpus = GpuManager::new(&vec![cfg(0), cfg(1)], 8188);
    let idx = 1usize;
    gpus.workers[idx].status = WorkerStatus::Idle;
    assert!(gpus.begin_submit(idx));
    q.insert("ph", user("alice"));
    q.insert("other", user("bob"));
    q.bind_alias("ph", "real");
    q.set_worker("ph", 1);
    let s = settle_prompt(&mut q, &mut gpus, "real", false, 1234);
    assert_eq!(s.resolved, "ph");
    assert_eq!(s.worker, Some(1));
    assert!(!gpus.workers[1].reserved);
    assert!(gpus.workers[1].status == WorkerStatus::Idle);
    assert_eq!(gpus.workers[1].last_released, 1234);
    assert_eq!(s.updates.len(), 1);
    assert_eq!(s.updates[0].prompt_id.as_deref(), Some("other"));
    let f = settle_prompt(&mut q, &mut gpus, "other", true, 5);
    assert_eq!(f.worker, None);
    assert!(f.updates[0].prompt_id.is_none());
}

#[test]
fn workers_from_configuration() {
    let m = GpuManager::new(&Vec::new(), 8188);
    assert_eq!(m.workers.len(), 1);
    assert_eq!(m.workers[0].port, 8188);
    assert!(m.is_single_worker());
    let m = GpuManager::new(&vec![cfg(0), GpuWorkerConfig { gpu_index: 1, port: Some(9000), enabled: false, label: Some("B".to_string()), vram_mode: None }], 8188);
    assert_eq!(m.workers[0].port, 8188);
    assert_eq!(m.workers[0].base_url, "http://127.0.0.1:8188");
    assert_eq!(m.workers[1].port, 9000);
    assert!(m.workers[1].status == WorkerStatus::Disabled);
    assert_eq!(m.enabled_count(), 1);
}

#[test]
fn best_worker_is_idle_and_least_recently_used() {
    let mut m = GpuManager::new(&vec![cfg(0), cfg(1), cfg(2)], 8188);
    assert_eq!(m.find_available(), None);
    for w in m.workers.iter_mut() {
        w.status = WorkerStatus::Idle;
    }
    m.workers[0].last_released = 30;
    m.workers[1].last_released = 10;
    m.workers[2].last_released = 20;
    assert_eq!(m.find_available(), Some(1));
    assert!(m.begin_submit(1));
    assert!(!m.begin_submit(1));
    assert_eq!(m.find_available(), Some(2));
    m.mark_worker_error_then_idle_at(1, 99);
    assert!(!m.workers[1].reserved);
    assert_eq!(m.workers[1].last_released, 99);
}

#[test]
fn gpu_listing_parsed() {
    let gpus = parse_gpu_list("0, NVIDIA GeForce RTX 4090, 24564\n1, Tesla T4, 15360\nbad line\n");
    assert_eq!(gpus, vec![(0, "NVIDIA GeForce RTX 4090".to_string(), 24564), (1, "Tesla T4".to_string(), 15360)]);
    let cfgs = auto_configure_workers(&gpus, 8188);
    assert_eq!(cfgs.len(), 2);
    assert_eq!(cfgs[1].port, Some(8189));
    assert_eq!(cfgs[0].label.as_deref(), Some("NVIDIA GeForce RTX 4090"));
    assert!(cfgs[0].enabled);
}

#[test]
fn worker_assignments_listed() {
    let mut q: PromptQueue<u32> = PromptQueue::new();
    q.insert("p1", user("alice"));
    q.insert("p2", user("bob"));
    q.set_worker("p1", 0);
    q.set_worker("p2", 3);
    let mut snap = q.worker_map_snapshot();
    snap.sort();
    assert_eq!(snap, vec![("p1".to_string(), 0), ("p2".to_string(), 3)]);
    q.finish("p1");
    assert_eq!(q.worker_map_snapshot(), vec![("p2".to_string(), 3)]);
}

#[test]
fn first_prompt_of_each_user_runs_in_the_first_round() {
    let mut q: PromptQueue<u32> = PromptQueue::new();
    q.insert("a1", user("alice"));
    q.insert("a2", user("alice"));
    q.insert("a3", user("alice"));
    q.insert("b1", user("bob"));
    assert_eq!(ids(&q), vec!["a1", "b1", "a2", "a3"]);
    q.insert("c1", None);
    assert_eq!(ids(&q), vec!["a1", "b1", "c1", "a2", "a3"]);
}

#[test]
fn cancelled_ids_leave_every_table() {
    let mut q: PromptQueue<u32> = PromptQueue::new();
    q.insert("ph", Some("gina".to_string()));
    q.insert("other", Some("hal".to_string()));
    q.bind_alias("ph", "real");
    q.set_worker("real", 2);
    let removed = q.cancel_and_remove("ph");
    assert_eq!(removed.len(), 2);
    for id in &removed {
        assert!(q.is_cancelled(id));
        assert_eq!(q.owner_of(id), None);
        assert_eq!(q.worker_of(id), None);
        assert_eq!(&q.resolve_alias(id), id);
    }
    assert!(q.user_positions(&Some("gina".to_string())).is_empty());
    assert_eq!(q.queue_ids(), vec!["other".to_string()]);
}

#[test]
fn cancel_returns_related_ids_in_order() {
    let mut q: PromptQueue<u32> = PromptQueue::new();
    q.insert("ph", user("lee"));
    q.bind_alias("ph", "r1");
    let listed = q.related_ids("r1");
    assert_eq!(listed[0], "ph");
    assert_eq!(q.cancel_and_remove("r1"), listed);
}

#[test]
fn held_payloads_come_back() {
    let mut q: PromptQueue<u32> = PromptQueue::new();
    q.hold(HeldPrompt { payload: 10, username: user("a"), placeholder_id: "h1".to_string() });
    q.hold(HeldPrompt { payload: 20, username: user("b"), placeholder_id: "h2".to_string() });
    q.hold(HeldPrompt { payload: 30, username: user("a"), placeholder_id: "h3".to_string() });
    let mine: Vec<u32> = q.take_held_for_user(&user("a")).into_iter().map(|h| h.payload).collect();
    assert_eq!(mine, vec![10, 30]);
    assert_eq!(q.take_held_by_placeholder("h2").map(|h| h.payload), Some(20));
    assert!(q.take_next_held().is_none());
}
