//! Decisions taken on the ComfyUI WebSocket event stream: which prompt is
//! running, what a finished or failed prompt releases, and how binary preview
//! and output frames are laid out. The connection loop itself feeds events in
//! and performs the returned actions.
use vstd::prelude::*;
use crate::text::{replaced, replace_all, push_str};
use crate::strmap::str_eq;
use crate::jxl::be32_at;
use crate::prompt_queue::{PromptQueue, QEntry, placeholder_for, without_ids};
use crate::gpu_manager::{GpuManager, GpuWorker, WorkerStatus};

verus! {

/// The WebSocket URL of a ComfyUI server: the HTTP scheme swapped for the
/// WebSocket one, then `/ws?clientId=` and the client id.
pub open spec fn ws_url_of(base_url: Seq<char>, client_id: Seq<char>) -> Seq<char> {
    replaced(replaced(base_url, "http://"@, "ws://"@), "https://"@, "wss://"@) + "/ws?clientId="@
        + client_id
}

/// The WebSocket URL for `base_url` and this client.
pub fn ws_url(base_url: &str, client_id: &str) -> (r: String)
    ensures
        r@ == ws_url_of(base_url@, client_id@),
{
    proof {
        reveal_strlit("http://");
        reveal_strlit("https://");
    }
    let a = replace_all(base_url, "http://", "ws://");
    let mut b = replace_all(a.as_str(), "https://", "wss://");
    push_str(&mut b, "/ws?clientId=");
    push_str(&mut b, client_id);
    b
}

/// The name under which a ComfyUI event is forwarded: `comfyui:` and its type.
pub fn event_name(event_type: &str) -> (r: String)
    ensures
        r@ == "comfyui:"@ + event_type@,
{
    let mut s = String::from_str("comfyui:");
    push_str(&mut s, event_type);
    s
}

/// What a text event asks of the queue besides being forwarded.
pub enum PromptSignal {
    /// Nothing to settle.
    Nothing,
    /// The prompt with this id finished (`executing` with no node).
    Finished(String),
    /// The prompt with this id failed (`execution_error`).
    Failed(String),
}

/// The outcome of one text event: the prompt now running and what to settle.
pub struct TextStep {
    pub current: Option<String>,
    pub signal: PromptSignal,
}

/// The prompt running after a text event of type `event_type` carrying
/// `prompt_id` (with `node` null or not).
pub open spec fn next_current(
    current: Option<Seq<char>>,
    event_type: Seq<char>,
    prompt_id: Option<Seq<char>>,
    node_is_null: bool,
) -> Option<Seq<char>> {
    match prompt_id {
        None => current,
        Some(p) => if event_type == "execution_start"@ {
            Some(p)
        } else if event_type == "executing"@ {
            if node_is_null {
                if current == Some(p) { None } else { current }
            } else {
                Some(p)
            }
        } else {
            current
        },
    }
}

/// The signal of a text event: a finished or failed prompt, or nothing.
pub open spec fn signal_of(event_type: Seq<char>, prompt_id: Option<Seq<char>>, node_is_null: bool) -> Option<(bool, Seq<char>)> {
    match prompt_id {
        None => None,
        Some(p) => if event_type == "executing"@ && node_is_null {
            Some((false, p))
        } else if event_type == "execution_error"@ {
            Some((true, p))
        } else {
            None
        },
    }
}

/// The signal as (failed, prompt id).
pub open spec fn signal_view(s: PromptSignal) -> Option<(bool, Seq<char>)> {
    match s {
        PromptSignal::Nothing => None,
        PromptSignal::Finished(p) => Some((false, p@)),
        PromptSignal::Failed(p) => Some((true, p@)),
    }
}

/// An optional string as characters.
pub open spec fn opt_str_view(o: Option<&str>) -> Option<Seq<char>> {
    match o {
        Some(p) => Some(p@),
        None => None,
    }
}

/// Track the running prompt across a text event (`prompt_id` is the event's
/// `data.prompt_id` where it is a string) and say whether a prompt finished
/// or failed.
pub fn on_text_event(current: Option<String>, event_type: &str, prompt_id: Option<&str>, node_is_null: bool) -> (r: TextStep)
    ensures
        r.current.deep_view() == next_current(current.deep_view(), event_type@, opt_str_view(prompt_id), node_is_null),
        signal_view(r.signal) == signal_of(event_type@, opt_str_view(prompt_id), node_is_null),
{
    proof {
        reveal_strlit("execution_start");
        reveal_strlit("executing");
        reveal_strlit("execution_error");
        assert("execution_start"@.len() != "executing"@.len());
        assert("execution_error"@.len() != "executing"@.len());
        assert("execution_start"@[10] != "execution_error"@[10]);
    }
    match prompt_id {
        None => TextStep { current, signal: PromptSignal::Nothing },
        Some(p) => {
            if str_eq(event_type, "execution_start") {
                TextStep { current: Some(String::from_str(p)), signal: PromptSignal::Nothing }
            } else if str_eq(event_type, "executing") {
                if node_is_null {
                    let same = match &current {
                        Some(c) => str_eq(c.as_str(), p),
                        None => false,
                    };
                    let next = if same { None } else { current };
                    TextStep { current: next, signal: PromptSignal::Finished(String::from_str(p)) }
                } else {
                    TextStep { current: Some(String::from_str(p)), signal: PromptSignal::Nothing }
                }
            } else if str_eq(event_type, "execution_error") {
                TextStep { current, signal: PromptSignal::Failed(String::from_str(p)) }
            } else {
                TextStep { current, signal: PromptSignal::Nothing }
            }
        },
    }
}

/// One queue position notice: `prompt_id` at `position` of `total`, or, with
/// no prompt id, the notice that the queue is empty (`total` 0).
pub struct QueueUpdate {
    pub prompt_id: Option<String>,
    pub position: usize,
    pub total: usize,
}

/// The queue notices for a display queue with these ids: one per prompt, or
/// one empty-queue notice.
pub open spec fn updates_ok(ids: Seq<Seq<char>>, r: Seq<QueueUpdate>) -> bool {
    if ids.len() == 0 {
        r.len() == 1 && r[0].prompt_id is None && r[0].position == 0 && r[0].total == 0
    } else {
        &&& r.len() == ids.len()
        &&& forall|i: int| 0 <= i < r.len() ==> {
            &&& (#[trigger] r[i]).prompt_id matches Some(p) && p@ == ids[i]
            &&& r[i].position == i
            &&& r[i].total == ids.len()
        }
    }
}

/// The ids of a display queue.
pub open spec fn queue_ids_of(q: Seq<QEntry>) -> Seq<Seq<char>> {
    q.map_values(|e: QEntry| e.0)
}

/// The queue notices for the display queue `ids`.
pub fn queue_updates(ids: &Vec<String>) -> (r: Vec<QueueUpdate>)
    ensures
        updates_ok(ids@.map_values(|s: String| s@), r@),
{
    let ghost sv = ids@.map_values(|s: String| s@);
    let mut r: Vec<QueueUpdate> = Vec::new();
    let total = ids.len();
    if total == 0 {
        r.push(QueueUpdate { prompt_id: None, position: 0, total: 0 });
        return r;
    }
    let mut i: usize = 0;
    while i < total
        invariant
            total == ids@.len(),
            sv == ids@.map_values(|s: String| s@),
            i <= total,
            r@.len() == i,
            forall|k: int| 0 <= k < i ==> {
                &&& (#[trigger] r@[k]).prompt_id matches Some(p) && p@ == sv[k]
                &&& r@[k].position == k
                &&& r@[k].total == total
            },
        decreases total - i,
    {
        r.push(QueueUpdate { prompt_id: Some(ids[i].clone()), position: i, total });
        i += 1;
    }
    r
}

/// What settling a finished or failed prompt did.
pub struct Settled {
    /// The placeholder id the prompt stands for (its aliases are forgotten a
    /// little later).
    pub resolved: String,
    /// The worker that ran it, now released.
    pub worker: Option<u32>,
    /// The queue notices to send.
    pub updates: Vec<QueueUpdate>,
}

/// The worker `id` after its prompt ended at `now`: released, and idle if it
/// was running, or idle whatever it was after a failure.
pub open spec fn released_worker(w: GpuWorker, n: GpuWorker, failed: bool, now: u64) -> bool {
    &&& !n.reserved
    &&& n.last_released == now
    &&& n.status == (if failed || w.status == WorkerStatus::Running { WorkerStatus::Idle } else { w.status })
    &&& n.id == w.id && n.gpu_index == w.gpu_index && n.port == w.port && n.base_url == w.base_url
        && n.label == w.label && n.vram_mode == w.vram_mode
}

/// Settle a prompt the server reported finished (`failed` false) or failed:
/// drop it from the display queue and worker assignment, release its worker,
/// and produce the queue notices (after a failure, the empty-queue notice).
pub fn settle_prompt<P>(
    queue: &mut PromptQueue<P>,
    gpus: &mut GpuManager,
    prompt_id: &str,
    failed: bool,
    now_ms: u64,
) -> (r: Settled)
    requires
        old(queue).wf(),
    ensures
        final(queue).wf(),
        r.resolved@ == placeholder_for(old(queue).aliases_map(), prompt_id@),
        r.worker is Some <==> old(queue).workers_map().contains_key(r.resolved@),
        r.worker matches Some(w) ==> w == old(queue).workers_map()[r.resolved@],
        final(queue).workers_map() == old(queue).workers_map().remove(r.resolved@),
        final(queue).queue_view() == without_ids(old(queue).queue_view(), set![r.resolved@]),
        final(queue).owners_map() == old(queue).owners_map(),
        final(queue).aliases_map() == old(queue).aliases_map(),
        final(queue).deferred_set() == old(queue).deferred_set(),
        final(queue).cancelled_set() == old(queue).cancelled_set(),
        final(queue).held() == old(queue).held(),
        final(gpus).workers@.len() == old(gpus).workers@.len(),
        forall|i: int| 0 <= i < old(gpus).workers@.len() && (r.worker != Some(i as u32)) ==>
            #[trigger] final(gpus).workers@[i] == old(gpus).workers@[i],
        r.worker matches Some(w) ==> ((w as int) < old(gpus).workers@.len() ==>
            released_worker(old(gpus).workers@[w as int], final(gpus).workers@[w as int], failed, now_ms)),
        failed ==> updates_ok(Seq::empty(), r.updates@),
        !failed ==> updates_ok(queue_ids_of(final(queue).queue_view()), r.updates@),
{
    let resolved = queue.resolve_alias(prompt_id);
    let worker = queue.finish(resolved.as_str());
    match worker {
        Some(w) => {
            if failed {
                gpus.mark_worker_error_then_idle_at(w, now_ms);
            } else {
                gpus.mark_worker_idle_at(w, now_ms);
            }
        },
        None => {},
    }
    let updates = if failed {
        let none: Vec<String> = Vec::new();
        let u = queue_updates(&none);
        proof {
            assert(none@.map_values(|s: String| s@) =~= Seq::<Seq<char>>::empty());
        }
        u
    } else {
        let ids = queue.queue_ids();
        let u = queue_updates(&ids);
        proof {
            assert(ids@.map_values(|s: String| s@) =~= queue_ids_of(queue.queue_view()));
        }
        u
    };
    Settled { resolved, worker, updates }
}

/// The format of a preview image.
#[derive(PartialEq, Eq, Structural, Clone, Copy)]
pub enum PreviewFormat {
    Jpeg,
    Png,
}

impl PreviewFormat {
    /// The format's name in events.
    pub fn as_str(&self) -> (s: &'static str)
        ensures
            s@ == (match self { PreviewFormat::Jpeg => "jpeg"@, PreviewFormat::Png => "png"@ }),
    {
        match self {
            PreviewFormat::Jpeg => "jpeg",
            PreviewFormat::Png => "png",
        }
    }

    /// The file extension for a saved copy.
    pub fn ext(&self) -> (s: &'static str)
        ensures
            s@ == (match self { PreviewFormat::Jpeg => "jpg"@, PreviewFormat::Png => "png"@ }),
    {
        match self {
            PreviewFormat::Jpeg => "jpg",
            PreviewFormat::Png => "png",
        }
    }
}

/// What to do with a binary frame.
#[derive(PartialEq, Eq, Structural, Clone, Copy)]
pub enum FrameAction {
    /// Drop it.
    Ignore,
    /// A preview image: `data[start..]` in `format`.
    Preview { format: PreviewFormat, start: usize },
    /// A final output image (see `parse_output_frame`).
    OutputImage,
}

/// The action for a binary frame `b`, given whether a prompt is known to be
/// running (frames of an unknown prompt are dropped so that no user sees
/// another's images).
pub open spec fn frame_action(b: Seq<u8>, has_prompt: bool) -> FrameAction {
    if b.len() < 4 {
        FrameAction::Ignore
    } else {
        let t = be32_at(b, 0);
        if !has_prompt && (t == 1 || t == 2 || t == 4 || t == 100) {
            FrameAction::Ignore
        } else if t == 1 || t == 2 {
            if b.len() < 8 {
                FrameAction::Ignore
            } else {
                FrameAction::Preview {
                    format: if be32_at(b, 4) == 2 { PreviewFormat::Png } else { PreviewFormat::Jpeg },
                    start: 8,
                }
            }
        } else if t == 4 {
            if b.len() < 8 || 8 + be32_at(b, 4) >= b.len() {
                FrameAction::Ignore
            } else {
                FrameAction::Preview { format: PreviewFormat::Jpeg, start: (8 + be32_at(b, 4)) as usize }
            }
        } else if t == 100 {
            FrameAction::OutputImage
        } else {
            FrameAction::Ignore
        }
    }
}

/// The big-endian 32-bit value at `pos`.
fn read_be32(b: &[u8], pos: usize) -> (r: u32)
    requires
        pos + 4 <= b@.len(),
    ensures
        r as int == be32_at(b@, pos as int),
{
    let r: u64 = (b[pos] as u64) * 0x100_0000 + (b[pos + 1] as u64) * 0x1_0000 + (b[pos + 2] as u64)
        * 0x100 + (b[pos + 3] as u64);
    r as u32
}

/// Classify a binary WebSocket frame.
pub fn classify_frame(data: &[u8], has_prompt: bool) -> (r: FrameAction)
    ensures
        r == frame_action(data@, has_prompt),
{
    if data.len() < 4 {
        return FrameAction::Ignore;
    }
    let t = read_be32(data, 0);
    if !has_prompt && (t == 1 || t == 2 || t == 4 || t == 100) {
        return FrameAction::Ignore;
    }
    if t == 1 || t == 2 {
        if data.len() < 8 {
            return FrameAction::Ignore;
        }
        let f = read_be32(data, 4);
        let format = if f == 2 { PreviewFormat::Png } else { PreviewFormat::Jpeg };
        FrameAction::Preview { format, start: 8 }
    } else if t == 4 {
        if data.len() < 8 {
            return FrameAction::Ignore;
        }
        let meta = read_be32(data, 4);
        let start: u64 = 8 + meta as u64;
        if start >= data.len() as u64 {
            FrameAction::Ignore
        } else {
            FrameAction::Preview { format: PreviewFormat::Jpeg, start: start as usize }
        }
    } else if t == 100 {
        FrameAction::OutputImage
    } else {
        FrameAction::Ignore
    }
}

/// The payload of an output-image frame.
#[derive(PartialEq, Eq, Structural, Clone, Copy)]
pub enum OutputFrame {
    /// Raw RGBA pixels from byte 16 on: `width` × `height`, 8 or 16 bits per
    /// channel; they are encoded to JPEG XL with a display copy.
    Raw { width: u32, height: u32, sixteen_bit: bool },
    /// An encoded PNG from byte 8 on, of this bit depth.
    Png { bit_depth: u8 },
}

/// The layout of an output-image frame `b`, or None where its raw header is
/// short or not RGBA of 8 or 16 bits.
pub open spec fn output_frame(b: Seq<u8>) -> Option<OutputFrame> {
    if b.len() < 8 {
        None
    } else {
        let tag = be32_at(b, 4);
        if tag == 3 || tag == 4 {
            if b.len() < 16 || b[12] != 4 || !(b[13] == 8 || b[13] == 16) {
                None
            } else {
                Some(OutputFrame::Raw {
                    width: (b[8] * 0x100 + b[9]) as u32,
                    height: (b[10] * 0x100 + b[11]) as u32,
                    sixteen_bit: b[13] == 16,
                })
            }
        } else if tag == 2 {
            Some(OutputFrame::Png { bit_depth: 16 })
        } else {
            Some(OutputFrame::Png { bit_depth: 8 })
        }
    }
}

/// The frame's type tag (bytes 4..8) marks raw pixels (3 or 4).
pub open spec fn raw_tag(b: Seq<u8>) -> bool {
    b.len() >= 8 && (b[4] == 0 && b[5] == 0 && b[6] == 0 && (b[7] == 3 || b[7] == 4))
}

/// A raw frame whose 16-byte header describes RGBA pixels (4 channels) of 8
/// or 16 bits.
pub open spec fn raw_rgba_header(b: Seq<u8>) -> bool {
    raw_tag(b) && b.len() >= 16 && b[12] == 4 && (b[13] == 8 || b[13] == 16)
}

/// Law: a raw output frame with an RGBA header of 8 or 16 bits reads as raw
/// pixels of the big-endian 16-bit width and height it carries, 16-bit
/// exactly when its depth byte says 16; a raw frame with another channel
/// count or depth, or a short header, is refused.
pub proof fn law_raw_output_frames(b: Seq<u8>)
    ensures
        raw_rgba_header(b) ==> output_frame(b) == Some(OutputFrame::Raw {
            width: (b[8] * 256 + b[9]) as u32,
            height: (b[10] * 256 + b[11]) as u32,
            sixteen_bit: b[13] == 16,
        }),
        raw_rgba_header(b) && b[13] == 8 ==> (output_frame(b) matches Some(OutputFrame::Raw { sixteen_bit, .. })
            && !sixteen_bit),
        raw_tag(b) && !raw_rgba_header(b) ==> output_frame(b) is None,
{
    if raw_tag(b) {
        assert(be32_at(b, 4) == b[7] as int);
    }
}

/// Read the header of an output-image frame.
pub fn parse_output_frame(data: &[u8]) -> (r: Option<OutputFrame>)
    ensures
        r == output_frame(data@),
        raw_rgba_header(data@) ==> r == Some(OutputFrame::Raw {
            width: (data@[8] * 256 + data@[9]) as u32,
            height: (data@[10] * 256 + data@[11]) as u32,
            sixteen_bit: data@[13] == 16,
        }),
        raw_tag(data@) && !raw_rgba_header(data@) ==> r is None,
{
    proof {
        law_raw_output_frames(data@);
    }
    if data.len() < 8 {
        return None;
    }
    let tag = read_be32(data, 4);
    if tag == 3 || tag == 4 {
        if data.len() < 16 {
            return None;
        }
        let channels = data[12];
        let depth = data[13];
        if channels != 4 || !(depth == 8 || depth == 16) {
            return None;
        }
        let width: u32 = (data[8] as u32) * 0x100 + data[9] as u32;
        let height: u32 = (data[10] as u32) * 0x100 + data[11] as u32;
        Some(OutputFrame::Raw { width, height, sixteen_bit: depth == 16 })
    } else if tag == 2 {
        Some(OutputFrame::Png { bit_depth: 16 })
    } else {
        Some(OutputFrame::Png { bit_depth: 8 })
    }
}

/// The byte offset where an output frame's image data starts.
pub fn output_data_start(f: &OutputFrame) -> (r: usize)
    ensures
        r == (match f { OutputFrame::Raw { .. } => 16usize, OutputFrame::Png { .. } => 8usize }),
{
    match f {
        OutputFrame::Raw { .. } => 16,
        OutputFrame::Png { .. } => 8,
    }
}

} // verus!
