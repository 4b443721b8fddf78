//! Bounded in-memory log buffers for diagnostic capture.
//!
//! Each buffer keeps at most `MAX_LINES` lines and discards the oldest entries
//! first, so it cannot grow without bound during long sessions.
use vstd::prelude::*;

verus! {

/// Maximum number of lines a buffer holds.
pub const MAX_LINES: usize = 2000;

/// The last `n` elements of `s` (all of `s` when it is shorter).
pub open spec fn last_n<T>(s: Seq<T>, n: nat) -> Seq<T> {
    if s.len() <= n {
        s
    } else {
        s.subrange(s.len() - n, s.len() as int)
    }
}

/// A bounded line buffer that drops the oldest lines first.
pub struct LogBuffer {
    lines: Vec<String>,
}

impl View for LogBuffer {
    type V = Seq<String>;

    closed spec fn view(&self) -> Seq<String> {
        self.lines@
    }
}

impl LogBuffer {
    /// Well-formedness: never more than `MAX_LINES` lines.
    pub open spec fn wf(&self) -> bool {
        self@.len() <= MAX_LINES
    }

    /// An empty buffer.
    pub fn new() -> (b: Self)
        ensures
            b@ == Seq::<String>::empty(),
            b.wf(),
    {
        LogBuffer { lines: Vec::new() }
    }

    /// Append one line, discarding the oldest lines so that at most
    /// `MAX_LINES` remain.
    pub fn push_bounded(&mut self, line: String)
        requires
            old(self).wf(),
        ensures
            final(self).wf(),
            final(self)@ == last_n(old(self)@.push(line), MAX_LINES as nat),
    {
        let ghost before = self.lines@;
        if self.lines.len() >= MAX_LINES {
            let drop = self.lines.len() - (MAX_LINES - 1);
            let mut kept: Vec<String> = Vec::new();
            let mut i = drop;
            while i < self.lines.len()
                invariant
                    drop <= i <= self.lines.len(),
                    self.lines@ == before,
                    kept@ == before.subrange(drop as int, i as int),
                decreases self.lines.len() - i,
            {
                kept.push(self.lines[i].clone());
                i += 1;
            }
            self.lines = kept;
        }
        self.lines.push(line);
        proof {
            let pushed = before.push(line);
            if before.len() >= MAX_LINES {
                assert(self.lines@ =~= pushed.subrange(pushed.len() - MAX_LINES, pushed.len() as int));
            }
        }
    }

    /// A copy of the buffered lines, oldest first.
    pub fn snapshot(&self) -> (out: Vec<String>)
        ensures
            out@ == self@,
    {
        self.lines.clone()
    }
}

/// Append one line to a buffer, discarding the oldest lines so that at most
/// `MAX_LINES` remain.
pub fn push_bounded(buffer: &mut LogBuffer, line: String)
    requires
        old(buffer).wf(),
    ensures
        final(buffer).wf(),
        final(buffer)@ == last_n(old(buffer)@.push(line), MAX_LINES as nat),
{
    buffer.push_bounded(line);
}

/// The two diagnostic buffers: lines logged by the application itself and
/// lines handed over by the user interface.
pub struct LogBuffers {
    pub rust: LogBuffer,
    pub frontend: LogBuffer,
}

impl LogBuffers {
    /// Both buffers empty.
    pub fn new() -> (b: Self)
        ensures
            b.rust@ == Seq::<String>::empty(),
            b.frontend@ == Seq::<String>::empty(),
            b.wf(),
    {
        LogBuffers { rust: LogBuffer::new(), frontend: LogBuffer::new() }
    }

    pub open spec fn wf(&self) -> bool {
        self.rust.wf() && self.frontend.wf()
    }
}

/// `lines` appended one by one to a bounded buffer holding `s`.
pub open spec fn pushed_all(s: Seq<String>, lines: Seq<String>) -> Seq<String>
    decreases lines.len(),
{
    if lines.len() == 0 {
        s
    } else {
        last_n(pushed_all(s, lines.drop_last()).push(lines.last()), MAX_LINES as nat)
    }
}

/// Law: after any pushes a buffer keeps the most recent lines: what it holds
/// is the last `MAX_LINES` of everything it was given, in order.
pub proof fn law_buffer_keeps_latest(s: Seq<String>, lines: Seq<String>)
    requires
        s.len() <= MAX_LINES,
    ensures
        pushed_all(s, lines) == last_n(s + lines, MAX_LINES as nat),
    decreases lines.len(),
{
    if lines.len() > 0 {
        law_buffer_keeps_latest(s, lines.drop_last());
        let prev = s + lines.drop_last();
        assert(s + lines =~= prev.push(lines.last()));
        let m = MAX_LINES as int;
        if prev.len() <= m {
            assert(last_n(prev, MAX_LINES as nat) == prev);
        } else {
            let k = last_n(prev, MAX_LINES as nat);
            assert(k.push(lines.last()).len() == m + 1);
            assert(last_n(k.push(lines.last()), MAX_LINES as nat) =~= last_n(prev.push(lines.last()), MAX_LINES as nat));
        }
    }
}

/// Append a batch of frontend log lines to the frontend buffer.
pub fn push_frontend_lines(buffers: &mut LogBuffers, lines: Vec<String>)
    requires
        old(buffers).wf(),
    ensures
        final(buffers).wf(),
        final(buffers).frontend@ == pushed_all(old(buffers).frontend@, lines@),
        final(buffers).rust@ == old(buffers).rust@,
{
    let ghost start = buffers.frontend@;
    let mut i: usize = 0;
    let n = lines.len();
    let mut lines = lines;
    let ghost all = lines@;
    let mut rev: Vec<String> = Vec::new();
    while lines.len() > 0
        invariant
            lines@.len() + rev@.len() == n,
            all.len() == n,
            forall|j: int| 0 <= j < lines@.len() ==> lines@[j] == all[j],
            forall|j: int| 0 <= j < rev@.len() ==> rev@[j] == all[n - 1 - j],
        decreases lines@.len(),
    {
        let l = lines.pop().unwrap();
        rev.push(l);
    }
    while rev.len() > 0
        invariant
            buffers.wf(),
            buffers.rust@ == old(buffers).rust@,
            rev@.len() <= n,
            all.len() == n,
            forall|j: int| 0 <= j < rev@.len() ==> rev@[j] == all[n - 1 - j],
            buffers.frontend@ == pushed_all(start, all.take(n - rev@.len())),
        decreases rev@.len(),
    {
        let k = n - rev.len();
        let l = rev.pop().unwrap();
        assert(l == all[k as int]);
        assert(all.take(k + 1).drop_last() =~= all.take(k as int));
        buffers.frontend.push_bounded(l);
    }
    assert(all.take(n as int) =~= all);
}

/// Append one line to the application log buffer.
pub fn push_rust_line(buffers: &mut LogBuffers, line: String)
    requires
        old(buffers).wf(),
    ensures
        final(buffers).wf(),
        final(buffers).rust@ == last_n(old(buffers).rust@.push(line), MAX_LINES as nat),
        final(buffers).frontend@ == old(buffers).frontend@,
{
    buffers.rust.push_bounded(line);
}

/// A snapshot of the application log buffer, oldest first.
pub fn snapshot_rust(buffers: &LogBuffers) -> (out: Vec<String>)
    ensures
        out@ == buffers.rust@,
{
    buffers.rust.snapshot()
}

/// A snapshot of the frontend log buffer, oldest first.
pub fn snapshot_frontend(buffers: &LogBuffers) -> (out: Vec<String>)
    ensures
        out@ == buffers.frontend@,
{
    buffers.frontend.snapshot()
}

} // verus!
