//! Multi-user prompt queue: ownership, fair queue positions, aliases between
//! placeholder ids handed to clients and the ids assigned by ComfyUI, held
//! (not yet submitted) prompts and cancellation.
use vstd::prelude::*;
use crate::strmap::{StrMap, StrSet, str_eq};

verus! {

/// A queue entry seen as values: (prompt id, owner). `None` is the admin/local user.
pub type QEntry = (Seq<char>, Option<Seq<char>>);

pub open spec fn entry_view(e: (String, Option<String>)) -> QEntry {
    (e.0@, e.1.deep_view())
}

pub open spec fn entries_view(q: Seq<(String, Option<String>)>) -> Seq<QEntry> {
    q.map_values(|e: (String, Option<String>)| entry_view(e))
}

/// The owners appearing in a queue.
pub open spec fn owners_of(q: Seq<QEntry>) -> Seq<Option<Seq<char>>> {
    q.map_values(|e: QEntry| e.1)
}

/// The owners appearing in a queue.
pub open spec fn owner_set(q: Seq<QEntry>) -> Set<Option<Seq<char>>> {
    owners_of(q).to_set()
}

/// Whether the owner of entry `i` already owns an earlier entry.
pub open spec fn repeats_at(q: Seq<QEntry>, i: int) -> bool {
    exists|j: int| 0 <= j < i && q[j].1 == q[i].1
}

/// The first position at or after `i` whose owner already owns an earlier
/// entry (the end of the first "round"), or the queue length.
pub open spec fn first_repeat_from(q: Seq<QEntry>, i: int) -> int
    decreases q.len() - i,
{
    if i >= q.len() {
        q.len() as int
    } else if repeats_at(q, i) {
        i
    } else {
        first_repeat_from(q, i + 1)
    }
}

/// Whether `u` owns some entry of `q`.
pub open spec fn owns_any(q: Seq<QEntry>, u: Option<Seq<char>>) -> bool {
    exists|i: int| 0 <= i < q.len() && q[i].1 == u
}

/// The index of the last entry owned by `u` among the first `k` entries (-1 if none).
pub open spec fn last_owned_before(q: Seq<QEntry>, u: Option<Seq<char>>, k: int) -> int
    decreases k,
{
    if k <= 0 {
        -1
    } else if q[k - 1].1 == u {
        k - 1
    } else {
        last_owned_before(q, u, k - 1)
    }
}

/// Scanning from `k`, the position just after the shortest stretch
/// `q[start..]` that holds at least `need` distinct owners, or the queue length.
pub open spec fn cover_end(q: Seq<QEntry>, start: int, k: int, need: int) -> int
    decreases q.len() - k,
{
    if k >= q.len() {
        q.len() as int
    } else if owner_set(q.subrange(start, k + 1)).len() >= need {
        k + 1
    } else {
        cover_end(q, start, k + 1, need)
    }
}

/// Where a new prompt of `u` goes in the display queue (round-robin fairness):
/// a user's first prompt goes after one prompt of each user already queued
/// (before the first entry that repeats an owner); a further prompt goes after
/// the user's last prompt and one prompt of every other queued user.
pub open spec fn fair_slot(q: Seq<QEntry>, u: Option<Seq<char>>) -> int {
    if !owns_any(q, u) {
        first_repeat_from(q, 0)
    } else {
        let last = last_owned_before(q, u, q.len() as int);
        cover_end(q, last + 1, last + 1, owner_set(q).len() - 1)
    }
}

/// Number of entries of `q` owned by `u`.
pub open spec fn count_owned(q: Seq<QEntry>, u: Option<Seq<char>>) -> nat
    decreases q.len(),
{
    if q.len() == 0 {
        0
    } else {
        count_owned(q.drop_last(), u) + if q.last().1 == u { 1nat } else { 0nat }
    }
}

proof fn lemma_last_owned(q: Seq<QEntry>, u: Option<Seq<char>>, k: int)
    requires
        0 <= k <= q.len(),
    ensures
        -1 <= last_owned_before(q, u, k) < k,
        last_owned_before(q, u, k) >= 0 ==> q[last_owned_before(q, u, k)].1 == u,
        forall|j: int| last_owned_before(q, u, k) < j < k ==> q[j].1 != u,
        last_owned_before(q, u, k) == -1 <==> !(exists|j: int| 0 <= j < k && q[j].1 == u),
    decreases k,
{
    if k > 0 {
        lemma_last_owned(q, u, k - 1);
        if q[k - 1].1 != u && last_owned_before(q, u, k) == -1 {
            assert forall|j: int| 0 <= j < k implies q[j].1 != u by {
                if j < k - 1 {
                }
            }
        }
    }
}

proof fn lemma_first_repeat(q: Seq<QEntry>, i: int)
    requires
        0 <= i <= q.len(),
    ensures
        i <= first_repeat_from(q, i) <= q.len(),
        first_repeat_from(q, i) < q.len() ==> repeats_at(q, first_repeat_from(q, i)),
        forall|j: int| i <= j < first_repeat_from(q, i) ==> !repeats_at(q, j),
    decreases q.len() - i,
{
    if i < q.len() && !repeats_at(q, i) {
        lemma_first_repeat(q, i + 1);
    }
}

proof fn lemma_cover_end(q: Seq<QEntry>, start: int, k: int, need: int)
    requires
        0 <= start <= k <= q.len(),
    ensures
        k <= cover_end(q, start, k, need) <= q.len(),
    decreases q.len() - k,
{
    if k < q.len() && owner_set(q.subrange(start, k + 1)).len() < need {
        lemma_cover_end(q, start, k + 1, need);
    }
}

/// A new prompt never goes ahead of an earlier prompt of the same user: every
/// prompt the user already has in the display queue stays in front of it.
pub proof fn law_insert_keeps_user_order(q: Seq<QEntry>, u: Option<Seq<char>>)
    ensures
        0 <= fair_slot(q, u) <= q.len(),
        forall|i: int| 0 <= i < q.len() && (#[trigger] q[i]).1 == u ==> i < fair_slot(q, u),
{
    lemma_last_owned(q, u, q.len() as int);
    lemma_first_repeat(q, 0);
    if owns_any(q, u) {
        let last = last_owned_before(q, u, q.len() as int);
        let w = choose|i: int| 0 <= i < q.len() && q[i].1 == u;
        assert(0 <= w < q.len() && q[w].1 == u);
        lemma_cover_end(q, last + 1, last + 1, owner_set(q).len() - 1);
    }
}

/// A user's first prompt waits behind at most one prompt of each other user:
/// no owner appears twice among the prompts in front of it.
pub proof fn law_first_prompt_one_round(q: Seq<QEntry>, u: Option<Seq<char>>)
    requires
        !owns_any(q, u),
    ensures
        forall|i: int, j: int| 0 <= i < j < fair_slot(q, u) ==> (#[trigger] q[i]).1 != (#[trigger] q[j]).1,
{
    lemma_first_repeat(q, 0);
    assert forall|i: int, j: int| 0 <= i < j < fair_slot(q, u) implies (#[trigger] q[i]).1 != (#[trigger] q[j]).1 by {
        assert(!repeats_at(q, j));
    }
}

/// Scanning on from `k`, [`cover_end`] stops at the first end of a stretch
/// from `start` holding `need` owners, or at the end of the queue.
proof fn lemma_cover_end_shortest(q: Seq<QEntry>, start: int, k: int, need: int)
    requires
        0 <= start <= k <= q.len(),
        forall|e: int| start < e <= k ==> owner_set(#[trigger] q.subrange(start, e)).len() < need,
    ensures
        k <= cover_end(q, start, k, need) <= q.len(),
        cover_end(q, start, k, need) < q.len() ==> owner_set(q.subrange(start, cover_end(q, start, k, need))).len()
            >= need,
        forall|e: int| start < e < cover_end(q, start, k, need) ==> owner_set(#[trigger] q.subrange(start, e)).len()
            < need,
    decreases q.len() - k,
{
    if k < q.len() && owner_set(q.subrange(start, k + 1)).len() < need {
        lemma_cover_end_shortest(q, start, k + 1, need);
    }
}

/// A further prompt of a user goes right after the user's last prompt and
/// the shortest stretch behind it that holds one prompt of every other
/// queued user: no prompt of the user lies in that stretch; unless the
/// stretch runs to the end of the queue it holds every other user; and no
/// shorter stretch does.
pub proof fn law_further_prompt_one_round(q: Seq<QEntry>, u: Option<Seq<char>>)
    requires
        owns_any(q, u),
    ensures
        ({
            let last = last_owned_before(q, u, q.len() as int);
            let slot = fair_slot(q, u);
            let others = owner_set(q).len() - 1;
            &&& 0 <= last < slot <= q.len()
            &&& q[last].1 == u
            &&& forall|j: int| last < j < q.len() ==> (#[trigger] q[j]).1 != u
            &&& slot < q.len() ==> owner_set(q.subrange(last + 1, slot)).len() >= others
            &&& forall|e: int| last + 1 < e < slot ==> owner_set(#[trigger] q.subrange(last + 1, e)).len() < others
        }),
{
    lemma_last_owned(q, u, q.len() as int);
    let last = last_owned_before(q, u, q.len() as int);
    let w = choose|i: int| 0 <= i < q.len() && q[i].1 == u;
    assert(0 <= w < q.len() && q[w].1 == u);
    lemma_cover_end_shortest(q, last + 1, last + 1, owner_set(q).len() - 1);
}

/// Owner equality by value.
pub fn owner_eq(a: &Option<String>, b: &Option<String>) -> (r: bool)
    ensures
        r == (a.deep_view() == b.deep_view()),
{
    match (a, b) {
        (None, None) => true,
        (Some(x), Some(y)) => str_eq(x.as_str(), y.as_str()),
        _ => false,
    }
}

/// A copy of an owner.
pub fn clone_owner(a: &Option<String>) -> (r: Option<String>)
    ensures
        r.deep_view() == a.deep_view(),
{
    match a {
        None => None,
        Some(x) => Some(x.clone()),
    }
}

pub open spec fn owners_view(v: Seq<Option<String>>) -> Seq<Option<Seq<char>>> {
    v.map_values(|o: Option<String>| o.deep_view())
}

fn contains_owner(v: &Vec<Option<String>>, o: &Option<String>) -> (r: bool)
    ensures
        r == owners_view(v@).contains(o.deep_view()),
{
    let mut i: usize = 0;
    while i < v.len()
        invariant
            i <= v@.len(),
            forall|j: int| 0 <= j < i ==> v@[j].deep_view() != o.deep_view(),
        decreases v@.len() - i,
    {
        if owner_eq(&v[i], o) {
            assert(owners_view(v@)[i as int] == o.deep_view());
            return true;
        }
        i += 1;
    }
    assert(!owners_view(v@).contains(o.deep_view())) by {
        if owners_view(v@).contains(o.deep_view()) {
            let j = choose|j: int| 0 <= j < owners_view(v@).len() && owners_view(v@)[j] == o.deep_view();
            assert(v@[j].deep_view() == o.deep_view());
        }
    }
    false
}

/// Push `o` unless an equal owner is already present.
fn push_distinct(v: &mut Vec<Option<String>>, o: &Option<String>)
    requires
        owners_view(old(v)@).no_duplicates(),
    ensures
        owners_view(final(v)@).no_duplicates(),
        owners_view(final(v)@).to_set() == owners_view(old(v)@).to_set().insert(o.deep_view()),
{
    let ghost before = owners_view(v@);
    if !contains_owner(v, o) {
        v.push(clone_owner(o));
        assert(owners_view(v@) =~= before.push(o.deep_view()));
        proof {
            before.lemma_push_to_set_commute(o.deep_view());
        }
    } else {
        assert(before.to_set() =~= before.to_set().insert(o.deep_view()));
    }
}


/// The characters of each string.
pub open spec fn ids_of(v: Seq<String>) -> Seq<Seq<char>> {
    v.map_values(|s: String| s@)
}

/// The entries of `q` whose id is not in `ids`.
pub open spec fn without_ids(q: Seq<QEntry>, ids: Set<Seq<char>>) -> Seq<QEntry> {
    q.filter(|e: QEntry| !ids.contains(e.0))
}

/// The placeholder a (possibly real) prompt id stands for.
pub open spec fn placeholder_for(aliases: Map<Seq<char>, Seq<char>>, id: Seq<char>) -> Seq<char> {
    if aliases.contains_key(id) {
        aliases[id]
    } else {
        id
    }
}

/// A prompt id together with its placeholder and every real id aliased to it.
pub open spec fn related_set(aliases: Map<Seq<char>, Seq<char>>, id: Seq<char>) -> Set<Seq<char>> {
    let ph = placeholder_for(aliases, id);
    Set::new(|x: Seq<char>| x == ph || x == id || (aliases.contains_key(x) && aliases[x] == ph))
}

/// The alias keys dropped when the ids in `s` are cancelled.
pub open spec fn aliases_touching(aliases: Map<Seq<char>, Seq<char>>, s: Set<Seq<char>>) -> Set<Seq<char>> {
    Set::new(|r: Seq<char>| s.contains(r) || (aliases.contains_key(r) && s.contains(aliases[r])))
}

/// (id, position) of every entry of `q[..k]` owned by `u`, in queue order.
pub open spec fn positions_upto(q: Seq<QEntry>, u: Option<Seq<char>>, k: int) -> Seq<(Seq<char>, int)>
    decreases k,
{
    if k <= 0 {
        Seq::empty()
    } else if q[k - 1].1 == u {
        positions_upto(q, u, k - 1).push((q[k - 1].0, k - 1))
    } else {
        positions_upto(q, u, k - 1)
    }
}

proof fn lemma_singleton_ids(v: Seq<String>, x: Seq<char>)
    requires
        v.len() == 1,
        v[0]@ == x,
    ensures
        ids_of(v).to_set() == set![x],
{
    assert(ids_of(v) =~= seq![x]);
    assert forall|y: Seq<char>| ids_of(v).to_set().contains(y) <==> set![x].contains(y) by {
        if y == x {
            assert(ids_of(v)[0] == y);
        }
    }
    assert(ids_of(v).to_set() =~= set![x]);
}

fn contains_u32(v: &Vec<u32>, x: u32) -> (r: bool)
    ensures
        r == v@.contains(x),
{
    let mut i: usize = 0;
    while i < v.len()
        invariant
            i <= v@.len(),
            forall|j: int| 0 <= j < i ==> v@[j] != x,
        decreases v@.len() - i,
    {
        if v[i] == x {
            return true;
        }
        i += 1;
    }
    false
}

fn contains_str(v: &Vec<String>, x: &str) -> (r: bool)
    ensures
        r == ids_of(v@).contains(x@),
{
    let mut i: usize = 0;
    while i < v.len()
        invariant
            i <= v@.len(),
            forall|j: int| 0 <= j < i ==> v@[j]@ != x@,
        decreases v@.len() - i,
    {
        if str_eq(v[i].as_str(), x) {
            assert(ids_of(v@)[i as int] == x@);
            return true;
        }
        i += 1;
    }
    assert(!ids_of(v@).contains(x@)) by {
        if ids_of(v@).contains(x@) {
            let j = choose|j: int| 0 <= j < ids_of(v@).len() && ids_of(v@)[j] == x@;
            assert(v@[j]@ == x@);
        }
    }
    false
}

/// Keep only the queue entries whose id is not listed in `ids`.
fn retain_not_in(queue: &mut Vec<(String, Option<String>)>, ids: &Vec<String>)
    ensures
        entries_view(final(queue)@) == without_ids(entries_view(old(queue)@), ids_of(ids@).to_set()),
{
    let ghost s = ids_of(ids@).to_set();
    let ghost pred = |e: QEntry| !s.contains(e.0);
    let ghost src = entries_view(queue@);
    let mut kept: Vec<(String, Option<String>)> = Vec::new();
    let mut i: usize = 0;
    while i < queue.len()
        invariant
            i <= queue@.len(),
            src == entries_view(queue@),
            s == ids_of(ids@).to_set(),
            pred == (|e: QEntry| !s.contains(e.0)),
            entries_view(kept@) == src.take(i as int).filter(pred),
        decreases queue@.len() - i,
    {
        proof {
            assert(src.take(i + 1) =~= src.take(i as int).push(src[i as int]));
            src.take(i as int).lemma_filter_push(src[i as int], pred);
        }
        let listed = contains_str(ids, queue[i].0.as_str());
        proof {
            assert(src[i as int] == entry_view(queue@[i as int]));
            assert(ids_of(ids@).contains(queue@[i as int].0@) == s.contains(queue@[i as int].0@));
        }
        if !listed {
            let e = (queue[i].0.clone(), clone_owner(&queue[i].1));
            let ghost before = kept@;
            kept.push(e);
            assert(entries_view(kept@) =~= entries_view(before).push(src[i as int]));
        }
        i += 1;
    }
    assert(src.take(queue@.len() as int) =~= src);
    *queue = kept;
}

/// A prompt held locally until it may be submitted to ComfyUI. `payload`
/// carries whatever the caller needs to submit it and to wake its waiter.
pub struct HeldPrompt<P> {
    pub payload: P,
    pub username: Option<String>,
    /// The placeholder prompt id returned to the client.
    pub placeholder_id: String,
}


/// The view of a held prompt: (placeholder id, owner).
pub open spec fn held_entry<P>(h: HeldPrompt<P>) -> QEntry {
    (h.placeholder_id@, h.username.deep_view())
}

pub open spec fn held_entries<P>(v: Seq<HeldPrompt<P>>) -> Seq<QEntry> {
    v.map_values(|h: HeldPrompt<P>| held_entry(h))
}

/// Holds of the held prompts owned by `u`.
pub open spec fn held_owned_by<P>(u: Option<Seq<char>>) -> spec_fn(HeldPrompt<P>) -> bool {
    |h: HeldPrompt<P>| owned_by(u)(held_entry(h))
}

/// Holds of the held prompts not owned by `u`.
pub open spec fn held_not_owned_by<P>(u: Option<Seq<char>>) -> spec_fn(HeldPrompt<P>) -> bool {
    |h: HeldPrompt<P>| not_owned_by(u)(held_entry(h))
}

/// Holds of the held prompts one of whose related ids lies in `s`.
pub open spec fn held_related_to_any<P>(aliases: Map<Seq<char>, Seq<char>>, s: Set<Seq<char>>) -> spec_fn(
    HeldPrompt<P>,
) -> bool {
    |h: HeldPrompt<P>| related_to_any(aliases, s)(held_entry(h))
}

/// Holds of the held prompts none of whose related ids lies in `s`.
pub open spec fn held_related_to_none<P>(aliases: Map<Seq<char>, Seq<char>>, s: Set<Seq<char>>) -> spec_fn(
    HeldPrompt<P>,
) -> bool {
    |h: HeldPrompt<P>| related_to_none(aliases, s)(held_entry(h))
}

/// Holds of the entries owned by `u`.
pub open spec fn owned_by(u: Option<Seq<char>>) -> spec_fn(QEntry) -> bool {
    |e: QEntry| e.1 == u
}

/// Holds of the entries not owned by `u`.
pub open spec fn not_owned_by(u: Option<Seq<char>>) -> spec_fn(QEntry) -> bool {
    |e: QEntry| e.1 != u
}

/// Holds of the entries one of whose related ids lies in `s`.
pub open spec fn related_to_any(aliases: Map<Seq<char>, Seq<char>>, s: Set<Seq<char>>) -> spec_fn(QEntry) -> bool {
    |e: QEntry| exists|x: Seq<char>| related_set(aliases, e.0).contains(x) && s.contains(x)
}

/// Holds of the entries none of whose related ids lies in `s`.
pub open spec fn related_to_none(aliases: Map<Seq<char>, Seq<char>>, s: Set<Seq<char>>) -> spec_fn(QEntry) -> bool {
    |e: QEntry| !(exists|x: Seq<char>| related_set(aliases, e.0).contains(x) && s.contains(x))
}

/// `w` is the worker recorded for some prompt in `m`.
pub open spec fn assigned_worker(m: Map<Seq<char>, u32>, w: u32) -> bool {
    exists|id: Seq<char>| #[trigger] m.contains_key(id) && m[id] == w
}

/// What cancelling all prompts of one user produced.
pub struct CancelledUserPrompts<P> {
    /// The user's held prompts, removed from the queue (wake their waiters).
    pub held: Vec<HeldPrompt<P>>,
    /// Workers that were executing one of the user's prompts (no repeats).
    pub workers: Vec<u32>,
    /// Prompt ids (placeholder and real) to delete from the workers' pending queues.
    pub delete_ids: Vec<String>,
}

/// Prompt ownership, display-queue order, worker assignment, aliases and
/// cancellation state for the multi-user generation queue.
pub struct PromptQueue<P> {
    /// prompt id → owner (None = admin/local).
    owners: StrMap<Option<String>>,
    /// prompt id → worker executing it.
    worker_map: StrMap<u32>,
    /// (prompt id, owner) in display order.
    queue: Vec<(String, Option<String>)>,
    /// Prompts waiting to be submitted, oldest first.
    held: Vec<HeldPrompt<P>>,
    /// ComfyUI's real prompt id → placeholder id.
    aliases: StrMap<String>,
    /// Real ids whose completion arrived before their alias was bound.
    deferred_finishes: StrSet,
    /// Placeholder/real ids that were explicitly cancelled.
    cancelled: StrSet,
}

impl<P> PromptQueue<P> {
    pub closed spec fn wf(&self) -> bool {
        self.owners.wf() && self.worker_map.wf() && self.aliases.wf()
    }

    /// The display queue.
    pub closed spec fn queue_view(&self) -> Seq<QEntry> {
        entries_view(self.queue@)
    }

    /// prompt id → owner.
    pub closed spec fn owners_map(&self) -> Map<Seq<char>, Option<Seq<char>>> {
        self.owners.view()
    }

    /// prompt id → worker.
    pub closed spec fn workers_map(&self) -> Map<Seq<char>, u32> {
        self.worker_map.view()
    }

    /// real id → placeholder id.
    pub closed spec fn aliases_map(&self) -> Map<Seq<char>, Seq<char>> {
        self.aliases.view()
    }

    pub closed spec fn deferred_set(&self) -> Set<Seq<char>> {
        self.deferred_finishes.view()
    }

    pub closed spec fn cancelled_set(&self) -> Set<Seq<char>> {
        self.cancelled.view()
    }

    /// The held prompts, payload included, oldest first.
    pub closed spec fn held(&self) -> Seq<HeldPrompt<P>> {
        self.held@
    }

    /// The held prompts as (placeholder id, owner), oldest first.
    pub open spec fn held_view(&self) -> Seq<QEntry> {
        held_entries(self.held())
    }

    /// An empty queue.
    pub fn new() -> (q: Self)
        ensures
            q.wf(),
            q.queue_view() == Seq::<QEntry>::empty(),
            q.owners_map() == Map::<Seq<char>, Option<Seq<char>>>::empty(),
            q.workers_map() == Map::<Seq<char>, u32>::empty(),
            q.aliases_map() == Map::<Seq<char>, Seq<char>>::empty(),
            q.deferred_set() == Set::<Seq<char>>::empty(),
            q.cancelled_set() == Set::<Seq<char>>::empty(),
            q.held_view() == Seq::<QEntry>::empty(),
    {
        let q = PromptQueue {
            owners: StrMap::new(),
            worker_map: StrMap::new(),
            queue: Vec::new(),
            held: Vec::new(),
            aliases: StrMap::new(),
            deferred_finishes: StrSet::new(),
            cancelled: StrSet::new(),
        };
        assert(q.queue_view() =~= Seq::<QEntry>::empty());
        assert(q.held_view() =~= Seq::<QEntry>::empty());
        q
    }

    /// The display position for a new prompt of `username` (see [`fair_slot`]).
    fn fair_position(&self, username: &Option<String>) -> (pos: usize)
        ensures
            pos == fair_slot(self.queue_view(), username.deep_view()),
            pos <= self.queue@.len(),
    {
        let ghost q = self.queue_view();
        let ghost u = username.deep_view();
        let n = self.queue.len();
        // Does the user already own an entry, and where is the last one?
        let mut found = false;
        let mut last: usize = 0;
        let mut i: usize = 0;
        while i < n
            invariant
                n == self.queue@.len(),
                q == self.queue_view(),
                u == username.deep_view(),
                i <= n,
                found == (last_owned_before(q, u, i as int) >= 0),
                found ==> last == last_owned_before(q, u, i as int),
            decreases n - i,
        {
            assert(q[i as int] == entry_view(self.queue@[i as int]));
            if owner_eq(&self.queue[i].1, username) {
                found = true;
                last = i;
            }
            i += 1;
        }
        proof {
            lemma_last_owned(q, u, n as int);
            if found {
                assert(owns_any(q, u));
            } else {
                assert(!owns_any(q, u)) by {
                    if owns_any(q, u) {
                        let j = choose|j: int| 0 <= j < q.len() && q[j].1 == u;
                    }
                }
            }
        }
        if !found {
            // Earliest fair slot: before the first entry whose owner repeats.
            let mut seen: Vec<Option<String>> = Vec::new();
            let mut pos = n;
            let mut done = false;
            let mut i: usize = 0;
            while i < n && !done
                invariant
                    n == self.queue@.len(),
                    q == self.queue_view(),
                    i <= n,
                    !done ==> pos == n,
                    !done ==> owners_view(seen@).to_set() == owner_set(q.subrange(0, i as int)),
                    owners_view(seen@).no_duplicates(),
                    !done ==> first_repeat_from(q, 0) == first_repeat_from(q, i as int),
                    done ==> pos == first_repeat_from(q, 0) && pos <= n,
                decreases n - i + if done { 0int } else { 1int },
            {
                assert(q[i as int] == entry_view(self.queue@[i as int]));
                if contains_owner(&seen, &self.queue[i].1) {
                    proof {
                        let o = q[i as int].1;
                        assert(owner_set(q.subrange(0, i as int)).contains(o));
                        let j = choose|j: int| 0 <= j < owners_of(q.subrange(0, i as int)).len()
                            && #[trigger] owners_of(q.subrange(0, i as int))[j] == o;
                        assert(q[j].1 == o);
                        assert(repeats_at(q, i as int));
                    }
                    pos = i;
                    done = true;
                } else {
                    proof {
                        let o = q[i as int].1;
                        assert(!repeats_at(q, i as int)) by {
                            if repeats_at(q, i as int) {
                                let j = choose|j: int| 0 <= j < i && q[j].1 == q[i as int].1;
                                assert(owners_of(q.subrange(0, i as int))[j] == o);
                                assert(owner_set(q.subrange(0, i as int)).contains(o));
                            }
                        }
                        assert(owners_of(q.subrange(0, i + 1))
                            =~= owners_of(q.subrange(0, i as int)).push(o));
                        owners_of(q.subrange(0, i as int)).lemma_push_to_set_commute(o);
                    }
                    push_distinct(&mut seen, &self.queue[i].1);
                    i += 1;
                }
            }
            proof {
                lemma_first_repeat(q, 0);
            }
            return pos;
        }
        // The user already has prompts: count distinct owners in the queue.
        let mut distinct: Vec<Option<String>> = Vec::new();
        let mut i: usize = 0;
        while i < n
            invariant
                n == self.queue@.len(),
                q == self.queue_view(),
                i <= n,
                owners_view(distinct@).to_set() == owner_set(q.subrange(0, i as int)),
                owners_view(distinct@).no_duplicates(),
            decreases n - i,
        {
            proof {
                let o = q[i as int].1;
                assert(q[i as int] == entry_view(self.queue@[i as int]));
                assert(owners_of(q.subrange(0, i + 1))
                    =~= owners_of(q.subrange(0, i as int)).push(o));
                owners_of(q.subrange(0, i as int)).lemma_push_to_set_commute(o);
            }
            push_distinct(&mut distinct, &self.queue[i].1);
            i += 1;
        }
        proof {
            assert(q.subrange(0, n as int) =~= q);
            owners_view(distinct@).unique_seq_to_set();
            assert(distinct@.len() >= 1) by {
                assert(owner_set(q).contains(q[last as int].1)) by {
                    assert(owners_of(q)[last as int] == q[last as int].1);
                }
                if distinct@.len() == 0 {
                    assert(owners_view(distinct@).to_set().len() == 0);
                }
            }
        }
        let num_users = distinct.len();
        let start = last + 1;
        let mut insert_pos = start;
        let mut other_seen: Vec<Option<String>> = Vec::new();
        let mut scan = start;
        proof {
            assert(owners_of(q.subrange(start as int, start as int)) =~= Seq::<Option<Seq<char>>>::empty());
            assert(owners_view(other_seen@) =~= Seq::<Option<Seq<char>>>::empty());
        }
        let mut done = false;
        while scan < n && !done
            invariant
                n == self.queue@.len(),
                q == self.queue_view(),
                u == username.deep_view(),
                start == last + 1,
                last == last_owned_before(q, u, n as int),
                forall|j: int| last < j < n ==> q[j].1 != u,
                start <= scan <= n,
                num_users == owner_set(q).len(),
                num_users >= 1,
                !done ==> owners_view(other_seen@).to_set() == owner_set(q.subrange(start as int, scan as int)),
                owners_view(other_seen@).no_duplicates(),
                !done ==> insert_pos == scan,
                !done ==> cover_end(q, start as int, start as int, num_users - 1)
                    == cover_end(q, start as int, scan as int, num_users - 1),
                done ==> insert_pos == cover_end(q, start as int, start as int, num_users - 1),
            decreases n - scan + if done { 0int } else { 1int },
        {
            assert(q[scan as int] == entry_view(self.queue@[scan as int]));
            if !owner_eq(&self.queue[scan].1, username) {
                proof {
                    let o = q[scan as int].1;
                    assert(owners_of(q.subrange(start as int, scan + 1))
                        =~= owners_of(q.subrange(start as int, scan as int)).push(o));
                    owners_of(q.subrange(start as int, scan as int)).lemma_push_to_set_commute(o);
                }
                push_distinct(&mut other_seen, &self.queue[scan].1);
                insert_pos = scan + 1;
                proof {
                    owners_view(other_seen@).unique_seq_to_set();
                }
                if other_seen.len() >= num_users - 1 {
                    done = true;
                } else {
                    scan += 1;
                }
            } else {
                done = true;
            }
        }
        proof {
            lemma_cover_end(q, start as int, start as int, num_users - 1);
        }
        insert_pos
    }

    /// The related ids of `id` as [`Self::related_ids`] lists them, from the
    /// first `k` stored aliases: the placeholder, then `id` when it differs,
    /// then each real id aliased to the placeholder, in stored order.
    pub closed spec fn related_upto(&self, id: Seq<char>, k: int) -> Seq<Seq<char>>
        decreases k,
    {
        let ph = placeholder_for(self.aliases_map(), id);
        if k <= 0 {
            if id == ph { seq![ph] } else { seq![ph, id] }
        } else {
            let prev = self.related_upto(id, k - 1);
            if self.aliases.spec_val(k - 1) == ph && !prev.contains(self.aliases.spec_key(k - 1)) {
                prev.push(self.aliases.spec_key(k - 1))
            } else {
                prev
            }
        }
    }

    /// The related ids of `id` in the order they are listed.
    pub closed spec fn related_seq(&self, id: Seq<char>) -> Seq<Seq<char>> {
        self.related_upto(id, self.aliases.spec_len() as int)
    }

    /// A prompt id plus its placeholder and every real id aliased to that
    /// placeholder; the placeholder comes first and no id is repeated.
    pub fn related_ids(&self, prompt_id: &str) -> (ids: Vec<String>)
        requires
            self.wf(),
        ensures
            ids_of(ids@) == self.related_seq(prompt_id@),
            ids_of(ids@).to_set() == related_set(self.aliases_map(), prompt_id@),
            ids_of(ids@).no_duplicates(),
            ids@.len() >= 1,
            ids@[0]@ == placeholder_for(self.aliases_map(), prompt_id@),
    {
        let ghost am = self.aliases_map();
        let ph: String = match self.aliases.get(prompt_id) {
            Some(p) => p.clone(),
            None => String::from_str(prompt_id),
        };
        let ghost php = ph@;
        assert(php == placeholder_for(am, prompt_id@));
        let mut ids: Vec<String> = Vec::new();
        ids.push(ph.clone());
        if !str_eq(prompt_id, ph.as_str()) {
            ids.push(String::from_str(prompt_id));
        }
        proof {
            assert(ids_of(ids@).no_duplicates());
            let init = Set::new(|x: Seq<char>| x == php || x == prompt_id@
                || exists|j: int| 0 <= j < 0 && self.aliases.spec_key(j) == x && self.aliases.spec_val(j) == php);
            assert forall|x: Seq<char>| ids_of(ids@).to_set().contains(x) <==> init.contains(x) by {
                if x == php {
                    assert(ids_of(ids@)[0] == x);
                }
                if x == prompt_id@ && x != php {
                    assert(ids_of(ids@)[1] == x);
                }
            }
            assert(ids_of(ids@).to_set() =~= init);
            assert(ids_of(ids@) =~= self.related_upto(prompt_id@, 0));
        }
        let n = self.aliases.len();
        let mut i: usize = 0;
        while i < n
            invariant
                self.wf(),
                am == self.aliases_map(),
                php == placeholder_for(am, prompt_id@),
                ph@ == php,
                n == self.aliases.spec_len(),
                i <= n,
                ids@.len() >= 1,
                ids@[0]@ == php,
                ids_of(ids@).no_duplicates(),
                ids_of(ids@) == self.related_upto(prompt_id@, i as int),
                ids_of(ids@).to_set() == Set::new(|x: Seq<char>| x == php || x == prompt_id@
                    || exists|j: int| 0 <= j < i && self.aliases.spec_key(j) == x && self.aliases.spec_val(j) == php),
            decreases n - i,
        {
            let (rid, aph) = self.aliases.entry(i);
            let ghost before = ids_of(ids@);
            proof {
                assert(self.related_upto(prompt_id@, i + 1) == (if self.aliases.spec_val(i as int) == php
                    && !before.contains(self.aliases.spec_key(i as int)) {
                    before.push(self.aliases.spec_key(i as int))
                } else {
                    before
                }));
            }
            if str_eq(aph.as_str(), ph.as_str()) && !contains_str(&ids, rid.as_str()) {
                ids.push(rid.clone());
                proof {
                    assert(ids_of(ids@) =~= before.push(rid@));
                    before.lemma_push_to_set_commute(rid@);
                }
            }
            proof {
                let cur = ids_of(ids@).to_set();
                let want = Set::new(|x: Seq<char>| x == php || x == prompt_id@
                    || exists|j: int| 0 <= j < i + 1 && self.aliases.spec_key(j) == x && self.aliases.spec_val(j) == php);
                assert forall|x: Seq<char>| cur.contains(x) <==> want.contains(x) by {
                    if x == rid@ && aph@ == php {
                        assert(self.aliases.spec_key(i as int) == x);
                    }
                    if exists|j: int| 0 <= j < i + 1 && self.aliases.spec_key(j) == x && self.aliases.spec_val(j) == php {
                        let j = choose|j: int| 0 <= j < i + 1 && self.aliases.spec_key(j) == x && self.aliases.spec_val(j) == php;
                        if j < i {
                            assert(exists|j: int| 0 <= j < i && self.aliases.spec_key(j) == x && self.aliases.spec_val(j) == php);
                        }
                    }
                }
                assert(cur =~= want);
            }
            i += 1;
        }
        proof {
            let cur = ids_of(ids@).to_set();
            let want = related_set(am, prompt_id@);
            assert forall|x: Seq<char>| cur.contains(x) <==> want.contains(x) by {
                if exists|j: int| 0 <= j < n && self.aliases.spec_key(j) == x && self.aliases.spec_val(j) == php {
                    let j = choose|j: int| 0 <= j < n && self.aliases.spec_key(j) == x && self.aliases.spec_val(j) == php;
                    self.aliases.lemma_index(j);
                }
                if am.contains_key(x) && am[x] == php {
                    self.aliases.lemma_covered(x);
                    let j = choose|j: int| 0 <= j < self.aliases.spec_len() && self.aliases.spec_key(j) == x;
                    self.aliases.lemma_index(j);
                }
            }
            assert(cur =~= want);
        }
        ids
    }

    /// Remove a finished prompt from the display queue, keeping its owner so
    /// late events can still be attributed. Returns the worker that ran it.
    pub fn finish(&mut self, prompt_id: &str) -> (r: Option<u32>)
        requires
            old(self).wf(),
        ensures
            final(self).wf(),
            r is Some <==> old(self).workers_map().contains_key(prompt_id@),
            r matches Some(w) ==> w == old(self).workers_map()[prompt_id@],
            final(self).workers_map() == old(self).workers_map().remove(prompt_id@),
            final(self).queue_view() == without_ids(old(self).queue_view(), set![prompt_id@]),
            final(self).owners_map() == old(self).owners_map(),
            final(self).aliases_map() == old(self).aliases_map(),
            final(self).deferred_set() == old(self).deferred_set(),
            final(self).cancelled_set() == old(self).cancelled_set(),
            final(self).held() == old(self).held(),
    {
        let r = match self.worker_map.get(prompt_id) {
            Some(w) => Some(*w),
            None => None,
        };
        self.worker_map.remove(prompt_id);
        let mut one: Vec<String> = Vec::new();
        one.push(String::from_str(prompt_id));
        proof {
            lemma_singleton_ids(one@, prompt_id@);
        }
        retain_not_in(&mut self.queue, &one);
        r
    }

    /// Cancel a prompt: mark it and its related ids cancelled and drop them
    /// from ownership, worker assignment, the display queue and the aliases.
    /// Returns the related ids (those to delete from ComfyUI's queues).
    pub fn cancel_and_remove(&mut self, prompt_id: &str) -> (ids: Vec<String>)
        requires
            old(self).wf(),
        ensures
            final(self).wf(),
            ids_of(ids@) == old(self).related_seq(prompt_id@),
            ids_of(ids@).to_set() == related_set(old(self).aliases_map(), prompt_id@),
            ids_of(ids@).no_duplicates(),
            final(self).cancelled_set() == old(self).cancelled_set().union(
                related_set(old(self).aliases_map(), prompt_id@)),
            final(self).owners_map() == old(self).owners_map().remove_keys(
                related_set(old(self).aliases_map(), prompt_id@)),
            final(self).workers_map() == old(self).workers_map().remove_keys(
                related_set(old(self).aliases_map(), prompt_id@)),
            final(self).queue_view() == without_ids(old(self).queue_view(),
                related_set(old(self).aliases_map(), prompt_id@)),
            final(self).aliases_map() == old(self).aliases_map().remove_keys(aliases_touching(
                old(self).aliases_map(), related_set(old(self).aliases_map(), prompt_id@))),
            final(self).deferred_set() == old(self).deferred_set(),
            final(self).held() == old(self).held(),
            forall|x: Seq<char>| #[trigger] ids_of(ids@).contains(x) ==> {
                &&& final(self).cancelled_set().contains(x)
                &&& !final(self).owners_map().contains_key(x)
                &&& !final(self).workers_map().contains_key(x)
                &&& placeholder_for(final(self).aliases_map(), x) == x
                &&& forall|k: int| 0 <= k < final(self).queue_view().len() ==> (#[trigger] final(self).queue_view()[k]).0 != x
            },
    {
        let ids = self.related_ids(prompt_id);
        let ghost rs = ids_of(ids@).to_set();
        self.cancelled.insert_all(&ids);
        self.owners.remove_all(&ids);
        self.worker_map.remove_all(&ids);
        retain_not_in(&mut self.queue, &ids);
        // Alias entries whose rid or placeholder id is being cancelled.
        let ghost am = self.aliases_map();
        let mut drop: Vec<String> = Vec::new();
        let n = self.aliases.len();
        let mut j: usize = 0;
        while j < n
            invariant
                self.aliases.wf(),
                am == self.aliases.view(),
                n == self.aliases.spec_len(),
                j <= n,
                rs == ids_of(ids@).to_set(),
                forall|k: int| 0 <= k < drop@.len() ==> #[trigger] am.contains_key(drop@[k]@)
                    && (rs.contains(drop@[k]@) || rs.contains(am[drop@[k]@])),
                forall|k: int| 0 <= k < j && (rs.contains(self.aliases.spec_key(k)) || rs.contains(self.aliases.spec_val(k)))
                    ==> #[trigger] ids_of(drop@).contains(self.aliases.spec_key(k)),
            decreases n - j,
        {
            let (rid, aph) = self.aliases.entry(j);
            proof {
                self.aliases.lemma_index(j as int);
            }
            if contains_str(&ids, rid.as_str()) || contains_str(&ids, aph.as_str()) {
                let ghost before = drop@;
                drop.push(rid.clone());
                proof {
                    assert(ids_of(ids@).contains(rid@) || ids_of(ids@).contains(aph@));
                    assert(rs.contains(rid@) || rs.contains(aph@));
                    assert forall|k: int| 0 <= k < drop@.len() implies #[trigger] am.contains_key(drop@[k]@)
                        && (rs.contains(drop@[k]@) || rs.contains(am[drop@[k]@])) by {
                        if k < before.len() {
                            assert(drop@[k] == before[k]);
                        }
                    }
                    assert forall|k: int| 0 <= k < j + 1 && (rs.contains(self.aliases.spec_key(k)) || rs.contains(self.aliases.spec_val(k)))
                        implies #[trigger] ids_of(drop@).contains(self.aliases.spec_key(k)) by {
                        if k < j {
                            assert(ids_of(before).contains(self.aliases.spec_key(k)));
                            let m = choose|m: int| 0 <= m < ids_of(before).len() && ids_of(before)[m] == self.aliases.spec_key(k);
                            assert(ids_of(drop@)[m] == self.aliases.spec_key(k));
                        } else {
                            assert(ids_of(drop@)[drop@.len() - 1] == self.aliases.spec_key(k));
                        }
                    }
                }
            }
            j += 1;
        }
        proof {
            let want = aliases_touching(am, rs);
            let d = ids_of(drop@).to_set();
            assert(am.remove_keys(d) =~= am.remove_keys(want)) by {
                assert forall|x: Seq<char>| am.contains_key(x) implies (d.contains(x) <==> want.contains(x)) by {
                    if d.contains(x) {
                        let k = choose|k: int| 0 <= k < ids_of(drop@).len() && ids_of(drop@)[k] == x;
                        assert(am.contains_key(drop@[k]@));
                    }
                    if want.contains(x) {
                        self.aliases.lemma_covered(x);
                        let k = choose|k: int| 0 <= k < self.aliases.spec_len() && self.aliases.spec_key(k) == x;
                        self.aliases.lemma_index(k);
                        assert(ids_of(drop@).contains(self.aliases.spec_key(k)));
                    }
                }
            }
        }
        self.aliases.remove_all(&drop);
        proof {
            let q0 = old(self).queue_view();
            let pred = |e: QEntry| !rs.contains(e.0);
            assert forall|x: Seq<char>| #[trigger] ids_of(ids@).contains(x) implies {
                &&& self.cancelled_set().contains(x)
                &&& !self.owners_map().contains_key(x)
                &&& !self.workers_map().contains_key(x)
                &&& placeholder_for(self.aliases_map(), x) == x
                &&& forall|k: int| 0 <= k < self.queue_view().len() ==> (#[trigger] self.queue_view()[k]).0 != x
            } by {
                assert(rs.contains(x));
                assert(aliases_touching(am, rs).contains(x));
                assert forall|k: int| 0 <= k < self.queue_view().len() implies (#[trigger] self.queue_view()[k]).0 != x by {
                    q0.filter_lemma(pred);
                }
            }
        }
        ids
    }

    /// Remove a prompt entirely (explicit cancellation).
    pub fn remove(&mut self, prompt_id: &str)
        requires
            old(self).wf(),
        ensures
            final(self).wf(),
            final(self).cancelled_set() == old(self).cancelled_set().union(
                related_set(old(self).aliases_map(), prompt_id@)),
            final(self).owners_map() == old(self).owners_map().remove_keys(
                related_set(old(self).aliases_map(), prompt_id@)),
            final(self).workers_map() == old(self).workers_map().remove_keys(
                related_set(old(self).aliases_map(), prompt_id@)),
            final(self).queue_view() == without_ids(old(self).queue_view(),
                related_set(old(self).aliases_map(), prompt_id@)),
            final(self).aliases_map() == old(self).aliases_map().remove_keys(aliases_touching(
                old(self).aliases_map(), related_set(old(self).aliases_map(), prompt_id@))),
            final(self).deferred_set() == old(self).deferred_set(),
            final(self).held() == old(self).held(),
    {
        let _ = self.cancel_and_remove(prompt_id);
    }

    /// Whether the prompt (or any id related to it) was explicitly cancelled.
    pub fn is_cancelled(&self, prompt_id: &str) -> (r: bool)
        requires
            self.wf(),
        ensures
            r == exists|x: Seq<char>| related_set(self.aliases_map(), prompt_id@).contains(x)
                && self.cancelled_set().contains(x),
    {
        let ids = self.related_ids(prompt_id);
        let mut i: usize = 0;
        while i < ids.len()
            invariant
                i <= ids@.len(),
                ids_of(ids@).to_set() == related_set(self.aliases_map(), prompt_id@),
                forall|j: int| 0 <= j < i ==> !self.cancelled_set().contains(#[trigger] ids@[j]@),
            decreases ids@.len() - i,
        {
            if self.cancelled.contains(ids[i].as_str()) {
                assert(ids_of(ids@).to_set().contains(ids@[i as int]@)) by {
                    assert(ids_of(ids@)[i as int] == ids@[i as int]@);
                }
                assert(related_set(self.aliases_map(), prompt_id@).contains(ids@[i as int]@));
                assert(self.cancelled_set().contains(ids@[i as int]@));
                return true;
            }
            i += 1;
        }
        assert(!(exists|x: Seq<char>| related_set(self.aliases_map(), prompt_id@).contains(x)
            && self.cancelled_set().contains(x))) by {
            if exists|x: Seq<char>| related_set(self.aliases_map(), prompt_id@).contains(x)
                && self.cancelled_set().contains(x) {
                let x = choose|x: Seq<char>| related_set(self.aliases_map(), prompt_id@).contains(x)
                    && self.cancelled_set().contains(x);
                assert(ids_of(ids@).to_set().contains(x));
                let j = choose|j: int| 0 <= j < ids_of(ids@).len() && ids_of(ids@)[j] == x;
                assert(ids@[j]@ == x);
            }
        }
        false
    }

    /// Record which worker runs a prompt.
    pub fn set_worker(&mut self, prompt_id: &str, worker_id: u32)
        requires
            old(self).wf(),
        ensures
            final(self).wf(),
            final(self).workers_map() == old(self).workers_map().insert(prompt_id@, worker_id),
            final(self).queue_view() == old(self).queue_view(),
            final(self).owners_map() == old(self).owners_map(),
            final(self).aliases_map() == old(self).aliases_map(),
            final(self).deferred_set() == old(self).deferred_set(),
            final(self).cancelled_set() == old(self).cancelled_set(),
            final(self).held() == old(self).held(),
    {
        self.worker_map.insert(String::from_str(prompt_id), worker_id);
    }

    /// The worker running a prompt, if recorded.
    pub fn worker_of(&self, prompt_id: &str) -> (r: Option<u32>)
        requires
            self.wf(),
        ensures
            r is Some <==> self.workers_map().contains_key(prompt_id@),
            r matches Some(w) ==> w == self.workers_map()[prompt_id@],
    {
        match self.worker_map.get(prompt_id) {
            Some(w) => Some(*w),
            None => None,
        }
    }

    /// Whether `username` may see events of the prompt: the admin (`None`)
    /// sees everything; an untracked prompt counts as owned; a tracked one
    /// belongs to the user recorded for it.
    pub fn is_owned_by(&self, prompt_id: &str, username: &Option<String>) -> (r: bool)
        requires
            self.wf(),
        ensures
            r == (username.is_none() || !self.owners_map().contains_key(prompt_id@)
                || self.owners_map()[prompt_id@] == username.deep_view()),
    {
        if username.is_none() {
            return true;
        }
        match self.owners.get(prompt_id) {
            None => true,
            Some(owner) => owner_eq(owner, username),
        }
    }

    /// The named owner of a prompt (`None` when unknown or admin-owned).
    pub fn owner_of(&self, prompt_id: &str) -> (r: Option<String>)
        requires
            self.wf(),
        ensures
            r.deep_view() == (if self.owners_map().contains_key(prompt_id@) {
                self.owners_map()[prompt_id@]
            } else {
                None
            }),
    {
        match self.owners.get(prompt_id) {
            None => None,
            Some(o) => clone_owner(o),
        }
    }

    /// (id, global position) of every queued prompt of `username`, in order.
    pub fn user_positions(&self, username: &Option<String>) -> (r: Vec<(String, usize)>)
        ensures
            r@.map_values(|p: (String, usize)| (p.0@, p.1 as int))
                == positions_upto(self.queue_view(), username.deep_view(), self.queue_view().len() as int),
    {
        let ghost q = self.queue_view();
        let ghost u = username.deep_view();
        let mut r: Vec<(String, usize)> = Vec::new();
        let mut i: usize = 0;
        while i < self.queue.len()
            invariant
                q == self.queue_view(),
                u == username.deep_view(),
                i <= self.queue@.len(),
                r@.map_values(|p: (String, usize)| (p.0@, p.1 as int)) == positions_upto(q, u, i as int),
            decreases self.queue@.len() - i,
        {
            assert(q[i as int] == entry_view(self.queue@[i as int]));
            if owner_eq(&self.queue[i].1, username) {
                let ghost before = r@;
                r.push((self.queue[i].0.clone(), i));
                assert(r@.map_values(|p: (String, usize)| (p.0@, p.1 as int))
                    =~= before.map_values(|p: (String, usize)| (p.0@, p.1 as int)).push((q[i as int].0, i as int)));
            }
            i += 1;
        }
        r
    }

    /// Number of prompts in the display queue.
    pub fn len(&self) -> (r: usize)
        ensures
            r == self.queue_view().len(),
    {
        self.queue.len()
    }

    /// Whether the display queue is empty.
    pub fn is_empty(&self) -> (r: bool)
        ensures
            r == (self.queue_view().len() == 0),
    {
        self.queue.len() == 0
    }

    /// The prompt → worker assignments, one pair per assigned prompt.
    pub fn worker_map_snapshot(&self) -> (r: Vec<(String, u32)>)
        requires
            self.wf(),
        ensures
            forall|i: int| 0 <= i < r@.len() ==> self.workers_map().contains_key((#[trigger] r@[i]).0@)
                && self.workers_map()[r@[i].0@] == r@[i].1,
            forall|k: Seq<char>| #[trigger] self.workers_map().contains_key(k) ==> exists|i: int| 0 <= i < r@.len()
                && r@[i].0@ == k,
    {
        let n = self.worker_map.len();
        let mut r: Vec<(String, u32)> = Vec::new();
        let mut i: usize = 0;
        while i < n
            invariant
                i <= n,
                n == self.worker_map.spec_len(),
                self.worker_map.wf(),
                r@.len() == i,
                forall|j: int| 0 <= j < i ==> (#[trigger] r@[j]).0@ == self.worker_map.spec_key(j)
                    && r@[j].1 == self.worker_map.spec_val(j),
            decreases n - i,
        {
            let (k, v) = self.worker_map.entry(i);
            r.push((k.clone(), *v));
            i += 1;
        }
        proof {
            assert forall|j: int| 0 <= j < r@.len() implies self.workers_map().contains_key((#[trigger] r@[j]).0@)
                && self.workers_map()[r@[j].0@] == r@[j].1 by {
                self.worker_map.lemma_index(j);
            }
            assert forall|k: Seq<char>| #[trigger] self.workers_map().contains_key(k) implies exists|j: int| 0 <= j
                < r@.len() && r@[j].0@ == k by {
                self.worker_map.lemma_covered(k);
                let j = choose|j: int| 0 <= j < self.worker_map.spec_len() && self.worker_map.spec_key(j) == k;
                assert(r@[j].0@ == k);
            }
        }
        r
    }

    /// The ids of the display queue, in order.
    pub fn queue_ids(&self) -> (r: Vec<String>)
        ensures
            r@.len() == self.queue_view().len(),
            forall|i: int| 0 <= i < r@.len() ==> #[trigger] r@[i]@ == self.queue_view()[i].0,
    {
        let mut r: Vec<String> = Vec::new();
        let mut i: usize = 0;
        while i < self.queue.len()
            invariant
                i <= self.queue@.len(),
                r@.len() == i,
                forall|k: int| 0 <= k < i ==> #[trigger] r@[k]@ == self.queue@[k].0@,
            decreases self.queue@.len() - i,
        {
            r.push(self.queue[i].0.clone());
            i += 1;
        }
        r
    }

    /// Remember that ComfyUI's `comfyui_id` stands for `placeholder_id`, and
    /// copy the placeholder's owner to it. Returns true when the prompt's
    /// completion arrived before this call; the placeholder is then finished.
    pub fn bind_alias(&mut self, placeholder_id: &str, comfyui_id: &str) -> (was_deferred: bool)
        requires
            old(self).wf(),
        ensures
            final(self).wf(),
            was_deferred == old(self).deferred_set().contains(comfyui_id@),
            final(self).aliases_map() == old(self).aliases_map().insert(comfyui_id@, placeholder_id@),
            final(self).deferred_set() == old(self).deferred_set().remove(comfyui_id@),
            ({
                let owner = if old(self).owners_map().contains_key(placeholder_id@) {
                    old(self).owners_map()[placeholder_id@]
                } else {
                    None
                };
                let owners1 = old(self).owners_map().insert(comfyui_id@, owner);
                if was_deferred {
                    &&& final(self).owners_map() == owners1.remove(placeholder_id@)
                    &&& final(self).workers_map() == old(self).workers_map().remove(placeholder_id@)
                    &&& final(self).queue_view() == without_ids(old(self).queue_view(), set![placeholder_id@])
                } else {
                    &&& final(self).owners_map() == owners1
                    &&& final(self).workers_map() == old(self).workers_map()
                    &&& final(self).queue_view() == old(self).queue_view()
                }
            }),
            final(self).cancelled_set() == old(self).cancelled_set(),
            final(self).held() == old(self).held(),
    {
        self.aliases.insert(String::from_str(comfyui_id), String::from_str(placeholder_id));
        let owner: Option<String> = match self.owners.get(placeholder_id) {
            Some(o) => clone_owner(o),
            None => None,
        };
        self.owners.insert(String::from_str(comfyui_id), owner);
        let was_deferred = self.deferred_finishes.contains(comfyui_id);
        self.deferred_finishes.remove(comfyui_id);
        if was_deferred {
            self.worker_map.remove(placeholder_id);
            let mut one: Vec<String> = Vec::new();
            one.push(String::from_str(placeholder_id));
            proof {
                lemma_singleton_ids(one@, placeholder_id@);
            }
            retain_not_in(&mut self.queue, &one);
            self.owners.remove(placeholder_id);
        }
        was_deferred
    }

    /// Remember that the completion of ComfyUI's `comfyui_id` arrived before
    /// its alias was bound.
    pub fn park_deferred_finish(&mut self, comfyui_id: &str)
        ensures
            final(self).deferred_set() == old(self).deferred_set().insert(comfyui_id@),
            final(self).wf() == old(self).wf(),
            final(self).queue_view() == old(self).queue_view(),
            final(self).owners_map() == old(self).owners_map(),
            final(self).workers_map() == old(self).workers_map(),
            final(self).aliases_map() == old(self).aliases_map(),
            final(self).cancelled_set() == old(self).cancelled_set(),
            final(self).held() == old(self).held(),
    {
        self.deferred_finishes.insert(String::from_str(comfyui_id));
    }

    /// The placeholder id a (possibly real) prompt id stands for.
    pub fn resolve_alias(&self, prompt_id: &str) -> (r: String)
        requires
            self.wf(),
        ensures
            r@ == placeholder_for(self.aliases_map(), prompt_id@),
    {
        match self.aliases.get(prompt_id) {
            Some(p) => p.clone(),
            None => String::from_str(prompt_id),
        }
    }

    /// Forget the aliases of a finished placeholder and its cancellation mark.
    pub fn cleanup_alias(&mut self, placeholder_id: &str)
        requires
            old(self).wf(),
        ensures
            final(self).wf(),
            final(self).aliases_map() == old(self).aliases_map().remove_keys(Set::new(|r: Seq<char>|
                old(self).aliases_map().contains_key(r) && old(self).aliases_map()[r] == placeholder_id@)),
            final(self).cancelled_set() == old(self).cancelled_set().remove(placeholder_id@),
            final(self).queue_view() == old(self).queue_view(),
            final(self).owners_map() == old(self).owners_map(),
            final(self).workers_map() == old(self).workers_map(),
            final(self).deferred_set() == old(self).deferred_set(),
            final(self).held() == old(self).held(),
    {
        let ghost am = self.aliases_map();
        let ghost want = Set::new(|r: Seq<char>| am.contains_key(r) && am[r] == placeholder_id@);
        let mut drop: Vec<String> = Vec::new();
        let n = self.aliases.len();
        let mut j: usize = 0;
        while j < n
            invariant
                self.aliases.wf(),
                am == self.aliases.view(),
                n == self.aliases.spec_len(),
                j <= n,
                want == Set::new(|r: Seq<char>| am.contains_key(r) && am[r] == placeholder_id@),
                forall|k: int| 0 <= k < drop@.len() ==> #[trigger] want.contains(drop@[k]@),
                forall|k: int| 0 <= k < j && self.aliases.spec_val(k) == placeholder_id@
                    ==> #[trigger] ids_of(drop@).contains(self.aliases.spec_key(k)),
            decreases n - j,
        {
            let (rid, aph) = self.aliases.entry(j);
            proof {
                self.aliases.lemma_index(j as int);
            }
            if str_eq(aph.as_str(), placeholder_id) {
                let ghost before = drop@;
                drop.push(rid.clone());
                proof {
                    assert forall|k: int| 0 <= k < drop@.len() implies #[trigger] want.contains(drop@[k]@) by {
                        if k < before.len() {
                            assert(drop@[k] == before[k]);
                        } else {
                            assert(drop@[k]@ == self.aliases.spec_key(j as int));
                            assert(am.contains_key(self.aliases.spec_key(j as int)));
                            assert(am[self.aliases.spec_key(j as int)] == placeholder_id@);
                            assert(want.contains(self.aliases.spec_key(j as int)));
                        }
                    }
                    assert forall|k: int| 0 <= k < j + 1 && self.aliases.spec_val(k) == placeholder_id@
                        implies #[trigger] ids_of(drop@).contains(self.aliases.spec_key(k)) by {
                        if k < j {
                            assert(ids_of(before).contains(self.aliases.spec_key(k)));
                            let m = choose|m: int| 0 <= m < ids_of(before).len() && ids_of(before)[m] == self.aliases.spec_key(k);
                            assert(ids_of(drop@)[m] == self.aliases.spec_key(k));
                        } else {
                            assert(ids_of(drop@)[drop@.len() - 1] == self.aliases.spec_key(k));
                        }
                    }
                }
            }
            j += 1;
        }
        proof {
            let d = ids_of(drop@).to_set();
            assert(am.remove_keys(d) =~= am.remove_keys(want)) by {
                assert forall|x: Seq<char>| am.contains_key(x) implies (d.contains(x) <==> want.contains(x)) by {
                    if d.contains(x) {
                        let k = choose|k: int| 0 <= k < ids_of(drop@).len() && ids_of(drop@)[k] == x;
                        assert(want.contains(drop@[k]@));
                    }
                    if want.contains(x) {
                        self.aliases.lemma_covered(x);
                        let k = choose|k: int| 0 <= k < self.aliases.spec_len() && self.aliases.spec_key(k) == x;
                        self.aliases.lemma_index(k);
                        assert(ids_of(drop@).contains(self.aliases.spec_key(k)));
                    }
                }
            }
        }
        self.aliases.remove_all(&drop);
        self.cancelled.remove(placeholder_id);
    }

    /// Clear the display queue, ownership, worker assignment and
    /// cancellation marks (held prompts and aliases are kept).
    pub fn clear_all(&mut self)
        requires
            old(self).wf(),
        ensures
            final(self).wf(),
            final(self).queue_view() == Seq::<QEntry>::empty(),
            final(self).owners_map() == Map::<Seq<char>, Option<Seq<char>>>::empty(),
            final(self).workers_map() == Map::<Seq<char>, u32>::empty(),
            final(self).cancelled_set() == Set::<Seq<char>>::empty(),
            final(self).aliases_map() == old(self).aliases_map(),
            final(self).deferred_set() == old(self).deferred_set(),
            final(self).held() == old(self).held(),
    {
        self.queue = Vec::new();
        self.owners.clear();
        self.worker_map.clear();
        self.cancelled.clear();
        assert(self.queue_view() =~= Seq::<QEntry>::empty());
    }

    /// Hold a prompt until it may be submitted.
    pub fn hold(&mut self, prompt: HeldPrompt<P>)
        ensures
            final(self).held() == old(self).held().push(prompt),
            final(self).held_view() == old(self).held_view().push(held_entry(prompt)),
            final(self).wf() == old(self).wf(),
            final(self).queue_view() == old(self).queue_view(),
            final(self).owners_map() == old(self).owners_map(),
            final(self).workers_map() == old(self).workers_map(),
            final(self).aliases_map() == old(self).aliases_map(),
            final(self).deferred_set() == old(self).deferred_set(),
            final(self).cancelled_set() == old(self).cancelled_set(),
    {
        let ghost e = held_entry(prompt);
        let ghost pr = prompt;
        self.held.push(prompt);
        assert(self.held() == old(self).held().push(pr));
        assert(self.held_view() =~= old(self).held_view().push(e));
    }

    /// Number of held prompts.
    pub fn held_len(&self) -> (r: usize)
        ensures
            r == self.held_view().len(),
    {
        self.held.len()
    }

    /// Take the oldest held prompt (the insertion order is already fair).
    pub fn take_next_held(&mut self) -> (r: Option<HeldPrompt<P>>)
        ensures
            old(self).held().len() == 0 ==> r is None && final(self).held() == old(self).held(),
            old(self).held().len() > 0 ==> r == Some(old(self).held()[0])
                && final(self).held() == old(self).held().drop_first(),
            final(self).wf() == old(self).wf(),
            final(self).queue_view() == old(self).queue_view(),
            final(self).owners_map() == old(self).owners_map(),
            final(self).workers_map() == old(self).workers_map(),
            final(self).aliases_map() == old(self).aliases_map(),
            final(self).deferred_set() == old(self).deferred_set(),
            final(self).cancelled_set() == old(self).cancelled_set(),
    {
        if self.held.len() == 0 {
            return None;
        }
        let hp = self.held.remove(0);
        assert(self.held() =~= old(self).held().drop_first());
        Some(hp)
    }

    /// Take the first held prompt whose placeholder id is `placeholder_id`.
    pub fn take_held_by_placeholder(&mut self, placeholder_id: &str) -> (r: Option<HeldPrompt<P>>)
        ensures
            r is None ==> final(self).held() == old(self).held()
                && forall|j: int| 0 <= j < old(self).held_view().len() ==> old(self).held_view()[j].0 != placeholder_id@,
            r matches Some(h) ==> exists|i: int| 0 <= i < old(self).held().len()
                && old(self).held_view()[i].0 == placeholder_id@
                && (forall|j: int| 0 <= j < i ==> old(self).held_view()[j].0 != placeholder_id@)
                && h == old(self).held()[i]
                && final(self).held() == old(self).held().remove(i),
            final(self).wf() == old(self).wf(),
            final(self).queue_view() == old(self).queue_view(),
            final(self).owners_map() == old(self).owners_map(),
            final(self).workers_map() == old(self).workers_map(),
            final(self).aliases_map() == old(self).aliases_map(),
            final(self).deferred_set() == old(self).deferred_set(),
            final(self).cancelled_set() == old(self).cancelled_set(),
    {
        let ghost hv = self.held_view();
        match self.held_index(placeholder_id) {
            Some(i) => {
                let ghost h0 = self.held();
                let hp = self.held.remove(i);
                assert(self.held() =~= h0.remove(i as int));
                Some(hp)
            },
            None => None,
        }
    }

    fn held_index(&self, placeholder_id: &str) -> (r: Option<usize>)
        ensures
            r matches Some(i) ==> i < self.held_view().len() && self.held_view()[i as int].0 == placeholder_id@
                && forall|j: int| 0 <= j < i ==> self.held_view()[j].0 != placeholder_id@,
            r is None ==> forall|j: int| 0 <= j < self.held_view().len() ==> self.held_view()[j].0 != placeholder_id@,
    {
        let ghost hv = self.held_view();
        let mut i: usize = 0;
        while i < self.held.len()
            invariant
                hv == self.held_view(),
                i <= self.held@.len(),
                forall|j: int| 0 <= j < i ==> hv[j].0 != placeholder_id@,
            decreases self.held@.len() - i,
        {
            assert(hv[i as int] == held_entry(self.held@[i as int]));
            if str_eq(self.held[i].placeholder_id.as_str(), placeholder_id) {
                return Some(i);
            }
            i += 1;
        }
        None
    }

    /// Take every held prompt owned by `username`, keeping the others in order.
    pub fn take_held_for_user(&mut self, username: &Option<String>) -> (taken: Vec<HeldPrompt<P>>)
        ensures
            taken@ == old(self).held().filter(held_owned_by(username.deep_view())),
            final(self).held() == old(self).held().filter(held_not_owned_by(username.deep_view())),
            held_entries(taken@) == old(self).held_view().filter(owned_by(username.deep_view())),
            final(self).held_view() == old(self).held_view().filter(not_owned_by(username.deep_view())),
            final(self).wf() == old(self).wf(),
            final(self).queue_view() == old(self).queue_view(),
            final(self).owners_map() == old(self).owners_map(),
            final(self).workers_map() == old(self).workers_map(),
            final(self).aliases_map() == old(self).aliases_map(),
            final(self).deferred_set() == old(self).deferred_set(),
            final(self).cancelled_set() == old(self).cancelled_set(),
    {
        let ghost hv = self.held_view();
        let ghost u = username.deep_view();
        let ghost pt = owned_by(u);
        let ghost pk = not_owned_by(u);
        let ghost hf = self.held();
        let ghost qt = held_owned_by::<P>(u);
        let ghost qk = held_not_owned_by::<P>(u);
        let n_held = self.held.len();
        assert(hv.len() == n_held);
        let mut all: Vec<HeldPrompt<P>> = Vec::new();
        std::mem::swap(&mut all, &mut self.held);
        let mut taken: Vec<HeldPrompt<P>> = Vec::new();
        let mut kept: Vec<HeldPrompt<P>> = Vec::new();
        let mut k: usize = 0;
        while all.len() > 0
            invariant
                k <= hv.len(),
                hv.len() <= usize::MAX,
                held_entries(all@) == hv.skip(k as int),
                held_entries(taken@) == hv.take(k as int).filter(pt),
                held_entries(kept@) == hv.take(k as int).filter(pk),
                pt == owned_by(u),
                pk == not_owned_by(u),
                u == username.deep_view(),
                hv == held_entries(hf),
                all@ == hf.skip(k as int),
                taken@ == hf.take(k as int).filter(qt),
                kept@ == hf.take(k as int).filter(qk),
                qt == held_owned_by::<P>(u),
                qk == held_not_owned_by::<P>(u),
            decreases all@.len(),
        {
            let ghost before_all = all@;
            proof {
                assert(held_entries(before_all).len() == before_all.len());
                assert(hv.skip(k as int).len() == hv.len() - k);
                assert(k < hv.len());
                assert(held_entries(before_all)[0] == hv[k as int]);
            }
            let hp = all.remove(0);
            proof {
                assert(hv.take(k + 1) =~= hv.take(k as int).push(hv[k as int]));
                assert(hv[k as int] == held_entry(hp)) by {
                    assert(held_entries(before_all)[0] == held_entry(hp));
                }
                hv.take(k as int).lemma_filter_push(hv[k as int], pt);
                hv.take(k as int).lemma_filter_push(hv[k as int], pk);
                assert(held_entries(all@) =~= hv.skip(k + 1)) by {
                    assert(held_entries(all@) =~= held_entries(before_all).drop_first());
                }
            }
            proof {
                assert(hf.take(k + 1) =~= hf.take(k as int).push(hf[k as int]));
                assert(hf[k as int] == before_all[0]);
                hf.take(k as int).lemma_filter_push(hf[k as int], qt);
                hf.take(k as int).lemma_filter_push(hf[k as int], qk);
                assert(all@ =~= hf.skip(k + 1));
            }
            if owner_eq(&hp.username, username) {
                let ghost before = taken@;
                taken.push(hp);
                assert(held_entries(taken@) =~= held_entries(before).push(hv[k as int]));
            } else {
                let ghost before = kept@;
                kept.push(hp);
                assert(held_entries(kept@) =~= held_entries(before).push(hv[k as int]));
            }
            k += 1;
        }
        assert(hv.take(k as int) =~= hv) by {
            assert(hv.skip(k as int).len() == 0);
        }
        assert(hf.take(k as int) =~= hf);
        self.held = kept;
        taken
    }

    /// Take every held prompt related to any of `prompt_ids` (its placeholder
    /// or an id aliased to that placeholder is listed), keeping the others.
    pub fn take_held_related_to(&mut self, prompt_ids: &Vec<String>) -> (taken: Vec<HeldPrompt<P>>)
        requires
            old(self).wf(),
        ensures
            taken@ == old(self).held().filter(held_related_to_any(old(self).aliases_map(),
                ids_of(prompt_ids@).to_set())),
            final(self).held() == old(self).held().filter(held_related_to_none(old(self).aliases_map(),
                ids_of(prompt_ids@).to_set())),
            held_entries(taken@) == old(self).held_view().filter(
                related_to_any(old(self).aliases_map(), ids_of(prompt_ids@).to_set())),
            final(self).held_view() == old(self).held_view().filter(
                related_to_none(old(self).aliases_map(), ids_of(prompt_ids@).to_set())),
            final(self).wf(),
            final(self).queue_view() == old(self).queue_view(),
            final(self).owners_map() == old(self).owners_map(),
            final(self).workers_map() == old(self).workers_map(),
            final(self).aliases_map() == old(self).aliases_map(),
            final(self).deferred_set() == old(self).deferred_set(),
            final(self).cancelled_set() == old(self).cancelled_set(),
    {
        let ghost hv = self.held_view();
        let ghost s = ids_of(prompt_ids@).to_set();
        let ghost am = self.aliases_map();
        let ghost m = related_to_any(am, s);
        let ghost nm = related_to_none(am, s);
        let ghost hf = self.held();
        let ghost qm = held_related_to_any::<P>(am, s);
        let ghost qn = held_related_to_none::<P>(am, s);
        let n_held = self.held.len();
        assert(hv.len() == n_held);
        let mut all: Vec<HeldPrompt<P>> = Vec::new();
        std::mem::swap(&mut all, &mut self.held);
        let mut taken: Vec<HeldPrompt<P>> = Vec::new();
        let mut kept: Vec<HeldPrompt<P>> = Vec::new();
        let mut k: usize = 0;
        while all.len() > 0
            invariant
                self.wf(),
                am == self.aliases_map(),
                k <= hv.len(),
                hv.len() <= usize::MAX,
                held_entries(all@) == hv.skip(k as int),
                held_entries(taken@) == hv.take(k as int).filter(m),
                held_entries(kept@) == hv.take(k as int).filter(nm),
                s == ids_of(prompt_ids@).to_set(),
                m == related_to_any(am, s),
                nm == related_to_none(am, s),
                hv == held_entries(hf),
                all@ == hf.skip(k as int),
                taken@ == hf.take(k as int).filter(qm),
                kept@ == hf.take(k as int).filter(qn),
                qm == held_related_to_any::<P>(am, s),
                qn == held_related_to_none::<P>(am, s),
            decreases all@.len(),
        {
            let ghost before_all = all@;
            proof {
                assert(held_entries(before_all).len() == before_all.len());
                assert(hv.skip(k as int).len() == hv.len() - k);
                assert(k < hv.len());
                assert(held_entries(before_all)[0] == hv[k as int]);
            }
            let hp = all.remove(0);
            proof {
                assert(hv.take(k + 1) =~= hv.take(k as int).push(hv[k as int]));
                assert(hv[k as int] == held_entry(hp)) by {
                    assert(held_entries(before_all)[0] == held_entry(hp));
                }
                hv.take(k as int).lemma_filter_push(hv[k as int], m);
                hv.take(k as int).lemma_filter_push(hv[k as int], nm);
                assert(held_entries(all@) =~= hv.skip(k + 1)) by {
                    assert(held_entries(all@) =~= held_entries(before_all).drop_first());
                }
            }
            // The placeholder itself is among its related ids.
            let related = self.related_ids(hp.placeholder_id.as_str());
            let mut hit = false;
            let mut j: usize = 0;
            while j < related.len()
                invariant
                    j <= related@.len(),
                    s == ids_of(prompt_ids@).to_set(),
                    hit == exists|t: int| 0 <= t < j && s.contains(#[trigger] related@[t]@),
                decreases related@.len() - j,
            {
                if contains_str(prompt_ids, related[j].as_str()) {
                    hit = true;
                }
                proof {
                    assert(ids_of(prompt_ids@).contains(related@[j as int]@) == s.contains(related@[j as int]@));
                    if hit && !(exists|t: int| 0 <= t < j && s.contains(#[trigger] related@[t]@)) {
                        assert(s.contains(related@[j as int]@));
                    }
                }
                j += 1;
            }
            proof {
                let e = hv[k as int];
                assert(hit == m(e)) by {
                    if hit {
                        let t = choose|t: int| 0 <= t < related@.len() && s.contains(#[trigger] related@[t]@);
                        assert(ids_of(related@)[t] == related@[t]@);
                        assert(related_set(am, e.0).contains(related@[t]@));
                    }
                    if m(e) {
                        let x = choose|x: Seq<char>| related_set(am, e.0).contains(x) && s.contains(x);
                        assert(ids_of(related@).to_set().contains(x));
                        let t = choose|t: int| 0 <= t < ids_of(related@).len() && ids_of(related@)[t] == x;
                        assert(s.contains(related@[t]@));
                    }
                }
            }
            proof {
                assert(hf.take(k + 1) =~= hf.take(k as int).push(hf[k as int]));
                assert(hf[k as int] == before_all[0]);
                hf.take(k as int).lemma_filter_push(hf[k as int], qm);
                hf.take(k as int).lemma_filter_push(hf[k as int], qn);
                assert(all@ =~= hf.skip(k + 1));
            }
            if hit {
                let ghost before = taken@;
                taken.push(hp);
                assert(held_entries(taken@) =~= held_entries(before).push(hv[k as int]));
            } else {
                let ghost before = kept@;
                kept.push(hp);
                assert(held_entries(kept@) =~= held_entries(before).push(hv[k as int]));
            }
            k += 1;
        }
        assert(hv.take(k as int) =~= hv) by {
            assert(hv.skip(k as int).len() == 0);
        }
        assert(hf.take(k as int) =~= hf);
        self.held = kept;
        taken
    }

    /// How many prompts of `username` are submitted to ComfyUI: queued
    /// prompts of the user minus the user's held ones (never below zero).
    pub fn active_count_for_user(&self, username: &Option<String>) -> (r: usize)
        ensures
            r == if count_owned(self.queue_view(), username.deep_view()) >= count_owned(self.held_view(), username.deep_view()) {
                count_owned(self.queue_view(), username.deep_view()) - count_owned(self.held_view(), username.deep_view())
            } else {
                0
            },
    {
        let ghost q = self.queue_view();
        let ghost hv = self.held_view();
        let ghost u = username.deep_view();
        let mut queued: usize = 0;
        let mut i: usize = 0;
        while i < self.queue.len()
            invariant
                q == self.queue_view(),
                u == username.deep_view(),
                i <= self.queue@.len(),
                queued == count_owned(q.take(i as int), u),
                queued <= i,
            decreases self.queue@.len() - i,
        {
            assert(q.take(i + 1).drop_last() =~= q.take(i as int));
            assert(q[i as int] == entry_view(self.queue@[i as int]));
            if owner_eq(&self.queue[i].1, username) {
                queued += 1;
            }
            i += 1;
        }
        assert(q.take(self.queue@.len() as int) =~= q);
        let mut holding: usize = 0;
        let mut i: usize = 0;
        while i < self.held.len()
            invariant
                hv == self.held_view(),
                u == username.deep_view(),
                i <= self.held@.len(),
                holding == count_owned(hv.take(i as int), u),
                holding <= i,
            decreases self.held@.len() - i,
        {
            assert(hv.take(i + 1).drop_last() =~= hv.take(i as int));
            assert(hv[i as int] == held_entry(self.held@[i as int]));
            if owner_eq(&self.held[i].username, username) {
                holding += 1;
            }
            i += 1;
        }
        assert(hv.take(self.held@.len() as int) =~= hv);
        if queued >= holding {
            queued - holding
        } else {
            0
        }
    }

    /// Record a new prompt of `username`: remember its owner and place it in
    /// the display queue at the fair position (see [`fair_slot`]).
    pub fn insert(&mut self, prompt_id: &str, username: Option<String>)
        requires
            old(self).wf(),
        ensures
            final(self).wf(),
            final(self).owners_map() == old(self).owners_map().insert(prompt_id@, username.deep_view()),
            final(self).queue_view() == old(self).queue_view().insert(
                fair_slot(old(self).queue_view(), username.deep_view()),
                (prompt_id@, username.deep_view()),
            ),
            0 <= fair_slot(old(self).queue_view(), username.deep_view()) <= old(self).queue_view().len(),
            final(self).workers_map() == old(self).workers_map(),
            final(self).aliases_map() == old(self).aliases_map(),
            final(self).deferred_set() == old(self).deferred_set(),
            final(self).cancelled_set() == old(self).cancelled_set(),
            final(self).held() == old(self).held(),
    {
        self.owners.insert(String::from_str(prompt_id), clone_owner(&username));
        let pos = self.fair_position(&username);
        let ghost old_q = self.queue@;
        let entry = (String::from_str(prompt_id), username);
        let ghost ev = entry_view(entry);
        self.queue.insert(pos, entry);
        proof {
            assert(self.queue@ == old_q.insert(pos as int, entry));
            assert(entries_view(self.queue@) =~= entries_view(old_q).insert(pos as int, ev));
        }
    }

    /// The ids of the queued prompts of `username`, in queue order.
    fn owned_ids(&self, username: &Option<String>) -> (r: Vec<String>)
        ensures
            forall|e: QEntry| #[trigger] self.queue_view().contains(e) && e.1 == username.deep_view()
                ==> ids_of(r@).contains(e.0),
    {
        let ghost q = self.queue_view();
        let mut r: Vec<String> = Vec::new();
        let mut i: usize = 0;
        while i < self.queue.len()
            invariant
                q == self.queue_view(),
                i <= self.queue@.len(),
                forall|j: int| 0 <= j < i && (#[trigger] q[j]).1 == username.deep_view() ==> ids_of(r@).contains(q[j].0),
            decreases self.queue@.len() - i,
        {
            assert(q[i as int] == entry_view(self.queue@[i as int]));
            if owner_eq(&self.queue[i].1, username) {
                let ghost before = r@;
                r.push(self.queue[i].0.clone());
                proof {
                    assert(ids_of(r@)[r@.len() - 1] == q[i as int].0);
                    assert forall|j: int| 0 <= j < i + 1 && (#[trigger] q[j]).1 == username.deep_view()
                        implies ids_of(r@).contains(q[j].0) by {
                        if j < i {
                            let m = choose|m: int| 0 <= m < ids_of(before).len() && ids_of(before)[m] == q[j].0;
                            assert(ids_of(r@)[m] == q[j].0);
                        }
                    }
                }
            }
            i += 1;
        }
        proof {
            assert forall|e: QEntry| #[trigger] q.contains(e) && e.1 == username.deep_view()
                implies ids_of(r@).contains(e.0) by {
                let j = choose|j: int| 0 <= j < q.len() && q[j] == e;
                assert(q[j].1 == username.deep_view());
            }
        }
        r
    }

    /// Cancel every prompt of `username`: its held prompts are taken out (and
    /// their placeholders removed), then each of its queued prompts is
    /// cancelled with all related ids. Returns the taken held prompts, the
    /// workers that were running one of them and the ids to delete from the
    /// workers' pending queues.
    pub fn cancel_user_prompts(&mut self, username: &Option<String>) -> (r: CancelledUserPrompts<P>)
        requires
            old(self).wf(),
        ensures
            final(self).wf(),
            r.held@ == old(self).held().filter(held_owned_by(username.deep_view())),
            final(self).held() == old(self).held().filter(held_not_owned_by(username.deep_view())),
            held_entries(r.held@) == old(self).held_view().filter(owned_by(username.deep_view())),
            final(self).held_view() == old(self).held_view().filter(not_owned_by(username.deep_view())),
            forall|i: int| 0 <= i < final(self).queue_view().len()
                ==> (#[trigger] final(self).queue_view()[i]).1 != username.deep_view(),
            r.workers@.no_duplicates(),
            forall|k: int| 0 <= k < r.workers@.len() ==> assigned_worker(old(self).workers_map(), #[trigger] r.workers@[k]),
            ids_of(r.delete_ids@).no_duplicates(),
            forall|k: int| 0 <= k < r.delete_ids@.len() ==> final(self).cancelled_set().contains(#[trigger] r.delete_ids@[k]@),
            old(self).cancelled_set().subset_of(final(self).cancelled_set()),
            final(self).deferred_set() == old(self).deferred_set(),
    {
        let ghost u = username.deep_view();
        let ghost wm0 = self.workers_map();
        let taken = self.take_held_for_user(username);
        let ghost hv1 = self.held_view();
        let ghost h1 = self.held();
        let mut i: usize = 0;
        while i < taken.len()
            invariant
                self.wf(),
                self.held_view() == hv1,
                self.held() == h1,
                i <= taken@.len(),
                old(self).cancelled_set().subset_of(self.cancelled_set()),
                self.deferred_set() == old(self).deferred_set(),
                forall|id: Seq<char>| #[trigger] self.workers_map().contains_key(id)
                    ==> wm0.contains_key(id) && wm0[id] == self.workers_map()[id],
            decreases taken@.len() - i,
        {
            self.remove(taken[i].placeholder_id.as_str());
            i += 1;
        }
        let owned = self.owned_ids(username);
        assert(ids_of(owned@).skip(0) =~= ids_of(owned@));
        let mut workers: Vec<u32> = Vec::new();
        let mut delete_ids: Vec<String> = Vec::new();
        let mut k: usize = 0;
        while k < owned.len()
            invariant
                self.wf(),
                self.held_view() == hv1,
                self.held() == h1,
                u == username.deep_view(),
                k <= owned@.len(),
                old(self).cancelled_set().subset_of(self.cancelled_set()),
                self.deferred_set() == old(self).deferred_set(),
                forall|id: Seq<char>| #[trigger] self.workers_map().contains_key(id)
                    ==> wm0.contains_key(id) && wm0[id] == self.workers_map()[id],
                forall|e: QEntry| #[trigger] self.queue_view().contains(e) && e.1 == u
                    ==> ids_of(owned@).skip(k as int).contains(e.0),
                workers@.no_duplicates(),
                forall|j: int| 0 <= j < workers@.len() ==> assigned_worker(wm0, #[trigger] workers@[j]),
                ids_of(delete_ids@).no_duplicates(),
                forall|j: int| 0 <= j < delete_ids@.len() ==> self.cancelled_set().contains(#[trigger] delete_ids@[j]@),
            decreases owned@.len() - k,
        {
            let pid = owned[k].as_str();
            match self.worker_of(pid) {
                Some(w) => {
                    if !contains_u32(&workers, w) {
                        let ghost before = workers@;
                        workers.push(w);
                        proof {
                            assert(wm0.contains_key(pid@) && wm0[pid@] == w);
                            assert forall|j: int| 0 <= j < workers@.len() implies
                                assigned_worker(wm0, #[trigger] workers@[j]) by {
                                if j < before.len() {
                                    assert(workers@[j] == before[j]);
                                } else {
                                    assert(wm0.contains_key(pid@) && wm0[pid@] == workers@[j]);
                                }
                            }
                        }
                    }
                },
                None => {},
            }
            let ghost q_before = self.queue_view();
            let ghost am = self.aliases_map();
            let related = self.cancel_and_remove(pid);
            let mut j: usize = 0;
            while j < related.len()
                invariant
                    j <= related@.len(),
                    ids_of(related@).to_set() == related_set(am, pid@),
                    forall|x: Seq<char>| related_set(am, pid@).contains(x) ==> self.cancelled_set().contains(x),
                    ids_of(delete_ids@).no_duplicates(),
                    forall|t: int| 0 <= t < delete_ids@.len() ==> self.cancelled_set().contains(#[trigger] delete_ids@[t]@),
                decreases related@.len() - j,
            {
                if !contains_str(&delete_ids, related[j].as_str()) {
                    let ghost before = delete_ids@;
                    delete_ids.push(related[j].clone());
                    proof {
                        assert(ids_of(related@)[j as int] == related@[j as int]@);
                        assert(ids_of(related@).to_set().contains(related@[j as int]@));
                        assert(ids_of(delete_ids@) =~= ids_of(before).push(related@[j as int]@));
                        assert forall|t: int| 0 <= t < delete_ids@.len() implies
                            self.cancelled_set().contains(#[trigger] delete_ids@[t]@) by {
                            if t < before.len() {
                                assert(delete_ids@[t] == before[t]);
                            }
                        }
                    }
                }
                j += 1;
            }
            proof {
                let ow = ids_of(owned@);
                assert(ow[k as int] == pid@);
                assert forall|e: QEntry| #[trigger] self.queue_view().contains(e) && e.1 == u
                    implies ow.skip(k + 1).contains(e.0) by {
                    broadcast use vstd::seq_lib::group_filter_ensures;
                    let rs = related_set(am, pid@);
                    q_before.lemma_filter_contains_rev(|e: QEntry| !rs.contains(e.0), e);
                    assert(q_before.contains(e));
                    assert(ow.skip(k as int).contains(e.0));
                    let m = choose|m: int| 0 <= m < ow.skip(k as int).len() && ow.skip(k as int)[m] == e.0;
                    let fi = choose|fi: int| 0 <= fi < self.queue_view().len() && self.queue_view()[fi] == e;
                    assert(!rs.contains(e.0));
                    assert(rs.contains(pid@));
                    assert(m != 0);
                    assert(ow.skip(k + 1)[m - 1] == e.0);
                }
            }
            k += 1;
        }
        proof {
            assert forall|i: int| 0 <= i < self.queue_view().len()
                implies (#[trigger] self.queue_view()[i]).1 != u by {
                if self.queue_view()[i].1 == u {
                    assert(self.queue_view().contains(self.queue_view()[i]));
                    assert(ids_of(owned@).skip(k as int).len() == 0);
                }
            }
        }
        CancelledUserPrompts { held: taken, workers, delete_ids }
    }
}

} // verus!
