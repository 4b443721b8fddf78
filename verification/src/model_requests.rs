//! Model download requests: users ask for a model, a moderator or admin
//! approves or denies each request once.
use vstd::prelude::*;
use crate::auth::{same_name, eq_ignore_ascii_case, opt_view};
use crate::clock::{now_rfc3339, random_id};
use crate::strmap::str_eq;

verus! {

/// Status of a model request.
#[derive(Debug, Clone, Copy, PartialEq, Eq, Structural)]
pub enum RequestStatus {
    Pending,
    Approved,
    Denied,
}

impl RequestStatus {
    /// The status name in stored records (snake case).
    pub fn as_str(&self) -> (s: &'static str)
        ensures
            s@ == match self {
                RequestStatus::Pending => "pending"@,
                RequestStatus::Approved => "approved"@,
                RequestStatus::Denied => "denied"@,
            },
    {
        match self {
            RequestStatus::Pending => "pending",
            RequestStatus::Approved => "approved",
            RequestStatus::Denied => "denied",
        }
    }
}

/// A model download request.
pub struct ModelRequest {
    /// Unique id (`req_` and 12 hex digits).
    pub id: String,
    /// Username of the requester.
    pub username: String,
    /// CivitAI model id.
    pub model_id: u64,
    /// Display name of the model.
    pub model_name: String,
    /// Model type (Checkpoint, LORA, ...).
    pub model_type: String,
    /// CivitAI model URL.
    pub model_url: String,
    /// The file to download: name and URL.
    pub file_name: String,
    pub file_url: String,
    /// File size in KB, as the bits of the 64-bit float the requester gave.
    pub file_size_kb_bits: u64,
    /// Category for installation (checkpoints, loras, ...).
    pub category: String,
    /// Current status.
    pub status: RequestStatus,
    /// Who handled the request.
    pub handled_by: Option<String>,
    /// Reason for denial, shown to the requester.
    pub deny_reason: Option<String>,
    /// ISO 8601 creation time.
    pub created_at: String,
    /// ISO 8601 time the request was handled.
    pub handled_at: Option<String>,
}

/// A request as values.
pub struct RequestView {
    pub id: Seq<char>,
    pub username: Seq<char>,
    pub model_id: u64,
    pub model_name: Seq<char>,
    pub model_type: Seq<char>,
    pub model_url: Seq<char>,
    pub file_name: Seq<char>,
    pub file_url: Seq<char>,
    pub file_size_kb_bits: u64,
    pub category: Seq<char>,
    pub status: RequestStatus,
    pub handled_by: Option<Seq<char>>,
    pub deny_reason: Option<Seq<char>>,
    pub created_at: Seq<char>,
    pub handled_at: Option<Seq<char>>,
}

impl View for ModelRequest {
    type V = RequestView;

    open spec fn view(&self) -> RequestView {
        RequestView {
            id: self.id@,
            username: self.username@,
            model_id: self.model_id,
            model_name: self.model_name@,
            model_type: self.model_type@,
            model_url: self.model_url@,
            file_name: self.file_name@,
            file_url: self.file_url@,
            file_size_kb_bits: self.file_size_kb_bits,
            category: self.category@,
            status: self.status,
            handled_by: opt_view(self.handled_by),
            deny_reason: opt_view(self.deny_reason),
            created_at: self.created_at@,
            handled_at: opt_view(self.handled_at),
        }
    }
}

fn copy_opt(o: &Option<String>) -> (r: Option<String>)
    ensures
        opt_view(r) == opt_view(*o),
{
    match o {
        Some(s) => Some(s.clone()),
        None => None,
    }
}

fn copy_request(r: &ModelRequest) -> (c: ModelRequest)
    ensures
        c@ == r@,
{
    ModelRequest {
        id: r.id.clone(),
        username: r.username.clone(),
        model_id: r.model_id,
        model_name: r.model_name.clone(),
        model_type: r.model_type.clone(),
        model_url: r.model_url.clone(),
        file_name: r.file_name.clone(),
        file_url: r.file_url.clone(),
        file_size_kb_bits: r.file_size_kb_bits,
        category: r.category.clone(),
        status: r.status,
        handled_by: copy_opt(&r.handled_by),
        deny_reason: copy_opt(&r.deny_reason),
        created_at: r.created_at.clone(),
        handled_at: copy_opt(&r.handled_at),
    }
}

/// The stored requests.
pub struct ModelRequestDatabase {
    pub requests: Vec<ModelRequest>,
}

pub open spec fn requests_view(v: Seq<ModelRequest>) -> Seq<RequestView> {
    v.map_values(|r: ModelRequest| r@)
}

/// The index of the first request with this id.
pub open spec fn request_index(v: Seq<RequestView>, id: Seq<char>, i: int) -> Option<int>
    decreases v.len() - i,
{
    if i < 0 || i >= v.len() {
        None
    } else if v[i].id == id {
        Some(i)
    } else {
        request_index(v, id, i + 1)
    }
}

/// The request after it was handled: new status, handler, reason and time.
pub open spec fn handled(r: RequestView, status: RequestStatus, by: Seq<char>, reason: Option<Seq<char>>,
    at: Seq<char>) -> RequestView {
    RequestView { status, handled_by: Some(by), deny_reason: reason, handled_at: Some(at), ..r }
}

/// The text of an optional reason.
pub open spec fn reason_view(r: Option<&str>) -> Option<Seq<char>> {
    match r {
        Some(s) => Some(s@),
        None => None,
    }
}

/// Model request state.
pub struct ModelRequestState {
    db: ModelRequestDatabase,
}

impl ModelRequestState {
    /// The requests, oldest first.
    pub closed spec fn requests(&self) -> Seq<RequestView> {
        requests_view(self.db.requests@)
    }

    /// State holding the given database.
    pub fn new(db: ModelRequestDatabase) -> (s: Self)
        ensures
            s.requests() == requests_view(db.requests@),
    {
        ModelRequestState { db }
    }

    /// The database (for persisting it).
    pub fn database(&self) -> (d: &ModelRequestDatabase)
        ensures
            requests_view(d.requests@) == self.requests(),
    {
        &self.db
    }

    /// Add a new pending request; returns it.
    pub fn add_request(&mut self, username: &str, model_id: u64, model_name: &str, model_type: &str,
        model_url: &str, file_name: &str, file_url: &str, file_size_kb_bits: u64, category: &str) -> (r: ModelRequest)
        ensures
            final(self).requests() == old(self).requests().push(r@),
            r@.status == RequestStatus::Pending,
            r@.username == username@ && r@.model_id == model_id && r@.model_name == model_name@
                && r@.model_type == model_type@ && r@.model_url == model_url@ && r@.file_name == file_name@
                && r@.file_url == file_url@ && r@.file_size_kb_bits == file_size_kb_bits
                && r@.category == category@,
            r@.handled_by is None && r@.deny_reason is None && r@.handled_at is None,
            r@.id.len() == 16 && r@.id.take(4) == "req_"@,
    {
        let id = random_id("req_");
        proof {
            reveal_strlit("req_");
        }
        let req = ModelRequest {
            id,
            username: String::from_str(username),
            model_id,
            model_name: String::from_str(model_name),
            model_type: String::from_str(model_type),
            model_url: String::from_str(model_url),
            file_name: String::from_str(file_name),
            file_url: String::from_str(file_url),
            file_size_kb_bits,
            category: String::from_str(category),
            status: RequestStatus::Pending,
            handled_by: None,
            deny_reason: None,
            created_at: now_rfc3339(),
            handled_at: None,
        };
        let copy = copy_request(&req);
        let ghost before = self.db.requests@;
        self.db.requests.push(req);
        assert(requests_view(self.db.requests@) =~= requests_view(before).push(copy@));
        copy
    }

    /// All requests, or those with the given status, oldest first.
    pub fn get_requests(&self, status: Option<RequestStatus>) -> (r: Vec<ModelRequest>)
        ensures
            requests_view(r@) == match status {
                Some(s) => self.requests().filter(|q: RequestView| q.status == s),
                None => self.requests(),
            },
    {
        let ghost v = self.requests();
        let ghost p = |q: RequestView| match status { Some(s) => q.status == s, None => true };
        let mut out: Vec<ModelRequest> = Vec::new();
        let mut i: usize = 0;
        while i < self.db.requests.len()
            invariant
                v == self.requests(),
                p == (|q: RequestView| match status { Some(s) => q.status == s, None => true }),
                i <= v.len(),
                requests_view(out@) == v.take(i as int).filter(p),
            decreases v.len() - i,
        {
            proof {
                assert(v.take(i + 1) =~= v.take(i as int).push(v[i as int]));
                v.take(i as int).lemma_filter_push(v[i as int], p);
            }
            let keep = match status {
                Some(s) => self.db.requests[i].status == s,
                None => true,
            };
            if keep {
                let ghost before = out@;
                out.push(copy_request(&self.db.requests[i]));
                assert(requests_view(out@) =~= requests_view(before).push(v[i as int]));
            }
            i += 1;
        }
        proof {
            assert(v.take(i as int) =~= v);
            if status is None {
                lemma_filter_true(v, p);
            }
            assert(p =~= |q: RequestView| match status { Some(s) => q.status == s, None => true });
            if let Some(s) = status {
                assert(p =~= (|q: RequestView| q.status == s));
            }
        }
        out
    }

    /// The requests of a user (name compared ignoring ASCII case), oldest first.
    pub fn get_requests_for_user(&self, username: &str) -> (r: Vec<ModelRequest>)
        ensures
            requests_view(r@) == self.requests().filter(|q: RequestView| same_name(q.username, username@)),
    {
        let ghost v = self.requests();
        let ghost p = |q: RequestView| same_name(q.username, username@);
        let mut out: Vec<ModelRequest> = Vec::new();
        let mut i: usize = 0;
        while i < self.db.requests.len()
            invariant
                v == self.requests(),
                p == (|q: RequestView| same_name(q.username, username@)),
                i <= v.len(),
                requests_view(out@) == v.take(i as int).filter(p),
            decreases v.len() - i,
        {
            proof {
                assert(v.take(i + 1) =~= v.take(i as int).push(v[i as int]));
                v.take(i as int).lemma_filter_push(v[i as int], p);
            }
            if eq_ignore_ascii_case(self.db.requests[i].username.as_str(), username) {
                let ghost before = out@;
                out.push(copy_request(&self.db.requests[i]));
                assert(requests_view(out@) =~= requests_view(before).push(v[i as int]));
            }
            i += 1;
        }
        assert(v.take(i as int) =~= v);
        out
    }

    fn find(&self, request_id: &str) -> (r: Option<usize>)
        ensures
            match r {
                Some(i) => request_index(self.requests(), request_id@, 0) == Some(i as int) && i < self.requests().len(),
                None => request_index(self.requests(), request_id@, 0) is None,
            },
    {
        let ghost v = self.requests();
        let mut i: usize = 0;
        while i < self.db.requests.len()
            invariant
                v == self.requests(),
                i <= v.len(),
                request_index(v, request_id@, 0) == request_index(v, request_id@, i as int),
            decreases v.len() - i,
        {
            if str_eq(self.db.requests[i].id.as_str(), request_id) {
                return Some(i);
            }
            i += 1;
        }
        None
    }

    /// Approve a pending request.
    pub fn approve_request(&mut self, request_id: &str, handled_by: &str) -> (r: Result<ModelRequest, String>)
        ensures
            match request_index(old(self).requests(), request_id@, 0) {
                None => (r matches Err(m) && m@ == "Request not found"@) && final(self).requests() == old(self).requests(),
                Some(i) => if old(self).requests()[i].status != RequestStatus::Pending {
                    (r matches Err(m) && m@ == "Request is not pending"@) && final(self).requests() == old(self).requests()
                } else {
                    r matches Ok(q) && (exists|at: Seq<char>| q@ == #[trigger] handled(old(self).requests()[i],
                        RequestStatus::Approved, handled_by@, old(self).requests()[i].deny_reason, at))
                        && final(self).requests() == old(self).requests().update(i, q@)
                },
            },
    {
        self.handle_approve(request_id, handled_by)
    }

    fn handle_approve(&mut self, request_id: &str, handled_by: &str) -> (r: Result<ModelRequest, String>)
        ensures
            match request_index(old(self).requests(), request_id@, 0) {
                None => (r matches Err(m) && m@ == "Request not found"@) && final(self).requests() == old(self).requests(),
                Some(i) => if old(self).requests()[i].status != RequestStatus::Pending {
                    (r matches Err(m) && m@ == "Request is not pending"@) && final(self).requests() == old(self).requests()
                } else {
                    r matches Ok(q) && (exists|at: Seq<char>| q@ == #[trigger] handled(old(self).requests()[i],
                        RequestStatus::Approved, handled_by@, old(self).requests()[i].deny_reason, at))
                        && final(self).requests() == old(self).requests().update(i, q@)
                },
            },
    {
        let i = match self.find(request_id) {
            Some(i) => i,
            None => {
                return Err(String::from_str("Request not found"));
            },
        };
        assert(self.requests()[i as int] == self.db.requests@[i as int]@);
        if self.db.requests[i].status != RequestStatus::Pending {
            return Err(String::from_str("Request is not pending"));
        }
        let mut q = copy_request(&self.db.requests[i]);
        q.status = RequestStatus::Approved;
        q.handled_by = Some(String::from_str(handled_by));
        q.handled_at = Some(now_rfc3339());
        let result = copy_request(&q);
        let ghost before = self.db.requests@;
        self.db.requests.set(i, q);
        assert(requests_view(self.db.requests@) =~= requests_view(before).update(i as int, result@));
        assert(result@ == handled(requests_view(before)[i as int], RequestStatus::Approved, handled_by@,
            requests_view(before)[i as int].deny_reason, result@.handled_at->0));
        Ok(result)
    }

    /// Deny a pending request with an optional reason.
    pub fn deny_request(&mut self, request_id: &str, handled_by: &str, reason: Option<&str>) -> (r: Result<ModelRequest, String>)
        ensures
            match request_index(old(self).requests(), request_id@, 0) {
                None => (r matches Err(m) && m@ == "Request not found"@) && final(self).requests() == old(self).requests(),
                Some(i) => if old(self).requests()[i].status != RequestStatus::Pending {
                    (r matches Err(m) && m@ == "Request is not pending"@) && final(self).requests() == old(self).requests()
                } else {
                    r matches Ok(q) && (exists|at: Seq<char>| q@ == #[trigger] handled(old(self).requests()[i],
                        RequestStatus::Denied, handled_by@, reason_view(reason), at))
                        && final(self).requests() == old(self).requests().update(i, q@)
                },
            },
    {
        let i = match self.find(request_id) {
            Some(i) => i,
            None => {
                return Err(String::from_str("Request not found"));
            },
        };
        assert(self.requests()[i as int] == self.db.requests@[i as int]@);
        if self.db.requests[i].status != RequestStatus::Pending {
            return Err(String::from_str("Request is not pending"));
        }
        let mut q = copy_request(&self.db.requests[i]);
        q.status = RequestStatus::Denied;
        q.handled_by = Some(String::from_str(handled_by));
        q.deny_reason = match reason {
            Some(s) => Some(String::from_str(s)),
            None => None,
        };
        q.handled_at = Some(now_rfc3339());
        let result = copy_request(&q);
        let ghost before = self.db.requests@;
        self.db.requests.set(i, q);
        assert(requests_view(self.db.requests@) =~= requests_view(before).update(i as int, result@));
        assert(result@ == handled(requests_view(before)[i as int], RequestStatus::Denied, handled_by@,
            reason_view(reason), result@.handled_at->0));
        Ok(result)
    }
}

proof fn lemma_filter_true(s: Seq<RequestView>, p: spec_fn(RequestView) -> bool)
    requires
        forall|x: RequestView| #[trigger] p(x),
    ensures
        s.filter(p) == s,
    decreases s.len(),
{
    if s.len() > 0 {
        lemma_filter_true(s.drop_last(), p);
        s.drop_last().lemma_filter_push(s.last(), p);
        assert(s.drop_last().push(s.last()) =~= s);
    } else {
        assert(s.filter(p) =~= s) by {
            reveal(Seq::filter);
        }
    }
}

/// Law: a request is handled once: after it is approved or denied it is no
/// longer pending, so a second approval or denial is refused.
pub proof fn law_handled_once(r: RequestView, status: RequestStatus, by: Seq<char>, reason: Option<Seq<char>>,
    at: Seq<char>)
    requires
        status != RequestStatus::Pending,
    ensures
        handled(r, status, by, reason, at).status != RequestStatus::Pending,
{
}

} // verus!
