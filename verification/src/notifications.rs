//! Notifications: global ones seen by every user and ones targeted at one
//! user, with per-user read and dismissed marks.
use vstd::prelude::*;
use crate::auth::{same_name, eq_ignore_ascii_case, opt_view};
use crate::clock::{now_rfc3339, random_id};
use crate::strmap::str_eq;
use crate::text::chars_of;
use vstd::multiset::Multiset;

verus! {

/// A notification entry.
pub struct Notification {
    /// Unique id.
    pub id: String,
    /// `global` or a username.
    pub target: String,
    /// Short title (a locale key when `i18n`).
    pub title: String,
    /// Optional longer body (a locale key when `i18n`).
    pub body: Option<String>,
    /// Type for icon and colour: `info`, `success`, `warning`, `error`.
    pub kind: String,
    /// Read flag of a notification targeted at one user.
    pub read: bool,
    /// Users who have read a global notification.
    pub read_by: Vec<String>,
    /// Users who have dismissed this notification.
    pub dismissed_by: Vec<String>,
    /// ISO 8601 creation time.
    pub created_at: String,
    /// Whether title and body are locale keys.
    pub i18n: bool,
    /// Interpolation values for locale keys, as JSON text.
    pub params: Option<String>,
}

/// A notification as values.
pub struct NotificationView {
    pub id: Seq<char>,
    pub target: Seq<char>,
    pub title: Seq<char>,
    pub body: Option<Seq<char>>,
    pub kind: Seq<char>,
    pub read: bool,
    pub read_by: Seq<Seq<char>>,
    pub dismissed_by: Seq<Seq<char>>,
    pub created_at: Seq<char>,
    pub i18n: bool,
    pub params: Option<Seq<char>>,
}

pub open spec fn names_view(v: Seq<String>) -> Seq<Seq<char>> {
    v.map_values(|s: String| s@)
}

impl View for Notification {
    type V = NotificationView;

    open spec fn view(&self) -> NotificationView {
        NotificationView {
            id: self.id@,
            target: self.target@,
            title: self.title@,
            body: opt_view(self.body),
            kind: self.kind@,
            read: self.read,
            read_by: names_view(self.read_by@),
            dismissed_by: names_view(self.dismissed_by@),
            created_at: self.created_at@,
            i18n: self.i18n,
            params: opt_view(self.params),
        }
    }
}

/// The default kind of a notification: `info`.
pub fn default_notif_type() -> (r: String)
    ensures
        r@ == "info"@,
{
    String::from_str("info")
}

/// Some name in the list equals `username` ignoring ASCII case.
pub open spec fn lists_user(users: Seq<Seq<char>>, username: Seq<char>) -> bool {
    exists|i: int| 0 <= i < users.len() && same_name(#[trigger] users[i], username)
}

/// Whether some name in the list equals `username` ignoring ASCII case.
pub fn user_list_contains(users: &Vec<String>, username: &str) -> (r: bool)
    ensures
        r == lists_user(names_view(users@), username@),
{
    let mut i: usize = 0;
    while i < users.len()
        invariant
            i <= users@.len(),
            forall|j: int| 0 <= j < i ==> !same_name(#[trigger] names_view(users@)[j], username@),
        decreases users@.len() - i,
    {
        if eq_ignore_ascii_case(users[i].as_str(), username) {
            assert(same_name(names_view(users@)[i as int], username@));
            return true;
        }
        i += 1;
    }
    false
}

/// The list with `username` added unless it is already listed.
pub open spec fn with_user(users: Seq<Seq<char>>, username: Seq<char>) -> Seq<Seq<char>> {
    if lists_user(users, username) { users } else { users.push(username) }
}

/// Add `username` to the list unless it is already listed.
pub fn add_user_once(users: &mut Vec<String>, username: &str)
    ensures
        names_view(final(users)@) == with_user(names_view(old(users)@), username@),
{
    if !user_list_contains(users, username) {
        let ghost before = users@;
        users.push(String::from_str(username));
        assert(names_view(users@) =~= names_view(before).push(username@));
    }
}

/// The notification is global or targeted at `username`.
pub open spec fn targets_user(n: NotificationView, username: Seq<char>) -> bool {
    n.target == "global"@ || same_name(n.target, username)
}

/// The notification is shown to `username`: targeted at the user and not dismissed.
pub open spec fn visible_to(n: NotificationView, username: Seq<char>) -> bool {
    targets_user(n, username) && !lists_user(n.dismissed_by, username)
}

/// The notification counts as read for `username`.
pub open spec fn read_for(n: NotificationView, username: Seq<char>) -> bool {
    n.read || lists_user(n.read_by, username)
}

/// The notification after `username` read it: a global one lists the user
/// as a reader, another one is flagged read.
pub open spec fn marked_read(n: NotificationView, username: Seq<char>) -> NotificationView {
    if n.target == "global"@ {
        NotificationView { read_by: with_user(n.read_by, username), ..n }
    } else {
        NotificationView { read: true, ..n }
    }
}

/// The notification after `username` dismissed it.
pub open spec fn dismissed(n: NotificationView, username: Seq<char>) -> NotificationView {
    NotificationView { dismissed_by: with_user(n.dismissed_by, username), ..n }
}

/// Every notification visible to `username` marked read by the user.
pub open spec fn read_all(v: Seq<NotificationView>, username: Seq<char>) -> Seq<NotificationView> {
    v.map_values(|n: NotificationView| if visible_to(n, username) { marked_read(n, username) } else { n })
}

/// Every notification visible to `username` dismissed by the user.
pub open spec fn dismiss_all(v: Seq<NotificationView>, username: Seq<char>) -> Seq<NotificationView> {
    v.map_values(|n: NotificationView| if visible_to(n, username) { dismissed(n, username) } else { n })
}

fn targets(n: &Notification, username: &str) -> (r: bool)
    ensures
        r == targets_user(n@, username@),
{
    str_eq(n.target.as_str(), "global") || eq_ignore_ascii_case(n.target.as_str(), username)
}

fn visible(n: &Notification, username: &str) -> (r: bool)
    ensures
        r == visible_to(n@, username@),
{
    targets(n, username) && !user_list_contains(&n.dismissed_by, username)
}

fn is_read(n: &Notification, username: &str) -> (r: bool)
    ensures
        r == read_for(n@, username@),
{
    n.read || user_list_contains(&n.read_by, username)
}

/// A notification as returned to a user: its read state is the user's.
pub struct UserNotification {
    pub id: String,
    pub target: String,
    pub title: String,
    pub body: Option<String>,
    pub kind: String,
    pub read: bool,
    pub created_at: String,
    pub i18n: bool,
    pub params: Option<String>,
}

/// The notifications database.
pub struct NotificationDatabase {
    pub notifications: Vec<Notification>,
}

pub open spec fn notes_view(v: Seq<Notification>) -> Seq<NotificationView> {
    v.map_values(|n: Notification| n@)
}

/// The number of notifications visible to and unread by `username`.
pub open spec fn unread_of(v: Seq<NotificationView>, username: Seq<char>) -> nat {
    v.filter(|n: NotificationView| visible_to(n, username) && !read_for(n, username)).len()
}

/// The index of the first notification with this id visible to `username`.
pub open spec fn find_visible(v: Seq<NotificationView>, id: Seq<char>, username: Seq<char>, i: int) -> Option<int>
    decreases v.len() - i,
{
    if i < 0 || i >= v.len() {
        None
    } else if v[i].id == id && visible_to(v[i], username) {
        Some(i)
    } else {
        find_visible(v, id, username, i + 1)
    }
}

fn copy_names(v: &Vec<String>) -> (r: Vec<String>)
    ensures
        names_view(r@) == names_view(v@),
{
    let mut r: Vec<String> = Vec::new();
    let mut i: usize = 0;
    while i < v.len()
        invariant
            i <= v@.len(),
            names_view(r@) == names_view(v@).take(i as int),
        decreases v@.len() - i,
    {
        let ghost before = r@;
        r.push(v[i].clone());
        assert(names_view(v@).take(i + 1) =~= names_view(v@).take(i as int).push(v@[i as int]@));
        assert(names_view(r@) =~= names_view(before).push(r@[i as int]@));
        i += 1;
    }
    assert(names_view(v@).take(v@.len() as int) =~= names_view(v@));
    r
}

fn copy_opt(o: &Option<String>) -> (r: Option<String>)
    ensures
        opt_view(r) == opt_view(*o),
{
    match o {
        Some(s) => Some(s.clone()),
        None => None,
    }
}

fn copy_notification(n: &Notification) -> (r: Notification)
    ensures
        r@ == n@,
{
    Notification {
        id: n.id.clone(),
        target: n.target.clone(),
        title: n.title.clone(),
        body: copy_opt(&n.body),
        kind: n.kind.clone(),
        read: n.read,
        read_by: copy_names(&n.read_by),
        dismissed_by: copy_names(&n.dismissed_by),
        created_at: n.created_at.clone(),
        i18n: n.i18n,
        params: copy_opt(&n.params),
    }
}

/// A notification as a user sees it, as values.
pub struct UserNoteView {
    pub id: Seq<char>,
    pub target: Seq<char>,
    pub title: Seq<char>,
    pub body: Option<Seq<char>>,
    pub kind: Seq<char>,
    pub read: bool,
    pub created_at: Seq<char>,
    pub i18n: bool,
    pub params: Option<Seq<char>>,
}

impl View for UserNotification {
    type V = UserNoteView;

    open spec fn view(&self) -> UserNoteView {
        UserNoteView {
            id: self.id@,
            target: self.target@,
            title: self.title@,
            body: opt_view(self.body),
            kind: self.kind@,
            read: self.read,
            created_at: self.created_at@,
            i18n: self.i18n,
            params: opt_view(self.params),
        }
    }
}

/// The notification as `username` sees it.
pub open spec fn user_note(n: NotificationView, username: Seq<char>) -> UserNoteView {
    UserNoteView {
        id: n.id,
        target: n.target,
        title: n.title,
        body: n.body,
        kind: n.kind,
        read: read_for(n, username),
        created_at: n.created_at,
        i18n: n.i18n,
        params: n.params,
    }
}

/// The notifications `username` sees, in stored order.
pub open spec fn visible_notes(v: Seq<NotificationView>, username: Seq<char>) -> Seq<UserNoteView> {
    v.filter(|n: NotificationView| visible_to(n, username)).map_values(|n: NotificationView| user_note(n, username))
}

/// `a` comes before `b` in text order (by code point, as `String`s compare).
pub open spec fn str_lt(a: Seq<char>, b: Seq<char>) -> bool
    decreases a.len(),
{
    if b.len() == 0 {
        false
    } else if a.len() == 0 {
        true
    } else if a[0] != b[0] {
        (a[0] as u32) < (b[0] as u32)
    } else {
        str_lt(a.drop_first(), b.drop_first())
    }
}

proof fn lemma_str_lt_trans(a: Seq<char>, b: Seq<char>, c: Seq<char>)
    requires
        str_lt(a, b),
        str_lt(b, c),
    ensures
        str_lt(a, c),
    decreases a.len(),
{
    if a.len() > 0 && b.len() > 0 && c.len() > 0 && a[0] == b[0] && b[0] == c[0] {
        lemma_str_lt_trans(a.drop_first(), b.drop_first(), c.drop_first());
    }
}

proof fn lemma_str_lt_irrefl(a: Seq<char>)
    ensures
        !str_lt(a, a),
    decreases a.len(),
{
    if a.len() > 0 {
        lemma_str_lt_irrefl(a.drop_first());
    }
}

/// Whether `a` comes before `b` in text order.
fn string_lt(a: &str, b: &str) -> (r: bool)
    ensures
        r == str_lt(a@, b@),
{
    let x = chars_of(a);
    let y = chars_of(b);
    let mut i: usize = 0;
    assert(x@.skip(0) =~= x@);
    assert(y@.skip(0) =~= y@);
    while i < x.len() && i < y.len() && x[i] == y[i]
        invariant
            i <= x@.len(),
            i <= y@.len(),
            str_lt(a@, b@) == str_lt(x@.skip(i as int), y@.skip(i as int)),
            x@ == a@,
            y@ == b@,
        decreases x@.len() - i,
    {
        assert(x@.skip(i as int).drop_first() =~= x@.skip(i + 1));
        assert(y@.skip(i as int).drop_first() =~= y@.skip(i + 1));
        i += 1;
    }
    if i == y.len() {
        false
    } else if i == x.len() {
        true
    } else {
        (x[i] as u32) < (y[i] as u32)
    }
}

/// `a` is listed before `b`: unread before read, then the newer (later
/// creation time) first.
pub open spec fn listed_before(a: UserNoteView, b: UserNoteView) -> bool {
    (!a.read && b.read) || (a.read == b.read && str_lt(b.created_at, a.created_at))
}

proof fn lemma_listed_before_trans(a: UserNoteView, b: UserNoteView, c: UserNoteView)
    requires
        listed_before(a, b),
        listed_before(b, c),
    ensures
        listed_before(a, c),
{
    if a.read == b.read && b.read == c.read {
        lemma_str_lt_trans(c.created_at, b.created_at, a.created_at);
    }
}

/// A copy of a user's notification.
fn copy_user_note(n: &UserNotification) -> (r: UserNotification)
    ensures
        r@ == n@,
{
    UserNotification {
        id: n.id.clone(),
        target: n.target.clone(),
        title: n.title.clone(),
        body: copy_opt(&n.body),
        kind: n.kind.clone(),
        read: n.read,
        created_at: n.created_at.clone(),
        i18n: n.i18n,
        params: copy_opt(&n.params),
    }
}

/// Whether `a` is listed before `b`.
fn before_in_list(a: &UserNotification, b: &UserNotification) -> (r: bool)
    ensures
        r == listed_before(a@, b@),
{
    (!a.read && b.read) || (a.read == b.read && string_lt(b.created_at.as_str(), a.created_at.as_str()))
}

/// The notification as `username` sees it.
fn user_copy(n: &Notification, username: &str) -> (r: UserNotification)
    ensures
        r@ == user_note(n@, username@),
{
    UserNotification {
        id: n.id.clone(),
        target: n.target.clone(),
        title: n.title.clone(),
        body: copy_opt(&n.body),
        kind: n.kind.clone(),
        read: is_read(n, username),
        created_at: n.created_at.clone(),
        i18n: n.i18n,
        params: copy_opt(&n.params),
    }
}

/// Notification state.
pub struct NotificationState {
    db: NotificationDatabase,
}

impl NotificationState {
    /// The notifications, oldest first.
    pub closed spec fn notes(&self) -> Seq<NotificationView> {
        notes_view(self.db.notifications@)
    }

    /// State holding the given database.
    pub fn new(db: NotificationDatabase) -> (s: Self)
        ensures
            s.notes() == notes_view(db.notifications@),
    {
        NotificationState { db }
    }

    /// The database (for persisting it).
    pub fn database(&self) -> (d: &NotificationDatabase)
        ensures
            notes_view(d.notifications@) == self.notes(),
    {
        &self.db
    }

    fn push_new(&mut self, n: Notification) -> (r: Notification)
        ensures
            final(self).notes() == old(self).notes().push(n@),
            r@ == n@,
    {
        let copy = copy_notification(&n);
        let ghost before = self.db.notifications@;
        self.db.notifications.push(n);
        assert(notes_view(self.db.notifications@) =~= notes_view(before).push(copy@));
        copy
    }

    /// Create a notification with plain-text title and body.
    pub fn create(&mut self, target: &str, title: &str, body: Option<&str>, kind: &str) -> (n: Notification)
        ensures
            final(self).notes() == old(self).notes().push(n@),
            n@.target == target@ && n@.title == title@ && n@.kind == kind@,
            n@.body == match body { Some(b) => Some(b@), None => None },
            !n@.read && n@.read_by.len() == 0 && n@.dismissed_by.len() == 0,
            !n@.i18n && n@.params is None,
            n@.id.len() == 18 && n@.id.take(6) == "notif_"@,
    {
        let id = random_id("notif_");
        proof {
            reveal_strlit("notif_");
        }
        let n = Notification {
            id,
            target: String::from_str(target),
            title: String::from_str(title),
            body: match body {
                Some(b) => Some(String::from_str(b)),
                None => None,
            },
            kind: String::from_str(kind),
            read: false,
            read_by: Vec::new(),
            dismissed_by: Vec::new(),
            created_at: now_rfc3339(),
            i18n: false,
            params: None,
        };
        assert(names_view(n.read_by@) =~= Seq::<Seq<char>>::empty());
        assert(names_view(n.dismissed_by@) =~= Seq::<Seq<char>>::empty());
        self.push_new(n)
    }

    /// Create a notification whose title and body are locale keys, with
    /// interpolation values (JSON text).
    pub fn create_i18n(&mut self, target: &str, title_key: &str, body_key: Option<&str>, params: Option<String>,
        kind: &str) -> (n: Notification)
        ensures
            final(self).notes() == old(self).notes().push(n@),
            n@.target == target@ && n@.title == title_key@ && n@.kind == kind@,
            n@.body == match body_key { Some(b) => Some(b@), None => None },
            !n@.read && n@.read_by.len() == 0 && n@.dismissed_by.len() == 0,
            n@.i18n && n@.params == opt_view(params),
            n@.id.len() == 18 && n@.id.take(6) == "notif_"@,
    {
        let id = random_id("notif_");
        proof {
            reveal_strlit("notif_");
        }
        let n = Notification {
            id,
            target: String::from_str(target),
            title: String::from_str(title_key),
            body: match body_key {
                Some(b) => Some(String::from_str(b)),
                None => None,
            },
            kind: String::from_str(kind),
            read: false,
            read_by: Vec::new(),
            dismissed_by: Vec::new(),
            created_at: now_rfc3339(),
            i18n: true,
            params,
        };
        assert(names_view(n.read_by@) =~= Seq::<Seq<char>>::empty());
        assert(names_view(n.dismissed_by@) =~= Seq::<Seq<char>>::empty());
        self.push_new(n)
    }

    /// The notifications `username` sees (global and their own, not
    /// dismissed), unread first, then newest first.
    pub fn get_for_user(&self, username: &str) -> (r: Vec<UserNotification>)
        ensures
            r@.map_values(|n: UserNotification| n@).to_multiset() == visible_notes(self.notes(), username@).to_multiset(),
            forall|i: int, j: int| 0 <= i < j < r@.len() ==> !listed_before(#[trigger] r@[j]@, #[trigger] r@[i]@),
    {
        let ghost v = self.notes();
        let ghost p = |n: NotificationView| visible_to(n, username@);
        let mut vis: Vec<UserNotification> = Vec::new();
        let mut i: usize = 0;
        while i < self.db.notifications.len()
            invariant
                v == self.notes(),
                p == (|n: NotificationView| visible_to(n, username@)),
                i <= v.len(),
                vis@.map_values(|n: UserNotification| n@) == v.take(i as int).filter(p).map_values(
                    |n: NotificationView| user_note(n, username@)),
            decreases v.len() - i,
        {
            proof {
                assert(v.take(i + 1) =~= v.take(i as int).push(v[i as int]));
                v.take(i as int).lemma_filter_push(v[i as int], p);
            }
            let n = &self.db.notifications[i];
            if visible(n, username) {
                let ghost before = vis@;
                vis.push(user_copy(n, username));
                assert(vis@.map_values(|n: UserNotification| n@) =~= before.map_values(|n: UserNotification| n@).push(
                    user_note(v[i as int], username@)));
                assert(v.take(i + 1).filter(p).map_values(|n: NotificationView| user_note(n, username@)) =~= v.take(
                    i as int).filter(p).map_values(|n: NotificationView| user_note(n, username@)).push(
                    user_note(v[i as int], username@)));
            }
            i += 1;
        }
        assert(v.take(i as int) =~= v);
        let ghost target = vis@.map_values(|n: UserNotification| n@);
        let mut out: Vec<UserNotification> = Vec::new();
        assert(target.take(0) =~= out@.map_values(|n: UserNotification| n@));
        let mut k: usize = 0;
        while k < vis.len()
            invariant
                k <= vis@.len(),
                target == vis@.map_values(|n: UserNotification| n@),
                out@.map_values(|n: UserNotification| n@).to_multiset() == target.take(k as int).to_multiset(),
                forall|a: int, b: int| 0 <= a < b < out@.len() ==> !listed_before(#[trigger] out@[b]@, #[trigger] out@[a]@),
            decreases vis@.len() - k,
        {
            let ghost ob = out@.map_values(|n: UserNotification| n@);
            let x = copy_user_note(&vis[k]);
            let mut pos: usize = 0;
            while pos < out.len() && !before_in_list(&x, &out[pos])
                invariant
                    pos <= out@.len(),
                    forall|q: int| 0 <= q < pos ==> !listed_before(x@, #[trigger] out@[q]@),
                decreases out@.len() - pos,
            {
                pos += 1;
            }
            let ghost xv = x@;
            out.insert(pos, x);
            proof {
                assert(out@.map_values(|n: UserNotification| n@) =~= ob.insert(pos as int, xv));
                vstd::seq_lib::to_multiset_insert(ob, pos as int, xv);
                assert(target.take(k + 1) =~= target.take(k as int).push(xv));
                vstd::seq_lib::to_multiset_build(target.take(k as int), xv);
                assert forall|a: int, b: int| 0 <= a < b < out@.len() implies !listed_before(#[trigger] out@[b]@, #[trigger] out@[a]@) by {
                    if b == pos {
                        assert(out@[a]@ == ob[a]);
                    } else if a == pos {
                        assert(out@[b]@ == ob[b - 1]);
                        if listed_before(out@[b]@, xv) {
                            lemma_listed_before_trans(ob[b - 1], xv, ob[pos as int]);
                            if b - 1 == pos {
                                lemma_str_lt_irrefl(ob[pos as int].created_at);
                            }
                        }
                    } else if b < pos {
                        assert(out@[a]@ == ob[a] && out@[b]@ == ob[b]);
                    } else if a < pos {
                        assert(out@[a]@ == ob[a] && out@[b]@ == ob[b - 1]);
                    } else {
                        assert(out@[a]@ == ob[a - 1] && out@[b]@ == ob[b - 1]);
                    }
                }
            }
            k += 1;
        }
        assert(target.take(k as int) =~= target);
        out
    }

    /// The number of notifications visible to and unread by `username`.
    pub fn unread_count(&self, username: &str) -> (r: usize)
        ensures
            r == unread_of(self.notes(), username@),
    {
        let ghost v = self.notes();
        let ghost p = |n: NotificationView| visible_to(n, username@) && !read_for(n, username@);
        let mut count: usize = 0;
        let mut i: usize = 0;
        while i < self.db.notifications.len()
            invariant
                v == self.notes(),
                p == (|n: NotificationView| visible_to(n, username@) && !read_for(n, username@)),
                i <= v.len(),
                count == v.take(i as int).filter(p).len(),
                count <= i,
            decreases v.len() - i,
        {
            proof {
                assert(v.take(i + 1) =~= v.take(i as int).push(v[i as int]));
                v.take(i as int).lemma_filter_push(v[i as int], p);
            }
            let n = &self.db.notifications[i];
            if visible(n, username) && !is_read(n, username) {
                count += 1;
            }
            i += 1;
        }
        assert(v.take(i as int) =~= v);
        count
    }

    fn find(&self, username: &str, notification_id: &str) -> (r: Option<usize>)
        ensures
            match r {
                Some(i) => find_visible(self.notes(), notification_id@, username@, 0) == Some(i as int)
                    && i < self.notes().len(),
                None => find_visible(self.notes(), notification_id@, username@, 0) is None,
            },
    {
        let ghost v = self.notes();
        let mut i: usize = 0;
        while i < self.db.notifications.len()
            invariant
                v == self.notes(),
                i <= v.len(),
                find_visible(v, notification_id@, username@, 0) == find_visible(v, notification_id@, username@, i as int),
            decreases v.len() - i,
        {
            let n = &self.db.notifications[i];
            if str_eq(n.id.as_str(), notification_id) && visible(n, username) {
                return Some(i);
            }
            i += 1;
        }
        None
    }

    fn update_at(&mut self, i: usize, n: Notification)
        requires
            i < old(self).notes().len(),
        ensures
            final(self).notes() == old(self).notes().update(i as int, n@),
    {
        let ghost before = self.db.notifications@;
        self.db.notifications.set(i, n);
        assert(notes_view(self.db.notifications@) =~= notes_view(before).update(i as int, n@));
    }

    fn read_one(n: &Notification, username: &str) -> (r: Notification)
        ensures
            r@ == marked_read(n@, username@),
    {
        let mut c = copy_notification(n);
        if str_eq(c.target.as_str(), "global") {
            add_user_once(&mut c.read_by, username);
        } else {
            c.read = true;
        }
        c
    }

    fn dismiss_one(n: &Notification, username: &str) -> (r: Notification)
        ensures
            r@ == dismissed(n@, username@),
    {
        let mut c = copy_notification(n);
        add_user_once(&mut c.dismissed_by, username);
        c
    }

    /// Mark a notification read for `username` (the first one with this id
    /// visible to the user).
    pub fn mark_read(&mut self, username: &str, notification_id: &str) -> (r: Result<(), String>)
        ensures
            match find_visible(old(self).notes(), notification_id@, username@, 0) {
                Some(i) => r is Ok && final(self).notes() == old(self).notes().update(i,
                    marked_read(old(self).notes()[i], username@)),
                None => (r matches Err(m) && m@ == "Notification not found"@) && final(self).notes() == old(self).notes(),
            },
    {
        match self.find(username, notification_id) {
            Some(i) => {
                let n = Self::read_one(&self.db.notifications[i], username);
                self.update_at(i, n);
                Ok(())
            },
            None => Err(String::from_str("Notification not found")),
        }
    }

    /// Dismiss a notification for `username` (the first one with this id
    /// visible to the user).
    pub fn dismiss(&mut self, username: &str, notification_id: &str) -> (r: Result<(), String>)
        ensures
            match find_visible(old(self).notes(), notification_id@, username@, 0) {
                Some(i) => r is Ok && final(self).notes() == old(self).notes().update(i,
                    dismissed(old(self).notes()[i], username@)),
                None => (r matches Err(m) && m@ == "Notification not found"@) && final(self).notes() == old(self).notes(),
            },
    {
        match self.find(username, notification_id) {
            Some(i) => {
                let n = Self::dismiss_one(&self.db.notifications[i], username);
                self.update_at(i, n);
                Ok(())
            },
            None => Err(String::from_str("Notification not found")),
        }
    }

    /// Mark every notification visible to `username` read.
    pub fn mark_all_read(&mut self, username: &str)
        ensures
            final(self).notes() == read_all(old(self).notes(), username@),
    {
        let ghost v = self.notes();
        let mut i: usize = 0;
        while i < self.db.notifications.len()
            invariant
                v == old(self).notes(),
                self.notes().len() == v.len(),
                i <= v.len(),
                forall|j: int| 0 <= j < i ==> #[trigger] self.notes()[j] == (if visible_to(v[j], username@) {
                    marked_read(v[j], username@) } else { v[j] }),
                forall|j: int| i <= j < v.len() ==> #[trigger] self.notes()[j] == v[j],
            decreases v.len() - i,
        {
            assert(self.notes()[i as int] == self.db.notifications@[i as int]@);
            if visible(&self.db.notifications[i], username) {
                let n = Self::read_one(&self.db.notifications[i], username);
                self.update_at(i, n);
            }
            i += 1;
        }
        assert(self.notes() =~= read_all(v, username@));
    }

    /// Dismiss every notification visible to `username`.
    pub fn clear_all(&mut self, username: &str)
        ensures
            final(self).notes() == dismiss_all(old(self).notes(), username@),
    {
        let ghost v = self.notes();
        let mut i: usize = 0;
        while i < self.db.notifications.len()
            invariant
                v == old(self).notes(),
                self.notes().len() == v.len(),
                i <= v.len(),
                forall|j: int| 0 <= j < i ==> #[trigger] self.notes()[j] == (if visible_to(v[j], username@) {
                    dismissed(v[j], username@) } else { v[j] }),
                forall|j: int| i <= j < v.len() ==> #[trigger] self.notes()[j] == v[j],
            decreases v.len() - i,
        {
            assert(self.notes()[i as int] == self.db.notifications@[i as int]@);
            if visible(&self.db.notifications[i], username) {
                let n = Self::dismiss_one(&self.db.notifications[i], username);
                self.update_at(i, n);
            }
            i += 1;
        }
        assert(self.notes() =~= dismiss_all(v, username@));
    }
}

proof fn lemma_with_user_lists(users: Seq<Seq<char>>, username: Seq<char>)
    ensures
        lists_user(with_user(users, username), username),
{
    if !lists_user(users, username) {
        let w = users.push(username);
        assert(same_name(w[users.len() as int], username));
    }
}

/// Law: a notification a user has read counts as read for that user.
pub proof fn law_marked_read_is_read(n: NotificationView, username: Seq<char>)
    ensures
        read_for(marked_read(n, username), username),
{
    lemma_with_user_lists(n.read_by, username);
}

/// Law: a notification a user has dismissed is no longer shown to that user.
pub proof fn law_dismissed_is_hidden(n: NotificationView, username: Seq<char>)
    ensures
        !visible_to(dismissed(n, username), username),
{
    lemma_with_user_lists(n.dismissed_by, username);
}

/// Law: after marking everything read a user has no unread notification.
pub proof fn law_all_read_leaves_none_unread(v: Seq<NotificationView>, username: Seq<char>)
    ensures
        unread_of(read_all(v, username), username) == 0,
{
    let w = read_all(v, username);
    let p = |n: NotificationView| visible_to(n, username) && !read_for(n, username);
    assert forall|i: int| 0 <= i < w.len() implies !p(w[i]) by {
        if visible_to(v[i], username) {
            law_marked_read_is_read(v[i], username);
        }
    }
    w.lemma_all_neg_filter_empty(p);
}

/// Law: after clearing all, nothing is shown to the user.
pub proof fn law_cleared_leaves_none_visible(v: Seq<NotificationView>, username: Seq<char>)
    ensures
        forall|i: int| 0 <= i < v.len() ==> !visible_to(#[trigger] dismiss_all(v, username)[i], username),
{
    assert forall|i: int| 0 <= i < v.len() implies !visible_to(#[trigger] dismiss_all(v, username)[i], username) by {
        if visible_to(v[i], username) {
            law_dismissed_is_hidden(v[i], username);
        }
    }
}

proof fn lemma_filter_len_push<A>(s: Seq<A>, x: A, p: spec_fn(A) -> bool)
    ensures
        s.push(x).filter(p).len() == s.filter(p).len() + if p(x) { 1int } else { 0int },
{
    s.lemma_filter_push(x, p);
}

/// Two lists with the same entries have as many entries with any property.
proof fn lemma_filter_len_same_multiset<A>(a: Seq<A>, b: Seq<A>, p: spec_fn(A) -> bool)
    requires
        a.to_multiset() == b.to_multiset(),
    ensures
        a.filter(p).len() == b.filter(p).len(),
    decreases a.len(),
{
    broadcast use vstd::seq_lib::group_to_multiset_ensures;
    vstd::seq_lib::to_multiset_len(a);
    vstd::seq_lib::to_multiset_len(b);
    if a.len() == 0 {
        assert(b.len() == 0);
        assert(a.filter(p).len() == 0);
        assert(b.filter(p).len() == 0);
    } else {
        let x = a.last();
        let a1 = a.drop_last();
        assert(a1.push(x) =~= a);
        vstd::seq_lib::to_multiset_build(a1, x);
        assert(a.to_multiset().count(x) > 0);
        assert(b.to_multiset().count(x) > 0);
        assert(b.contains(x));
        let k = choose|k: int| 0 <= k < b.len() && b[k] == x;
        let b1 = b.remove(k);
        vstd::seq_lib::to_multiset_remove(b, k);
        assert(a1.to_multiset() =~= b1.to_multiset());
        lemma_filter_len_same_multiset(a1, b1, p);
        lemma_filter_len_push(a1, x, p);
        let t = b.take(k);
        let u = b.skip(k + 1);
        assert(b =~= t.push(x) + u);
        assert(b1 =~= t + u);
        Seq::filter_distributes_over_add(t.push(x), u, p);
        Seq::filter_distributes_over_add(t, u, p);
        lemma_filter_len_push(t, x, p);
    }
}

/// Filtering after a map is filtering by the composed property.
proof fn lemma_filter_map_len<A, B>(s: Seq<A>, f: spec_fn(A) -> B, p: spec_fn(B) -> bool)
    ensures
        s.map_values(f).filter(p).len() == s.filter(|x: A| p(f(x))).len(),
    decreases s.len(),
{
    if s.len() > 0 {
        let s1 = s.drop_last();
        assert(s1.push(s.last()) =~= s);
        assert(s1.map_values(f).push(f(s.last())) =~= s.map_values(f));
        lemma_filter_map_len(s1, f, p);
        lemma_filter_len_push(s1.map_values(f), f(s.last()), p);
        lemma_filter_len_push(s1, s.last(), |x: A| p(f(x)));
    } else {
        assert(s.map_values(f).len() == 0);
    }
}

/// Filtering twice is filtering by both properties.
proof fn lemma_filter_filter_len<A>(s: Seq<A>, p: spec_fn(A) -> bool, q: spec_fn(A) -> bool)
    ensures
        s.filter(p).filter(q).len() == s.filter(|x: A| p(x) && q(x)).len(),
    decreases s.len(),
{
    if s.len() > 0 {
        let s1 = s.drop_last();
        let x = s.last();
        assert(s1.push(x) =~= s);
        lemma_filter_filter_len(s1, p, q);
        s1.lemma_filter_push(x, p);
        lemma_filter_len_push(s1.filter(p), x, q);
        lemma_filter_len_push(s1, x, |y: A| p(y) && q(y));
    }
}

/// Law: the unread count of a user is the number of entries of the user's
/// notification list (any order of the visible notifications, as
/// `get_for_user` returns them) that are not read.
pub proof fn law_unread_count_is_unread_in_list(v: Seq<NotificationView>, username: Seq<char>, list: Seq<UserNoteView>)
    requires
        list.to_multiset() == visible_notes(v, username).to_multiset(),
    ensures
        unread_of(v, username) == list.filter(|n: UserNoteView| !n.read).len(),
{
    let vis = |n: NotificationView| visible_to(n, username);
    let unread = |n: UserNoteView| !n.read;
    let f = |n: NotificationView| user_note(n, username);
    let g = |n: NotificationView| unread(f(n));
    let w = v.filter(vis);
    assert(visible_notes(v, username) == w.map_values(f));
    lemma_filter_len_same_multiset(list, w.map_values(f), unread);
    lemma_filter_map_len(w, f, unread);
    assert(w.filter(|x: NotificationView| unread(f(x))) == w.filter(g));
    lemma_filter_filter_len(v, vis, g);
    let both = |x: NotificationView| vis(x) && g(x);
    let direct = |n: NotificationView| visible_to(n, username) && !read_for(n, username);
    assert(both =~= direct);
    assert(v.filter(both) == v.filter(direct));
    assert(unread_of(v, username) == v.filter(direct).len());
    assert(list.filter(unread) == list.filter(|n: UserNoteView| !n.read));
}

} // verus!
