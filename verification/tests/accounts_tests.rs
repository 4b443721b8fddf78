use comfyui_desktop::user_prefs::prefs_dir_name;
use comfyui_desktop::auth::{
    default_role, default_storage_limit, eq_ignore_ascii_case, hash_password, hex_encode, is_legacy_sha256,
    verify_password, Account, AuthDatabase, AuthState, SessionEntry,
};
use comfyui_desktop::clock::random_id;
use comfyui_desktop::config::{default_true, ServerMode};
use comfyui_desktop::log_buffer::{
    push_bounded, push_frontend_lines, push_rust_line, snapshot_frontend, snapshot_rust, LogBuffer, LogBuffers,
    MAX_LINES,
};
use comfyui_desktop::model_requests::{ModelRequestDatabase, ModelRequestState, RequestStatus};
use comfyui_desktop::notifications::{
    add_user_once, default_notif_type, user_list_contains, Notification, NotificationDatabase, NotificationState,
};

#[test]
fn account_defaults() {
    assert_eq!(default_storage_limit(), 1024 * 1024 * 1024);
    assert_eq!(default_role(), "user");
    assert!(default_true());
    assert_eq!(default_notif_type(), "info");
}

#[test]
fn password_hashes() {
    let h = hash_password("secret").unwrap();
    assert!(h.starts_with('$'));
    assert!(verify_password("secret", &h));
    assert!(!verify_password("wrong", &h));
    let legacy = "2bb80d537b1da3e38bd30361aa855686bde0eacd7162fef6a25fe97bf527a25b";
    assert!(is_legacy_sha256(legacy));
    assert!(verify_password("secret", legacy));
    assert!(!verify_password("other", legacy));
    assert!(!is_legacy_sha256("abc"));
    assert_eq!(hex_encode(&[0x00, 0xAB, 0x10]), "00ab10");
    assert!(eq_ignore_ascii_case("Alice", "aLICE"));
}

#[test]
fn created_account_can_log_in() {
    let mut auth = AuthState::new();
    assert!(!auth.has_accounts());
    auth.create_account("Alice", "pw1").unwrap();
    assert!(auth.has_accounts());
    assert_eq!(auth.create_account("alice", "x"), Err("Username already exists".to_string()));
    let (token, must_change) = auth.login("ALICE", "pw1").unwrap();
    assert_eq!(token.len(), 64);
    assert!(!must_change);
    assert_eq!(auth.validate_token(&token).as_deref(), Some("alice"));
    assert_eq!(auth.login("alice", "nope"), Err("Invalid username or password".to_string()));
    auth.logout(&token);
    assert_eq!(auth.validate_token(&token), None);
}

#[test]
fn expired_sessions_are_dropped() {
    let mut auth = AuthState::new();
    auth.create_account("bob", "pw").unwrap();
    let (token, _) = auth.login("bob", "pw").unwrap();
    assert_eq!(auth.validate_token_at(&token, Some(10)).as_deref(), Some("bob"));
    assert_eq!(auth.validate_token_at(&token, Some(60 * 60 * 24 * 365)), None);
    assert_eq!(auth.validate_token(&token), None);
}

#[test]
fn roles_limits_and_deletion() {
    let mut auth = AuthState::new();
    auth.create_account("carol", "pw").unwrap();
    auth.create_account("dave", "pw").unwrap();
    assert_eq!(auth.get_account_role("carol").as_deref(), Some("user"));
    auth.set_account_role("carol", "admin").unwrap();
    assert_eq!(auth.get_account_role("CAROL").as_deref(), Some("admin"));
    assert!(auth.set_account_role("zed", "admin").is_err());
    auth.set_storage_limit("dave", 1000).unwrap();
    assert_eq!(auth.get_storage_limit("dave"), 1000);
    assert_eq!(auth.get_storage_limit("nobody"), default_storage_limit());
    auth.set_modelhub_access("dave", true).unwrap();
    assert_eq!(auth.get_modelhub_access("dave"), Some(true));
    assert_eq!(auth.list_accounts(), vec!["carol".to_string(), "dave".to_string()]);
    let (token, _) = auth.login("dave", "pw").unwrap();
    auth.delete_account("dave").unwrap();
    assert_eq!(auth.validate_token(&token), None);
    assert!(auth.login("dave", "pw").is_err());
    assert!(auth.delete_account("dave").is_err());
    assert_eq!(auth.list_accounts_with_roles(), vec![("carol".to_string(), "admin".to_string())]);
}

#[test]
fn password_changes() {
    let mut auth = AuthState::new();
    auth.create_account("erin", "old").unwrap();
    assert_eq!(auth.change_password("erin", "old", "abc"), Err("New password must be at least 4 characters".to_string()));
    assert_eq!(auth.change_password("erin", "bad", "newpw"), Err("Current password is incorrect".to_string()));
    auth.change_password("erin", "old", "newpw").unwrap();
    assert!(auth.login("erin", "old").is_err());
    assert!(auth.login("erin", "newpw").is_ok());
    auth.reset_password("erin", "temp1").unwrap();
    let (_, must_change) = auth.login("erin", "temp1").unwrap();
    assert!(must_change);
}

#[test]
fn online_status_follows_activity() {
    let mut auth = AuthState::new();
    auth.create_account("fay", "pw").unwrap();
    auth.create_account("gus", "pw").unwrap();
    auth.touch_activity_at("FAY", 1_000);
    let rows = auth.users_status_at(1_500, 1_000);
    assert_eq!(rows.len(), 2);
    assert!(rows[0].2);
    assert!(!rows[1].2);
    let later = auth.users_status_at(5_000, 1_000);
    assert!(!later[0].2);
    assert!(auth.flush_last_online_at("2024-05-01T00:00:00+00:00"));
    let rows = auth.users_status_at(1_500, 1_000);
    assert_eq!(rows[0].4.as_deref(), Some("2024-05-01T00:00:00+00:00"));
    assert_eq!(rows[1].4, None);
}

#[test]
fn random_ids_have_prefix() {
    let id = random_id("req_");
    assert!(id.starts_with("req_"));
    assert_eq!(id.len(), 16);
    assert_ne!(random_id("x"), random_id("x"));
}

#[test]
fn server_modes() {
    assert_eq!(ServerMode::AutoLaunch.as_str(), "autolaunch");
    assert_eq!(ServerMode::Remote.as_str(), "remote");
}

#[test]
fn notifications_read_and_dismissed() {
    let mut st = NotificationState::new(NotificationDatabase { notifications: Vec::new() });
    let g = st.create("global", "Hello", Some("body"), "info");
    let p = st.create("alice", "Private", None, "warning");
    assert!(g.id.starts_with("notif_"));
    assert_eq!(st.unread_count("alice"), 2);
    assert_eq!(st.unread_count("bob"), 1);
    st.mark_read("alice", &g.id).unwrap();
    assert_eq!(st.unread_count("alice"), 1);
    assert_eq!(st.unread_count("bob"), 1);
    assert!(st.mark_read("alice", "missing").is_err());
    st.dismiss("bob", &g.id).unwrap();
    assert_eq!(st.unread_count("bob"), 0);
    st.mark_all_read("alice");
    assert_eq!(st.unread_count("alice"), 0);
    st.clear_all("alice");
    assert_eq!(st.unread_count("alice"), 0);
    assert_eq!(st.database().notifications.len(), 2);
    let _ = p;
}

#[test]
fn user_lists() {
    let mut users = vec!["a".to_string()];
    add_user_once(&mut users, "b");
    add_user_once(&mut users, "a");
    assert_eq!(users, vec!["a".to_string(), "b".to_string()]);
    assert!(user_list_contains(&users, "b"));
    assert!(!user_list_contains(&users, "c"));
}

#[test]
fn model_requests_handled_once() {
    let mut st = ModelRequestState::new(ModelRequestDatabase { requests: Vec::new() });
    let r = st.add_request("alice", 7, "Model", "LORA", "https://m", "f.safetensors", "https://f", 1.5f64.to_bits(), "loras");
    assert!(r.id.starts_with("req_"));
    assert!(r.status == RequestStatus::Pending);
    assert_eq!(st.get_requests(Some(RequestStatus::Pending)).len(), 1);
    let approved = st.approve_request(&r.id, "admin").unwrap();
    assert!(approved.status == RequestStatus::Approved);
    assert_eq!(approved.handled_by.as_deref(), Some("admin"));
    assert_eq!(st.approve_request(&r.id, "admin").err().as_deref(), Some("Request is not pending"));
    assert_eq!(st.deny_request("nope", "admin", None).err().as_deref(), Some("Request not found"));
    let r2 = st.add_request("bob", 8, "M2", "Checkpoint", "u", "g", "h", 0, "checkpoints");
    let denied = st.deny_request(&r2.id, "admin", Some("too big")).unwrap();
    assert_eq!(denied.deny_reason.as_deref(), Some("too big"));
    assert_eq!(st.get_requests_for_user("BOB").len(), 1);
    assert_eq!(st.get_requests(None).len(), 2);
    assert_eq!(st.get_requests(Some(RequestStatus::Pending)).len(), 0);
    assert_eq!(RequestStatus::Denied.as_str(), "denied");
}

#[test]
fn log_buffers_keep_latest_lines() {
    let mut b = LogBuffer::new();
    for i in 0..(MAX_LINES + 5) {
        push_bounded(&mut b, format!("line {}", i));
    }
    let snap = b.snapshot();
    assert_eq!(snap.len(), MAX_LINES);
    assert_eq!(snap[0], "line 5");
    assert_eq!(snap[MAX_LINES - 1], format!("line {}", MAX_LINES + 4));
    let mut all = LogBuffers::new();
    push_rust_line(&mut all, "r1".to_string());
    push_frontend_lines(&mut all, vec!["f1".to_string(), "f2".to_string()]);
    assert_eq!(snapshot_rust(&all), vec!["r1".to_string()]);
    assert_eq!(snapshot_frontend(&all), vec!["f1".to_string(), "f2".to_string()]);
}

fn account(name: &str) -> Account {
    Account {
        username: name.to_string(),
        password_hash: "x".repeat(64),
        must_change_password: false,
        role: "user".to_string(),
        created_at: "2024-01-01T00:00:00Z".to_string(),
        last_online: None,
        storage_limit_bytes: 1,
        can_use_modelhub: true,
    }
}

fn session(name: &str) -> SessionEntry {
    SessionEntry { username: name.to_string(), created_at: "2024-01-01T00:00:00Z".to_string() }
}

#[test]
fn loaded_state_is_normalized() {
    let db = AuthDatabase { accounts: vec![account("Alice"), account("alice"), account("bob")] };
    let sessions = vec![
        ("t1".to_string(), session("ALICE")),
        ("t2".to_string(), session("carol")),
        ("t3".to_string(), session("bob")),
        ("t4".to_string(), session("bob")),
    ];
    let ages = vec![Some(10), Some(10), Some(700_000), None];
    let (mut auth, db_changed, sessions_changed) = AuthState::from_loaded_at(db, sessions, &ages);
    assert!(db_changed);
    assert!(sessions_changed);
    assert_eq!(auth.list_accounts(), vec!["alice".to_string(), "bob".to_string()]);
    assert_eq!(auth.validate_token_at("t1", Some(10)).as_deref(), Some("alice"));
    assert_eq!(auth.validate_token_at("t2", Some(10)), None);
    assert_eq!(auth.validate_token_at("t3", Some(10)), None);
    assert_eq!(auth.validate_token_at("t4", Some(10)), None);

    let clean = AuthDatabase { accounts: vec![account("dora")] };
    let (_, db_changed, sessions_changed) =
        AuthState::from_loaded_at(clean, vec![("t".to_string(), session("dora"))], &vec![Some(1)]);
    assert!(!db_changed);
    assert!(!sessions_changed);
}

fn note(id: &str, target: &str, read: bool, created_at: &str) -> Notification {
    Notification {
        id: id.to_string(),
        target: target.to_string(),
        title: id.to_string(),
        body: None,
        kind: "info".to_string(),
        read,
        read_by: Vec::new(),
        dismissed_by: Vec::new(),
        created_at: created_at.to_string(),
        i18n: false,
        params: None,
    }
}

#[test]
fn notifications_listed_unread_first_then_newest() {
    let mut global_read = note("g_read", "global", false, "2024-03-01T00:00:00Z");
    global_read.read_by.push("alice".to_string());
    let mut dismissed = note("g_dismissed", "global", false, "2024-05-01T00:00:00Z");
    dismissed.dismissed_by.push("alice".to_string());
    let db = NotificationDatabase {
        notifications: vec![
            note("old_unread", "alice", false, "2024-01-01T00:00:00Z"),
            global_read,
            note("new_read", "alice", true, "2024-04-01T00:00:00Z"),
            note("new_unread", "global", false, "2024-02-01T00:00:00Z"),
            note("for_bob", "bob", false, "2024-06-01T00:00:00Z"),
            dismissed,
        ],
    };
    let st = NotificationState::new(db);
    let listed: Vec<String> = st.get_for_user("alice").into_iter().map(|n| n.id).collect();
    assert_eq!(listed, vec!["new_unread", "old_unread", "new_read", "g_read"]);
    let read_flags: Vec<bool> = st.get_for_user("alice").into_iter().map(|n| n.read).collect();
    assert_eq!(read_flags, vec![false, false, true, true]);
    let bob: Vec<String> = st.get_for_user("bob").into_iter().map(|n| n.id).collect();
    assert_eq!(bob, vec!["for_bob", "g_dismissed", "g_read", "new_unread"]);
}

#[test]
fn prefs_directory_names_are_sanitised() {
    assert_eq!(prefs_dir_name("../al ice!").as_deref(), Some("alice"));
    assert_eq!(prefs_dir_name("_admin").as_deref(), Some("_admin"));
    assert_eq!(prefs_dir_name("Jösé-2").as_deref(), Some("Jösé-2"));
    assert_eq!(prefs_dir_name("../.."), None);
    assert_eq!(prefs_dir_name(""), None);
}

#[test]
fn account_added_with_hash_and_refused_without() {
    let mut auth = AuthState::new();
    assert_eq!(auth.add_account_hashed("Carol", None, false), Err("Argon2 hashing failed".to_string()));
    assert!(!auth.has_accounts());
    let h = hash_password("pw9").unwrap();
    auth.add_account_hashed("Carol", Some(h), true).unwrap();
    let (_, must_change) = auth.login("carol", "pw9").unwrap();
    assert!(must_change);
}

#[test]
fn password_hash_stored_only_when_computed() {
    let mut auth = AuthState::new();
    auth.create_account("dave", "old1").unwrap();
    assert_eq!(auth.set_password_hash(0, None, true), Err("Argon2 hashing failed".to_string()));
    assert!(auth.login("dave", "old1").is_ok());
    auth.set_password_hash(0, hash_password("new2"), true).unwrap();
    assert!(auth.login("dave", "old1").is_err());
    let (_, must_change) = auth.login("dave", "new2").unwrap();
    assert!(must_change);
}

#[test]
fn unread_count_is_unread_entries_of_list() {
    let mut st = NotificationState::new(NotificationDatabase { notifications: Vec::new() });
    let g = st.create("global", "One", None, "info");
    st.create("erin", "Two", Some("b"), "info");
    st.create("frank", "Other", None, "info");
    st.mark_read("erin", &g.id).unwrap();
    let list = st.get_for_user("erin");
    assert_eq!(list.len(), 2);
    assert_eq!(st.unread_count("erin"), list.iter().filter(|n| !n.read).count());
    assert_eq!(st.unread_count("erin"), 1);
    st.mark_all_read("erin");
    assert_eq!(st.unread_count("erin"), 0);
    assert_eq!(st.get_for_user("erin").iter().filter(|n| !n.read).count(), 0);
}

#[test]
fn usernames_stay_lowercase_and_distinct() {
    let mut auth = AuthState::new();
    auth.create_account("Zed", "pw").unwrap();
    assert!(auth.create_account("ZED", "pw2").is_err());
    auth.create_account("Amy", "pw").unwrap();
    auth.delete_account("zed").unwrap();
    assert_eq!(auth.list_accounts(), vec!["amy".to_string()]);
}

#[test]
fn legacy_hash_upgraded_on_login() {
    let mut legacy = account("ivy");
    legacy.password_hash = "2bb80d537b1da3e38bd30361aa855686bde0eacd7162fef6a25fe97bf527a25b".to_string();
    let (mut auth, _, _) = AuthState::from_loaded_at(AuthDatabase { accounts: vec![legacy] }, Vec::new(), &Vec::new());
    assert!(auth.login("ivy", "other").is_err());
    assert!(is_legacy_sha256(&auth.database().accounts[0].password_hash));
    auth.login("IVY", "secret").unwrap();
    let stored = auth.database().accounts[0].password_hash.clone();
    assert!(!is_legacy_sha256(&stored));
    assert!(stored.starts_with("$argon2id$"));
    assert!(verify_password("secret", &stored));
    assert!(auth.login("ivy", "secret").is_ok());
}

#[test]
fn unreadable_session_time_is_refused() {
    let sessions = vec![
        ("bad".to_string(), SessionEntry { username: "bob".to_string(), created_at: "garbage".to_string() }),
        ("good".to_string(), SessionEntry { username: "bob".to_string(), created_at: "2024-01-01T00:00:00Z".to_string() }),
    ];
    let (mut auth, _, _) =
        AuthState::from_loaded_at(AuthDatabase { accounts: vec![account("bob")] }, sessions, &vec![Some(0), Some(0)]);
    assert_eq!(auth.validate_token("bad"), None);
    assert_eq!(auth.validate_token("bad"), None);
    let (token, _) = {
        let mut a2 = AuthState::new();
        a2.create_account("ann", "pass").unwrap();
        let t = a2.login("ann", "pass").unwrap();
        assert_eq!(a2.validate_token(&t.0).as_deref(), Some("ann"));
        t
    };
    assert_eq!(auth.validate_token(&token), None);
}
