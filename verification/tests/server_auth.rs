use speakv::packet::{NetworkPacket, Role};
use speakv::server::ServerState;

fn new_state() -> ServerState {
    let mut state = ServerState::new("Lobby".to_string());
    state.store.create_channel("Lobby".to_string());
    state.store.create_channel("AFK".to_string());
    state
}

fn register(state: &mut ServerState, addr: u64, user: &str, pw: &str) -> (bool, Option<Role>) {
    let out = state.handle_register(addr, user.to_string(), pw.to_string());
    assert_eq!(out.len(), 1);
    assert_eq!(out[0].addr, addr);
    match &out[0].packet {
        NetworkPacket::AuthResponse { success, role, .. } => (*success, *role),
        other => panic!("unexpected reply {:?}", other),
    }
}

fn login(state: &mut ServerState, addr: u64, user: &str, pw: &str) -> (bool, String, Option<Role>) {
    let (out, _) = state.handle_login(addr, user.to_string(), pw.to_string(), 0);
    assert_eq!(out.len(), 1);
    match &out[0].packet {
        NetworkPacket::AuthResponse { success, message, role, .. } => {
            (*success, message.clone(), *role)
        },
        other => panic!("unexpected reply {:?}", other),
    }
}

#[test]
fn registration_stocks_the_default_nickname_color() {
    let mut state = new_state();
    register(&mut state, 1, "alice", "pw1");
    assert_eq!(state.store.accounts[0].nick_color, "#FFFFFF");
}

#[test]
fn first_account_is_admin_then_users() {
    let mut state = new_state();
    let (ok, _) = register(&mut state, 1, "alice", "pw1");
    assert!(ok);
    assert_eq!(state.store.accounts[0].role, Role::Admin);
    let (ok, _) = register(&mut state, 2, "bob", "pw2");
    assert!(ok);
    assert_eq!(state.store.accounts[1].role, Role::User);
    let (ok, _) = register(&mut state, 3, "carol", "pw3");
    assert!(ok);
    assert_eq!(state.store.accounts[2].role, Role::User);
}

#[test]
fn duplicate_username_is_refused() {
    let mut state = new_state();
    let (ok, _) = register(&mut state, 1, "alice", "pw1");
    assert!(ok);
    let (ok, _) = register(&mut state, 2, "alice", "other");
    assert!(!ok);
    assert_eq!(state.store.accounts.len(), 1);
}

#[test]
fn banned_account_login_fails_even_with_correct_credential() {
    let mut state = new_state();
    register(&mut state, 1, "alice", "pw1");
    register(&mut state, 2, "mallory", "pw2");
    state.handle_handshake(9, "mallory".to_string(), 0);
    // Flag the account banned, exactly as a durable admin ban records it.
    state.store.set_banned(&"mallory".to_string());
    let (ok, message, role) = login(&mut state, 9, "mallory", "pw2");
    assert!(!ok);
    assert_eq!(message, "You are banned from this server");
    assert!(role.is_none());
}

#[test]
fn wrong_password_and_unknown_user_are_refused() {
    let mut state = new_state();
    register(&mut state, 1, "alice", "pw1");
    state.handle_handshake(9, "alice".to_string(), 0);
    let (ok, message, _) = login(&mut state, 9, "alice", "wrong");
    assert!(!ok);
    assert_eq!(message, "Invalid password");
    let (ok, message, _) = login(&mut state, 9, "nobody", "pw");
    assert!(!ok);
    assert_eq!(message, "User not found");
}

#[test]
fn successful_login_authenticates_and_reports_role() {
    let mut state = new_state();
    register(&mut state, 1, "alice", "pw1");
    state.handle_handshake(9, "alice".to_string(), 0);
    let (ok, message, role) = login(&mut state, 9, "alice", "pw1");
    assert!(ok);
    assert_eq!(message, "Login successful!");
    assert_eq!(role, Some(Role::Admin));
    assert!(state.registry.sessions[0].is_authenticated);
}

#[test]
fn ban_by_admin_removes_sessions_and_flags_account() {
    let mut state = new_state();
    register(&mut state, 1, "alice", "pw1");
    register(&mut state, 2, "bob", "pw2");
    state.handle_handshake(10, "alice".to_string(), 0);
    login(&mut state, 10, "alice", "pw1");
    state.handle_handshake(11, "bob".to_string(), 0);
    login(&mut state, 11, "bob", "pw2");
    let broadcast = state.handle_admin(
        10,
        &"bob".to_string(),
        speakv::packet::AdminActionType::Ban,
    );
    assert!(broadcast);
    assert_eq!(state.registry.sessions.len(), 1);
    assert!(state.store.accounts[1].is_banned);
    // A non-admin's command is silently ignored.
    let broadcast = state.handle_admin(
        11,
        &"alice".to_string(),
        speakv::packet::AdminActionType::Kick,
    );
    assert!(!broadcast);
}
