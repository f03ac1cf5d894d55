use lsl::auth::{
    authorize, avatar_cdn_path, avatar_upload_path, change_redirect, check_avatar_field, check_bio,
    check_combo, check_csrf, check_password, check_registration, check_username, deletion_result,
    discord_link_action, hash_password, login_redirect, new_avatar, redirect_location, submission,
    verify_password, youtube_link, AvatarUpload, LinkAction, User, UserPermissions,
};
use lsl::auth::PgUser;
use lsl::time::Timestamp;
use lsl::types::{ApiError, Discord, Permissions, PgPermissionToken};

fn user_with(bytes: &[u8]) -> User {
    let mut u = User::default();
    u.permissions = bit_vec::BitVec::from_bytes(bytes);
    u
}

#[test]
fn guest_may_only_view() {
    let guest = User::default();
    assert_eq!(guest.id, -1);
    assert_eq!(guest.username, "Guest");
    assert_eq!(guest.pfp, "default");
    assert!(guest.has(&Permissions::View));
    assert!(!guest.has(&Permissions::Submit));
    assert!(!guest.has(&Permissions::Administrator));
}

#[test]
fn administrator_may_do_anything() {
    let admin = user_with(&[0, 0, 0, 0, 0, 0, 0, 1]);
    assert!(admin.has(&Permissions::ManageSections));
    assert!(admin.has(&Permissions::Verify));
    let trusted = user_with(&[0b0010_0000]);
    assert!(trusted.has(&Permissions::Trusted));
    assert!(!trusted.has(&Permissions::Delete));
}

#[test]
fn authorize_answers_unauthenticated_and_unauthorized() {
    let guest = User::default();
    assert_eq!(authorize(None, &Permissions::View), Err(ApiError::Unauthenticated));
    assert_eq!(authorize(Some(&guest), &Permissions::View), Ok(()));
    assert_eq!(authorize(Some(&guest), &Permissions::Submit), Err(ApiError::Unauthorized));
}

#[test]
fn password_and_username_rules() {
    assert!(!check_password(&"short".to_string()));
    assert!(check_password(&"longenough".to_string()));
    assert!(check_password(&"x".repeat(256)));
    assert!(!check_password(&"x".repeat(257)));
    assert!(check_username(&"surf_er-1.2".to_string()));
    assert!(!check_username(&"a".to_string()));
    assert!(!check_username(&"bad name".to_string()));
    assert!(!check_username(&"x".repeat(33)));
}

#[test]
fn registration_needs_matching_passwords() {
    let u = "surfer".to_string();
    let p = "password1".to_string();
    assert_eq!(check_registration(&u, &p, &p.clone()), Ok(()));
    assert_eq!(check_registration(&u, &p, &"password2".to_string()), Err(ApiError::InvalidCredentials));
    assert_eq!(check_registration(&"!".to_string(), &p, &p.clone()), Err(ApiError::InvalidCredentials));
}

#[test]
fn bio_and_combo_rules() {
    assert_eq!(check_bio(&None), Ok(()));
    assert_eq!(check_bio(&Some("x".repeat(512))), Ok(()));
    assert_eq!(check_bio(&Some("x".repeat(513))), Err(ApiError::InvalidCredentials));
    assert_eq!(check_combo(&None, &None), Ok(()));
    assert_eq!(check_combo(&Some("1".into()), &Some("Standard".into())), Ok(()));
    assert_eq!(check_combo(&Some("1".into()), &None), Err(ApiError::InvalidInput));
    assert_eq!(check_combo(&None, &Some("Standard".into())), Err(ApiError::InvalidInput));
}

#[test]
fn password_hash_round_trip() {
    let hash = hash_password(&"hunter22".to_string()).unwrap();
    assert!(hash.starts_with("$argon2"));
    assert_eq!(verify_password(&hash, &"hunter22".to_string()), Ok(()));
    assert_eq!(verify_password(&hash, &"hunter23".to_string()), Err(ApiError::InvalidCredentials));
    assert_eq!(
        verify_password(&"not a hash".to_string(), &"hunter22".to_string()),
        Err(ApiError::ServerError("Login failed: Failed to hash password".into()))
    );
}

#[test]
fn redirects() {
    assert_eq!(redirect_location("user/@me/dashboard"), Some("/user/@me/dashboard".to_string()));
    assert_eq!(redirect_location("bad\nline"), None);
    assert_eq!(redirect_location("caf\u{e9}"), Some("/".to_string()));
    assert_eq!(login_redirect(&None), "/");
    assert_eq!(login_redirect(&Some("runs".into())), "/runs");
    assert_eq!(login_redirect(&Some("a\rb".into())), "/");
    assert_eq!(change_redirect(&None), None);
    assert_eq!(change_redirect(&Some("home".into())), Some("/home".to_string()));
}

#[test]
fn avatar_upload_checks_jpeg_head_and_size() {
    let mut up = AvatarUpload::new();
    assert_eq!(up.accept_chunk(&[0xFF, 0xD8, 0xFF, 0xE0]), Ok(()));
    assert_eq!(up.received, 4);
    assert_eq!(up.accept_chunk(&[1, 2, 3]), Ok(()));
    let big = vec![0u8; 4 * 1024 * 1024];
    assert_eq!(up.accept_chunk(&big), Err(ApiError::InvalidInput));
    let mut png = AvatarUpload::new();
    assert_eq!(png.accept_chunk(&[0x89, 0x50, 0x4E, 0x47]), Err(ApiError::InvalidInput));
    let mut exact = AvatarUpload::new();
    let mut first = vec![0u8; 4 * 1024 * 1024];
    first[0] = 0xFF;
    first[1] = 0xD8;
    first[2] = 0xFF;
    assert_eq!(exact.accept_chunk(&first), Ok(()));
    assert_eq!(exact.accept_chunk(&[0]), Err(ApiError::InvalidInput));
}

#[test]
fn avatar_names_and_paths() {
    let a = new_avatar();
    assert_eq!(a.name.len(), 64);
    assert!(a.name.chars().all(|c| c.is_ascii_alphanumeric()));
    assert_eq!(a.upload_path, format!("target/site/cdn/users/{}.jpg", a.name));
    assert_eq!(avatar_upload_path(&"abc".to_string()), "target/site/cdn/users/abc.jpg");
    assert_eq!(avatar_cdn_path(&"abc".to_string()), "../cdn/users/abc.jpg");
    assert_eq!(check_avatar_field(&Some("avatar".into())), Ok(()));
    assert_eq!(check_avatar_field(&Some("file".into())), Err(ApiError::InvalidInput));
    assert_eq!(check_avatar_field(&None), Err(ApiError::InvalidInput));
}

#[test]
fn discord_links() {
    let link = |s: &str| Discord { name: "n".into(), snowflake: s.into() };
    let links = vec![link("1"), link("2")];
    assert_eq!(discord_link_action(&links, &"2".to_string()), Ok(LinkAction::Update));
    assert_eq!(discord_link_action(&links, &"3".to_string()), Ok(LinkAction::Insert));
    let full = vec![link("1"), link("2"), link("3"), link("4"), link("5")];
    assert_eq!(discord_link_action(&full, &"1".to_string()), Err(ApiError::AlreadyExists));
    assert_eq!(check_csrf(&"abc".to_string(), &"abc".to_string()), Ok(()));
    assert_eq!(check_csrf(&"abc".to_string(), &"abd".to_string()), Err(ApiError::InvalidCredentials));
}

#[test]
fn deletions_and_submissions() {
    assert_eq!(deletion_result(1), Ok(()));
    assert_eq!(deletion_result(0), Err(ApiError::NotFound));
    assert_eq!(youtube_link(&"dQw4w9WgXcQ".to_string()), "https://youtube.com/watch?v=dQw4w9WgXcQ");
    let guest = User::default();
    assert!(matches!(submission(&guest, 7, "vid".into(), 0), Err(ApiError::InvalidYtId)));
    let s = submission(&guest, 7, "vid".into(), 1).ok().unwrap();
    assert_eq!(s.section_id, 7);
    assert_eq!(s.user_id, -1);
    assert_eq!(s.proof, "https://youtube.com/watch?v=vid");
    assert!(!s.verified);
    assert_eq!(s.redirect, "/leaderboard/map/7");
    let trusted = user_with(&[0b0010_0000]);
    assert!(submission(&trusted, 7, "vid".into(), 1).ok().unwrap().verified);
}

#[test]
fn stored_users_hold_their_tokens() {
    let row = || PgUser {
        id: 4,
        name: "zoom".into(),
        bio: Some("hi".into()),
        created_at: Timestamp { secs: 0, nanos: 0 },
        password: "$argon2id$hash".into(),
        pfp: "pic".into(),
    };
    let tokens = vec![PgPermissionToken { token: Permissions::Submit }, PgPermissionToken { token: Permissions::Verify }];
    let (u, hash) = row().into_user(Some(tokens), None);
    assert_eq!(u.id, 4);
    assert_eq!(u.username, "zoom");
    assert_eq!(u.bio, Some("hi".to_string()));
    assert_eq!(hash.0, "$argon2id$hash");
    assert_eq!(u.permissions.len(), 64);
    assert!(u.has(&Permissions::Submit));
    assert!(u.has(&Permissions::Verify));
    assert!(!u.has(&Permissions::View));
    let (admin, _) = row().into_user(Some(vec![PgPermissionToken { token: Permissions::Administrator }]), None);
    assert!(admin.has(&Permissions::ManageUsers));
    let (nobody, _) = row().into_user(None, None);
    assert!(!nobody.has(&Permissions::View));
}

#[test]
fn password_and_username_count_characters() {
    assert!(!check_password(&"éééé".to_string()));
    assert!(check_password(&"éééééééé".to_string()));
    assert!(check_username(&"ab".to_string()));
    assert!(check_username(&"a_b-c.9".to_string()));
    assert!(check_username(&"x".repeat(32)));
    assert!(!check_username(&"a".to_string()));
    assert!(!check_username(&"x".repeat(33)));
    assert!(!check_username(&"a b".to_string()));
    assert!(!check_username(&"a@b".to_string()));
    assert!(!check_username(&"héllo".to_string()));
}

#[test]
fn new_users_and_guests() {
    assert_eq!(
        lsl::auth::new_user_permissions(),
        vec![Permissions::View, Permissions::Submit, Permissions::Trusted, Permissions::Delete]
    );
    assert!(User::default().ranks.is_empty());
    let rank = lsl::home::RankSummary { patch: "2.13".into(), layout: None, category: None, title: lsl::types::Title::Surfer, rank: 3 };
    let row = PgUser {
        id: 1,
        name: "a".into(),
        bio: None,
        created_at: Timestamp { secs: 0, nanos: 0 },
        password: "h".into(),
        pfp: "p".into(),
    };
    let (u, _) = row.into_user(None, Some(vec![rank.clone()]));
    assert_eq!(u.ranks, vec![rank]);
}
