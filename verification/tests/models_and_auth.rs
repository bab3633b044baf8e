use realtime_core::auth::{
    create_token, finish_external_auth, require_role, resolve_external_user, resolve_local_user,
    verify_credential, verify_token, AuthUser, AuthUserWithRole, Claims, ExternalResolution,
    Role, SupabaseUser, TOKEN_TTL_SECONDS,
};
use realtime_core::error::AppError;
use realtime_core::models::{
    ApiResponse, ErrorResponse, PaginationMeta, Post, PostWithAuthor, User,
};
use realtime_core::session::AuthError;

const ALICE: u128 = 0xa11ce;

#[test]
fn token_round_trip_preserves_the_claims() {
    let secret = b"unit-test-secret";
    let now = chrono::Utc::now().timestamp();
    let claims = Claims::new(ALICE, "alice@example.com".to_string(), now);
    assert_eq!(claims.iat, now);
    assert_eq!(claims.exp, now + TOKEN_TTL_SECONDS);
    assert_eq!(claims.iss, "realtime-backend");

    let token = create_token(secret, &claims).expect("signing with a symmetric key");
    let back = verify_token(secret, &token).expect("a fresh token verifies");
    assert_eq!(back.sub, ALICE);
    assert_eq!(back.email, "alice@example.com");
    assert_eq!(back.exp, claims.exp);
    assert_eq!(back.iat, claims.iat);
    assert_eq!(back.iss, "realtime-backend");

    assert_eq!(verify_credential(secret, &token), Ok(ALICE));
}

#[test]
fn wrong_secret_or_garbage_is_rejected() {
    let now = chrono::Utc::now().timestamp();
    let claims = Claims::new(ALICE, "alice@example.com".to_string(), now);
    let token = create_token(b"key-one", &claims).unwrap();
    assert!(verify_token(b"key-two", &token).is_err());
    assert_eq!(verify_credential(b"key-two", &token), Err(AuthError::Rejected));
    assert_eq!(
        verify_credential(b"key-one", "garbage-token"),
        Err(AuthError::Rejected)
    );
}

#[test]
fn roles_parse_in_any_letter_case() {
    assert_eq!(Role::from_str("user"), Some(Role::User));
    assert_eq!(Role::from_str("ADMIN"), Some(Role::Admin));
    assert_eq!(Role::from_str("Moderator"), Some(Role::Moderator));
    assert_eq!(Role::from_str("owner"), None);
    assert_eq!(Role::from_str(""), None);
}

fn principal(role: Role) -> AuthUserWithRole {
    let now = 1_700_000_000;
    AuthUserWithRole {
        user: AuthUser {
            user_id: ALICE,
            email: "alice@example.com".to_string(),
            claims: Claims::new(ALICE, "alice@example.com".to_string(), now),
        },
        role,
    }
}

#[test]
fn require_role_admits_the_role_and_admins_only() {
    assert!(require_role(Role::Moderator, principal(Role::Moderator)).is_ok());
    assert!(require_role(Role::Moderator, principal(Role::Admin)).is_ok());
    match require_role(Role::Moderator, principal(Role::User)) {
        Err(AppError::Forbidden(m)) => assert_eq!(m, "Insufficient permissions"),
        other => panic!("expected a permission error, got {:?}", other.map(|_| ())),
    }
}

#[test]
fn error_variants_map_to_their_status_and_codes() {
    let cases: Vec<(AppError, u16, &str)> = vec![
        (AppError::bad_request("x".to_string()), 400, "BAD_REQUEST"),
        (AppError::unauthorized("x".to_string()), 401, "UNAUTHORIZED"),
        (AppError::forbidden("x".to_string()), 403, "FORBIDDEN"),
        (AppError::not_found("x".to_string()), 404, "NOT_FOUND"),
        (AppError::conflict("x".to_string()), 409, "CONFLICT"),
        (AppError::unprocessable("x".to_string()), 422, "UNPROCESSABLE_ENTITY"),
        (AppError::too_many_requests("x".to_string()), 429, "TOO_MANY_REQUESTS"),
        (AppError::internal("x".to_string()), 500, "INTERNAL_SERVER_ERROR"),
    ];
    for (e, status, code) in cases {
        assert_eq!(e.status_code(), status);
        assert_eq!(e.error_code(), code);
    }
}

#[test]
fn user_messages_leak_nothing_internal() {
    assert_eq!(
        AppError::not_found("post 7 is gone".to_string()).user_message(),
        "post 7 is gone"
    );
    assert_eq!(
        AppError::unauthorized("jwt exp check failed".to_string()).user_message(),
        "Authentication required"
    );
    assert_eq!(
        AppError::internal("db connection pool exhausted".to_string()).user_message(),
        "An internal error occurred"
    );
    assert_eq!(
        AppError::too_many_requests("bucket empty".to_string()).user_message(),
        "Too many requests. Please try again later"
    );
}

#[test]
fn pagination_meta_rounds_pages_up() {
    let m = PaginationMeta::new(2, 10, 25);
    assert_eq!(m.total_pages, 3);
    assert!(m.has_next);
    assert!(m.has_prev);

    let first = PaginationMeta::new(1, 10, 25);
    assert!(first.has_next);
    assert!(!first.has_prev);

    let empty = PaginationMeta::new(1, 10, 0);
    assert_eq!(empty.total_pages, 0);
    assert!(!empty.has_next);

    let exact = PaginationMeta::new(3, 5, 15);
    assert_eq!(exact.total_pages, 3);
    assert!(!exact.has_next);
    assert!(exact.has_prev);
}

#[test]
fn api_and_error_responses_carry_what_they_were_given() {
    let ok = ApiResponse::success(7u32);
    assert_eq!(ok.data, 7);
    assert!(ok.message.is_none());
    assert!(ok.success);

    let cheered = ApiResponse::success_with_message(7u32, "saved".to_string());
    assert_eq!(cheered.message, Some("saved".to_string()));

    let plain = ErrorResponse::new("boom".to_string());
    assert_eq!(plain.message, "boom");
    assert!(plain.code.is_none() && plain.details.is_none() && !plain.success);

    let coded = ErrorResponse::with_code("boom".to_string(), "VALIDATION_ERROR".to_string());
    assert_eq!(coded.code, Some("VALIDATION_ERROR".to_string()));

    let detailed = ErrorResponse::with_details("boom".to_string(), "{\"field\":[]}".to_string());
    assert_eq!(detailed.details, Some("{\"field\":[]}".to_string()));
}

#[test]
fn post_from_flat_row_nests_the_author() {
    let row = PostWithAuthor {
        id: 1,
        title: "title".to_string(),
        content: "content".to_string(),
        author_id: ALICE,
        created_at: 100,
        updated_at: 200,
        author_email: "alice@example.com".to_string(),
        author_username: Some("alice".to_string()),
        author_full_name: None,
        author_avatar_url: None,
        author_bio: Some("hi".to_string()),
        author_created_at: 10,
        author_updated_at: 20,
        likes_count: 3,
        comments_count: 4,
        is_liked: true,
    };
    let post = Post::from(row);
    assert_eq!(post.id, 1);
    assert_eq!(post.author_id, ALICE);
    assert_eq!(post.author.id, ALICE);
    assert_eq!(post.author.email, "alice@example.com");
    assert_eq!(post.author.username, Some("alice".to_string()));
    assert_eq!(post.author.bio, Some("hi".to_string()));
    assert_eq!(post.author.created_at, 10);
    assert_eq!(post.author.updated_at, 20);
    assert_eq!(post.created_at, 100);
    assert_eq!(post.updated_at, 200);
    assert_eq!(post.likes_count, 3);
    assert_eq!(post.comments_count, 4);
    assert!(post.is_liked);
}

#[test]
fn local_token_resolution_requires_a_stored_account() {
    let now = 1_700_000_000;
    let claims = Claims::new(ALICE, "alice@example.com".to_string(), now);
    let stored = User {
        id: ALICE,
        email: "alice@example.com".to_string(),
        username: None,
        full_name: None,
        avatar_url: None,
        bio: None,
        created_at: 1,
        updated_at: 2,
    };
    let ok = resolve_local_user(claims.clone(), Ok(Some(stored))).expect("stored account");
    assert_eq!(ok.user_id, ALICE);
    assert_eq!(ok.email, "alice@example.com");

    match resolve_local_user(claims.clone(), Ok(None)) {
        Err(AppError::Unauthorized(m)) => assert_eq!(m, "User not found"),
        other => panic!("missing account must fail auth, got {:?}", other.map(|_| ())),
    }
    match resolve_local_user(claims, Err(())) {
        Err(AppError::InternalServer(m)) => assert_eq!(m, "Database error"),
        other => panic!("store failure is internal, got {:?}", other.map(|_| ())),
    }
}

#[test]
fn external_resolution_reuses_or_creates_the_account() {
    let su = SupabaseUser {
        id: ALICE,
        email: "alice@example.com".to_string(),
        email_verified: true,
        username: Some("alice".to_string()),
        full_name: Some("Alice A.".to_string()),
        avatar_url: None,
    };
    match resolve_external_user(su, Ok(None)) {
        Ok(ExternalResolution::CreateFrom(c)) => {
            assert_eq!(c.id, ALICE);
            assert_eq!(c.email, "alice@example.com");
            assert_eq!(c.username, Some("alice".to_string()));
            assert_eq!(c.full_name, Some("Alice A.".to_string()));
            assert_eq!(c.avatar_url, None);
            assert_eq!(c.bio, None);
        },
        other => panic!("a new account is to be created, got {:?}", other.map(|_| ())),
    }

    let stored = User {
        id: ALICE,
        email: "alice@example.com".to_string(),
        username: None,
        full_name: None,
        avatar_url: None,
        bio: None,
        created_at: 1,
        updated_at: 2,
    };
    match resolve_external_user(
        SupabaseUser {
            id: ALICE,
            email: "alice@example.com".to_string(),
            email_verified: true,
            username: None,
            full_name: None,
            avatar_url: None,
        },
        Ok(Some(stored.clone())),
    ) {
        Ok(ExternalResolution::UseExisting(u)) => assert_eq!(u.id, ALICE),
        other => panic!("the stored account is used, got {:?}", other.map(|_| ())),
    }

    let principal = finish_external_auth(stored, 1_700_000_000);
    assert_eq!(principal.user_id, ALICE);
    assert_eq!(principal.claims.iat, 1_700_000_000);
    assert_eq!(principal.claims.exp, 1_700_000_000 + TOKEN_TTL_SECONDS);
}
