use quiz_engine::validation::{
    validate_email, validate_game_code, validate_password, validate_url, validate_username,
};

#[test]
fn test_validate_email() {
    assert!(validate_email("example@university.edu.tr"));
    assert!(validate_email("example@university.edu"));
    assert!(!validate_email("example@university.com"));
    assert!(!validate_email("example@invalid"));
    assert!(!validate_email("invalid-email"));
}

#[test]
fn test_validate_username() {
    assert!(validate_username("validuser"));
    assert!(validate_username("valid_user_123"));
    assert!(!validate_username("**guest"));
    assert!(!validate_username("ab"));
    assert!(!validate_username("invalid username"));
}

#[test]
fn test_validate_password() {
    assert!(validate_password("password123"));
    assert!(validate_password("secureP@ssw0rd"));
    assert!(!validate_password("short"));
}

#[test]
fn test_validate_game_code() {
    assert!(validate_game_code("ABC123"));
    assert!(validate_game_code("DEFG45"));
    assert!(!validate_game_code("abc123"));
    assert!(!validate_game_code("AB12"));
    assert!(!validate_game_code("ABCDEF1"));
}

#[test]
fn test_validate_url() {
    assert!(validate_url("https://example.com"));
    assert!(validate_url("http://localhost:3000"));
    assert!(!validate_url("ftp://example.com"));
    assert!(!validate_url("example.com"));
}

#[test]
fn email_edge_cases() {
    assert!(validate_email("a.b+c_d@mail-srv.school.edu"));
    assert!(validate_email("x@a.edu.tr"));
    assert!(!validate_email(".x@school.edu"));
    assert!(!validate_email("x.@school.edu"));
    assert!(!validate_email("X@school.edu"));
    assert!(!validate_email("x@school..edu"));
    assert!(!validate_email("x@-school.edu"));
    assert!(!validate_email("@school.edu"));
    assert!(!validate_email(""));
    // the domain field stops at a second `@`
    assert!(validate_email("x@school.edu@other.com"));
    assert!(!validate_email("x@other.com@school.edu"));
}

#[test]
fn username_and_password_bounds() {
    assert!(validate_username("abc"));
    assert!(validate_username(&"a".repeat(30)));
    assert!(!validate_username(&"a".repeat(31)));
    assert!(!validate_username(""));
    assert!(validate_password(&"p".repeat(8)));
    assert!(validate_password(&"p".repeat(100)));
    assert!(!validate_password(&"p".repeat(101)));
    assert!(!validate_password("passw\nord123"));
}

#[test]
fn game_code_and_url_edges() {
    assert!(!validate_game_code(""));
    assert!(!validate_game_code("ABC-12"));
    assert!(validate_game_code("000000"));
    assert!(!validate_url(""));
    assert!(!validate_url("http:/x"));
    assert!(validate_url("http://"));
}
