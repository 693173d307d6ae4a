use dark_cli::error::DarkError;
use dark_cli::session::{auth_probe_url, derive_session, extract_csrf_token};

#[test]
fn extracts_token_from_exact_declaration() {
    let tok = extract_csrf_token("const csrfToken = \"abc123\";");
    assert_eq!(tok, Some("abc123".to_string()));
}

#[test]
fn extracts_token_embedded_in_html() {
    let body = "<html><script>\nvar x = 1;\nconst csrfToken = \"tok-9f\";\n</script></html>";
    assert_eq!(extract_csrf_token(body), Some("tok-9f".to_string()));
}

#[test]
fn extracts_empty_token() {
    assert_eq!(extract_csrf_token("const csrfToken = \"\";"), Some(String::new()));
}

#[test]
fn first_declaration_wins() {
    let body = "const csrfToken = \"first\"; const csrfToken = \"second\";";
    assert_eq!(extract_csrf_token(body), Some("first".to_string()));
}

#[test]
fn unterminated_declaration_yields_none() {
    assert_eq!(extract_csrf_token("const csrfToken = \"abc"), None);
    assert_eq!(extract_csrf_token("const csrfToken = \"abc\"x"), None);
    assert_eq!(extract_csrf_token("nothing of interest"), None);
    assert_eq!(extract_csrf_token(""), None);
}

#[test]
fn skips_bad_declaration_for_later_good_one() {
    let body = "const csrfToken = \"bad\"x const csrfToken = \"good\";";
    assert_eq!(extract_csrf_token(body), Some("good".to_string()));
}

#[test]
fn derive_session_succeeds_on_ok_probe() {
    let r = derive_session(
        200,
        Some("session=deadbeef; Path=/".to_string()),
        "const csrfToken = \"abc123\";",
    );
    match r {
        Ok(s) => {
            assert_eq!(s.cookie_value, "session=deadbeef; Path=/");
            assert_eq!(s.csrf_token, "abc123");
        }
        Err(e) => panic!("expected a session, got {:?}", e),
    }
}

#[test]
fn missing_set_cookie_fails_regardless_of_body() {
    let r = derive_session(200, None, "const csrfToken = \"abc123\";");
    assert_eq!(r.err(), Some(DarkError::MissingSessionCookie));
    let r2 = derive_session(200, None, "");
    assert_eq!(r2.err(), Some(DarkError::MissingSessionCookie));
}

#[test]
fn auth_status_401_fails_with_code() {
    let r = derive_session(401, Some("c=1".to_string()), "const csrfToken = \"abc123\";");
    assert_eq!(r.err(), Some(DarkError::AuthFailure(401)));
}

#[test]
fn tokenless_body_fails_extraction() {
    let r = derive_session(200, Some("c=1".to_string()), "<html>no token</html>");
    assert_eq!(r.err(), Some(DarkError::TokenExtractionFailure));
}

#[test]
fn probe_url_has_canvas_path() {
    let u = auth_probe_url("https://darklang.com", "demo");
    assert_eq!(u, "https://darklang.com/a/demo");
}
