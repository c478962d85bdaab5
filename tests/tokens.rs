use user_auth::claims::encode_claim;
use user_auth::error::AuthError;
use user_auth::text::same_chars;
use user_auth::token::{issue, validate, TokenClaims};

const HEADER: &str = "eyJhbGciOiJIUzI1NiJ9";

fn replace_char(s: &str, at: usize, c: char) -> String {
    s.chars()
        .enumerate()
        .map(|(i, x)| if i == at { c } else { x })
        .collect()
}

fn other_char(c: char) -> char {
    if c == 'A' {
        'B'
    } else {
        'A'
    }
}

#[test]
fn claim_is_compact_json() {
    assert_eq!(encode_claim(42), b"{\"id\":42}".to_vec());
    assert_eq!(encode_claim(0), b"{\"id\":0}".to_vec());
    assert_eq!(encode_claim(-7), b"{\"id\":-7}".to_vec());
    assert_eq!(encode_claim(i32::MIN), b"{\"id\":-2147483648}".to_vec());
    assert_eq!(encode_claim(i32::MAX), b"{\"id\":2147483647}".to_vec());
}

#[test]
fn same_chars_compares_whole_texts() {
    assert!(same_chars("abc", "abc"));
    assert!(same_chars("", ""));
    assert!(!same_chars("abc", "abd"));
    assert!(!same_chars("abc", "ab"));
    assert!(!same_chars("xbc", "abc"));
}

#[test]
fn issued_token_has_known_signature() {
    let t = issue(b"K1", TokenClaims { id: 5 }).unwrap();
    assert_eq!(t, format!("{}.eyJpZCI6NX0.UVQMdvuNNK79Oqko5jNFqMMLQW4QNosWpl4x-vCVUpE", HEADER));
    let t = issue(b"secret", TokenClaims { id: -12 }).unwrap();
    assert_eq!(t, format!("{}.eyJpZCI6LTEyfQ.4I4F3eArIeeiiGmzk0Q2hBbF8k5jUPu7S1Q0fRoBc-U", HEADER));
}

#[test]
fn jwt_token_for_id_one_validates() {
    let t = format!("{}.eyJpZCI6MX0._7HUvXqrux3-ihTeY-wN2OVL7Zudi0LIAiOhO8m_nic", HEADER);
    assert_eq!(validate(b"K1", &t), Ok(TokenClaims { id: 1 }));
}

#[test]
fn header_with_type_field_is_accepted() {
    let t = "eyJ0eXAiOiJKV1QiLCJhbGciOiJIUzI1NiJ9.eyJpZCI6NX0.iQrPdHt-HfeCHsuVKMGwHLJwmzIQBSM0tKZclj8zpkU";
    assert_eq!(validate(b"K1", t), Ok(TokenClaims { id: 5 }));
}

#[test]
fn claim_with_spaces_is_accepted() {
    let t = format!("{}.eyJpZCI6IDV9.2X06YerQcIirs7oLodxKOxrT91pnWiKGu8wF8Rc-HOs", HEADER);
    assert_eq!(validate(b"K1", &t), Ok(TokenClaims { id: 5 }));
}

#[test]
fn claim_with_other_fields_is_accepted() {
    let t = format!("{}.eyJuYW1lIjoieCIsImlkIjo1fQ.QEkkwxOv9m18N0NChhJ_L0EyfelVMlcnymV48P18U5k", HEADER);
    assert_eq!(validate(b"K1", &t), Ok(TokenClaims { id: 5 }));
}

#[test]
fn padded_claim_segment_is_read_as_jwt_reads_it() {
    let t = format!("{}.eyJpZCI6MX0=.zuQMv9TWVIKGNbTdXkrd5gmzRGxCsjJ2aRlShVSqI20", HEADER);
    assert_eq!(validate(b"K1", &t), Ok(TokenClaims { id: 1 }));
}

#[test]
fn header_naming_another_algorithm_is_rejected() {
    let t = "eyJhbGciOiJIUzUxMiJ9.eyJpZCI6NX0.7nA8QX_Gq2yZ5csTG0CCr7rWeCqk3qpV6ua_RWfpw2k";
    assert_eq!(validate(b"K1", t), Err(AuthError::InvalidToken));
}

#[test]
fn claim_without_integer_id_is_rejected() {
    let no_id = format!("{}.eyJzdWIiOjV9.y5qQmmGEJhuMoQ_yVaracH84DarUO76EXHqI9lSr1jk", HEADER);
    let too_big = format!("{}.eyJpZCI6MjE0NzQ4MzY0OH0.iAniqGZmVzrvvhqM7AqWpbIPoM6AD0MNIkMO8GfQ3b4", HEADER);
    let text_id = format!("{}.eyJpZCI6IjUifQ.7tnMjv9Fyr7HKfUhcepSql-gBs6oQh-YG65WLJuZblY", HEADER);
    assert_eq!(validate(b"K1", &no_id), Err(AuthError::InvalidToken));
    assert_eq!(validate(b"K1", &too_big), Err(AuthError::InvalidToken));
    assert_eq!(validate(b"K1", &text_id), Err(AuthError::InvalidToken));
}

#[test]
fn issue_then_validate_round_trips() {
    for id in [0, 1, -1, 42, 1000, i32::MIN, i32::MAX] {
        let t = issue(b"K1", TokenClaims { id }).unwrap();
        assert_eq!(validate(b"K1", &t), Ok(TokenClaims { id }));
    }
}

#[test]
fn issue_without_secret_fails() {
    assert_eq!(issue(b"", TokenClaims { id: 5 }), Err(AuthError::SigningUnavailable));
}

#[test]
fn validate_without_secret_fails() {
    let t = issue(b"K1", TokenClaims { id: 5 }).unwrap();
    assert_eq!(validate(b"", &t), Err(AuthError::InvalidToken));
}

#[test]
fn any_single_character_change_is_rejected() {
    let t = issue(b"K1", TokenClaims { id: 31 }).unwrap();
    let n = t.chars().count();
    for at in 0..n {
        let c = t.chars().nth(at).unwrap();
        for replacement in [other_char(c), '.', '0', '9', '-', '_', '='] {
            if replacement == c {
                continue;
            }
            let m = replace_char(&t, at, replacement);
            assert_eq!(validate(b"K1", &m), Err(AuthError::InvalidToken), "{}", m);
        }
    }
}

#[test]
fn malformed_tokens_are_rejected() {
    for t in ["", "abc", "a.b", "a.b.c", &format!("{}.5", HEADER), &format!("{}..", HEADER)] {
        assert_eq!(validate(b"K1", t), Err(AuthError::InvalidToken));
    }
    let t = issue(b"K1", TokenClaims { id: 5 }).unwrap();
    assert_eq!(validate(b"K1", &format!("{}=", t)), Err(AuthError::InvalidToken));
    assert_eq!(validate(b"K1", &format!("{}.x", t)), Err(AuthError::InvalidToken));
}

#[test]
fn different_ids_validate_to_different_ids() {
    let a = issue(b"K1", TokenClaims { id: 1 }).unwrap();
    let b = issue(b"K1", TokenClaims { id: 2 }).unwrap();
    assert_ne!(a, b);
    assert_eq!(validate(b"K1", &a), Ok(TokenClaims { id: 1 }));
    assert_eq!(validate(b"K1", &b), Ok(TokenClaims { id: 2 }));
}

#[test]
fn swapped_signatures_are_rejected() {
    let a = issue(b"K1", TokenClaims { id: 1 }).unwrap();
    let b = issue(b"K1", TokenClaims { id: 2 }).unwrap();
    let sig_a = a.rsplit('.').next().unwrap();
    let sig_b = b.rsplit('.').next().unwrap();
    let a_with_b = format!("{}.eyJpZCI6MX0.{}", HEADER, sig_b);
    let b_with_a = format!("{}.eyJpZCI6Mn0.{}", HEADER, sig_a);
    assert_eq!(validate(b"K1", &a_with_b), Err(AuthError::InvalidToken));
    assert_eq!(validate(b"K1", &b_with_a), Err(AuthError::InvalidToken));
}

#[test]
fn rotated_secret_rejects_old_tokens() {
    for id in [0, 7, -3] {
        let t = issue(b"K1", TokenClaims { id }).unwrap();
        assert_eq!(validate(b"K2", &t), Err(AuthError::InvalidToken));
        assert_eq!(validate(b"K1", &t), Ok(TokenClaims { id }));
    }
}
