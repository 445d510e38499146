use edamame_posture::validate::{
    parse_digits_only, parse_email, parse_fqdn, parse_signature, parse_username,
};

#[test]
fn pin_accepts_digits_only() {
    assert_eq!(parse_digits_only("123456").as_deref(), Ok("123456"));
    assert_eq!(parse_digits_only("").as_deref(), Ok(""));
    assert_eq!(
        parse_digits_only("12a456"),
        Err("PIN must contain digits only".to_string())
    );
    assert!(parse_digits_only("１２３").is_err()); // fullwidth digits are not ASCII
}

#[test]
fn username_must_not_be_an_email() {
    assert_eq!(parse_username("runner").as_deref(), Ok("runner"));
    assert_eq!(parse_username("").as_deref(), Ok(""));
    assert_eq!(
        parse_username("runner@example.com"),
        Err("Invalid username format".to_string())
    );
}

#[test]
fn email_needs_at_sign_and_dot() {
    assert_eq!(parse_email("user@example.com").as_deref(), Ok("user@example.com"));
    assert_eq!(parse_email("").as_deref(), Ok(""));
    assert_eq!(parse_email("userexample.com"), Err("Invalid email format".to_string()));
    assert_eq!(parse_email("user@example"), Err("Invalid email format".to_string()));
}

#[test]
fn fqdn_accepts_well_formed_domains() {
    assert_eq!(parse_fqdn("example.com").as_deref(), Ok("example.com"));
    assert_eq!(parse_fqdn("sub.domain.example.org").as_deref(), Ok("sub.domain.example.org"));
    assert_eq!(parse_fqdn("a--b.xn--test.com").as_deref(), Ok("a--b.xn--test.com"));
    assert_eq!(parse_fqdn("123.com").as_deref(), Ok("123.com"));
    assert_eq!(parse_fqdn("").as_deref(), Ok("")); // optional field
    let long_label = "a".repeat(63);
    assert!(parse_fqdn(&format!("{long_label}.com")).is_ok());
}

#[test]
fn fqdn_rejects_malformed_domains() {
    let err = Err("Invalid FQDN".to_string());
    assert_eq!(parse_fqdn("example"), err); // no dot at all
    assert_eq!(parse_fqdn("example."), err); // empty top level
    assert_eq!(parse_fqdn(".com"), err); // empty label
    assert_eq!(parse_fqdn("exa..com"), err); // empty middle label
    assert_eq!(parse_fqdn("-bad.com"), err); // label starts with hyphen
    assert_eq!(parse_fqdn("bad-.com"), err); // label ends with hyphen
    assert_eq!(parse_fqdn("exa_mple.com"), err); // underscore
    assert_eq!(parse_fqdn("exam ple.com"), err); // space
    assert_eq!(parse_fqdn("example.c"), err); // one-letter top level
    assert_eq!(parse_fqdn("example.c0m"), err); // digit in top level
    let too_long = "a".repeat(64);
    assert_eq!(parse_fqdn(&format!("{too_long}.com")), err); // 64-character label
}

#[test]
fn signature_must_decode_to_thirty_two_bytes() {
    // 43 alphabet characters and one pad: base64 of exactly 32 bytes.
    let good = "AAAAAAAAAAAAAAAAAAAAAAAAAAAAAAAAAAAAAAAAAAA=";
    assert_eq!(parse_signature(good).as_deref(), Ok(good));

    let err = Err("Invalid signature format".to_string());
    // Valid base64, but 16 bytes.
    assert_eq!(parse_signature("AAAAAAAAAAAAAAAAAAAAAA=="), err);
    // Not base64 at all.
    assert_eq!(parse_signature("!!!not-base64!!!"), err);
    assert_eq!(parse_signature(""), err);
}
