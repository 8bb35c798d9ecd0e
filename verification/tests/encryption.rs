use zju_assist::encryption::rsa_no_padding;

#[test]
fn a_password_is_raised_to_a_power() {
    let text = |password, modulus, exponent| rsa_no_padding(password, modulus, exponent);
    assert_eq!(text("pass", "ab12", "10001"), Some("975d".to_string()));
    assert_eq!(text("ab", "FFFFFF", "1"), Some("6162".to_string()));
    assert_eq!(text("a", "61", "1"), Some("00".to_string()));
    assert_eq!(text("", "ff", "3"), Some("00".to_string()));
    assert_eq!(text("x", "1", "0"), Some("00".to_string()));
    assert_eq!(text("x", "10", "0"), Some("01".to_string()));
}

#[test]
fn a_long_key_is_no_obstacle() {
    let modulus = "c6a5387777330bdbd7210dff076ce2ef87b0b125ec1d7da0a6eb8c9ebd69fe29d76d4330f1446beab0c11fdecb91ce375bc8fbbcbde5c0994164d8399f767c45";
    let expected = "80375f6d2cc6ab03024d9bbabbca64f56d5075907d9eca9c019fc8db64ed30753352c1baf3103c123390f8558b20c6822be56898fcefd2f85646ba7dea90d14e";
    assert_eq!(rsa_no_padding("Pässw0rd!浙大", modulus, "10001"), Some(expected.to_string()));
}

#[test]
fn a_key_must_be_hexadecimal() {
    assert_eq!(rsa_no_padding("a", "", "3"), None);
    assert_eq!(rsa_no_padding("a", "12", ""), None);
    assert_eq!(rsa_no_padding("a", "1g", "3"), None);
    assert_eq!(rsa_no_padding("a", "12", "-3"), None);
    assert_eq!(rsa_no_padding("a", "0", "3"), None);
}
