use todo_server::validation::{is_email_pswd_valids, is_valid_email, is_valid_password};

#[test]
fn valid_email_and_pswd() {
    assert!(is_email_pswd_valids(
        "my@email.com",
        "My cr4zy P@ssw0rd My cr4zy P@ssw0rd"
    ));
}

#[test]
fn invalid_emails() {
    assert!(!is_email_pswd_valids(
        "my_email.com",
        "My cr4zy P@ssw0rd My cr4zy P@ssw0rd"
    ));
    assert!(!is_email_pswd_valids(
        "my@email.com.br.us",
        "My cr4zy P@ssw0rd My cr4zy P@ssw0rd"
    ));
}

#[test]
fn invalid_passwords() {
    assert!(!is_email_pswd_valids(
        "my@email.com.br",
        "My cr4zy P@ssw0rd"
    ));
    assert!(is_email_pswd_valids(
        "my@email.com",
        "my cr4zy p@ssw0rd my cr4zy p@ssw0rd"
    ));
    assert!(is_email_pswd_valids(
        "my@email.com",
        "My crazy P@ssword My crazy P@ssword"
    ));
    assert!(is_email_pswd_valids(
        "my@email.com",
        "My cr4zy Passw0rd My cr4zy Passw0rd"
    ));
}

#[test]
fn email_shapes() {
    assert!(is_valid_email("my@email.com"));
    assert!(is_valid_email("my@email.com.br"));
    assert!(!is_valid_email("my_email.com"));
    assert!(!is_valid_email("my@email.com.br.us"));
    assert!(!is_valid_email(""));
    assert!(!is_valid_email("@email.com"));
    assert!(!is_valid_email("my@e.com"));
    assert!(!is_valid_email("my@email.c"));
    assert!(!is_valid_email("my@email.comm"));
    assert!(is_valid_email("a_b9@x2.io"));
}

#[test]
fn password_mixing_categories_passes() {
    let pswd = "Aa1 Bb2 Cc3 Dd4 Ee5 Ff6 Gg7 Hh8 Ii9";
    assert_eq!(pswd.chars().count(), 35);
    assert!(is_valid_password(pswd));
    assert!(!is_valid_password("My cr4zy P@ssw0rd"));
}

#[test]
fn password_is_a_class_count_not_a_category_rule() {
    // The policy counts consecutive characters of one class; it does not
    // demand one of each category.
    let all_lower = "abcdefghijklmnopqrstuvwxyz abcdef";
    assert!(is_valid_password(all_lower));
}

#[test]
fn password_run_boundary() {
    let just_enough: String = "a".repeat(32);
    let one_short: String = "a".repeat(31);
    assert!(is_valid_password(&just_enough));
    assert!(!is_valid_password(&one_short));
}

#[test]
fn password_run_inside_junk_counts() {
    let mut s = String::from("^");
    s.push_str(&"a".repeat(32));
    s.push('^');
    assert!(is_valid_password(&s));
    let mut broken = String::from("^");
    broken.push_str(&"a".repeat(16));
    broken.push('^');
    broken.push_str(&"a".repeat(16));
    assert!(!is_valid_password(&broken));
}
