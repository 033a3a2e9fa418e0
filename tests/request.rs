use tastyworks::request::obfuscate_account_url;

#[test]
fn test_obfuscate_account_url() {
    assert_eq!(obfuscate_account_url("accounts/123ABC"), "accounts/******");
    assert_eq!(
        obfuscate_account_url("foo/accounts/123AB/bar"),
        "foo/accounts/*****/bar"
    );
}

#[test]
fn url_without_account_is_kept() {
    assert_eq!(obfuscate_account_url("foo/bar"), "foo/bar");
    assert_eq!(obfuscate_account_url("accounts"), "accounts");
    assert_eq!(obfuscate_account_url("accounts/"), "accounts/");
}

#[test]
fn only_first_account_is_masked() {
    assert_eq!(
        obfuscate_account_url("https://x/accounts/5YZ/positions/accounts/9"),
        "https://x/accounts/***/positions/accounts/9"
    );
}
