use uniqx::subdomain::validate_subdomain;

#[test]
fn test_validate_subdomain() {
    // Valid subdomain
    assert!(validate_subdomain("example").is_ok());

    // Subdomain too short
    assert!(validate_subdomain("ex").is_err());

    // Subdomain too long
    assert!(validate_subdomain("this-subdomain-name-is-way-way-too-long").is_err());

    // Subdomain contains invalid character
    assert!(validate_subdomain("example!").is_err());

    // Subdomain is in deny list
    assert!(validate_subdomain("www").is_err());
}

#[test]
fn subdomain_errors_name_the_broken_rule() {
    assert_eq!(
        validate_subdomain("ex"),
        Err(String::from("subdomain length must be between 3 and 42"))
    );
    assert_eq!(
        validate_subdomain("this-subdomain-name-is-way-way-too-long"),
        Err(String::from("subdomain length must be between 3 and 42"))
    );
    assert_eq!(validate_subdomain("www"), Err(String::from("subdomain is in deny list")));
    assert_eq!(validate_subdomain("uniqx"), Err(String::from("subdomain is in deny list")));
    assert_eq!(
        validate_subdomain("example!"),
        Err(String::from("subdomain must be lowercase & alphanumeric"))
    );
}

#[test]
fn subdomain_length_counts_bytes_at_both_ends() {
    let longest = "a".repeat(38);
    assert_eq!(validate_subdomain(&longest), Ok(()));
    let too_long = "a".repeat(39);
    assert!(validate_subdomain(&too_long).is_err());
    assert_eq!(validate_subdomain("abc"), Ok(()));
    // Two characters, four bytes: long enough by bytes, refused by the pattern.
    assert_eq!(
        validate_subdomain("éé"),
        Err(String::from("subdomain must be lowercase & alphanumeric"))
    );
}

#[test]
fn subdomain_hyphens_must_sit_between_letters() {
    assert_eq!(validate_subdomain("my-app"), Ok(()));
    assert_eq!(validate_subdomain("a-b-c"), Ok(()));
    assert!(validate_subdomain("-app").is_err());
    assert!(validate_subdomain("app-").is_err());
    assert!(validate_subdomain("my--app").is_err());
    assert!(validate_subdomain("My-App").is_err());
    assert!(validate_subdomain("app.one").is_err());
    assert_eq!(validate_subdomain("db01"), Ok(()));
    assert_eq!(validate_subdomain("0a9"), Ok(()));
}
