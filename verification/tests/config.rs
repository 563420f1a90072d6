use keeper_secrets::config::ConfigKeys;

#[test]
fn slot_names_are_the_stable_constants() {
    assert_eq!(ConfigKeys::KEY_CLIENT_KEY.as_str(), "client_key");
    assert_eq!(ConfigKeys::KEY_APP_KEY.as_str(), "app_key");
    assert_eq!(ConfigKeys::KEY_OWNER_PUBLIC_KEY.as_str(), "owner_public_key");
}

#[test]
fn slot_names_are_distinct() {
    let names = [
        ConfigKeys::KEY_CLIENT_KEY.as_str().to_string(),
        ConfigKeys::KEY_APP_KEY.as_str().to_string(),
        ConfigKeys::KEY_OWNER_PUBLIC_KEY.as_str().to_string(),
    ];
    assert_ne!(names[0], names[1]);
    assert_ne!(names[0], names[2]);
    assert_ne!(names[1], names[2]);
}
