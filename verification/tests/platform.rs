use orange_platform::PLATFORM_API_VERSION;

#[test]
fn platform_api_version_starts_at_one() {
    assert_eq!(PLATFORM_API_VERSION, 1);
}
