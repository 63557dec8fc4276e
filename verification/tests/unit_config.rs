use rustaxa_vdf::config::VdfConfig;

#[test]
fn test_vdf_config_new() {
    let config = VdfConfig::new(5, 20, 10, 1000);
    assert_eq!(config.difficulty_min, 5);
    assert_eq!(config.difficulty_max, 20);
    assert_eq!(config.difficulty_stale, 10);
    assert_eq!(config.lambda_bound, 1000);
}

#[test]
fn test_vdf_config_default() {
    let config = VdfConfig::get_default();
    assert_eq!(config.difficulty_min, 0);
    assert_eq!(config.difficulty_max, 1);
    assert_eq!(config.difficulty_stale, 0);
    assert_eq!(config.lambda_bound, 1500);
}
