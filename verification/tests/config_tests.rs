//! Configuration: defaults, dotted-key reads and writes, and platform
//! resolution.

use markflow::cli::determine_target_platforms;
use markflow::cli::Platform;
use markflow::config::AppConfig;

#[test]
fn test_config_defaults() {
    let config = AppConfig::default();
    assert_eq!(config.general.default_platform, Some("all".to_string()));
    assert!(config.general.auto_save);
    assert!(config.general.backup_enabled);
    assert_eq!(config.general.watch_interval, 2);
    assert!(!config.wechat.auto_publish);
    assert!(config.wechat.draft_mode);
    assert!(config.zhihu.enable_math);
    assert_eq!(config.zhihu.code_theme, "github");
    assert_eq!(config.output.output_dir, "./output");
    assert_eq!(config.output.filename_pattern, "{title}_{platform}.html");
}

#[test]
fn test_set_value_strings_and_bools() {
    let mut config = AppConfig::default();
    config.set_value("general.author", "Ada").unwrap();
    assert_eq!(config.general.author, Some("Ada".to_string()));

    config.set_value("zhihu.enable_math", "false").unwrap();
    assert!(!config.zhihu.enable_math);

    // An unparsable boolean falls back to the documented default.
    config.set_value("zhihu.enable_math", "maybe").unwrap();
    assert!(config.zhihu.enable_math);

    config.set_value("general.watch_interval", "30").unwrap();
    assert_eq!(config.general.watch_interval, 30);

    config.set_value("general.watch_interval", "not a number").unwrap();
    assert_eq!(config.general.watch_interval, 2);
}

#[test]
fn test_set_value_unknown_key_is_rejected() {
    let mut config = AppConfig::default();
    let result = config.set_value("general.no_such_key", "x");
    assert!(result.is_err());
    let msg = result.unwrap_err().message();
    assert!(msg.contains("no_such_key"));
    // The configuration is untouched.
    assert_eq!(config.general.watch_interval, 2);
}

#[test]
fn test_get_value_round_trip() {
    let mut config = AppConfig::default();
    config.set_value("wechat.app_id", "id-1").unwrap();
    assert_eq!(config.get_value("wechat.app_id"), Some("id-1".to_string()));
    assert_eq!(config.get_value("general.auto_save"), Some("true".to_string()));
    assert_eq!(config.get_value("general.watch_interval"), Some("2".to_string()));
    assert_eq!(config.get_value("general.author"), None);
    assert_eq!(config.get_value("no.such.key"), None);
}

#[test]
fn test_determine_target_platforms() {
    let config = AppConfig::default();
    let both = determine_target_platforms(Some(Platform::All), &config);
    assert_eq!(both.len(), 2);
    assert!(matches!(both[0], Platform::WeChat));
    assert!(matches!(both[1], Platform::Zhihu));

    let one = determine_target_platforms(Some(Platform::Zhihu), &config);
    assert_eq!(one.len(), 1);
    assert!(matches!(one[0], Platform::Zhihu));

    // The configured default ("all") resolves to both.
    let defaulted = determine_target_platforms(None, &config);
    assert_eq!(defaulted.len(), 2);

    let mut wechat_only = AppConfig::default();
    wechat_only.set_value("general.default_platform", "wechat").unwrap();
    let resolved = determine_target_platforms(None, &wechat_only);
    assert_eq!(resolved.len(), 1);
    assert!(matches!(resolved[0], Platform::WeChat));
}
