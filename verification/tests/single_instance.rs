use std::path::Path;

use cliip_show::config::config_file_path_with;
use cliip_show::login_item::LOGIN_ITEM_LABEL;
use cliip_show::single_instance::{lock_path, ACTIVATE_NOTIFICATION, LOCK_FILE_NAME};

/// The notification center is shared by the whole system, so the name is
/// namespaced by the bundle identifier.
#[test]
fn the_notification_name_is_namespaced_by_the_bundle_identifier() {
    assert!(ACTIVATE_NOTIFICATION.starts_with(LOGIN_ITEM_LABEL));
}

/// The lock lies next to the config file.
#[test]
fn the_lock_sits_next_to_the_config_file() {
    let config = config_file_path_with(|name: &str| match name {
        "HOME" => Some("/Users/example".to_string()),
        _ => None,
    })
    .expect("config path");
    let lock = lock_path(&config).expect("lock path");
    assert_eq!(Path::new(&lock).parent(), Path::new(&config).parent());
    assert_eq!(Path::new(&lock).file_name().unwrap(), LOCK_FILE_NAME);
}

#[test]
fn a_config_path_without_a_parent_has_no_lock() {
    assert_eq!(lock_path("/"), None);
    assert_eq!(
        lock_path("/a/b/config.toml"),
        Some("/a/b/.instance-lock".to_string())
    );
}
