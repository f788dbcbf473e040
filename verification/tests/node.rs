use voidpost_core::error::ConfigError;
use voidpost_core::node::build_config;
use voidpost_core::node::default_data_dir;
use voidpost_core::node::is_attached;
use voidpost_core::node::node_config_edits;
use voidpost_core::node::on_attachment_update;
use voidpost_core::node::program_name;
use voidpost_core::node::store_directories;
use voidpost_core::node::AttachWait;
use voidpost_core::node::AttachmentState;

#[test]
fn attached_states() {
    assert!(!is_attached(AttachmentState::Detached));
    assert!(!is_attached(AttachmentState::Attaching));
    assert!(is_attached(AttachmentState::AttachedWeak));
    assert!(is_attached(AttachmentState::AttachedGood));
    assert!(is_attached(AttachmentState::AttachedStrong));
    assert!(is_attached(AttachmentState::FullyAttached));
    assert!(is_attached(AttachmentState::OverAttached));
    assert!(!is_attached(AttachmentState::Detaching));
}

#[test]
fn attachment_updates() {
    assert_eq!(on_attachment_update(None), AttachWait::ChannelClosed);
    assert_eq!(on_attachment_update(Some(AttachmentState::Attaching)), AttachWait::KeepWaiting);
    assert_eq!(on_attachment_update(Some(AttachmentState::AttachedGood)), AttachWait::Attached);
}

#[test]
fn data_dir_preference() {
    assert_eq!(default_data_dir(Some("/x"), Some("/home/u")), "/x/voidpost");
    assert_eq!(default_data_dir(None, Some("/home/u")), "/home/u/.local/share/voidpost");
    assert_eq!(default_data_dir(None, None), ".voidpost");
}

#[test]
fn store_directories_live_under_data_dir() {
    let dirs = store_directories("/var/vp");
    assert_eq!(dirs.table_store, "/var/vp/table_store");
    assert_eq!(dirs.block_store, "/var/vp/block_store");
    assert_eq!(dirs.protected_store, "/var/vp/protected_store");
    assert_eq!(program_name(), "voidpost");
}

#[test]
fn config_edits_point_stores_at_data_dir() {
    let e = node_config_edits("/srv/vp");
    assert_eq!(e.program_name, "voidpost");
    assert_eq!(e.namespace, "");
    assert_eq!(e.table_store_directory, "/srv/vp/table_store");
    assert_eq!(e.block_store_directory, "/srv/vp/block_store");
    assert_eq!(e.protected_store_directory, "/srv/vp/protected_store");
    assert!(e.allow_insecure_fallback);
    assert!(e.always_use_insecure_storage);
}

fn parse(text: &str) -> serde_json::Value {
    serde_json::from_str(text).unwrap()
}

#[test]
fn config_points_present_stores_at_data_dir() {
    let default = r#"{"program_name":"","namespace":"x","network":{"max_connections":32},
        "table_store":{"directory":"/tmp/t","delete":false},
        "protected_store":{"directory":"/tmp/p","allow_insecure_fallback":false}}"#;
    let out = parse(&build_config(default, "/data").unwrap());
    assert_eq!(out["program_name"], "voidpost");
    assert_eq!(out["namespace"], "");
    assert_eq!(out["network"]["max_connections"], 32);
    assert_eq!(out["table_store"]["directory"], "/data/table_store");
    assert_eq!(out["table_store"]["delete"], false);
    assert_eq!(out["protected_store"]["directory"], "/data/protected_store");
    assert_eq!(out["protected_store"]["allow_insecure_fallback"], true);
    assert_eq!(out["protected_store"]["always_use_insecure_storage"], true);
    // A store section the default does not have is not added.
    assert!(out.get("block_store").is_none());
    assert_eq!(out.as_object().unwrap().len(), 5);
}

#[test]
fn config_from_null_holds_only_the_names() {
    let out = build_config("null", "/d").unwrap();
    assert_eq!(out, r#"{"namespace":"","program_name":"voidpost"}"#);
}

#[test]
fn config_null_store_section_becomes_an_object() {
    let out = parse(&build_config(r#"{"block_store":null}"#, "d").unwrap());
    assert_eq!(out["block_store"]["directory"], "d/block_store");
    assert_eq!(out["block_store"].as_object().unwrap().len(), 1);
}

#[test]
fn config_errors() {
    assert_eq!(build_config("{not json", "/d"), Err(ConfigError::InvalidJson));
    assert_eq!(build_config("[1, 2]", "/d"), Err(ConfigError::NotAnObject));
    assert_eq!(build_config(r#"{"table_store": 3}"#, "/d"), Err(ConfigError::NotAnObject));
}
