use shellmars::models::connection::{
    default_false, default_prompt_config, AuthMethod, CommandOptions, ConfigError,
    ConnectionConfig,
};

fn valid() -> ConnectionConfig {
    let mut config = ConnectionConfig::with_identity(
        "id-1".to_string(),
        "box".to_string(),
        "test".to_string(),
        "u".to_string(),
        42,
    );
    config.password = Some("p".to_string());
    config
}

#[test]
fn usable_configuration_passes() {
    assert_eq!(valid().check(), Ok(()));
    assert_eq!(valid().validate(), Ok(()));
}

#[test]
fn empty_name_is_refused_first() {
    let mut config = valid();
    config.name = String::new();
    config.host = String::new();
    assert_eq!(config.check(), Err(ConfigError::EmptyName));
    assert_eq!(config.validate(), Err("连接名称不能为空".to_string()));
}

#[test]
fn empty_host_is_refused() {
    let mut config = valid();
    config.host = String::new();
    config.username = String::new();
    assert_eq!(config.check(), Err(ConfigError::EmptyHost));
    assert_eq!(config.validate(), Err("主机地址不能为空".to_string()));
}

#[test]
fn empty_username_is_refused() {
    let mut config = valid();
    config.username = String::new();
    config.port = 0;
    assert_eq!(config.check(), Err(ConfigError::EmptyUsername));
    assert_eq!(config.validate(), Err("用户名不能为空".to_string()));
}

#[test]
fn port_zero_is_refused() {
    let mut config = valid();
    config.port = 0;
    config.password = None;
    assert_eq!(config.check(), Err(ConfigError::ZeroPort));
    assert_eq!(config.validate(), Err("端口号不能为0".to_string()));
}

#[test]
fn password_method_needs_a_password() {
    let mut config = valid();
    config.password = None;
    config.private_key_path = Some("/key".to_string());
    assert_eq!(config.check(), Err(ConfigError::PasswordRequired));
    assert_eq!(config.validate(), Err("密码认证需要提供密码".to_string()));
}

#[test]
fn key_method_needs_a_key() {
    let mut config = valid();
    config.auth_method = AuthMethod::PrivateKey;
    assert_eq!(config.check(), Err(ConfigError::PrivateKeyRequired));
    assert_eq!(config.validate(), Err("密钥认证需要提供私钥路径".to_string()));
    config.private_key_path = Some("/key".to_string());
    config.password = None;
    assert_eq!(config.check(), Ok(()));
}

#[test]
fn both_method_needs_one_credential() {
    let mut config = valid();
    config.auth_method = AuthMethod::Both;
    assert_eq!(config.check(), Ok(()));
    config.password = None;
    assert_eq!(config.check(), Err(ConfigError::CredentialRequired));
    assert_eq!(config.validate(), Err("混合认证需要提供密码或私钥".to_string()));
    config.private_key_path = Some("/key".to_string());
    assert_eq!(config.check(), Ok(()));
}

#[test]
fn empty_password_counts_as_present() {
    let mut config = valid();
    config.password = Some(String::new());
    assert_eq!(config.check(), Ok(()));
}

#[test]
fn defaults_of_a_prompt_configuration() {
    let config = default_prompt_config();
    assert_eq!(config.patterns, vec!["]# ", "$ ", "> ", "# ", "% "]);
    assert!(config.smart_detection);
    assert_eq!(config.max_wait_time, 10_000);
    assert_eq!(config.max_empty_reads, 10);
    assert!(!default_false());
}

#[test]
fn defaults_of_command_options() {
    let options = CommandOptions::default();
    assert!(options.custom_prompts.is_none());
    assert!(options.timeout.is_none());
    assert!(options.wait_for_prompt);
    assert!(!options.debug_output);
}

#[test]
fn new_configuration_has_fresh_identity_and_defaults() {
    let a = ConnectionConfig::new("n".to_string(), "h".to_string(), "u".to_string());
    let b = ConnectionConfig::new("n".to_string(), "h".to_string(), "u".to_string());
    assert_eq!(a.id.len(), 36);
    assert_ne!(a.id, b.id);
    assert_eq!(a.name, "n");
    assert_eq!(a.host, "h");
    assert_eq!(a.username, "u");
    assert_eq!(a.port, 22);
    assert_eq!(a.auth_method, AuthMethod::Password);
    assert!(a.password.is_none() && a.private_key_path.is_none());
    assert!(!a.connected && !a.active);
    assert_eq!(a.created_at, a.updated_at);
    assert_eq!(a.prompt_config.max_wait_time, 10_000);
}

#[test]
fn default_configuration_is_empty_and_unusable() {
    let config = ConnectionConfig::default();
    assert_eq!(config.id.len(), 36);
    assert_eq!(config.port, 22);
    assert_eq!(config.check(), Err(ConfigError::EmptyName));
}

#[test]
fn touch_changes_only_the_time_of_change() {
    let mut config = valid();
    config.touch(99);
    assert_eq!(config.updated_at, 99);
    assert_eq!(config.created_at, 42);
    assert_eq!(config.name, "box");
    config.update();
    assert_eq!(config.created_at, 42);
}

#[test]
fn clone_keeps_every_field() {
    let config = valid();
    let copy = config.clone();
    assert_eq!(copy.id, config.id);
    assert_eq!(copy.name, config.name);
    assert_eq!(copy.host, config.host);
    assert_eq!(copy.port, config.port);
    assert_eq!(copy.username, config.username);
    assert_eq!(copy.password, config.password);
    assert_eq!(copy.private_key_path, config.private_key_path);
    assert_eq!(copy.auth_method, config.auth_method);
    assert_eq!(copy.prompt_config.patterns, config.prompt_config.patterns);
    assert_eq!(copy.created_at, config.created_at);
}
