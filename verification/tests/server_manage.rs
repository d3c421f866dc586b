use boilchangeip::config::{validate_servers, AppConfig, SecretToken, ServerConfig, ServerTimerConfig};
use boilchangeip::server_manage::{
    delete_server, move_server_down, move_server_up, rename_server, update_server_address,
    update_server_token, ManageError, ServerAddressUpdate,
};

fn config() -> AppConfig {
    AppConfig {
        servers: vec![
            ServerConfig {
                id: "a".to_string(),
                name: "A".to_string(),
                token: SecretToken::from_stored("old-token-a".to_string()),
                enabled: true,
                address: Some("a.example.com".to_string()),
                country: Some("中国香港".to_string()),
                flag: Some("🇭🇰".to_string()),
                resolved_ip: Some("203.0.113.1".to_string()),
                timer: Some(ServerTimerConfig {
                    enabled: true,
                    cron: Some("30 3 * * *".to_string()),
                }),
            },
            ServerConfig {
                id: "b".to_string(),
                name: "B".to_string(),
                token: SecretToken::from_stored("old-token-b".to_string()),
                enabled: true,
                address: None,
                country: None,
                flag: None,
                resolved_ip: None,
                timer: None,
            },
        ],
        global_timer: None,
        tg_token: None,
        tg_chat_id: None,
        tg_pair_code: None,
        tg_pair_expires_at: None,
        change_ip_cooldown: None,
        migration_notice: None,
    }
}

#[test]
fn renames_server() {
    let mut config = config();
    rename_server(&mut config, "a", "New Name".to_string()).unwrap();
    assert_eq!(config.servers[0].name, "New Name");
}

#[test]
fn updates_address_metadata() {
    let mut config = config();
    update_server_address(
        &mut config,
        "a",
        ServerAddressUpdate {
            address: "hk.example.com".to_string(),
            country: "中国香港".to_string(),
            flag: "🇭🇰".to_string(),
            resolved_ip: Some("203.0.113.10".to_string()),
        },
    )
    .unwrap();
    assert_eq!(config.servers[0].address.as_deref(), Some("hk.example.com"));
    assert_eq!(
        config.servers[0].resolved_ip.as_deref(),
        Some("203.0.113.10")
    );
}

#[test]
fn token_validation_failure_can_keep_old_token() {
    let mut config = config();
    let before = config.servers[0].token.expose_secret().to_string();
    let failed_validation = true;
    if !failed_validation {
        update_server_token(
            &mut config,
            "a",
            SecretToken::from_stored("new-token".to_string()),
        )
        .unwrap();
    }
    assert_eq!(config.servers[0].token.expose_secret(), before);
}

#[test]
fn successful_token_update_replaces_old_token() {
    let mut config = config();
    let before = config.servers[0].token.expose_secret().to_string();

    update_server_token(
        &mut config,
        "a",
        SecretToken::from_stored("new-token".to_string()),
    )
    .unwrap();

    assert_ne!(config.servers[0].token.expose_secret(), before);
    assert_eq!(config.servers[0].token.expose_secret(), "new-token");
}

#[test]
fn deletes_server_and_its_timer() {
    let mut config = config();
    config.global_timer = Some(ServerTimerConfig {
        enabled: true,
        cron: Some("30 3 * * *".to_string()),
    });
    config.servers[1].timer = Some(ServerTimerConfig {
        enabled: true,
        cron: Some("0 8 * * *".to_string()),
    });

    delete_server(&mut config, "a").unwrap();

    assert_eq!(config.servers.len(), 1);
    assert_eq!(config.servers[0].id, "b");
    assert_eq!(
        config
            .global_timer
            .as_ref()
            .and_then(|timer| timer.cron.as_deref()),
        Some("30 3 * * *")
    );
    assert_eq!(
        config.servers[0]
            .timer
            .as_ref()
            .and_then(|timer| timer.cron.as_deref()),
        Some("0 8 * * *")
    );
}

#[test]
fn reorders_servers_in_config_order() {
    let mut config = config();
    move_server_down(&mut config, "a").unwrap();
    assert_eq!(config.servers[0].id, "b");
    move_server_up(&mut config, "a").unwrap();
    assert_eq!(config.servers[0].id, "a");
}

#[test]
fn unknown_servers_and_blank_names_are_refused() {
    let before = config();
    let mut c = config();
    assert_eq!(rename_server(&mut c, "a", " ".to_string()), Err(ManageError::EmptyName));
    assert_eq!(
        rename_server(&mut c, "x", "N".to_string()),
        Err(ManageError::UnknownServer)
    );
    assert_eq!(delete_server(&mut c, "x"), Err(ManageError::UnknownServer));
    assert_eq!(move_server_up(&mut c, "x"), Err(ManageError::UnknownServer));
    assert_eq!(move_server_down(&mut c, "x"), Err(ManageError::UnknownServer));
    assert!(c == before);
    assert_eq!(ManageError::EmptyName.message(), "服务器名称不能为空");
    assert_eq!(ManageError::UnknownServer.message(), "未找到服务器");
}

#[test]
fn the_first_and_the_last_server_stay_where_they_are() {
    let mut c = config();
    move_server_up(&mut c, "a").unwrap();
    move_server_down(&mut c, "b").unwrap();
    assert!(c == config());
}

#[test]
fn editing_leaves_a_valid_configuration_valid() {
    let mut c = config();
    assert!(validate_servers(&c.servers).is_ok());
    rename_server(&mut c, "a", "N".to_string()).unwrap();
    update_server_token(&mut c, "b", SecretToken::from_stored("t2".to_string())).unwrap();
    move_server_down(&mut c, "a").unwrap();
    assert!(validate_servers(&c.servers).is_ok());
    delete_server(&mut c, "b").unwrap();
    assert!(validate_servers(&c.servers).is_ok());
}
