use daylog::config::{Config, IncomingMailConfig};

#[test]
fn test_deserialize() {
    let yaml = r"
database: /some/db.sqlite
secret_key: /some/secret/file
return_addr: daylog@example.com
incoming_mail:
    maildir:
        path: /var/spool/mail/daylog
";
    let value: serde_yaml::Value = serde_yaml::from_str(yaml).expect("failed to deserialize");
    let deserialized = Config {
        database_path: value["database"].as_str().unwrap().to_owned(),
        secret_key_path: value["secret_key"].as_str().unwrap().to_owned(),
        return_addr: value["return_addr"].as_str().unwrap().to_owned(),
        incoming_mail: IncomingMailConfig::Maildir {
            path: value["incoming_mail"]["maildir"]["path"].as_str().unwrap().to_owned(),
        },
    };
    let expected = Config {
        database_path: "/some/db.sqlite".to_owned(),
        secret_key_path: "/some/secret/file".to_owned(),
        return_addr: "daylog@example.com".to_owned(),
        incoming_mail: IncomingMailConfig::Maildir {
            path: "/var/spool/mail/daylog".to_owned(),
        },
    };
    assert_eq!(deserialized, expected);
}

#[test]
fn test_resolve_paths() {
    let mut config = Config {
        database_path: "db.sqlite".to_owned(),
        secret_key_path: "/abs/secret".to_owned(),
        return_addr: "daylog@example.com".to_owned(),
        incoming_mail: IncomingMailConfig::Maildir { path: "mail".to_owned() },
    };
    config.resolve_paths("/etc/daylog");
    assert_eq!(config.database_path, "/etc/daylog/db.sqlite");
    assert_eq!(config.secret_key_path, "/abs/secret");
    let IncomingMailConfig::Maildir { path } = &config.incoming_mail;
    assert_eq!(path, "/etc/daylog/mail");
    assert_eq!(config.return_addr, "daylog@example.com");
}

#[test]
fn test_resolve_paths_trailing_slash() {
    let mut config = Config {
        database_path: "db".to_owned(),
        secret_key_path: "key".to_owned(),
        return_addr: "r".to_owned(),
        incoming_mail: IncomingMailConfig::Maildir { path: "/m".to_owned() },
    };
    config.resolve_paths("/base/");
    assert_eq!(config.database_path, "/base/db");
    assert_eq!(config.secret_key_path, "/base/key");
}

#[test]
fn test_control_path() {
    let config = Config {
        database_path: "/var/lib/daylog.sqlite".to_owned(),
        secret_key_path: "/k".to_owned(),
        return_addr: "r".to_owned(),
        incoming_mail: IncomingMailConfig::Maildir { path: "/m".to_owned() },
    };
    assert_eq!(config.control_path(), "/var/lib/daylog.sqlite.control");
}
