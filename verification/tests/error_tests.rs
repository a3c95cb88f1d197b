use dbmeta::error::DBError;
use dbmeta::{ConnectionConfig, Engine};

#[test]
fn error_message_accessor() {
    assert_eq!(DBError::Args(String::from("bad port")).message(), "bad port");
    assert_eq!(DBError::DB(String::from("connection refused")).message(), "connection refused");
    assert_eq!(DBError::Unknow(String::from("odd tag")).message(), "odd tag");
}

#[test]
fn engine_equality_and_config() {
    assert_eq!(Engine::MYSQL, Engine::MYSQL);
    assert_ne!(Engine::TIDB, Engine::POSTGRES);
    let cfg = ConnectionConfig {
        engine: Engine::MYSQL,
        host: String::from("127.0.0.1"),
        port: 3306,
        username: String::from("root"),
        password: String::from("SECRET-REDACTED"),
        database: String::from("exp"),
    };
    let copy = cfg.clone();
    assert_eq!(copy.engine, Engine::MYSQL);
    assert_eq!(copy.host, "127.0.0.1");
    assert_eq!(copy.port, 3306);
    assert_eq!(copy.database, "exp");
}
