use cli_kit::config::{Conf, DbConf, LogConf, ServerConf};

#[test]
fn test_config() {
    let conf = Conf::default();
    println!("{:#?}", conf);
    assert_eq!(conf.app_name, "confique_demo");
    assert_eq!(conf.db.db_name, "confique_demo");
    assert_eq!(conf.db.db_type, "postgres");
    assert_eq!(conf.db.db_host, "localhost");
    assert_eq!(conf.db.db_port, 5432);
    assert_eq!(conf.db.db_user, "postgres");
    assert_eq!(conf.db.db_password, "postgres");
    assert_eq!(conf.db.db_pool_size, 10);
    assert_eq!(conf.server.server_host, "localhost");
    assert_eq!(conf.server.server_port, 8080);
    assert_eq!(conf.log.log_level, "info");
    assert_eq!(conf.log.log_path, "log");
}

#[test]
fn section_defaults_agree_with_the_whole() {
    let conf = Conf::default();
    let db = DbConf::default();
    let server = ServerConf::default();
    let log = LogConf::default();
    assert_eq!((conf.db.db_name, conf.db.db_port), (db.db_name, db.db_port));
    assert_eq!((conf.server.server_host, conf.server.server_port), (server.server_host, server.server_port));
    assert_eq!((conf.log.log_level, conf.log.log_path), (log.log_level, log.log_path));
}
