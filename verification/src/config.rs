//! The configuration of the demo service and its defaults.
//!
//! Every setting has a default, so a configuration can always be had: what no
//! source sets keeps the value given here.

use vstd::prelude::*;

verus! {

/// Database settings.
#[derive(Clone, Debug)]
pub struct DbConf {
    pub db_name: String,
    pub db_type: String,
    pub db_host: String,
    pub db_port: u16,
    pub db_user: String,
    pub db_password: String,
    pub db_pool_size: u16,
}

/// Server settings.
#[derive(Clone, Debug)]
pub struct ServerConf {
    pub server_host: String,
    pub server_port: u16,
}

/// Logging settings.
#[derive(Clone, Debug)]
pub struct LogConf {
    pub log_level: String,
    pub log_path: String,
}

/// The whole configuration.
#[derive(Clone, Debug)]
pub struct Conf {
    pub app_name: String,
    pub db: DbConf,
    pub server: ServerConf,
    pub log: LogConf,
}

impl DbConf {
    /// Every database setting has its default value.
    pub open spec fn is_default(&self) -> bool {
        &&& self.db_name@ == "confique_demo"@
        &&& self.db_type@ == "postgres"@
        &&& self.db_host@ == "localhost"@
        &&& self.db_port == 5432
        &&& self.db_user@ == "postgres"@
        &&& self.db_password@ == "postgres"@
        &&& self.db_pool_size == 10
    }
}

impl ServerConf {
    /// Every server setting has its default value.
    pub open spec fn is_default(&self) -> bool {
        &&& self.server_host@ == "localhost"@
        &&& self.server_port == 8080
    }
}

impl LogConf {
    /// Every logging setting has its default value.
    pub open spec fn is_default(&self) -> bool {
        &&& self.log_level@ == "info"@
        &&& self.log_path@ == "log"@
    }
}

impl Conf {
    /// Every setting has its default value.
    pub open spec fn is_default(&self) -> bool {
        &&& self.app_name@ == "confique_demo"@
        &&& self.db.is_default()
        &&& self.server.is_default()
        &&& self.log.is_default()
    }
}

impl Default for DbConf {
    fn default() -> (conf: DbConf)
        ensures
            conf.is_default(),
    {
        DbConf {
            db_name: "confique_demo".to_owned(),
            db_type: "postgres".to_owned(),
            db_host: "localhost".to_owned(),
            db_port: 5432,
            db_user: "postgres".to_owned(),
            db_password: "postgres".to_owned(),
            db_pool_size: 10,
        }
    }
}

impl Default for ServerConf {
    fn default() -> (conf: ServerConf)
        ensures
            conf.is_default(),
    {
        ServerConf { server_host: "localhost".to_owned(), server_port: 8080 }
    }
}

impl Default for LogConf {
    fn default() -> (conf: LogConf)
        ensures
            conf.is_default(),
    {
        LogConf { log_level: "info".to_owned(), log_path: "log".to_owned() }
    }
}

impl Default for Conf {
    fn default() -> (conf: Conf)
        ensures
            conf.is_default(),
    {
        Conf {
            app_name: "confique_demo".to_owned(),
            db: DbConf::default(),
            server: ServerConf::default(),
            log: LogConf::default(),
        }
    }
}

} // verus!
