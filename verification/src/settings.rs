//! Process settings: where to serve, where the configuration and the store
//! live, and how often the crawler runs.  Parsing the command line is the
//! caller's business; this type only carries the chosen values.

use vstd::prelude::*;

verus! {

/// Mathematical value of [`Settings`].
pub ghost struct SettingsVal {
    pub bind_address: Seq<char>,
    pub bind_port: u16,
    pub period: usize,
    pub config_path: Seq<char>,
    pub database_path: Seq<char>,
    pub create_database: bool,
    pub force: bool,
    pub disable_crawler: bool,
}

/// The settings a run of the process uses.
#[derive(Clone, Debug)]
pub struct Settings {
    bind_address: String,
    bind_port: u16,
    period: usize,
    config_path: String,
    database_path: String,
    create_database: bool,
    force: bool,
    disable_crawler: bool,
}

impl View for Settings {
    type V = SettingsVal;

    closed spec fn view(&self) -> SettingsVal {
        SettingsVal {
            bind_address: self.bind_address@,
            bind_port: self.bind_port,
            period: self.period,
            config_path: self.config_path@,
            database_path: self.database_path@,
            create_database: self.create_database,
            force: self.force,
            disable_crawler: self.disable_crawler,
        }
    }
}

impl Settings {
    /// Builds settings from explicit values.
    pub fn new(
        bind_address: String,
        bind_port: u16,
        period: usize,
        config_path: String,
        database_path: String,
        create_database: bool,
        force: bool,
        disable_crawler: bool,
    ) -> (r: Settings)
        ensures
            r@ == (SettingsVal {
                bind_address: bind_address@,
                bind_port,
                period,
                config_path: config_path@,
                database_path: database_path@,
                create_database,
                force,
                disable_crawler,
            }),
    {
        Settings {
            bind_address,
            bind_port,
            period,
            config_path,
            database_path,
            create_database,
            force,
            disable_crawler,
        }
    }

    /// Address to bind the serving side on.
    pub fn bind_address(&self) -> (r: String)
        ensures
            r@ == self@.bind_address,
    {
        self.bind_address.clone()
    }

    /// Port to listen on.
    pub fn bind_port(&self) -> (r: u16)
        ensures
            r == self@.bind_port,
    {
        self.bind_port
    }

    /// Crawl period, in hours.
    pub fn period(&self) -> (r: usize)
        ensures
            r == self@.period,
    {
        self.period
    }

    /// Path of the configuration file.
    pub fn config_path(&self) -> (r: String)
        ensures
            r@ == self@.config_path,
    {
        self.config_path.clone()
    }

    /// Path of the store file.
    pub fn database_path(&self) -> (r: String)
        ensures
            r@ == self@.database_path,
    {
        self.database_path.clone()
    }

    /// Whether to create the store on startup.
    pub fn create_database(&self) -> (r: bool)
        ensures
            r == self@.create_database,
    {
        self.create_database
    }

    /// Whether to overwrite an existing store.
    pub fn force(&self) -> (r: bool)
        ensures
            r == self@.force,
    {
        self.force
    }

    /// Whether the crawler stays off for this run.
    pub fn disable_crawler(&self) -> (r: bool)
        ensures
            r == self@.disable_crawler,
    {
        self.disable_crawler
    }
}

impl Default for Settings {
    /// The defaults: serve on localhost port 8080, crawl every 12 hours,
    /// read `config.toml`, store in `local.sqlite`, and leave an existing
    /// store alone.
    fn default() -> (r: Settings)
        ensures
            r@.bind_address == "localhost"@,
            r@.bind_port == 8080,
            r@.period == 12,
            r@.config_path == "config.toml"@,
            r@.database_path == "local.sqlite"@,
            !r@.create_database,
            !r@.force,
            !r@.disable_crawler,
    {
        Settings {
            bind_address: String::from_str("localhost"),
            bind_port: 8080,
            period: 12,
            config_path: String::from_str("config.toml"),
            database_path: String::from_str("local.sqlite"),
            create_database: false,
            force: false,
            disable_crawler: false,
        }
    }
}

} // verus!
