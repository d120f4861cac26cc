use vstd::prelude::*;

use crate::strutil::{push_char, push_u64, spec_u64_string};

verus! {

/// Database settings.
#[derive(Debug, Clone)]
pub struct DatabaseConfig {
    pub url: String,
    pub max_connections: u32,
}

/// Settings of the chat platform's application.
#[derive(Debug, Clone)]
pub struct DiscordConfig {
    pub client_id: String,
    pub client_secret: String,
    pub redirect_uri: String,
}

/// Bind address settings.
#[derive(Debug, Clone)]
pub struct ServerConfig {
    pub host: String,
    pub port: u16,
    pub frontend_url: String,
}

/// Secrets.
#[derive(Debug, Clone)]
pub struct SecurityConfig {
    pub jwt_secret: String,
    pub encryption_key: String,
}

/// Game tuning.
#[derive(Debug, Clone)]
pub struct GameConfig {
    pub dictionary_path: String,
    pub max_players: usize,
    pub default_rounds: u8,
    pub timer_duration: u32,
}

/// The server's configuration. Loading it from the environment is the
/// embedding program's concern; the library works on the loaded values.
#[derive(Debug, Clone)]
pub struct Config {
    pub database: DatabaseConfig,
    pub discord: DiscordConfig,
    pub server: ServerConfig,
    pub security: SecurityConfig,
    pub game: GameConfig,
}

impl Config {
    /// The database connection string.
    pub fn database_url(&self) -> (r: &str)
        ensures
            r@ == self.database.url@,
    {
        self.database.url.as_str()
    }

    /// The bind address: host, a colon, and the port in decimal.
    pub fn server_addr(&self) -> (r: String)
        ensures
            r@ == self.server.host@ + seq![':'] + spec_u64_string(self.server.port as nat),
    {
        let mut s = self.server.host.clone();
        push_char(&mut s, ':');
        push_u64(&mut s, self.server.port as u64);
        proof {
            assert(self.server.host@.push(':') =~= self.server.host@ + seq![':']);
        }
        s
    }
}

} // verus!
