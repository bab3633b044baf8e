use vstd::prelude::*;

verus! {

/// Service configuration, as plain values. Reading it from the process
/// environment is the embedding program's business; the library only
/// carries it.
#[derive(Debug, Clone)]
pub struct Config {
    pub database_url: String,
    pub redis_url: String,
    pub jwt_secret: String,
    pub supabase_url: String,
    pub supabase_anon_key: String,
    pub supabase_service_role_key: String,
    pub port: u16,
    pub sentry_dsn: Option<String>,
    pub upload_dir: String,
    pub max_file_size: usize,
    pub frontend_url: String,
}

} // verus!
