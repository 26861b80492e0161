//! Settings of the service, and what is derived from them.
use vstd::prelude::*;
use crate::text::{trim_end_slashes, trim_text, trimmed, without_trailing_slashes};

verus! {

#[derive(Debug, Clone)]
pub struct AppConfig {
    pub environment: EnvironmentConfig,
    pub server: ServerConfig,
    pub datasource: DatasourceConfig,
    pub logging: LoggingConfig,
}

#[derive(Debug, Clone)]
pub struct EnvironmentConfig {
    pub env: String,
}

#[derive(Debug, Clone)]
pub struct ServerConfig {
    pub host: Option<String>,
    pub port: u16,
    pub base_url: Option<String>,
}

#[derive(Debug, Clone)]
pub struct DatasourceConfig {
    pub url: String,
}

#[derive(Debug, Clone)]
pub struct LoggingConfig {
    pub level: String,
}

/// The public base URL: trimmed, without trailing slashes, and absent when blank.
pub fn normalize_base_url(config: &AppConfig) -> (r: Option<String>)
    ensures
        match config.server.base_url {
            None => r is None,
            Some(b) => if trimmed(b@).len() == 0 {
                r is None
            } else {
                r is Some && r->Some_0@ == without_trailing_slashes(trimmed(b@))
            },
        },
{
    match &config.server.base_url {
        None => None,
        Some(b) => {
            let t = trim_text(b.as_str());
            if t.is_empty() {
                None
            } else {
                Some(trim_end_slashes(t).to_owned())
            }
        },
    }
}

/// The public link of a code: the base without trailing slashes, a slash,
/// and the code; absent when either part is empty.
pub fn build_short_url(base_url: Option<&str>, code: &str) -> (r: Option<String>)
    ensures
        match base_url {
            None => r is None,
            Some(b) => if without_trailing_slashes(b@).len() == 0 || code@.len() == 0 {
                r is None
            } else {
                r is Some && r->Some_0@ == without_trailing_slashes(b@) + "/"@ + code@
            },
        },
{
    match base_url {
        None => None,
        Some(b) => {
            let base = trim_end_slashes(b);
            if base.is_empty() || code.is_empty() {
                None
            } else {
                let mut s = base.to_owned();
                s.append("/");
                s.append(code);
                Some(s)
            }
        },
    }
}

} // verus!
