//! HTTP client configuration: pooling bounds, adaptive timeouts, and the
//! factory presets for downloads, metadata, and connectivity probes.

use vstd::prelude::*;
use crate::error::IaGetError;

verus! {

/// Configuration of the pooled HTTP client. Timeouts are in seconds.
#[derive(Debug, Clone, Copy, PartialEq, Eq, Structural)]
pub struct ClientConfig {
    /// Idle connections kept per host.
    pub max_idle_per_host: usize,
    /// Base timeout for requests, in seconds.
    pub base_timeout_secs: u64,
    /// Timeout ceiling for large files, in seconds.
    pub max_timeout_secs: u64,
    /// Idle timeout of the connection pool, in seconds.
    pub pool_idle_timeout_secs: u64,
    /// Whether HTTP/2 is assumed up front.
    pub http2_prior_knowledge: bool,
    /// TCP keepalive interval in seconds, when enabled.
    pub tcp_keepalive_secs: Option<u64>,
    /// Whether gzip-compressed responses are accepted.
    pub gzip: bool,
    /// Whether deflate-compressed responses are accepted.
    pub deflate: bool,
}

impl Default for ClientConfig {
    /// The built-in defaults: eight idle connections per host, a thirty
    /// second base timeout, a five minute ceiling, keepalive each minute.
    fn default() -> (r: ClientConfig)
        ensures
            r.max_idle_per_host == 8,
            r.base_timeout_secs == 30,
            r.max_timeout_secs == 300,
            r.pool_idle_timeout_secs == 90,
            r.http2_prior_knowledge == true,
            r.tcp_keepalive_secs == Some(60u64),
            r.gzip == true,
            r.deflate == true,
    {
        ClientConfig {
            max_idle_per_host: 8,
            base_timeout_secs: 30,
            max_timeout_secs: 300,
            pool_idle_timeout_secs: 90,
            http2_prior_knowledge: true,
            tcp_keepalive_secs: Some(60),
            gzip: true,
            deflate: true,
        }
    }
}

/// The effective timeout for an expected size: the base timeout plus the
/// transfer time at one hundred KiB per second, capped at the ceiling; an
/// unknown size uses the base timeout. The sum never falls below the base,
/// so only the ceiling can cut it.
pub open spec fn spec_timeout_for(c: ClientConfig, expected_size: Option<u64>) -> u64 {
    match expected_size {
        Some(size) => {
            let estimated = c.base_timeout_secs + size as int / 102400;
            if estimated > c.max_timeout_secs {
                c.max_timeout_secs
            } else {
                estimated as u64
            }
        },
        None => c.base_timeout_secs,
    }
}

/// The pooled client with its configuration. The shell drives the actual
/// requests through `client`.
pub struct EnhancedHttpClient {
    /// The pooled client.
    pub client: reqwest::Client,
    /// The configuration it was built with.
    pub config: ClientConfig,
}

/// Relies on `reqwest::ClientBuilder`: builds a pooled client configured
/// with the given user agent, base timeout, pool idle timeout and size,
/// keepalive, and the gzip switch. The remaining fields (`deflate`,
/// `http2_prior_knowledge`, `max_timeout_secs`) are recorded for the
/// per-request decisions such as `calculate_timeout`, not applied here.
#[verifier::external_body]
fn build_pooled_client(user_agent: &str, config: &ClientConfig) -> (r: Result<
    reqwest::Client,
    String,
>) {
    let mut builder = reqwest::ClientBuilder::new()
        .user_agent(user_agent)
        .timeout(std::time::Duration::from_secs(config.base_timeout_secs))
        .pool_idle_timeout(std::time::Duration::from_secs(config.pool_idle_timeout_secs))
        .pool_max_idle_per_host(config.max_idle_per_host);
    if !config.gzip {
        builder = builder.no_gzip();
    }
    if let Some(keepalive) = config.tcp_keepalive_secs {
        builder = builder.tcp_keepalive(std::time::Duration::from_secs(keepalive));
    }
    builder.build().map_err(|e| format!("{}", e))
}

impl EnhancedHttpClient {
    /// A client with the built-in configuration.
    pub fn new() -> (r: Result<EnhancedHttpClient, IaGetError>)
        ensures
            match r {
                Ok(c) => c.config == ClientConfig {
                    max_idle_per_host: 8,
                    base_timeout_secs: 30,
                    max_timeout_secs: 300,
                    pool_idle_timeout_secs: 90,
                    http2_prior_knowledge: true,
                    tcp_keepalive_secs: Some(60u64),
                    gzip: true,
                    deflate: true,
                },
                Err(e) => e is Network,
            },
    {
        Self::with_config(ClientConfig::default())
    }

    /// A client with the given configuration; fails as a network error when
    /// the client cannot be built.
    pub fn with_config(config: ClientConfig) -> (r: Result<EnhancedHttpClient, IaGetError>)
        ensures
            match r {
                Ok(c) => c.config == config,
                Err(e) => e is Network,
            },
    {
        let ua = crate::constants::get_user_agent();
        match build_pooled_client(ua.as_str(), &config) {
            Ok(client) => Ok(EnhancedHttpClient { client, config }),
            Err(m) => Err(IaGetError::Network(m)),
        }
    }

    /// The underlying pooled client.
    pub fn client(&self) -> (r: &reqwest::Client) {
        &self.client
    }

    /// The timeout for a request of the expected size, in seconds, per
    /// `spec_timeout_for`.
    pub fn calculate_timeout(&self, expected_size: Option<u64>) -> (r: u64)
        ensures
            r == spec_timeout_for(self.config, expected_size),
    {
        match expected_size {
            Some(size) => {
                let transfer = size / 102400;
                if transfer > u64::MAX - self.config.base_timeout_secs {
                    self.config.max_timeout_secs
                } else {
                    let estimated = self.config.base_timeout_secs + transfer;
                    if estimated > self.config.max_timeout_secs {
                        self.config.max_timeout_secs
                    } else {
                        estimated
                    }
                }
            },
            None => self.config.base_timeout_secs,
        }
    }
}

/// Preset configurations for the three kinds of traffic.
pub struct HttpClientFactory;

impl HttpClientFactory {
    /// A client for archive downloads: many connections, long timeouts.
    pub fn for_archive_downloads() -> (r: Result<EnhancedHttpClient, IaGetError>)
        ensures
            match r {
                Ok(c) => c.config == ClientConfig {
                    max_idle_per_host: 16,
                    base_timeout_secs: 60,
                    max_timeout_secs: 600,
                    pool_idle_timeout_secs: 120,
                    http2_prior_knowledge: false,
                    tcp_keepalive_secs: Some(75u64),
                    gzip: true,
                    deflate: true,
                },
                Err(e) => e is Network,
            },
    {
        EnhancedHttpClient::with_config(
            ClientConfig {
                max_idle_per_host: 16,
                base_timeout_secs: 60,
                max_timeout_secs: 600,
                pool_idle_timeout_secs: 120,
                http2_prior_knowledge: false,
                tcp_keepalive_secs: Some(75),
                gzip: true,
                deflate: true,
            },
        )
    }

    /// A client for metadata requests: few connections, short timeouts.
    pub fn for_metadata_requests() -> (r: Result<EnhancedHttpClient, IaGetError>)
        ensures
            match r {
                Ok(c) => c.config == ClientConfig {
                    max_idle_per_host: 4,
                    base_timeout_secs: 15,
                    max_timeout_secs: 30,
                    pool_idle_timeout_secs: 60,
                    http2_prior_knowledge: false,
                    tcp_keepalive_secs: Some(60u64),
                    gzip: true,
                    deflate: true,
                },
                Err(e) => e is Network,
            },
    {
        EnhancedHttpClient::with_config(
            ClientConfig {
                max_idle_per_host: 4,
                base_timeout_secs: 15,
                max_timeout_secs: 30,
                pool_idle_timeout_secs: 60,
                http2_prior_knowledge: false,
                tcp_keepalive_secs: Some(60),
                gzip: true,
                deflate: true,
            },
        )
    }

    /// A lightweight client for connectivity probes.
    pub fn for_connectivity_tests() -> (r: Result<EnhancedHttpClient, IaGetError>)
        ensures
            match r {
                Ok(c) => c.config == ClientConfig {
                    max_idle_per_host: 2,
                    base_timeout_secs: 5,
                    max_timeout_secs: 10,
                    pool_idle_timeout_secs: 30,
                    http2_prior_knowledge: false,
                    tcp_keepalive_secs: None,
                    gzip: false,
                    deflate: false,
                },
                Err(e) => e is Network,
            },
    {
        EnhancedHttpClient::with_config(
            ClientConfig {
                max_idle_per_host: 2,
                base_timeout_secs: 5,
                max_timeout_secs: 10,
                pool_idle_timeout_secs: 30,
                http2_prior_knowledge: false,
                tcp_keepalive_secs: None,
                gzip: false,
                deflate: false,
            },
        )
    }
}

} // verus!
