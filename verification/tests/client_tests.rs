//! Tests for the HTTP client configuration and timeouts.

use ia_get::http_client::{ClientConfig, EnhancedHttpClient, HttpClientFactory};

#[test]
fn test_client_config_defaults() {
    let config = ClientConfig::default();
    assert_eq!(config.max_idle_per_host, 8);
    assert_eq!(config.base_timeout_secs, 30);
    assert!(config.http2_prior_knowledge);
    assert!(config.gzip);
}

#[test]
fn test_timeout_calculation() {
    let client = EnhancedHttpClient::new().unwrap();

    let small_timeout = client.calculate_timeout(Some(1024));
    assert_eq!(small_timeout, client.config.base_timeout_secs);

    let large_timeout = client.calculate_timeout(Some(100 * 1024 * 1024));
    assert!(large_timeout > client.config.base_timeout_secs);
    assert!(large_timeout <= client.config.max_timeout_secs);

    let no_size_timeout = client.calculate_timeout(None);
    assert_eq!(no_size_timeout, client.config.base_timeout_secs);
}

#[test]
fn test_timeout_formula_on_presets() {
    // base + size / (100 KiB/s), capped at the ceiling
    let metadata_client = HttpClientFactory::for_metadata_requests().unwrap();
    assert_eq!(metadata_client.calculate_timeout(Some(1024 * 1024)), 15 + 10);
    assert_eq!(metadata_client.calculate_timeout(Some(100 * 1024 * 1024)), 30);
    let archive_client = HttpClientFactory::for_archive_downloads().unwrap();
    assert_eq!(archive_client.calculate_timeout(Some(10 * 1024 * 1024)), 60 + 102);
}

#[test]
fn test_client_factory() {
    let archive_client = HttpClientFactory::for_archive_downloads().unwrap();
    let metadata_client = HttpClientFactory::for_metadata_requests().unwrap();
    let test_client = HttpClientFactory::for_connectivity_tests().unwrap();

    assert!(archive_client.config.max_idle_per_host > metadata_client.config.max_idle_per_host);
    assert!(test_client.config.base_timeout_secs < metadata_client.config.base_timeout_secs);
}

#[test]
fn test_user_agent_generation() {
    let user_agent = ia_get::constants::get_user_agent();
    assert!(user_agent.contains("ia-get"));
    assert!(user_agent.len() > 10);
    let user_agent2 = ia_get::constants::get_user_agent();
    assert_eq!(user_agent, user_agent2);
}

#[test]
fn test_user_agent_structure() {
    let user_agent = ia_get::constants::get_user_agent();
    assert!(!user_agent.is_empty());
    assert!(!user_agent.to_lowercase().contains("password"));
    assert!(!user_agent.to_lowercase().contains("token"));
    assert!(!user_agent.to_lowercase().contains("key"));
    assert!(user_agent.len() < 200);
}
