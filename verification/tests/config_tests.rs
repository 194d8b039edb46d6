//! Tests of the configuration: defaults, rules, merging and overrides.

use unimodel::common::error::UniModelError;
use unimodel::common::types::BatchConfig;
use unimodel::infrastructure::configuration::{Config, EnvOverrides, FRACTION_ONE_BITS};

fn config_overrides() -> EnvOverrides {
    EnvOverrides {
        host: None,
        port: None,
        grpc_port: None,
        max_models: None,
        gpu_devices: None,
        plugin_dir: None,
    }
}

fn config_error(message: &str) -> Result<(), UniModelError> {
    Err(UniModelError::Config(message.to_string()))
}

#[test]
fn default_configuration_values() {
    let config = Config::default();
    assert_eq!(config.server.host, "0.0.0.0");
    assert_eq!(config.server.port, 8000);
    assert_eq!(config.server.grpc_port, 9000);
    assert_eq!(config.server.max_connections, 1000);
    assert_eq!(config.server.request_timeout_secs, 300);
    assert!(!config.server.enable_tls);
    assert_eq!(config.server.tls_cert_path, None);
    assert_eq!(config.server.worker_threads, None);
    assert_eq!(config.engine.max_models, 10);
    assert_eq!(config.engine.default_batch_size, 8);
    assert_eq!(config.engine.max_batch_wait_ms, 50);
    assert_eq!(config.engine.batch_config, BatchConfig::default());
    assert_eq!(config.engine.gpu.device_ids, vec![0]);
    assert_eq!(f32::from_bits(config.engine.gpu.memory_fraction_bits), 0.8);
    assert!(config.engine.gpu.enable_pooling);
    assert!(!config.engine.gpu.enable_p2p);
    assert_eq!(f32::from_bits(config.engine.memory.max_memory_gb_bits), 16.0);
    assert!(config.engine.memory.enable_mmap);
    assert_eq!(config.engine.memory.cache_size_mb, 1024);
    assert_eq!(config.plugins.plugin_dir, "./plugins");
    assert_eq!(config.plugins.enabled_plugins, vec!["pytorch", "onnx", "tensorrt"]);
    assert!(config.plugins.plugin_configs.is_empty());
    assert_eq!(config.plugins.plugin_timeout_secs, 300);
    assert!(config.monitoring.prometheus_enabled);
    assert_eq!(config.monitoring.prometheus_port, 9090);
    assert!(!config.monitoring.jaeger_enabled);
    assert_eq!(config.monitoring.jaeger_endpoint, None);
    assert_eq!(config.monitoring.health_check_interval_secs, 30);
    assert_eq!(config.monitoring.metrics_collection_interval_secs, 60);
    assert!(!config.security.auth_enabled);
    assert_eq!(config.security.jwt_secret, None);
    assert!(config.security.api_keys.is_empty());
    assert!(config.security.cors_enabled);
    assert_eq!(config.security.cors_allowed_origins, vec!["*"]);
    assert!(config.security.rate_limiting.enabled);
    assert_eq!(config.security.rate_limiting.requests_per_minute, 1000);
    assert_eq!(config.security.rate_limiting.burst_size, 100);
    assert_eq!(config.storage.model_storage_path, "./models");
    assert_eq!(config.storage.cache_storage_path, "./cache");
    assert_eq!(config.storage.log_storage_path, "./logs");
    assert_eq!(config.storage.max_storage_gb, 1000);
    assert_eq!(config.logging.level, "info");
    assert_eq!(config.logging.format, "json");
    assert!(config.logging.console_output);
    assert!(config.logging.file_output);
    assert_eq!(config.logging.file_path, Some("./logs/unimodel.log".to_string()));
    assert_eq!(config.logging.rotation_size_mb, 100);
    assert_eq!(config.logging.retention_count, 10);
    assert_eq!(config.validate(), Ok(()));
}

#[test]
fn validation_reports_the_first_broken_rule() {
    let mut config = Config::default();
    config.server.port = 0;
    config.server.grpc_port = 0;
    assert_eq!(config.validate(), config_error("Invalid server port"));

    let mut config = Config::default();
    config.server.grpc_port = 0;
    config.engine.batch_config.max_batch_size = 0;
    assert_eq!(config.validate(), config_error("Invalid gRPC port"));

    let mut config = Config::default();
    config.server.grpc_port = config.server.port;
    assert_eq!(config.validate(), config_error("HTTP and gRPC ports cannot be the same"));

    let mut config = Config::default();
    config.engine.batch_config.max_batch_size = 0;
    config.engine.batch_config.max_wait_time_ms = 0;
    assert_eq!(config.validate(), config_error("Max batch size must be greater than 0"));

    let mut config = Config::default();
    config.engine.batch_config.max_wait_time_ms = 0;
    config.engine.gpu.device_ids = Vec::new();
    assert_eq!(config.validate(), config_error("Max wait time must be greater than 0"));

    let mut config = Config::default();
    config.engine.gpu.device_ids = Vec::new();
    config.storage.model_storage_path = String::new();
    assert_eq!(config.validate(), config_error("At least one GPU device must be specified"));

    let mut config = Config::default();
    config.storage.model_storage_path = String::new();
    config.server.enable_tls = true;
    assert_eq!(config.validate(), config_error("Model storage path cannot be empty"));

    let tls_error = "TLS cert and key paths must be provided when TLS is enabled";
    let mut config = Config::default();
    config.server.enable_tls = true;
    assert_eq!(config.validate(), config_error(tls_error));
    config.server.tls_cert_path = Some("cert.pem".to_string());
    assert_eq!(config.validate(), config_error(tls_error));
    config.server.tls_cert_path = None;
    config.server.tls_key_path = Some("key.pem".to_string());
    assert_eq!(config.validate(), config_error(tls_error));
    config.server.tls_cert_path = Some("cert.pem".to_string());
    assert_eq!(config.validate(), Ok(()));
    // Without TLS the paths do not matter, and the largest port is fine.
    let mut config = Config::default();
    config.server.port = 65535;
    config.server.grpc_port = 1;
    assert_eq!(config.validate(), Ok(()));
    assert_eq!(config.validate().unwrap_or(()), ());
    let mut config = Config::default();
    config.server.port = 0;
    assert_eq!(config.validate().unwrap_err().status_code(), 500);
}

#[test]
fn memory_fraction_lies_above_zero_and_at_most_at_one() {
    assert_eq!(FRACTION_ONE_BITS, 1.0f32.to_bits());
    let message = "GPU memory fraction must be between 0 and 1";
    let accepted = [1.0f32, 0.8, 0.5, 1e-6, f32::MIN_POSITIVE, f32::from_bits(1), 0.99999994];
    for fraction in accepted {
        let mut config = Config::default();
        config.engine.gpu.memory_fraction_bits = fraction.to_bits();
        assert_eq!(config.validate(), Ok(()), "{}", fraction);
        assert!(fraction > 0.0 && fraction <= 1.0);
    }
    let refused =
        [0.0f32, -0.0, -0.5, -1.0, 1.0000001, 2.0, f32::INFINITY, f32::NEG_INFINITY, f32::NAN, f32::MAX];
    for fraction in refused {
        let mut config = Config::default();
        config.engine.gpu.memory_fraction_bits = fraction.to_bits();
        assert_eq!(config.validate(), config_error(message), "{}", fraction);
        assert!(!(fraction > 0.0 && fraction <= 1.0));
    }
}

#[test]
fn merge_takes_every_section_of_the_other() {
    let base = Config::default();
    let mut other = Config::default();
    other.server.port = 1234;
    other.engine.max_models = 3;
    other.plugins.plugin_dir = "/opt/plugins".to_string();
    other.monitoring.prometheus_port = 1;
    other.security.auth_enabled = true;
    other.storage.max_storage_gb = 5;
    other.logging.level = "debug".to_string();
    let merged = base.merge(other.clone());
    assert_eq!(merged, other);
}

#[test]
fn overrides_replace_the_defaults() {
    assert_eq!(Config::from_env(config_overrides()), Ok(Config::default()));

    let vars = EnvOverrides {
        host: Some("127.0.0.1".to_string()),
        port: Some("8080".to_string()),
        grpc_port: Some("+9090".to_string()),
        max_models: Some("0042".to_string()),
        gpu_devices: Some(" 0, 1 ,3".to_string()),
        plugin_dir: Some("/plugins".to_string()),
    };
    let config = Config::from_env(vars).unwrap();
    let mut expected = Config::default();
    expected.server.host = "127.0.0.1".to_string();
    expected.server.port = 8080;
    expected.server.grpc_port = 9090;
    expected.engine.max_models = 42;
    expected.engine.gpu.device_ids = vec![0, 1, 3];
    expected.plugins.plugin_dir = "/plugins".to_string();
    assert_eq!(config, expected);

    let mut vars = config_overrides();
    vars.max_models = Some("4294967295".to_string());
    vars.gpu_devices = Some("4294967295".to_string());
    let config = Config::from_env(vars).unwrap();
    assert_eq!(config.engine.max_models, u32::MAX);
    assert_eq!(config.engine.gpu.device_ids, vec![u32::MAX]);
}

#[test]
fn overrides_that_cannot_be_read_are_refused_by_name() {
    let refused = |vars: EnvOverrides, message: &str| {
        assert_eq!(Config::from_env(vars), Err(UniModelError::Config(message.to_string())));
    };
    for text in ["", "abc", "65536", "-1", " 80", "80 ", "8 0", "0x50"] {
        let mut vars = config_overrides();
        vars.port = Some(text.to_string());
        // A later fault does not hide the first.
        vars.grpc_port = Some("x".to_string());
        refused(vars, "Invalid UNIMODEL_PORT");
        let mut vars = config_overrides();
        vars.grpc_port = Some(text.to_string());
        vars.max_models = Some("x".to_string());
        refused(vars, "Invalid UNIMODEL_GRPC_PORT");
    }
    for text in ["", "ten", "4294967296", "-3", "1.5"] {
        let mut vars = config_overrides();
        vars.max_models = Some(text.to_string());
        vars.gpu_devices = Some("x".to_string());
        refused(vars, "Invalid UNIMODEL_MAX_MODELS");
    }
    for text in ["", ",", "0,", ",0", "0,,1", "a", "0;1", "0,4294967296", "0 1"] {
        let mut vars = config_overrides();
        vars.gpu_devices = Some(text.to_string());
        refused(vars, "Invalid UNIMODEL_GPU_DEVICES");
    }
}

#[test]
fn overridden_ports_must_pass_validation() {
    let mut vars = config_overrides();
    vars.port = Some("0".to_string());
    assert_eq!(Config::from_env(vars), Err(UniModelError::config("Invalid server port")));
    let mut vars = config_overrides();
    vars.grpc_port = Some("0".to_string());
    assert_eq!(Config::from_env(vars), Err(UniModelError::config("Invalid gRPC port")));
    let mut vars = config_overrides();
    vars.port = Some("9000".to_string());
    assert_eq!(
        Config::from_env(vars),
        Err(UniModelError::config("HTTP and gRPC ports cannot be the same"))
    );
    let mut vars = config_overrides();
    vars.port = Some("9000".to_string());
    vars.grpc_port = Some("8000".to_string());
    assert!(Config::from_env(vars).is_ok());
}
