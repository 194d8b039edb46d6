//! The configuration of the gateway: its sections, their defaults, and the
//! rules a configuration must meet before the engine starts.

use crate::common::error::UniModelError;
use crate::common::text::{bounded_value, chars_of, number_list, parse_number_list, parse_unsigned};
use crate::common::types::BatchConfig;
use std::collections::HashMap;
use vstd::prelude::*;

verus! {

/// Listener settings.
#[derive(Debug, Clone, PartialEq)]
pub struct ServerConfig {
    pub host: String,
    pub port: u16,
    pub grpc_port: u16,
    pub max_connections: u32,
    pub request_timeout_secs: u64,
    pub enable_tls: bool,
    pub tls_cert_path: Option<String>,
    pub tls_key_path: Option<String>,
    pub worker_threads: Option<usize>,
}

/// Accelerator settings.
#[derive(Debug, Clone, PartialEq)]
pub struct GpuConfig {
    pub device_ids: Vec<u32>,
    /// Share of device memory the engine may take, as the bit pattern of a
    /// single-precision number.
    pub memory_fraction_bits: u32,
    pub enable_pooling: bool,
    pub enable_p2p: bool,
}

/// Host memory settings.
#[derive(Debug, Clone, Copy, PartialEq, Eq, Structural)]
pub struct MemoryConfig {
    /// Most host memory in gigabytes, as the bit pattern of a
    /// single-precision number.
    pub max_memory_gb_bits: u32,
    pub enable_mmap: bool,
    pub cache_size_mb: u64,
}

/// Engine settings.
#[derive(Debug, Clone, PartialEq)]
pub struct EngineConfig {
    /// Most models the registry holds at once.
    pub max_models: u32,
    pub default_batch_size: u32,
    pub max_batch_wait_ms: u64,
    /// Batch policy of a model that brings none.
    pub batch_config: BatchConfig,
    pub gpu: GpuConfig,
    pub memory: MemoryConfig,
}

/// Backend executor settings.
#[derive(Debug, Clone, PartialEq)]
pub struct PluginConfig {
    pub plugin_dir: String,
    pub enabled_plugins: Vec<String>,
    pub plugin_configs: HashMap<String, serde_json::Value>,
    pub plugin_timeout_secs: u64,
}

/// Metrics and tracing settings.
#[derive(Debug, Clone, PartialEq)]
pub struct MonitoringConfig {
    pub prometheus_enabled: bool,
    pub prometheus_port: u16,
    pub jaeger_enabled: bool,
    pub jaeger_endpoint: Option<String>,
    pub health_check_interval_secs: u64,
    pub metrics_collection_interval_secs: u64,
}

/// Request rate limits.
#[derive(Debug, Clone, Copy, PartialEq, Eq, Structural)]
pub struct RateLimitConfig {
    pub enabled: bool,
    pub requests_per_minute: u32,
    pub burst_size: u32,
}

/// Access control settings.
#[derive(Debug, Clone, PartialEq)]
pub struct SecurityConfig {
    pub auth_enabled: bool,
    pub jwt_secret: Option<String>,
    pub api_keys: Vec<String>,
    pub cors_enabled: bool,
    pub cors_allowed_origins: Vec<String>,
    pub rate_limiting: RateLimitConfig,
}

/// Where models, caches and logs are kept.
#[derive(Debug, Clone, PartialEq)]
pub struct StorageConfig {
    pub model_storage_path: String,
    pub cache_storage_path: String,
    pub log_storage_path: String,
    pub max_storage_gb: u64,
}

/// Log output settings.
#[derive(Debug, Clone, PartialEq)]
pub struct LoggingConfig {
    pub level: String,
    pub format: String,
    pub console_output: bool,
    pub file_output: bool,
    pub file_path: Option<String>,
    pub rotation_size_mb: u64,
    pub retention_count: u32,
}

/// What the environment says about the configuration: the text of each
/// override that is set.
#[derive(Debug, Clone, PartialEq)]
pub struct EnvOverrides {
    pub host: Option<String>,
    pub port: Option<String>,
    pub grpc_port: Option<String>,
    pub max_models: Option<String>,
    /// Accelerator ids, separated by commas.
    pub gpu_devices: Option<String>,
    pub plugin_dir: Option<String>,
}

/// The whole configuration.
#[derive(Debug, Clone, PartialEq)]
pub struct Config {
    pub server: ServerConfig,
    pub engine: EngineConfig,
    pub plugins: PluginConfig,
    pub monitoring: MonitoringConfig,
    pub security: SecurityConfig,
    pub storage: StorageConfig,
    pub logging: LoggingConfig,
}

/// The bit pattern of the single-precision number one. Among the patterns
/// of numbers that are not negative, a larger pattern is a larger number, so
/// a share lies above zero and at most at one exactly when its pattern lies
/// above 0 and at most at this one.
pub const FRACTION_ONE_BITS: u32 = 0x3F80_0000;

/// Whether a bit pattern is that of a share above zero and at most one.
pub open spec fn is_share(bits: u32) -> bool {
    0 < bits <= FRACTION_ONE_BITS
}

impl Config {
    /// The message of the first rule that the configuration breaks, in the
    /// order in which the rules are checked; `None` when it breaks none.
    pub open spec fn fault(self) -> Option<Seq<char>> {
        if self.server.port == 0 {
            Some("Invalid server port"@)
        } else if self.server.grpc_port == 0 {
            Some("Invalid gRPC port"@)
        } else if self.server.port == self.server.grpc_port {
            Some("HTTP and gRPC ports cannot be the same"@)
        } else if self.engine.batch_config.max_batch_size == 0 {
            Some("Max batch size must be greater than 0"@)
        } else if self.engine.batch_config.max_wait_time_ms == 0 {
            Some("Max wait time must be greater than 0"@)
        } else if self.engine.gpu.device_ids@.len() == 0 {
            Some("At least one GPU device must be specified"@)
        } else if !is_share(self.engine.gpu.memory_fraction_bits) {
            Some("GPU memory fraction must be between 0 and 1"@)
        } else if self.storage.model_storage_path@.len() == 0 {
            Some("Model storage path cannot be empty"@)
        } else if self.server.enable_tls && (self.server.tls_cert_path is None
            || self.server.tls_key_path is None) {
            Some("TLS cert and key paths must be provided when TLS is enabled"@)
        } else {
            None
        }
    }

    /// A configuration is valid when it breaks no rule: both ports are set
    /// and differ, the default batch policy has a size and a wait above
    /// zero, an accelerator is named, the memory share lies above zero and at
    /// most at one, models have a place, and TLS comes with certificate and key.
    pub open spec fn valid(self) -> bool {
        self.fault() is None
    }

    /// Checks the rules in order and reports the first that is broken.
    pub fn validate(&self) -> (r: Result<(), UniModelError>)
        ensures
            match r {
                Ok(()) => self.valid(),
                Err(e) => e is Config && self.fault() == Some(e.message()),
            },
    {
        if self.server.port == 0 {
            return Err(UniModelError::config("Invalid server port"));
        }
        if self.server.grpc_port == 0 {
            return Err(UniModelError::config("Invalid gRPC port"));
        }
        if self.server.port == self.server.grpc_port {
            return Err(UniModelError::config("HTTP and gRPC ports cannot be the same"));
        }
        if self.engine.batch_config.max_batch_size == 0 {
            return Err(UniModelError::config("Max batch size must be greater than 0"));
        }
        if self.engine.batch_config.max_wait_time_ms == 0 {
            return Err(UniModelError::config("Max wait time must be greater than 0"));
        }
        if self.engine.gpu.device_ids.len() == 0 {
            return Err(UniModelError::config("At least one GPU device must be specified"));
        }
        if self.engine.gpu.memory_fraction_bits == 0 || self.engine.gpu.memory_fraction_bits
            > FRACTION_ONE_BITS {
            return Err(UniModelError::config("GPU memory fraction must be between 0 and 1"));
        }
        if self.storage.model_storage_path.as_str().is_empty() {
            return Err(UniModelError::config("Model storage path cannot be empty"));
        }
        if self.server.enable_tls {
            if self.server.tls_cert_path.is_none() || self.server.tls_key_path.is_none() {
                return Err(
                    UniModelError::config(
                        "TLS cert and key paths must be provided when TLS is enabled",
                    ),
                );
            }
        }
        Ok(())
    }

    /// Replaces every section by that of `other`.
    pub fn merge(self, other: Config) -> (merged: Config)
        ensures
            merged == other,
    {
        let mut merged = self;
        merged.server = other.server;
        merged.engine = other.engine;
        merged.plugins = other.plugins;
        merged.monitoring = other.monitoring;
        merged.security = other.security;
        merged.storage = other.storage;
        merged.logging = other.logging;
        merged
    }

    /// Whether `c` holds the default of every setting but the six that are
    /// given.
    pub open spec fn is_default_but(
        c: Config,
        host: Seq<char>,
        port: u16,
        grpc_port: u16,
        max_models: u32,
        device_ids: Seq<u32>,
        plugin_dir: Seq<char>,
    ) -> bool {
        &&& c.server.host@ == host
        &&& c.server.port == port
        &&& c.server.grpc_port == grpc_port
        &&& c.server.max_connections == 1000
        &&& c.server.request_timeout_secs == 300
        &&& !c.server.enable_tls
        &&& c.server.tls_cert_path is None
        &&& c.server.tls_key_path is None
        &&& c.server.worker_threads is None
        &&& c.engine.max_models == max_models
        &&& c.engine.default_batch_size == 8
        &&& c.engine.max_batch_wait_ms == 50
        &&& c.engine.batch_config == (BatchConfig {
            max_batch_size: 32,
            max_wait_time_ms: 50,
            dynamic_padding: true,
            timeout_ms: 30000,
        })
        &&& c.engine.gpu.device_ids@ == device_ids
        &&& c.engine.gpu.memory_fraction_bits == 0x3F4C_CCCD
        &&& c.engine.gpu.enable_pooling
        &&& !c.engine.gpu.enable_p2p
        &&& c.engine.memory == (MemoryConfig {
            max_memory_gb_bits: 0x4180_0000,
            enable_mmap: true,
            cache_size_mb: 1024,
        })
        &&& c.plugins.plugin_dir@ == plugin_dir
        &&& c.plugins.enabled_plugins@.len() == 3
        &&& c.plugins.enabled_plugins@[0]@ == "pytorch"@
        &&& c.plugins.enabled_plugins@[1]@ == "onnx"@
        &&& c.plugins.enabled_plugins@[2]@ == "tensorrt"@
        &&& c.plugins.plugin_configs@ == Map::<String, serde_json::Value>::empty()
        &&& c.plugins.plugin_timeout_secs == 300
        &&& c.monitoring.prometheus_enabled
        &&& c.monitoring.prometheus_port == 9090
        &&& !c.monitoring.jaeger_enabled
        &&& c.monitoring.jaeger_endpoint is None
        &&& c.monitoring.health_check_interval_secs == 30
        &&& c.monitoring.metrics_collection_interval_secs == 60
        &&& !c.security.auth_enabled
        &&& c.security.jwt_secret is None
        &&& c.security.api_keys@.len() == 0
        &&& c.security.cors_enabled
        &&& c.security.cors_allowed_origins@.len() == 1
        &&& c.security.cors_allowed_origins@[0]@ == "*"@
        &&& c.security.rate_limiting == (RateLimitConfig {
            enabled: true,
            requests_per_minute: 1000,
            burst_size: 100,
        })
        &&& c.storage.model_storage_path@ == "./models"@
        &&& c.storage.cache_storage_path@ == "./cache"@
        &&& c.storage.log_storage_path@ == "./logs"@
        &&& c.storage.max_storage_gb == 1000
        &&& c.logging.level@ == "info"@
        &&& c.logging.format@ == "json"@
        &&& c.logging.console_output
        &&& c.logging.file_output
        &&& c.logging.file_path matches Some(path) && path@ == "./logs/unimodel.log"@
        &&& c.logging.rotation_size_mb == 100
        &&& c.logging.retention_count == 10
    }

    /// Whether `c` holds the default of every setting.
    pub open spec fn is_default(c: Config) -> bool {
        Config::is_default_but(c, "0.0.0.0"@, 8000, 9000, 10, seq![0u32], "./plugins"@)
    }

    /// The message of the first override that cannot be read, in the order
    /// port, gRPC port, model capacity, accelerator list; `None` where
    /// every override that is given can be read.
    pub open spec fn env_fault(vars: EnvOverrides) -> Option<Seq<char>> {
        if vars.port matches Some(text) && bounded_value(text@, 65535) is None {
            Some("Invalid UNIMODEL_PORT"@)
        } else if vars.grpc_port matches Some(text) && bounded_value(text@, 65535) is None {
            Some("Invalid UNIMODEL_GRPC_PORT"@)
        } else if vars.max_models matches Some(text) && bounded_value(text@, 0xFFFF_FFFF) is None {
            Some("Invalid UNIMODEL_MAX_MODELS"@)
        } else if vars.gpu_devices matches Some(text) && number_list(text@, 0xFFFF_FFFF) is None {
            Some("Invalid UNIMODEL_GPU_DEVICES"@)
        } else {
            None
        }
    }

    /// The host after the overrides.
    pub open spec fn env_host(vars: EnvOverrides) -> Seq<char> {
        match vars.host {
            Some(text) => text@,
            None => "0.0.0.0"@,
        }
    }

    /// The port after the overrides.
    pub open spec fn env_port(vars: EnvOverrides) -> u16 {
        match vars.port {
            Some(text) => bounded_value(text@, 65535)->Some_0 as u16,
            None => 8000,
        }
    }

    /// The gRPC port after the overrides.
    pub open spec fn env_grpc_port(vars: EnvOverrides) -> u16 {
        match vars.grpc_port {
            Some(text) => bounded_value(text@, 65535)->Some_0 as u16,
            None => 9000,
        }
    }

    /// The model capacity after the overrides.
    pub open spec fn env_max_models(vars: EnvOverrides) -> u32 {
        match vars.max_models {
            Some(text) => bounded_value(text@, 0xFFFF_FFFF)->Some_0 as u32,
            None => 10,
        }
    }

    /// The accelerator list after the overrides.
    pub open spec fn env_devices(vars: EnvOverrides) -> Seq<u32> {
        match vars.gpu_devices {
            Some(text) => {
                let numbers = number_list(text@, 0xFFFF_FFFF)->Some_0;
                Seq::new(numbers.len(), |i: int| numbers[i] as u32)
            },
            None => seq![0u32],
        }
    }

    /// The plugin directory after the overrides.
    pub open spec fn env_plugin_dir(vars: EnvOverrides) -> Seq<char> {
        match vars.plugin_dir {
            Some(text) => text@,
            None => "./plugins"@,
        }
    }

    /// Whether `c` is the default configuration with the overrides applied.
    pub open spec fn is_overridden(c: Config, vars: EnvOverrides) -> bool {
        Config::is_default_but(
            c,
            Config::env_host(vars),
            Config::env_port(vars),
            Config::env_grpc_port(vars),
            Config::env_max_models(vars),
            Config::env_devices(vars),
            Config::env_plugin_dir(vars),
        )
    }

    /// The message of the rule that the overridden ports break: both are
    /// above zero and they differ.
    pub open spec fn env_port_fault(vars: EnvOverrides) -> Option<Seq<char>> {
        if Config::env_port(vars) == 0 {
            Some("Invalid server port"@)
        } else if Config::env_grpc_port(vars) == 0 {
            Some("Invalid gRPC port"@)
        } else if Config::env_port(vars) == Config::env_grpc_port(vars) {
            Some("HTTP and gRPC ports cannot be the same"@)
        } else {
            None
        }
    }

    /// The default configuration with the overrides of the environment
    /// applied, if every override can be read and the result is valid.
    ///
    /// A port and the model capacity are decimal numbers; the accelerator
    /// list is a comma-separated list of decimal numbers, white space
    /// around each allowed. An override that cannot be read is refused by
    /// name; overridden ports that are zero or equal are refused as the
    /// validation reports them.
    pub fn from_env(vars: EnvOverrides) -> (r: Result<Config, UniModelError>)
        ensures
            match r {
                Ok(c) => Config::env_fault(vars) is None && Config::env_port_fault(vars) is None
                    && Config::is_overridden(c, vars) && c.valid(),
                Err(e) => e is Config && match Config::env_fault(vars) {
                    Some(message) => e.message() == message,
                    None => Config::env_port_fault(vars) == Some(e.message()),
                },
            },
    {
        let mut config = Config::default();
        proof {
            reveal_strlit("./models");
        }
        let EnvOverrides { host, port, grpc_port, max_models, gpu_devices, plugin_dir } = vars;
        match host {
            Some(text) => {
                config.server.host = text;
            },
            None => {},
        }
        match port {
            Some(text) => {
                let chars = chars_of(text.as_str());
                proof {
                    assert(chars@.subrange(0, chars@.len() as int) =~= chars@);
                }
                match parse_unsigned(&chars, 0, chars.len(), 65535) {
                    Some(value) => {
                        config.server.port = value as u16;
                    },
                    None => {
                        return Err(UniModelError::config("Invalid UNIMODEL_PORT"));
                    },
                }
            },
            None => {},
        }
        match grpc_port {
            Some(text) => {
                let chars = chars_of(text.as_str());
                proof {
                    assert(chars@.subrange(0, chars@.len() as int) =~= chars@);
                }
                match parse_unsigned(&chars, 0, chars.len(), 65535) {
                    Some(value) => {
                        config.server.grpc_port = value as u16;
                    },
                    None => {
                        return Err(UniModelError::config("Invalid UNIMODEL_GRPC_PORT"));
                    },
                }
            },
            None => {},
        }
        match max_models {
            Some(text) => {
                let chars = chars_of(text.as_str());
                proof {
                    assert(chars@.subrange(0, chars@.len() as int) =~= chars@);
                }
                match parse_unsigned(&chars, 0, chars.len(), 0xFFFF_FFFF) {
                    Some(value) => {
                        config.engine.max_models = value as u32;
                    },
                    None => {
                        return Err(UniModelError::config("Invalid UNIMODEL_MAX_MODELS"));
                    },
                }
            },
            None => {},
        }
        match gpu_devices {
            Some(text) => {
                match parse_number_list(text.as_str(), 0xFFFF_FFFF) {
                    Some(numbers) => {
                        proof {
                            lemma_numbers_fit(text@, 0xFFFF_FFFF);
                        }
                        let mut device_ids: Vec<u32> = Vec::new();
                        let mut i: usize = 0;
                        while i < numbers.len()
                            invariant
                                0 <= i <= numbers@.len(),
                                device_ids@.len() == i,
                                forall|k: int|
                                    0 <= k < numbers@.len() ==> #[trigger] numbers@[k]
                                        <= 0xFFFF_FFFF,
                                forall|k: int|
                                    0 <= k < i ==> #[trigger] device_ids@[k] == numbers@[k] as u32,
                            decreases numbers@.len() - i,
                        {
                            device_ids.push(numbers[i] as u32);
                            i = i + 1;
                        }
                        proof {
                            assert(device_ids@ =~= Config::env_devices(vars));
                            assert(device_ids@.len() > 0);
                        }
                        config.engine.gpu.device_ids = device_ids;
                    },
                    None => {
                        return Err(UniModelError::config("Invalid UNIMODEL_GPU_DEVICES"));
                    },
                }
            },
            None => {},
        }
        match plugin_dir {
            Some(text) => {
                config.plugins.plugin_dir = text;
            },
            None => {},
        }
        match config.validate() {
            Ok(()) => Ok(config),
            Err(e) => Err(e),
        }
    }
}

/// A list that is read holds at least one number, and each of its numbers
/// is at most the bound.
pub proof fn lemma_numbers_fit(text: Seq<char>, max: u64)
    ensures
        number_list(text, max) matches Some(numbers) ==> numbers.len() > 0 && forall|i: int|
            0 <= i < numbers.len() ==> #[trigger] numbers[i] <= max,
    decreases text.len(),
{
    let cut = crate::common::text::comma_at(text);
    if cut < text.len() {
        lemma_numbers_fit(text.skip(cut as int + 1), max);
    }
}

impl Default for Config {
    /// The configuration of an engine that was told nothing. It is valid.
    fn default() -> (c: Self)
        ensures
            Config::is_default(c),
            c.valid(),
    {
        let mut device_ids: Vec<u32> = Vec::new();
        device_ids.push(0);
        let mut enabled_plugins: Vec<String> = Vec::new();
        enabled_plugins.push("pytorch".to_owned());
        enabled_plugins.push("onnx".to_owned());
        enabled_plugins.push("tensorrt".to_owned());
        let mut cors_allowed_origins: Vec<String> = Vec::new();
        cors_allowed_origins.push("*".to_owned());
        proof {
            reveal_strlit("./models");
        }
        Config {
            server: ServerConfig {
                host: "0.0.0.0".to_owned(),
                port: 8000,
                grpc_port: 9000,
                max_connections: 1000,
                request_timeout_secs: 300,
                enable_tls: false,
                tls_cert_path: None,
                tls_key_path: None,
                worker_threads: None,
            },
            engine: EngineConfig {
                max_models: 10,
                default_batch_size: 8,
                max_batch_wait_ms: 50,
                batch_config: BatchConfig::default(),
                gpu: GpuConfig {
                    device_ids,
                    memory_fraction_bits: 0x3F4C_CCCD,
                    enable_pooling: true,
                    enable_p2p: false,
                },
                memory: MemoryConfig {
                    max_memory_gb_bits: 0x4180_0000,
                    enable_mmap: true,
                    cache_size_mb: 1024,
                },
            },
            plugins: PluginConfig {
                plugin_dir: "./plugins".to_owned(),
                enabled_plugins,
                plugin_configs: HashMap::new(),
                plugin_timeout_secs: 300,
            },
            monitoring: MonitoringConfig {
                prometheus_enabled: true,
                prometheus_port: 9090,
                jaeger_enabled: false,
                jaeger_endpoint: None,
                health_check_interval_secs: 30,
                metrics_collection_interval_secs: 60,
            },
            security: SecurityConfig {
                auth_enabled: false,
                jwt_secret: None,
                api_keys: Vec::new(),
                cors_enabled: true,
                cors_allowed_origins,
                rate_limiting: RateLimitConfig {
                    enabled: true,
                    requests_per_minute: 1000,
                    burst_size: 100,
                },
            },
            storage: StorageConfig {
                model_storage_path: "./models".to_owned(),
                cache_storage_path: "./cache".to_owned(),
                log_storage_path: "./logs".to_owned(),
                max_storage_gb: 1000,
            },
            logging: LoggingConfig {
                level: "info".to_owned(),
                format: "json".to_owned(),
                console_output: true,
                file_output: true,
                file_path: Some("./logs/unimodel.log".to_owned()),
                rotation_size_mb: 100,
                retention_count: 10,
            },
        }
    }
}

} // verus!
