use gemini_fastapi_rs::config::{
    config_path, default_host, default_model_strategy, default_port, default_refresh_interval,
    default_storage_path, default_timeout, GeminiConfig, ImageGenerationConfig, ServerConfig, StorageConfig,
    WarmGenerateConfig,
};

#[test]
fn settings_have_defaults() {
    let server = ServerConfig::default();
    assert_eq!(server.host, default_host());
    assert_eq!(server.port, default_port());
    assert_eq!(server.addr(), "0.0.0.0:8000");
    assert_eq!(server.key(), None);
    assert_eq!(default_model_strategy(), "append");
    assert_eq!(default_timeout(), 600);
    assert_eq!(default_refresh_interval(), 600);
    assert_eq!(StorageConfig::default().path, default_storage_path());
    assert_eq!(default_storage_path(), "data/lmdb");
    let images = ImageGenerationConfig::default();
    assert!(!images.is_enabled());
    assert_eq!(images.model, "gemini-3.1-flash-image-preview");
    assert_eq!(images.web_model, "gemini-3.5-flash");
    assert_eq!(images.worker_timeout_ms, 180_000);
    let warm = WarmGenerateConfig::default();
    assert!(!warm.enabled);
    assert_eq!(warm.interval, 300);
    assert_eq!(warm.initial_delay, 20);
}

#[test]
fn settings_are_read_where_the_environment_says() {
    assert_eq!(config_path(None), "config/config.yaml");
    assert_eq!(config_path(Some("x.yaml".to_string())), "x.yaml");
}

#[test]
fn built_in_models_are_offered_unless_overwritten() {
    let mut config = GeminiConfig {
        clients: Vec::new(),
        models: Vec::new(),
        model_strategy: default_model_strategy(),
        timeout: 0,
        refresh_interval: 0,
        warm_generate: WarmGenerateConfig {
            enabled: false,
            interval: 0,
            initial_delay: 0,
            model: String::new(),
            prompt: String::new(),
            active_periods: Vec::new(),
        },
    };
    assert!(config.append_builtin());
    config.model_strategy = "overwrite".to_string();
    assert!(!config.append_builtin());
    config.model_strategy = "Overwrite".to_string();
    assert!(config.append_builtin());
}
