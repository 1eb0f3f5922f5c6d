//! The settings of the gateway and their defaults.
use crate::http;
use crate::http::Pair;
use crate::text;
use vstd::prelude::*;

verus! {

/// All settings.
#[derive(Debug, Clone)]
pub struct Config {
    pub server: ServerConfig,
    pub gemini: GeminiConfig,
    pub storage: StorageConfig,
    pub image_generation: ImageGenerationConfig,
}

/// Where the settings are read from: the file that the environment names, if it
/// names one.
pub fn config_path(named: Option<String>) -> (r: String)
    ensures
        r@ == (match named {
            Some(path) => path@,
            None => "config/config.yaml"@,
        }),
{
    match named {
        Some(path) => path,
        None => "config/config.yaml".to_owned(),
    }
}

/// The settings of the HTTP server.
#[derive(Debug, Clone)]
pub struct ServerConfig {
    pub host: String,
    pub port: u16,
    pub api_key: Option<String>,
}

impl Default for ServerConfig {
    fn default() -> (r: Self)
        ensures
            r.host@ == "0.0.0.0"@,
            r.port == 8000,
            r.api_key is None,
    {
        ServerConfig { host: default_host(), port: default_port(), api_key: None }
    }
}

impl ServerConfig {
    /// The access key, where one is set.
    pub fn key(&self) -> (r: Option<&str>)
        ensures
            http::opt_str(r) == http::opt_text(self.api_key),
    {
        match &self.api_key {
            Some(key) => Some(key.as_str()),
            None => None,
        }
    }

    /// The address to listen at, as text: the host, a colon and the port.
    pub fn addr(&self) -> (r: String)
        ensures
            r@ == self.host@ + seq![':'] + text::decimal(self.port as nat),
    {
        let mut out = self.host.clone();
        out.push(':');
        out.append(text::decimal_text(self.port as u64).as_str());
        assert(out@ == self.host@ + seq![':'] + text::decimal(self.port as nat));
        out
    }
}

pub fn default_host() -> (r: String)
    ensures
        r@ == "0.0.0.0"@,
{
    "0.0.0.0".to_owned()
}

pub fn default_port() -> (r: u16)
    ensures
        r == 8000,
{
    8000
}

/// The settings of the Gemini Web clients.
#[derive(Debug, Clone)]
pub struct GeminiConfig {
    pub clients: Vec<GeminiClientConfig>,
    pub models: Vec<GeminiModelConfig>,
    pub model_strategy: String,
    pub timeout: u64,
    pub refresh_interval: u64,
    pub warm_generate: WarmGenerateConfig,
}

impl GeminiConfig {
    /// Whether the built-in models are offered beside the configured ones.
    pub fn append_builtin(&self) -> (r: bool)
        ensures
            r == (self.model_strategy@ != "overwrite"@),
    {
        !text::same(self.model_strategy.as_str(), "overwrite")
    }
}

pub fn default_model_strategy() -> (r: String)
    ensures
        r@ == "append"@,
{
    "append".to_owned()
}

pub fn default_timeout() -> (r: u64)
    ensures
        r == 600,
{
    600
}

pub fn default_refresh_interval() -> (r: u64)
    ensures
        r == 600,
{
    600
}

/// The session cookies of one Gemini Web account. A whole cookie header, where
/// one is given, goes before the single cookies.
#[derive(Debug, Clone)]
pub struct GeminiClientConfig {
    pub id: String,
    pub secure_1psid: String,
    pub secure_1psidts: String,
    pub secure_1psidcc: Option<String>,
    pub cookie_header: Option<String>,
    pub proxy: Option<String>,
}

/// A model with the request headers that select it.
#[derive(Debug, Clone)]
pub struct GeminiModelConfig {
    pub model_name: String,
    pub model_header: Vec<Pair>,
}

impl GeminiModelConfig {
    /// Whether no header name stands twice.
    pub open spec fn is_valid(&self) -> bool {
        http::names_differ(self.model_header@)
    }
}

/// Whether in none of the models a header name stands twice.
pub open spec fn models_are_valid(models: Seq<GeminiModelConfig>) -> bool {
    forall|i: int| 0 <= i < models.len() ==> (#[trigger] models[i]).is_valid()
}

/// When the gateway keeps Gemini Web warm with a small request.
#[derive(Debug, Clone)]
pub struct WarmGenerateConfig {
    pub enabled: bool,
    pub interval: u64,
    pub initial_delay: u64,
    pub model: String,
    pub prompt: String,
    pub active_periods: Vec<String>,
}

impl Default for WarmGenerateConfig {
    fn default() -> (r: Self)
        ensures
            !r.enabled,
            r.interval == 300,
            r.initial_delay == 20,
            r.model@ == "gemini-3.5-flash"@,
            r.prompt@ == "只回复一个字：好"@,
            r.active_periods@.len() == 0,
    {
        WarmGenerateConfig {
            enabled: false,
            interval: 300,
            initial_delay: 20,
            model: "gemini-3.5-flash".to_owned(),
            prompt: "只回复一个字：好".to_owned(),
            active_periods: Vec::new(),
        }
    }
}

/// Where the gateway keeps its files.
#[derive(Debug, Clone)]
pub struct StorageConfig {
    pub path: String,
    pub images_path: String,
}

impl Default for StorageConfig {
    fn default() -> (r: Self)
        ensures
            r.path@ == "data/lmdb"@,
            r.images_path@ == "data/images"@,
    {
        StorageConfig { path: default_storage_path(), images_path: default_images_path() }
    }
}

pub fn default_storage_path() -> (r: String)
    ensures
        r@ == "data/lmdb"@,
{
    "data/lmdb".to_owned()
}

pub fn default_images_path() -> (r: String)
    ensures
        r@ == "data/images"@,
{
    "data/images".to_owned()
}

/// How images are made and looked at. The token of the worker stands here or in
/// a file.
#[derive(Debug, Clone)]
pub struct ImageGenerationConfig {
    pub backend: String,
    pub model: String,
    pub web_model: String,
    pub public_base_url: Option<String>,
    pub worker_url: Option<String>,
    pub worker_token: Option<String>,
    pub worker_token_file: Option<String>,
    pub worker_timeout_ms: u64,
}

impl Default for ImageGenerationConfig {
    fn default() -> (r: Self)
        ensures
            r.backend@ == "disabled"@,
            r.model@ == "gemini-3.1-flash-image-preview"@,
            r.web_model@ == "gemini-3.5-flash"@,
            r.public_base_url is None,
            r.worker_url is None,
            r.worker_token is None,
            r.worker_token_file is None,
            r.worker_timeout_ms == 180_000,
    {
        ImageGenerationConfig {
            backend: "disabled".to_owned(),
            model: "gemini-3.1-flash-image-preview".to_owned(),
            web_model: "gemini-3.5-flash".to_owned(),
            public_base_url: None,
            worker_url: None,
            worker_token: None,
            worker_token_file: None,
            worker_timeout_ms: 180_000,
        }
    }
}

impl ImageGenerationConfig {
    /// Whether images are made at all.
    pub open spec fn enabled(&self) -> bool {
        self.backend@ != "disabled"@
    }

    /// Whether images are made at all.
    pub fn is_enabled(&self) -> (r: bool)
        ensures
            r == self.enabled(),
    {
        !text::same(self.backend.as_str(), "disabled")
    }
}

/// Pictures are made unless that is switched off, by any service.
pub proof fn law_pictures_are_made_unless_disabled(config: ImageGenerationConfig)
    ensures
        config.enabled() <==> config.backend@ != "disabled"@,
{
}

} // verus!
