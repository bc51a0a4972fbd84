//! Plain value types exchanged with the host around the core: licensing
//! and activation records, chat and transcription payloads, capture and
//! shortcut settings. The services that move them (HTTP clients, audio
//! capture, the window shell) are host concerns and live outside this
//! library; the host hands these values in and takes them back.

use vstd::prelude::*;

verus! {

/// Service configuration, injected by the host at startup.
pub struct Config {
    pub host: String,
    pub port: u16,
    pub database_url: String,
    pub redis_url: String,
    pub api_access_key: String,
    pub openrouter_api_key: String,
    pub openrouter_base_url: String,
    pub openai_api_key: String,
}

/// An authenticated license, as the request middleware resolves it.
pub struct LicenseInfo {
    pub license_key: String,
    pub machine_id: String,
    pub instance_id: String,
}

/// A transcription request: base64-encoded audio in.
pub struct AudioRequest {
    pub audio_base64: String,
}

/// A transcription response.
pub struct AudioResponse {
    pub success: bool,
    pub transcription: Option<String>,
    pub error: Option<String>,
}

/// A chat completion response.
pub struct ChatResponse {
    pub success: bool,
    pub message: Option<String>,
    pub error: Option<String>,
}

/// One selectable language model.
pub struct Model {
    pub provider: String,
    pub name: String,
    pub id: String,
    pub model: String,
    pub description: String,
    pub modality: String,
    pub is_available: bool,
}

/// The list of selectable models.
pub struct ModelsResponse {
    pub models: Vec<Model>,
}

/// A generated system prompt.
pub struct SystemPromptResponse {
    pub prompt_name: String,
    pub system_prompt: String,
}

/// A license activation request.
pub struct ActivationRequest {
    pub license_key: String,
    pub instance_name: String,
    pub machine_id: String,
    pub app_version: String,
}

/// The instance a license was activated for.
pub struct InstanceInfo {
    pub id: String,
    pub name: String,
    pub created_at: String,
}

/// A license activation response.
pub struct ActivationResponse {
    pub activated: bool,
    pub error: Option<String>,
    pub license_key: Option<String>,
    pub instance: Option<InstanceInfo>,
}

/// A license validation response.
pub struct ValidateResponse {
    pub is_active: bool,
    pub last_validated_at: Option<String>,
}

/// One key/value pair of the host's secure storage.
pub struct StorageItem {
    pub key: String,
    pub value: String,
}

/// What the host's secure storage holds for this application.
pub struct StorageResult {
    pub license_key: Option<String>,
    pub instance_id: Option<String>,
    pub selected_model: Option<String>,
}

/// A checkout-session response.
pub struct CheckoutResponse {
    pub success: Option<bool>,
    pub checkout_url: Option<String>,
    pub error: Option<String>,
}

/// A selected screen region, in pixels.
pub struct SelectionCoords {
    pub x: u32,
    pub y: u32,
    pub width: u32,
    pub height: u32,
}

/// One configured keyboard shortcut.
pub struct ShortcutBinding {
    pub action: String,
    pub key: String,
    pub enabled: bool,
}

/// The chat relay service; the host performs its HTTP calls.
pub struct OpenRouterService {
    pub config: Config,
}

impl OpenRouterService {
    /// A relay bound to the given configuration.
    pub fn new(config: Config) -> (r: OpenRouterService)
        ensures
            r.config == config,
    {
        OpenRouterService { config }
    }
}

/// The payment service; checkout sessions are created by an external
/// provider the host talks to.
pub struct PaymentService {
    pub checkout_url: String,
}

impl PaymentService {
    /// A payment service with the fixed checkout address.
    pub fn new() -> (r: PaymentService)
        ensures
            r.checkout_url@ == "https://scribe.com/checkout"@,
    {
        PaymentService { checkout_url: "https://scribe.com/checkout".to_owned() }
    }

    /// The checkout address for a license tier.
    pub fn create_checkout_session(&self, _license_tier: &str) -> (r: String)
        ensures
            r@ == self.checkout_url@,
    {
        crate::types::clone_string(&self.checkout_url)
    }
}

/// The transcription service; the host performs its HTTP calls.
pub struct WhisperService {
    pub config: Config,
}

impl WhisperService {
    /// A transcription service bound to the given configuration.
    pub fn new(config: Config) -> (r: WhisperService)
        ensures
            r.config == config,
    {
        WhisperService { config }
    }
}

} // verus!
