use scribe::host::ActivationRequest;
use scribe::host::ActivationResponse;
use scribe::host::AudioRequest;
use scribe::host::AudioResponse;
use scribe::host::ChatResponse;
use scribe::host::CheckoutResponse;
use scribe::host::Config;
use scribe::host::InstanceInfo;
use scribe::host::LicenseInfo;
use scribe::host::Model;
use scribe::host::ModelsResponse;
use scribe::host::OpenRouterService;
use scribe::host::PaymentService;
use scribe::host::SelectionCoords;
use scribe::host::ShortcutBinding;
use scribe::host::StorageItem;
use scribe::host::StorageResult;
use scribe::host::SystemPromptResponse;
use scribe::host::ValidateResponse;
use scribe::host::WhisperService;

fn config() -> Config {
    Config {
        host: "0.0.0.0".to_string(),
        port: 8080,
        database_url: "postgres://localhost/app".to_string(),
        redis_url: "redis://localhost:6379".to_string(),
        api_access_key: "k1".to_string(),
        openrouter_api_key: "k2".to_string(),
        openrouter_base_url: "https://openrouter.ai/api/v1".to_string(),
        openai_api_key: "k3".to_string(),
    }
}

#[test]
fn services_carry_their_configuration() {
    let or = OpenRouterService::new(config());
    assert_eq!(or.config.port, 8080);
    let ws = WhisperService::new(config());
    assert_eq!(ws.config.host.as_str(), "0.0.0.0");
    let pay = PaymentService::new();
    assert_eq!(pay.create_checkout_session("pro").as_str(), "https://scribe.com/checkout");
}

#[test]
fn host_records_hold_their_fields() {
    let lic = LicenseInfo {
        license_key: "L".to_string(),
        machine_id: "M".to_string(),
        instance_id: "I".to_string(),
    };
    assert_eq!(lic.machine_id.as_str(), "M");
    let req = ActivationRequest {
        license_key: "L".to_string(),
        instance_name: "laptop".to_string(),
        machine_id: "M".to_string(),
        app_version: "1.0".to_string(),
    };
    let resp = ActivationResponse {
        activated: true,
        error: None,
        license_key: Some(req.license_key.clone()),
        instance: Some(InstanceInfo {
            id: "i1".to_string(),
            name: req.instance_name.clone(),
            created_at: "2024-01-01".to_string(),
        }),
    };
    assert!(resp.activated);
    let val = ValidateResponse { is_active: true, last_validated_at: None };
    assert!(val.is_active);
    let check = CheckoutResponse { success: Some(true), checkout_url: None, error: None };
    assert_eq!(check.success, Some(true));
    let item = StorageItem { key: "license".to_string(), value: "L".to_string() };
    let stored = StorageResult {
        license_key: Some(item.value.clone()),
        instance_id: None,
        selected_model: None,
    };
    assert_eq!(stored.license_key.as_deref(), Some("L"));
}

#[test]
fn chat_and_audio_payloads() {
    let audio = AudioRequest { audio_base64: "AAAA".to_string() };
    assert_eq!(audio.audio_base64.len(), 4);
    let tr = AudioResponse { success: true, transcription: Some("hi".to_string()), error: None };
    assert!(tr.success);
    let chat = ChatResponse { success: false, message: None, error: Some("down".to_string()) };
    assert!(!chat.success);
    let m = Model {
        provider: "openrouter".to_string(),
        name: "General".to_string(),
        id: "model-1".to_string(),
        model: "vendor/model-1".to_string(),
        description: "general model".to_string(),
        modality: "text".to_string(),
        is_available: true,
    };
    let models = ModelsResponse { models: vec![m] };
    assert_eq!(models.models.len(), 1);
    let prompt = SystemPromptResponse {
        prompt_name: "default".to_string(),
        system_prompt: "be helpful".to_string(),
    };
    assert_eq!(prompt.prompt_name.as_str(), "default");
}

#[test]
fn capture_and_shortcut_settings() {
    let sel = SelectionCoords { x: 10, y: 20, width: 300, height: 200 };
    assert_eq!(sel.width, 300);
    let binding = ShortcutBinding {
        action: "toggle_window".to_string(),
        key: "Ctrl+Shift+Space".to_string(),
        enabled: true,
    };
    assert!(binding.enabled);
}
