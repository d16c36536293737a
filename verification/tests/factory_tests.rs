use platformed_llm::error::Error;
use platformed_llm::factory::{creation_plan, from_env_values, EnvProfile, ProviderConfig,
    ProviderPlan, ProviderType, VertexAuth};

fn empty_env() -> EnvProfile {
    EnvProfile {
        provider_type: None,
        openai_api_key: None,
        google_cloud_project: None,
        google_cloud_region: None,
        vertex_access_token: None,
        anthropic_vertex_access_token: None,
        google_application_credentials: None,
        anthropic_model: None,
    }
}

#[test]
fn test_vertex_with_explicit_provider_types() {
    // Test direct vertex() method with Google
    let google_config = ProviderConfig::vertex(
        ProviderType::Google,
        "test-project".to_string(),
        "europe-west1".to_string(),
        "test-token".to_string(),
    );
    assert!(matches!(google_config.provider_type, ProviderType::Google));

    // Test direct vertex() method with Anthropic
    let anthropic_config = ProviderConfig::vertex(
        ProviderType::Anthropic,
        "test-project".to_string(),
        "us-east5".to_string(),
        "test-token".to_string(),
    );
    assert!(matches!(
        anthropic_config.provider_type,
        ProviderType::Anthropic
    ));
}

#[test]
fn test_openai_config_unchanged() {
    let config = ProviderConfig::openai("test-api-key".to_string());

    assert!(matches!(config.provider_type, ProviderType::OpenAI));
    assert_eq!(config.api_key, Some("test-api-key".to_string()));
    assert_eq!(config.project_id, None);
    assert_eq!(config.location, None);
    assert_eq!(config.access_token, None);
}

#[test]
fn test_is_supported_via_vertex() {
    assert!(ProviderType::Google.is_supported_via_vertex());
    assert!(ProviderType::Anthropic.is_supported_via_vertex());
    assert!(!ProviderType::OpenAI.is_supported_via_vertex());
}

#[test]
fn test_env_explicit_openai() {
    let mut env = empty_env();
    env.provider_type = Some("OpenAI".to_string());
    env.openai_api_key = Some("sk-test".to_string());
    let config = from_env_values(&env).unwrap();
    assert!(matches!(config.provider_type, ProviderType::OpenAI));
    assert_eq!(config.api_key, Some("sk-test".to_string()));

    // Without the key the resolution fails with a configuration error.
    let mut env2 = empty_env();
    env2.provider_type = Some("openai".to_string());
    match from_env_values(&env2) {
        Err(Error::Config(msg)) => assert!(msg.contains("OPENAI_API_KEY")),
        _ => panic!("Expected a configuration error"),
    }
}

#[test]
fn test_env_explicit_google_defaults_region() {
    let mut env = empty_env();
    env.provider_type = Some("google".to_string());
    env.google_cloud_project = Some("proj".to_string());
    let config = from_env_values(&env).unwrap();
    assert!(matches!(config.provider_type, ProviderType::Google));
    assert_eq!(config.project_id, Some("proj".to_string()));
    assert_eq!(config.location, Some("europe-west1".to_string()));
    assert_eq!(config.access_token, None);
}

#[test]
fn test_env_inference_order() {
    // A pre-minted Vertex token with a project selects Google.
    let mut env = empty_env();
    env.vertex_access_token = Some("tok".to_string());
    env.google_cloud_project = Some("proj".to_string());
    let config = from_env_values(&env).unwrap();
    assert!(matches!(config.provider_type, ProviderType::Google));
    assert_eq!(config.access_token, Some("tok".to_string()));

    // A model hint makes the inferred Vertex provider Anthropic, and
    // the pre-minted token still applies.
    let mut envm = empty_env();
    envm.vertex_access_token = Some("tok".to_string());
    envm.google_cloud_project = Some("proj".to_string());
    envm.anthropic_model = Some("some-model".to_string());
    let configm = from_env_values(&envm).unwrap();
    assert!(matches!(configm.provider_type, ProviderType::Anthropic));
    assert_eq!(configm.access_token, Some("tok".to_string()));

    // Ambient credentials with a model hint select Anthropic.
    let mut env2 = empty_env();
    env2.google_application_credentials = Some("/creds.json".to_string());
    env2.google_cloud_project = Some("proj".to_string());
    env2.anthropic_model = Some("some-model".to_string());
    let config2 = from_env_values(&env2).unwrap();
    assert!(matches!(config2.provider_type, ProviderType::Anthropic));
    assert_eq!(config2.access_token, None);

    // Nothing set at all is a configuration error.
    match from_env_values(&empty_env()) {
        Err(Error::Config(msg)) => assert!(msg.contains("No valid API credentials")),
        _ => panic!("Expected a configuration error"),
    }
}

#[test]
fn test_env_invalid_provider_type() {
    let mut env = empty_env();
    env.provider_type = Some("mystery".to_string());
    match from_env_values(&env) {
        Err(Error::Config(msg)) => assert!(msg.contains("Invalid PROVIDER_TYPE")),
        _ => panic!("Expected a configuration error"),
    }
}

#[test]
fn test_creation_plan_paths() {
    let plan = creation_plan(&ProviderConfig::openai("k".to_string())).unwrap();
    match plan {
        ProviderPlan::OpenAI { api_key } => assert_eq!(api_key, "k"),
        _ => panic!("Expected an OpenAI plan"),
    }

    let plan2 = creation_plan(&ProviderConfig::vertex(
        ProviderType::Anthropic,
        "proj".to_string(),
        "us-east5".to_string(),
        "tok".to_string(),
    ))
    .unwrap();
    match plan2 {
        ProviderPlan::Vertex {
            kind,
            project_id,
            location,
            auth,
        } => {
            assert!(matches!(kind, ProviderType::Anthropic));
            assert_eq!(project_id, "proj");
            assert_eq!(location, "us-east5");
            assert!(matches!(auth, VertexAuth::AccessToken(t) if t == "tok"));
        }
        _ => panic!("Expected a Vertex plan"),
    }

    let plan3 = creation_plan(&ProviderConfig::vertex_with_adc(
        ProviderType::Google,
        "proj".to_string(),
        "europe-west1".to_string(),
    ))
    .unwrap();
    match plan3 {
        ProviderPlan::Vertex { auth, .. } => {
            assert!(matches!(auth, VertexAuth::ApplicationDefault));
        }
        _ => panic!("Expected a Vertex plan"),
    }
}
