use promptforge::auth::AuthError;
use promptforge::inference_route::RouteKind;
use promptforge::models::{list_models, model_info, ModelEntry};

fn entry(name: &str, kind: RouteKind) -> ModelEntry {
    ModelEntry {
        name: name.to_string(),
        kind,
        description: format!("{name} model"),
        context: Some(16384),
        thinking: Some(false),
        capabilities: vec!["tools".to_string(), "json".to_string()],
    }
}

#[test]
fn catalog_lists_every_model_in_order() {
    let models = vec![entry("extractor", RouteKind::Chat), entry("embedder", RouteKind::Embedding)];
    let list = list_models(Some("Bearer sk-test"), "sk-test", &models).expect("authorized");
    assert_eq!(list.object, "list");
    assert_eq!(list.data.len(), 2);
    assert_eq!(list.data[0].id, "extractor");
    assert_eq!(list.data[0].object, "model");
    assert_eq!(list.data[0].kind, RouteKind::Chat);
    assert_eq!(list.data[0].description, "extractor model");
    assert_eq!(list.data[0].context, Some(16384));
    assert_eq!(list.data[0].thinking, Some(false));
    assert_eq!(list.data[0].capabilities, vec!["tools".to_string(), "json".to_string()]);
    assert_eq!(list.data[1].id, "embedder");
    assert_eq!(list.data[1].kind, RouteKind::Embedding);
}

#[test]
fn catalog_refuses_a_wrong_or_missing_key() {
    let models = vec![entry("extractor", RouteKind::Chat)];
    assert!(matches!(list_models(Some("Bearer nope"), "sk-test", &models), Err(AuthError::Unauthorized)));
    assert!(matches!(list_models(None, "sk-test", &models), Err(AuthError::Unauthorized)));
    assert!(matches!(list_models(Some("sk-test"), "sk-test", &models), Err(AuthError::Unauthorized)));
}

#[test]
fn an_empty_catalog_is_an_empty_list() {
    let list = list_models(Some("Bearer k"), "k", &[]).expect("authorized");
    assert_eq!(list.object, "list");
    assert!(list.data.is_empty());
}

#[test]
fn model_info_copies_the_entry() {
    let info = model_info(&entry("ranker", RouteKind::Classifier));
    assert_eq!(info.id, "ranker");
    assert_eq!(info.kind, RouteKind::Classifier);
    assert_eq!(info.capabilities.len(), 2);
}
