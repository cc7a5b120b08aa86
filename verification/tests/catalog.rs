use venice_client::models::{Model, ModelsResponse};
use venice_client::VeniceError;

fn all_models() -> Vec<Model> {
    vec![
        Model::DeepSeekR1_671B,
        Model::DeepSeekR1Llama70B,
        Model::Dolphin292Qwen2_72B,
        Model::Llama31_405B,
        Model::Llama32_3b,
        Model::Llama33_70B,
        Model::Qwen32B,
        Model::FluentlyXL,
        Model::FluxDevUncensored,
        Model::FluxDev,
        Model::LustifySDXL,
        Model::PonyRealism,
        Model::StableDiffusion35,
    ]
}

#[test]
fn catalog_round_trip() {
    for m in all_models() {
        assert_eq!(Model::from_id(m.id_str()), Ok(m));
    }
}

#[test]
fn catalog_rejects_unknown_ids() {
    assert_eq!(
        Model::from_id("gpt-4"),
        Err(VeniceError::UnknownModel("gpt-4".to_string()))
    );
    assert_eq!(
        Model::from_id("LLAMA-3.1-405B"),
        Err(VeniceError::UnknownModel("LLAMA-3.1-405B".to_string()))
    );
    assert!(Model::from_id("").is_err());
}

#[test]
fn capability_flags() {
    assert!(Model::Llama31_405B.for_text());
    assert!(Model::Llama31_405B.for_coding());
    assert!(!Model::Llama31_405B.for_images());
    assert!(Model::FluxDev.for_images());
    assert!(!Model::FluxDev.for_text());
    assert!(!Model::FluxDev.for_coding());
    assert!(Model::Qwen32B.for_coding());
    let text_count = all_models().iter().filter(|m| m.for_text()).count();
    let coding_count = all_models().iter().filter(|m| m.for_coding()).count();
    let image_count = all_models().iter().filter(|m| m.for_images()).count();
    assert_eq!(text_count, 7);
    assert_eq!(coding_count, 2);
    assert_eq!(image_count, 6);
}

fn listing_of(ids: &[&str]) -> String {
    let mut doc = String::from("{\"object\":\"list\",\"data\":[");
    for (i, id) in ids.iter().enumerate() {
        if i > 0 {
            doc.push(',');
        }
        doc.push_str(&format!(
            "{{\"id\":\"{}\",\"type\":\"text\",\"object\":\"model\",\"created\":1,\
             \"owned_by\":\"venice\",\"model_spec\":{{\"traits\":[]}}}}",
            id
        ));
    }
    doc.push_str("]}");
    doc
}

#[test]
fn listing_maps_through_catalog() {
    let doc = listing_of(&["llama-3.1-405b", "qwen32b"]);
    let resp = ModelsResponse::parse(&doc).unwrap();
    assert_eq!(
        resp.models(),
        Ok(vec![Model::Llama31_405B, Model::Qwen32B])
    );
}

#[test]
fn has_model_with_model_input() {
    let doc = listing_of(&["llama-3.1-405b", "qwen32b"]);
    let resp = ModelsResponse::parse(&doc).unwrap();
    assert!(resp.has_model(Model::Llama31_405B.id_str()));
    assert!(!resp.has_model(Model::FluxDev.id_str()));
}

#[test]
fn listing_contains_catalog_member() {
    let doc = listing_of(&[
        "deepseek-r1-671b",
        "deepseek-r1-llama-70b",
        "dolphin-2.9.2-qwen2-72b",
        "llama-3.1-405b",
        "llama-3.2-3b",
        "llama-3.3-70b",
        "qwen32b",
    ]);
    let resp = ModelsResponse::parse(&doc).unwrap();
    assert!(resp.has_model("llama-3.3-70b"));
    let models = resp.models().expect("every listed id is in the catalog");
    assert!(models.len() >= 7);
    assert!(models.contains(&Model::Llama31_405B));
}

#[test]
fn listing_with_unknown_id_is_recoverable() {
    let doc = listing_of(&["llama-3.1-405b", "gpt-4"]);
    let resp = ModelsResponse::parse(&doc).unwrap();
    assert_eq!(
        resp.models(),
        Err(VeniceError::UnknownModel("gpt-4".to_string()))
    );
}
