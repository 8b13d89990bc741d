use txcv::error::ServiceError;
use txcv::lang::{get_target_lang, Language};
use txcv::resolve::{chosen_source, detect_request, detected_source, resolve, translate_request};

fn api(code: &str) -> ServiceError {
    ServiceError::Api {
        code: code.to_string(),
        message: "m".to_string(),
        request_id: "r".to_string(),
    }
}

#[test]
fn detected_zh_goes_to_en() {
    let source = detected_source(Ok("zh".to_string())).unwrap();
    let d = resolve(source, None);
    assert_eq!(d.source, "zh");
    assert_eq!(d.target, "en");
}

#[test]
fn detected_en_goes_to_zh() {
    let d = resolve(detected_source(Ok("en".to_string())).unwrap(), None);
    assert_eq!(d.source, "en");
    assert_eq!(d.target, "zh");
}

#[test]
fn detected_jp_goes_to_zh() {
    let d = resolve("jp".to_string(), None);
    assert_eq!(d.target, "zh");
}

#[test]
fn detected_fr_falls_back_to_en() {
    let d = resolve("fr".to_string(), None);
    assert_eq!(d.source, "fr");
    assert_eq!(d.target, "en");
}

#[test]
fn recognition_failure_falls_back_to_zh() {
    let source = detected_source(Err(api("FailedOperation.LanguageRecognitionErr"))).unwrap();
    assert_eq!(source, "zh");
    assert_eq!(resolve(source, None).target, "en");
}

#[test]
fn other_detection_failure_propagates() {
    match detected_source(Err(api("AuthFailure"))) {
        Err(ServiceError::Api { code, .. }) => assert_eq!(code, "AuthFailure"),
        other => panic!("unexpected {:?}", other),
    }
}

#[test]
fn overrides_win() {
    let d = resolve(chosen_source(Language::Japanese), Some(Language::English));
    assert_eq!(d.source, "jp");
    assert_eq!(d.target, "en");
    let d = resolve("zh".to_string(), Some(Language::Chinese));
    assert_eq!(d.target, "zh");
}

#[test]
fn target_rule_table() {
    assert_eq!(get_target_lang("zh"), Some("en"));
    assert_eq!(get_target_lang("en"), Some("zh"));
    assert_eq!(get_target_lang("jp"), Some("zh"));
    assert_eq!(get_target_lang("fr"), None);
    assert_eq!(get_target_lang(""), None);
    assert_eq!(get_target_lang("zhx"), None);
}

#[test]
fn language_codes() {
    assert_eq!(Language::Chinese.as_str(), "zh");
    assert_eq!(Language::English.as_str(), "en");
    assert_eq!(Language::Japanese.as_str(), "jp");
}

#[test]
fn requests_carry_word_and_languages() {
    let r = detect_request("hello");
    assert_eq!(r.text, "hello");
    assert_eq!(r.project_id, 0);
    let t = translate_request("hello".to_string(), resolve("en".to_string(), None));
    assert_eq!(t.source_text, "hello");
    assert_eq!(t.source, "en");
    assert_eq!(t.target, "zh");
    assert_eq!(t.project_id, 0);
}
