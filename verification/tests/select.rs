use wake_word::keywords::Keywords;
use wake_word::select::{
    audio_select, keywords_select, language_list, language_select, pv_platform, Platform,
};

#[test]
fn platform_identifiers() {
    assert_eq!(pv_platform(Platform::Mac), "mac");
    assert_eq!(pv_platform(Platform::Windows), "windows");
    assert_eq!(pv_platform(Platform::Linux), "linux");
}

#[test]
fn audio_select_returns_chosen_index() {
    let devices = vec!["built-in".to_string(), "headset".to_string()];
    assert_eq!(audio_select(&devices, 1), Some(1));
}

#[test]
fn audio_select_rejects_out_of_range_choice() {
    let devices = vec!["built-in".to_string()];
    assert_eq!(audio_select(&devices, 1), None);
}

#[test]
fn language_select_returns_code_of_chosen_option() {
    let languages = vec![
        ("Deutsch".to_string(), "de".to_string()),
        ("English".to_string(), "en".to_string()),
    ];
    assert_eq!(language_select(&languages, 1), Some("en".to_string()));
    assert_eq!(language_select(&languages, 2), None);
}

#[test]
fn keywords_select_maps_choices_to_keywords() {
    assert_eq!(keywords_select(&vec![0]), Some(vec![Keywords::Position]));
    assert_eq!(keywords_select(&vec![1]), None);
}

#[test]
fn language_list_pairs_native_name_with_code() {
    let codes = vec!["en".to_string(), "de".to_string()];
    let options = language_list(&codes);
    assert_eq!(
        options,
        vec![
            ("English".to_string(), "en".to_string()),
            ("Deutsch".to_string(), "de".to_string()),
        ]
    );
}

#[test]
fn language_list_skips_codes_without_native_name() {
    let codes = vec!["zz".to_string(), "fr".to_string()];
    let options = language_list(&codes);
    assert_eq!(options, vec![("français".to_string(), "fr".to_string())]);
}
