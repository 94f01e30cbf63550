use devtool::i18n::LocalizedStrings;

#[test]
fn test_localized_strings_zh() {
    let strings = LocalizedStrings::new("zh");
    assert!(strings.banner.contains("开始"));
    assert!(strings.update_complete.contains("完成"));
}

#[test]
fn test_localized_strings_en() {
    let strings = LocalizedStrings::new("en");
    assert!(strings.banner.contains("Starting"));
    assert!(strings.update_complete.contains("completed"));
}

#[test]
fn unknown_language_falls_back_to_english() {
    let strings = LocalizedStrings::new("zh_CN");
    assert_eq!(strings.time_taken, "Time taken");
    assert_eq!(LocalizedStrings::new("zh").time_taken, "耗时");
}
