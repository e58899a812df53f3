use vt_core::g2pw::{
    strip_tone, G2pwConfig, G2pwConverter, Polyphone, PolyphoneDictionary,
    DEFAULT_CONFIDENCE_THRESHOLD,
};
use vt_core::ieee::F32;

#[test]
fn test_polyphone_creation() {
    let p = Polyphone::new('行', vec!["xíng".to_string(), "háng".to_string()]);
    assert_eq!(p.char, '行');
    assert_eq!(p.reading_count(), 2);
    assert!(p.is_polyphone());
}

#[test]
fn test_polyphone_single_reading() {
    let p = Polyphone::new('你', vec!["nǐ".to_string()]);
    assert!(!p.is_polyphone());
}

#[test]
fn test_polyphone_disambiguate_with_rule() {
    let mut p = Polyphone::new('行', vec!["xíng".to_string(), "háng".to_string()]);
    p.add_rule("银行", 1, "银行");
    p.add_rule("行走", 0, "行走");
    let (idx, desc) = p.disambiguate("银行", 1);
    assert_eq!(idx, 1);
    assert_eq!(desc, Some("银行".to_string()));
    let (idx, desc) = p.disambiguate("行走", 0);
    assert_eq!(idx, 0);
    assert_eq!(desc, Some("行走".to_string()));
}

#[test]
fn test_polyphone_disambiguate_no_match() {
    let p = Polyphone::new('行', vec!["xíng".to_string(), "háng".to_string()]);
    let (idx, desc) = p.disambiguate("行道", 0);
    assert_eq!(idx, 0);
    assert!(desc.is_none());
}

#[test]
fn test_dictionary_builtin() {
    let dict = PolyphoneDictionary::builtin();
    assert!(!dict.is_empty());
    assert!(dict.contains('行'));
    assert!(dict.contains('长'));
    assert!(dict.contains('重'));
    assert!(dict.contains('发'));
}

#[test]
fn test_dictionary_lookup() {
    let dict = PolyphoneDictionary::builtin();
    let xing = dict.get('行').unwrap();
    assert!(xing.reading_count() >= 2);
}

#[test]
fn test_dictionary_not_found() {
    let dict = PolyphoneDictionary::builtin();
    assert!(!dict.contains('你'));
    assert!(dict.get('你').is_none());
}

#[test]
fn test_dictionary_add_custom() {
    let mut dict = PolyphoneDictionary::empty();
    assert!(dict.is_empty());

    dict.add(Polyphone::new('测', vec!["cè".to_string()]));
    assert!(!dict.is_empty());
    assert_eq!(dict.len(), 1);
}

#[test]
fn test_dictionary_chars() {
    let dict = PolyphoneDictionary::builtin();
    let chars = dict.chars();
    assert!(chars.contains(&'行'));
    assert!(chars.contains(&'长'));
}

#[test]
fn test_converter_creation() {
    let converter = G2pwConverter::with_defaults();
    assert!(converter.config().enabled);
    assert!(converter.config().use_builtin_dict);
}

#[test]
fn test_convert_basic() {
    let converter = G2pwConverter::with_defaults();
    let result = converter.convert("你好");
    assert_eq!(result.len(), 2);
    assert!(!result.pinyin().is_empty());
}

#[test]
fn test_convert_polyphone_bank() {
    let converter = G2pwConverter::with_defaults();
    let result = converter.convert("银行");
    let xing_char = result.chars.iter().find(|c| c.char == '行').unwrap();
    assert!(xing_char.is_polyphone);
    assert_eq!(xing_char.pinyin, "háng");
}

#[test]
fn test_convert_polyphone_walk() {
    let converter = G2pwConverter::with_defaults();
    let result = converter.convert("行走");

    let xing_char = result.chars.iter().find(|c| c.char == '行').unwrap();
    assert!(xing_char.is_polyphone);
    assert_eq!(xing_char.pinyin, "xíng");
}

#[test]
fn test_convert_polyphone_record() {
    let converter = G2pwConverter::with_defaults();
    let result = converter.convert("银行行长走在行道上");
    let polys = result.polyphone_resolutions();
    assert!(polys.len() >= 3);
    assert_eq!(polys[0].1, "行");
    assert_eq!(polys[0].2, "háng");
}

#[test]
fn test_convert_empty() {
    let converter = G2pwConverter::with_defaults();
    let result = converter.convert("");
    assert!(result.is_empty());
}

#[test]
fn test_convert_non_chinese() {
    let converter = G2pwConverter::with_defaults();
    let result = converter.convert("Hello");
    assert_eq!(result.len(), 5);
    assert_eq!(result.chars[0].pinyin, "H");
}

#[test]
fn test_find_polyphones() {
    let converter = G2pwConverter::with_defaults();
    let polys = converter.find_polyphones("银行行长");
    assert_eq!(polys.len(), 3);
    assert_eq!(polys[0].0, 1);
    assert_eq!(polys[1].0, 2);
    assert_eq!(polys[2].0, 3);
}

#[test]
fn test_estimate_syllables() {
    let converter = G2pwConverter::with_defaults();
    let count = converter.estimate_syllables("你好世界");
    assert_eq!(count, 4);
}

#[test]
fn test_estimate_syllables_mixed() {
    let converter = G2pwConverter::with_defaults();
    let count = converter.estimate_syllables("你好Hello");
    assert_eq!(count, 2);
}

#[test]
fn test_pinyin_result_pinyin() {
    let converter = G2pwConverter::with_defaults();
    let result = converter.convert("你好");
    assert!(!result.pinyin().is_empty());
    assert!(result.pinyin().contains("nǐ"));
    assert!(result.pinyin().contains("hǎo"));
}

#[test]
fn test_pinyin_result_no_tone() {
    let converter = G2pwConverter::with_defaults();
    let result = converter.convert("你好");
    let no_tone = result.pinyin_no_tone();
    assert!(no_tone.contains("ni"));
    assert!(no_tone.contains("hao"));
}

#[test]
fn test_strip_tone_1() {
    let (pinyin, tone) = strip_tone("mā");
    assert_eq!(pinyin, "ma");
    assert_eq!(tone, 1);
}

#[test]
fn test_strip_tone_2() {
    let (pinyin, tone) = strip_tone("ní");
    assert_eq!(pinyin, "ni");
    assert_eq!(tone, 2);
}

#[test]
fn test_strip_tone_3() {
    let (pinyin, tone) = strip_tone("nǐ");
    assert_eq!(pinyin, "ni");
    assert_eq!(tone, 3);
}

#[test]
fn test_strip_tone_4() {
    let (pinyin, tone) = strip_tone("hào");
    assert_eq!(pinyin, "hao");
    assert_eq!(tone, 4);
}

#[test]
fn test_strip_tone_no_tone() {
    let (pinyin, tone) = strip_tone("le");
    assert_eq!(pinyin, "le");
    assert_eq!(tone, 0);
}

#[test]
fn test_config_default() {
    let config = G2pwConfig::default();
    assert!(config.enabled);
    assert!(config.use_builtin_dict);
    assert_eq!(config.confidence_threshold.bits, DEFAULT_CONFIDENCE_THRESHOLD);
    assert_eq!(f32::from_bits(DEFAULT_CONFIDENCE_THRESHOLD), 0.5);
    assert!(config.model_path.is_none());
}

#[test]
fn test_config_custom() {
    let config = G2pwConfig {
        enabled: false,
        model_path: Some("/models/g2pw".to_string()),
        confidence_threshold: F32::from_bits(0.8f32.to_bits()),
        use_builtin_dict: false,
        custom_pronunciations: vec![],
    };
    assert!(!config.enabled);
    assert!(!config.use_builtin_dict);
    assert_eq!(f32::from_bits(config.confidence_threshold.bits), 0.8);
}

#[test]
fn test_add_custom_pronunciation() {
    let mut converter = G2pwConverter::with_defaults();
    converter.add_custom_pronunciation("视频翻译", "shì pín fān yì");
    assert_eq!(
        converter.config().custom_pronunciation("视频翻译"),
        Some("shì pín fān yì")
    );
}

#[test]
fn test_polyphone_chang_grow() {
    let converter = G2pwConverter::with_defaults();
    let result = converter.convert("长大");
    let chang = result.chars.iter().find(|c| c.char == '长').unwrap();
    assert_eq!(chang.pinyin, "zhǎng");
}

#[test]
fn test_polyphone_chang_long() {
    let converter = G2pwConverter::with_defaults();
    let result = converter.convert("长期");
    let chang = result.chars.iter().find(|c| c.char == '长').unwrap();
    assert_eq!(chang.pinyin, "cháng");
}

#[test]
fn test_polyphone_zhong_important() {
    let converter = G2pwConverter::with_defaults();
    let result = converter.convert("重要");
    let zhong = result.chars.iter().find(|c| c.char == '重').unwrap();
    assert_eq!(zhong.pinyin, "zhòng");
}

#[test]
fn test_polyphone_zhong_repeat() {
    let converter = G2pwConverter::with_defaults();
    let result = converter.convert("重复");
    let zhong = result.chars.iter().find(|c| c.char == '重').unwrap();
    assert_eq!(zhong.pinyin, "chóng");
}

#[test]
fn test_polyphone_fa_hair() {
    let converter = G2pwConverter::with_defaults();
    let result = converter.convert("头发");
    let fa = result.chars.iter().find(|c| c.char == '发').unwrap();
    assert_eq!(fa.pinyin, "fà");
}

#[test]
fn test_polyphone_fa_find() {
    let converter = G2pwConverter::with_defaults();
    let result = converter.convert("发现");
    let fa = result.chars.iter().find(|c| c.char == '发').unwrap();
    assert_eq!(fa.pinyin, "fā");
}

#[test]
fn test_polyphone_le_understand() {
    let converter = G2pwConverter::with_defaults();
    let result = converter.convert("了解");
    let le = result.chars.iter().find(|c| c.char == '了').unwrap();
    assert_eq!(le.pinyin, "liǎo");
}

#[test]
fn test_polyphone_yue_music() {
    let converter = G2pwConverter::with_defaults();
    let result = converter.convert("音乐");
    let le = result.chars.iter().find(|c| c.char == '乐').unwrap();
    assert_eq!(le.pinyin, "yuè");
}

#[test]
fn test_polyphone_yue_happy() {
    let converter = G2pwConverter::with_defaults();
    let result = converter.convert("快乐");
    let le = result.chars.iter().find(|c| c.char == '乐').unwrap();
    assert_eq!(le.pinyin, "lè");
}

#[test]
fn tones_are_stripped_once_and_for_all() {
    let (plain, tone) = strip_tone("lǜ");
    assert_eq!((plain.as_str(), tone), ("lü", 4));
    let (again, none) = strip_tone(&plain);
    assert_eq!((again.as_str(), none), ("lü", 0));
}

#[test]
fn without_a_dictionary_there_is_no_polyphone() {
    let converter = G2pwConverter::new(G2pwConfig {
        use_builtin_dict: false,
        ..G2pwConfig::default()
    });
    assert!(converter.dictionary().is_empty());
    assert!(converter.find_polyphones("银行").is_empty());
    assert!(converter.convert("银行").polyphone_resolutions().is_empty());
}

#[test]
fn a_later_pronunciation_replaces_an_earlier_one() {
    let mut converter = G2pwConverter::with_defaults();
    converter.add_custom_pronunciation("行", "a");
    converter.add_custom_pronunciation("行", "b");
    assert_eq!(converter.config().custom_pronunciation("行"), Some("b"));
    assert_eq!(converter.config().custom_pronunciation("走"), None);
    assert_eq!(PolyphoneDictionary::default().len(), converter.dictionary().len());
}

#[test]
fn a_reading_that_was_set_counts_where_its_word_stands() {
    let mut converter = G2pwConverter::with_defaults();
    converter.add_custom_pronunciation("视频翻译", "shì pín fān yì");
    let result = converter.convert("你视频翻译好");
    assert_eq!(result.pinyin(), "nǐ shì pín fān yì hǎo");
    assert_eq!(result.chars[1].pinyin, "shì");
    assert_eq!(result.chars[1].pinyin_no_tone, "shi");
    assert_eq!(result.chars[4].tone, 4);
    assert_eq!(converter.convert("视频").chars[0].pinyin, "");

    converter.add_custom_pronunciation("银行", "yín xíng");
    let result = converter.convert("银行行长");
    assert_eq!(result.chars[1].pinyin, "xíng");
    assert!(result.chars[1].is_polyphone);
    assert_eq!(result.chars[1].disambiguation, None);
    assert_eq!(result.polyphone_resolutions()[0], (1, "行".to_string(), "xíng".to_string()));
}

#[test]
fn the_longest_word_counts_and_words_do_not_overlap() {
    let mut converter = G2pwConverter::with_defaults();
    converter.add_custom_pronunciation("ab", "x y");
    converter.add_custom_pronunciation("abc", "whole");
    converter.add_custom_pronunciation("cd", "p q");
    converter.add_custom_pronunciation("", "never");
    let readings = |text: &str| -> Vec<String> {
        converter.convert(text).chars.into_iter().map(|c| c.pinyin).collect()
    };
    assert_eq!(readings("abcd"), ["whole", "", "", "d"]);
    assert_eq!(readings("abd"), ["x", "y", "d"]);
    assert_eq!(readings("bcd"), ["b", "p", "q"]);
}

#[test]
fn without_disambiguation_the_first_reading_counts() {
    let config = G2pwConfig { enabled: false, ..G2pwConfig::default() };
    let converter = G2pwConverter::new(config);
    let result = converter.convert("银行");
    assert_eq!(result.chars[1].pinyin, "xíng");
    assert!(result.chars[1].is_polyphone);
    assert_eq!(result.chars[1].disambiguation, None);
    let by_context = G2pwConverter::with_defaults().convert("银行");
    assert_eq!(by_context.chars[1].pinyin, "háng");
}
