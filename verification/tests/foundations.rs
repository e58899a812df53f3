use vt_core::error::AppError;
use vt_core::ieee::{Double, Single, F32, F64};
use vt_core::order::{sorted_order, total_key};
use vt_core::text::{
    comes_before, contains, copied, is_blank, is_whitespace, join, json_stem, padded_text,
    path_join, signed_text, split_lines, split_words, substitute, truncate_str,
};

#[test]
fn numbers_compare_as_floating_point_does() {
    let list = [
        f64::NEG_INFINITY,
        -1.5,
        -0.0,
        0.0,
        1e-310,
        0.1,
        1.0,
        f64::INFINITY,
        f64::NAN,
        -f64::NAN,
    ];
    for a in list {
        for b in list {
            let (x, y) = (F64::from_bits(a.to_bits()), F64::from_bits(b.to_bits()));
            assert_eq!(x.lt(y), a < b, "{a} < {b}");
            assert_eq!(x.le(y), a <= b, "{a} <= {b}");
            let (s, t) = (a as f32, b as f32);
            let (x, y) = (F32::from_bits(s.to_bits()), F32::from_bits(t.to_bits()));
            assert_eq!(x.lt(y), s < t, "{s} < {t}");
            assert_eq!(x.le(y), s <= t, "{s} <= {t}");
            let (p, q) = (
                total_key(F64::from_bits(a.to_bits())),
                total_key(F64::from_bits(b.to_bits())),
            );
            assert_eq!(p.cmp(&q), a.total_cmp(&b), "{a} and {b}");
        }
    }
}

#[test]
fn settings_lie_inside_or_outside() {
    let one = Single::new(1.0f32.to_bits(), "1", "1");
    assert!(!one.is_outside(0.5f32.to_bits(), 1.0f32.to_bits()));
    assert!(one.is_outside(1.5f32.to_bits(), 2.0f32.to_bits()));
    let nan = Double::new(f64::NAN.to_bits(), "NaN");
    assert!(!nan.is_outside(0.0f64.to_bits(), 1.0f64.to_bits()));
}

#[test]
fn equal_keys_keep_their_order() {
    assert_eq!(sorted_order(&vec![3, 1, 3, 2, 1]), vec![1, 4, 3, 0, 2]);
    assert!(sorted_order(&vec![]).is_empty());
}

#[test]
fn texts_are_ordered_as_the_standard_library_orders_them() {
    let list = ["", "a", "aa", "ab", "b", "z", "é", "中", "\u{ffff}", "\u{10000}"];
    for a in list {
        for b in list {
            assert_eq!(comes_before(a, b), a < b, "{a} and {b}");
        }
    }
}

#[test]
fn paths_are_joined_as_the_standard_library_joins_them() {
    for base in ["", "/", "a", "a/", "/a/b"] {
        for part in ["x", "x/y", "/x"] {
            let expected = std::path::Path::new(base).join(part);
            assert_eq!(path_join(base, part), expected.to_string_lossy());
        }
    }
}

#[test]
fn texts_are_taken_apart_and_put_together() {
    assert_eq!(substitute("aXbXc", &vec![("X", "--")]), "aXbXc".replace("X", "--"));
    assert_eq!(substitute("aaa", &vec![("aa", "b")]), "aaa".replace("aa", "b"));
    assert_eq!(substitute("xyz", &vec![("x", "y"), ("y", "x"), ("", "?")]), "yxz");
    assert_eq!(substitute("plain", &vec![("{a}", "1")]), "plain");
    let words = split_words(" shì  pín\tfān ");
    assert_eq!(words, " shì  pín\tfān ".split_whitespace().collect::<Vec<_>>());
    assert!(split_words(" \n ").is_empty());
    assert!(contains("hello", "ell"));
    assert!(!contains("hello", "elo"));
    let parts: Vec<String> = vec!["a".into(), "b".into()];
    assert_eq!(join(&parts, ", "), "a, b");
    assert_eq!(join(&copied(&parts), ""), "ab");
    assert_eq!(split_lines("a\n\nb").len(), 3);
    assert_eq!(padded_text(7, 3), "007");
    assert_eq!(padded_text(12345, 3), "12345");
    assert_eq!(signed_text(i32::MIN), "-2147483648");
    assert_eq!(truncate_str("你好世界", 2), "你好...");
    assert_eq!(truncate_str("你好", 2), "你好");
    assert!(is_blank(" \t\u{3000}"));
    assert!(!is_blank(" a "));
    assert_eq!(json_stem("a.json").as_deref(), Some("a"));
}

#[test]
fn white_space_is_that_of_the_standard_library() {
    for c in (0..0x3100).filter_map(char::from_u32) {
        assert_eq!(is_whitespace(c), c.is_whitespace(), "{c:?}");
    }
}

#[test]
fn errors_say_what_they_are() {
    assert_eq!(AppError::Config("x".into()).to_string(), "Configuration error: x");
    assert_eq!(AppError::FFmpeg("x".into()).to_string(), "FFmpeg error: x");
    assert_eq!(AppError::FileNotFound("x".into()).to_string(), "File not found: x");
}
