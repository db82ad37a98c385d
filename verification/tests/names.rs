use photo_cull::file_name::{
    classify, jpeg_extension_list, lists, raw_extension_list, split_name, FileKind,
};
use photo_cull::order::{place_of, Place};
use std::cmp::Ordering;
use std::path::Path;

#[test]
fn split_name_parts_at_the_last_dot() {
    assert_eq!(split_name("IMG_01.JPG"), ("IMG_01".to_string(), Some("JPG".to_string())));
    assert_eq!(split_name("a.b.c"), ("a.b".to_string(), Some("c".to_string())));
    assert_eq!(split_name("photo."), ("photo".to_string(), Some("".to_string())));
}

#[test]
fn split_name_keeps_names_without_a_parting_dot_whole() {
    assert_eq!(split_name("README"), ("README".to_string(), None));
    assert_eq!(split_name(".hidden"), (".hidden".to_string(), None));
    assert_eq!(split_name("."), (".".to_string(), None));
    assert_eq!(split_name(".."), ("..".to_string(), None));
    assert_eq!(split_name(""), ("".to_string(), None));
}

#[test]
fn split_name_with_leading_dots() {
    assert_eq!(split_name("..a"), (".".to_string(), Some("a".to_string())));
    assert_eq!(split_name("..."), ("..".to_string(), Some("".to_string())));
    assert_eq!(split_name(".a.b"), (".a".to_string(), Some("b".to_string())));
}

#[test]
fn split_name_agrees_with_the_standard_library() {
    let names = [
        "IMG_01.JPG",
        "img.jpeg",
        "a.b.c",
        "photo.",
        "README",
        ".hidden",
        ".hidden.arw",
        "..a",
        "...",
        "....",
        "a..b",
        "a.",
        "ü.é",
        "名前.ＪＰＧ",
        "x.tar.gz",
        " spaced name .nef",
        "a",
        ".a",
        "a.b",
    ];
    for name in names {
        let path = Path::new(name);
        let stem = path.file_stem().and_then(|s| s.to_str()).unwrap_or("").to_string();
        let extension = path.extension().and_then(|e| e.to_str()).map(|e| e.to_string());
        assert_eq!(split_name(name), (stem, extension), "{:?}", name);
    }
}

#[test]
fn classify_knows_the_listed_extensions() {
    assert_eq!(classify("JPG"), Some(FileKind::Jpeg));
    assert_eq!(classify("JPEG"), Some(FileKind::Jpeg));
    for raw in ["ARW", "CR2", "NEF", "DNG", "ORF", "RAF", "SRW"] {
        assert_eq!(classify(raw), Some(FileKind::Raw), "{}", raw);
    }
}

#[test]
fn classify_takes_uppercase_only() {
    assert_eq!(classify("jpg"), None);
    assert_eq!(classify("Arw"), None);
}

#[test]
fn classify_leaves_other_extensions_out() {
    for other in ["", "PNG", "TIFF", "CR3", "JPG ", " JPG", "JPGX", "JP", "HEIC", "XMP", "MP4"] {
        assert_eq!(classify(other), None, "{:?}", other);
    }
}

#[test]
fn extension_lists_are_the_configuration() {
    assert_eq!(jpeg_extension_list(), vec!["JPG", "JPEG"]);
    assert_eq!(raw_extension_list(), vec!["ARW", "CR2", "NEF", "DNG", "ORF", "RAF", "SRW"]);
    assert!(lists(&raw_extension_list(), "NEF"));
    assert!(!lists(&raw_extension_list(), "JPG"));
    assert!(!lists(&vec![], "JPG"));
}

#[test]
fn place_of_orders_by_bytes() {
    assert_eq!(place_of("a", "b"), Place::Before);
    assert_eq!(place_of("b", "a"), Place::After);
    assert_eq!(place_of("a", "a"), Place::Same);
    assert_eq!(place_of("", ""), Place::Same);
    assert_eq!(place_of("", "a"), Place::Before);
    assert_eq!(place_of("IMG_1", "IMG_10"), Place::Before);
    assert_eq!(place_of("IMG_10", "IMG_2"), Place::Before);
    assert_eq!(place_of("Z", "a"), Place::Before);
    assert_eq!(place_of("z", "é"), Place::Before);
}

#[test]
fn place_of_agrees_with_the_standard_library() {
    let texts = [
        "", "a", "A", "ab", "abc", "abd", "b", "IMG_1", "IMG_10", "IMG_2", "img_1", "é", "e",
        "z", "~", "\u{7f}", "\u{80}", "\u{7ff}", "\u{800}", "\u{ffff}", "\u{10000}", "𝄞",
        "名前", "名", "a\u{0}", "a\u{0}b",
    ];
    for a in texts {
        for b in texts {
            let expected = match a.cmp(b) {
                Ordering::Less => Place::Before,
                Ordering::Equal => Place::Same,
                Ordering::Greater => Place::After,
            };
            assert_eq!(place_of(a, b), expected, "{:?} {:?}", a, b);
        }
    }
}
