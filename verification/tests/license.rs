use cargo_ebuild::license::{
    contains_text, normalize_license, split_spdx_license, GENTOO_LICENSES,
};
use cargo_ebuild::license_set::LicenseSet;

fn strings(items: &[&str]) -> Vec<String> {
    items.iter().map(|s| s.to_string()).collect()
}

#[test]
fn split_empty_expression_gives_no_token() {
    assert_eq!(split_spdx_license(""), Vec::<String>::new());
}

#[test]
fn split_blank_expression_gives_no_token() {
    assert_eq!(split_spdx_license("  \t\n ( ) "), Vec::<String>::new());
}

#[test]
fn split_single_identifier() {
    assert_eq!(split_spdx_license("MIT"), strings(&["MIT"]));
}

#[test]
fn split_disjunction() {
    assert_eq!(split_spdx_license("MIT OR Apache-2.0"), strings(&["MIT", "Apache-2.0"]));
}

#[test]
fn split_conjunction() {
    assert_eq!(split_spdx_license("MIT AND Zlib"), strings(&["MIT", "Zlib"]));
}

#[test]
fn split_parenthesized_mixture() {
    assert_eq!(
        split_spdx_license("(MIT OR Apache-2.0) AND BSD-3-Clause"),
        strings(&["MIT", "Apache-2.0", "BSD-3-Clause"])
    );
}

#[test]
fn split_deep_nesting() {
    assert_eq!(
        split_spdx_license("((MIT) OR ((Apache-2.0 AND (ISC))) OR (((0BSD))))"),
        strings(&["MIT", "Apache-2.0", "ISC", "0BSD"])
    );
}

#[test]
fn split_keeps_each_identifier_once() {
    assert_eq!(
        split_spdx_license("MIT OR (Apache-2.0 AND MIT) OR Apache-2.0"),
        strings(&["MIT", "Apache-2.0"])
    );
}

#[test]
fn split_exception_clause() {
    assert_eq!(
        split_spdx_license("Apache-2.0 WITH LLVM-exception OR MIT"),
        strings(&["Apache-2.0", "LLVM-exception", "MIT"])
    );
}

#[test]
fn split_operators_alone() {
    assert_eq!(split_spdx_license("AND OR WITH"), Vec::<String>::new());
}

#[test]
fn split_reads_operators_in_capitals_only() {
    assert_eq!(split_spdx_license("MIT or Zlib"), strings(&["MIT", "or", "Zlib"]));
}

#[test]
fn split_takes_any_white_space() {
    assert_eq!(
        split_spdx_license("\tMIT\nOR\r\n  Unlicense  "),
        strings(&["MIT", "Unlicense"])
    );
}

#[test]
fn split_parts_words_at_parentheses_too() {
    assert_eq!(split_spdx_license("(MIT)OR(ISC)"), strings(&["MIT", "ISC"]));
    assert_eq!(split_spdx_license("MIT(ISC)Zlib"), strings(&["MIT", "ISC", "Zlib"]));
    assert_eq!(split_spdx_license("MITOR ISC"), strings(&["MITOR", "ISC"]));
}

#[test]
fn split_keeps_an_unknown_separator_inside_the_token() {
    assert_eq!(split_spdx_license("MIT/Apache-2.0"), strings(&["MIT/Apache-2.0"]));
}

#[test]
fn normalize_maps_known_identifiers() {
    assert_eq!(normalize_license("MIT"), Some("MIT"));
    assert_eq!(normalize_license("BSD-3-Clause"), Some("BSD"));
    assert_eq!(normalize_license("BSD-2-Clause"), Some("BSD-2"));
    assert_eq!(normalize_license("Zlib"), Some("ZLIB"));
    assert_eq!(normalize_license("GPL-3.0-or-later"), Some("GPL-3+"));
    assert_eq!(normalize_license("BSL-1.0"), Some("Boost-1.0"));
    assert_eq!(normalize_license("0BSD"), Some("0BSD"));
    assert_eq!(normalize_license("zlib-acknowledgement"), Some("ZLIB"));
}

#[test]
fn normalize_gives_nothing_for_unknown_identifiers() {
    assert_eq!(normalize_license("LLVM-exception"), None);
    assert_eq!(normalize_license("mit"), None);
    assert_eq!(normalize_license(""), None);
    assert_eq!(normalize_license("MIT "), None);
    assert_eq!(normalize_license("MIT/Apache-2.0"), None);
}

#[test]
fn normalize_answers_alike_each_time() {
    for (spdx, gentoo) in GENTOO_LICENSES {
        assert_eq!(normalize_license(spdx), Some(gentoo));
        assert_eq!(normalize_license(spdx), normalize_license(spdx));
    }
    assert_eq!(normalize_license("no-such-license"), normalize_license("no-such-license"));
}

#[test]
fn table_names_each_identifier_once() {
    for (i, (a, _)) in GENTOO_LICENSES.iter().enumerate() {
        for (b, _) in GENTOO_LICENSES.iter().skip(i + 1) {
            assert_ne!(a, b);
        }
    }
}

#[test]
fn contains_text_finds_only_whole_items() {
    let items = strings(&["MIT", "Apache-2.0"]);
    assert!(contains_text(&items, "MIT"));
    assert!(contains_text(&items, "Apache-2.0"));
    assert!(!contains_text(&items, "Apache"));
    assert!(!contains_text(&Vec::new(), "MIT"));
}

#[test]
fn license_set_starts_empty() {
    let set = LicenseSet::new();
    assert_eq!(set.len(), 0);
    assert_eq!(set.to_vec(), Vec::<String>::new());
    assert!(!set.contains("MIT"));
}

#[test]
fn license_set_keeps_ascending_order() {
    let mut set = LicenseSet::new();
    assert!(set.insert("MIT".to_string()));
    assert!(set.insert("Apache-2.0".to_string()));
    assert!(set.insert("ZLIB".to_string()));
    assert!(set.insert("BSD".to_string()));
    assert_eq!(set.to_vec(), strings(&["Apache-2.0", "BSD", "MIT", "ZLIB"]));
    assert_eq!(set.len(), 4);
}

#[test]
fn license_set_holds_nothing_twice() {
    let mut set = LicenseSet::new();
    assert!(set.insert("MIT".to_string()));
    assert!(!set.insert("MIT".to_string()));
    assert!(set.insert("ISC".to_string()));
    assert!(!set.insert("ISC".to_string()));
    assert_eq!(set.to_vec(), strings(&["ISC", "MIT"]));
    assert!(set.contains("MIT"));
    assert!(!set.contains("MI"));
}

#[test]
fn license_set_order_is_that_of_strings() {
    let tokens = ["openssl", "GPL-2+", "GPL-2", "0BSD", "Unlicense", "BSD-2", "BSD"];
    let mut set = LicenseSet::new();
    for t in tokens {
        set.insert(t.to_string());
    }
    let mut expected = strings(&tokens);
    expected.sort();
    assert_eq!(set.to_vec(), expected);
}

#[test]
fn license_set_does_not_depend_on_insertion_order() {
    let mut forward = LicenseSet::new();
    let mut backward = LicenseSet::new();
    let tokens = ["MIT", "Apache-2.0", "BSD", "ISC"];
    for t in tokens {
        forward.insert(t.to_string());
    }
    for t in tokens.iter().rev() {
        backward.insert(t.to_string());
    }
    assert_eq!(forward.to_vec(), backward.to_vec());
}
