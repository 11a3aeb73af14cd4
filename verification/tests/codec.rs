use storefront_core::attribute::{decode, encode, VarTag};
use storefront_core::digest::{hash, hash_password};
use storefront_core::error::AuthError;
use storefront_core::text::{
    capitalize, char_is_space, join, same_text, split_words, strip_prefix,
};
use storefront_core::vocabulary::{
    canonical_vocabulary, validate_against_vocabulary, validate_tags, validate_vocabulary,
    vocabulary_word,
};

fn strings(items: &[&str]) -> Vec<String> {
    items.iter().map(|s| s.to_string()).collect()
}

#[test]
fn decode_drops_unknown_tokens() {
    assert_eq!(
        decode("size-Large colorRed unknowntoken fitted"),
        vec![
            VarTag::Size("-Large".to_string()),
            VarTag::Color("Red".to_string()),
            VarTag::Fitted(true)
        ]
    );
}

#[test]
fn unknown_word_refuses_submission() {
    assert_eq!(validate_vocabulary(&strings(&["purple", "large"])), Err(AuthError::UnrecognizedTag));
    assert_eq!(validate_vocabulary(&strings(&["large"])), Ok(strings(&["large"])));
    assert_eq!(
        validate_vocabulary(&strings(&["large", "red", "snap"])),
        Ok(strings(&["large", "red", "snap"]))
    );
    assert_eq!(validate_vocabulary(&strings(&["Large"])), Err(AuthError::UnrecognizedTag));
    assert_eq!(validate_vocabulary(&strings(&[])), Err(AuthError::UnrecognizedTag));
}

#[test]
fn validate_against_given_vocabulary() {
    let vocabulary = strings(&["xl", "green"]);
    assert_eq!(
        validate_against_vocabulary(&strings(&["green", "xl", "green"]), &vocabulary),
        Ok(strings(&["green", "xl", "green"]))
    );
    assert_eq!(
        validate_against_vocabulary(&strings(&["green", "large"]), &vocabulary),
        Err(AuthError::UnrecognizedTag)
    );
    assert_eq!(
        canonical_vocabulary(),
        strings(&["small", "medium", "large", "white", "red", "blue", "fitted", "snap"])
    );
}

#[test]
fn validate_typed_tags() {
    let tags = vec![
        VarTag::Size("small".to_string()),
        VarTag::Color("white".to_string()),
        VarTag::Fitted(false),
    ];
    assert_eq!(validate_tags(&tags), Ok(strings(&["small", "white", "snap"])));
    let wrong_kind = vec![VarTag::Size("red".to_string())];
    assert_eq!(validate_tags(&wrong_kind), Err(AuthError::UnrecognizedTag));
    let one_bad = vec![VarTag::Fitted(true), VarTag::Color("purple".to_string())];
    assert_eq!(validate_tags(&one_bad), Err(AuthError::UnrecognizedTag));
    assert_eq!(validate_tags(&[].to_vec()), Err(AuthError::UnrecognizedTag));
    assert_eq!(vocabulary_word(&VarTag::Fitted(true)), Some("fitted".to_string()));
    assert_eq!(vocabulary_word(&VarTag::Color("blue".to_string())), Some("blue".to_string()));
    assert_eq!(vocabulary_word(&VarTag::Color("Blue".to_string())), None);
}

#[test]
fn from_str_classifies_by_prefix() {
    assert_eq!(VarTag::from_str("sizeXL"), Ok(VarTag::Size("XL".to_string())));
    assert_eq!(VarTag::from_str("size"), Ok(VarTag::Size(String::new())));
    assert_eq!(VarTag::from_str("colorred"), Ok(VarTag::Color("red".to_string())));
    assert_eq!(VarTag::from_str("fitted"), Ok(VarTag::Fitted(true)));
    assert_eq!(VarTag::from_str("snap"), Ok(VarTag::Fitted(false)));
    assert_eq!(VarTag::from_str("fitted!"), Err(()));
    assert_eq!(VarTag::from_str("Size1"), Err(()));
    assert_eq!(VarTag::from_str("siz"), Err(()));
    assert_eq!(VarTag::from_str(""), Err(()));
    assert_eq!(VarTag::from_str("sizeé"), Ok(VarTag::Size("é".to_string())));
}

#[test]
fn to_string_writes_the_token() {
    assert_eq!(VarTag::Size("LARGE".to_string()).to_string(), "sizeLarge");
    assert_eq!(VarTag::Color("red".to_string()).to_string(), "colorRed");
    assert_eq!(VarTag::Color("".to_string()).to_string(), "color");
    assert_eq!(VarTag::Size("ßig".to_string()).to_string(), "sizeSSig");
    assert_eq!(VarTag::Fitted(true).to_string(), "fitted");
    assert_eq!(VarTag::Fitted(false).to_string(), "snap");
}

#[test]
fn from_str_reads_what_to_string_writes() {
    assert_eq!(VarTag::from_str(&VarTag::Fitted(true).to_string()), Ok(VarTag::Fitted(true)));
    assert_eq!(VarTag::from_str(&VarTag::Fitted(false).to_string()), Ok(VarTag::Fitted(false)));
    assert_eq!(
        VarTag::from_str(&VarTag::Size("xl".to_string()).to_string()),
        Ok(VarTag::Size("Xl".to_string()))
    );
    assert_eq!(
        VarTag::from_str(&VarTag::Color("Red".to_string()).to_string()),
        Ok(VarTag::Color("Red".to_string()))
    );
    assert_eq!(
        VarTag::from_str(&VarTag::Color("size".to_string()).to_string()),
        Ok(VarTag::Color("Size".to_string()))
    );
    let tags = vec![VarTag::Fitted(false), VarTag::Size("m".to_string()), VarTag::Fitted(true)];
    let text = tags.iter().map(|t| t.to_string()).collect::<Vec<_>>().join(" ");
    assert_eq!(
        decode(&text),
        vec![VarTag::Fitted(false), VarTag::Size("M".to_string()), VarTag::Fitted(true)]
    );
    assert_eq!(text, encode(&tags));
}

#[test]
fn caption_shows_the_label() {
    assert_eq!(VarTag::Size("LARGE".to_string()).caption(), "Large");
    assert_eq!(VarTag::Color("red".to_string()).caption(), "Red");
    assert_eq!(VarTag::Color("".to_string()).caption(), "");
    assert_eq!(VarTag::Size("ßig".to_string()).caption(), "SSig");
    assert_eq!(VarTag::Fitted(true).caption(), "Fitted");
    assert_eq!(VarTag::Fitted(false).caption(), "Snap");
    assert_eq!(VarTag::Fitted(true).clone(), VarTag::Fitted(true));
}

#[test]
fn encode_joins_tokens_with_single_spaces() {
    assert_eq!(encode(&vec![]), "");
    assert_eq!(encode(&vec![VarTag::Fitted(false)]), "snap");
    let tags = vec![
        VarTag::Size("-Large".to_string()),
        VarTag::Color("Red".to_string()),
        VarTag::Fitted(true),
    ];
    assert_eq!(encode(&tags), "size-large colorRed fitted");
}

#[test]
fn decode_of_encode_gives_shown_labels() {
    let tags = vec![
        VarTag::Fitted(true),
        VarTag::Size("medium".to_string()),
        VarTag::Fitted(false),
        VarTag::Color("BLUE".to_string()),
    ];
    assert_eq!(
        decode(&encode(&tags)),
        vec![
            VarTag::Fitted(true),
            VarTag::Size("Medium".to_string()),
            VarTag::Fitted(false),
            VarTag::Color("Blue".to_string()),
        ]
    );
    let again = decode(&encode(&tags));
    assert_eq!(decode(&encode(&again)), again);
}

#[test]
fn label_with_whitespace_does_not_round_trip() {
    let tags = vec![VarTag::Size("extra large".to_string())];
    assert_eq!(encode(&tags), "sizeExtra large");
    assert_eq!(decode(&encode(&tags)), vec![VarTag::Size("Extra".to_string())]);
}

#[test]
fn decode_never_fails() {
    assert_eq!(decode(""), vec![]);
    assert_eq!(decode("   \t\n"), vec![]);
    assert_eq!(decode("Large Red Fitted"), vec![]);
    assert_eq!(decode("  snap\u{a0}fitted\u{3000}size "), vec![
        VarTag::Fitted(false),
        VarTag::Fitted(true),
        VarTag::Size(String::new())
    ]);
}

#[test]
fn split_words_agrees_with_std() {
    let samples = [
        "",
        " ",
        "a",
        " a",
        "a ",
        "a b",
        "  a \t b\n\nc  ",
        "x\u{85}y\u{1680}z\u{2000}w\u{200a}v\u{2028}u\u{2029}t\u{202f}s\u{205f}r\u{3000}q",
        "no\u{200b}split\u{feff}here",
        "é ü  ß",
    ];
    for sample in samples {
        let expected: Vec<String> = sample.split_whitespace().map(|w| w.to_string()).collect();
        assert_eq!(split_words(sample), expected);
    }
}

#[test]
fn char_is_space_agrees_with_std() {
    let mut n: u32 = 0;
    while n <= 0x10FFFF {
        if let Some(c) = char::from_u32(n) {
            assert_eq!(char_is_space(c), c.is_whitespace());
        }
        n += 1;
    }
}

#[test]
fn same_text_compares_characters() {
    assert!(same_text("", ""));
    assert!(same_text("fitted", "fitted"));
    assert!(same_text("é\u{3000}ß", "é\u{3000}ß"));
    assert!(!same_text("fitted", "fitte"));
    assert!(!same_text("fitte", "fitted"));
    assert!(!same_text("fitted", "fittee"));
    assert!(!same_text("Fitted", "fitted"));
    assert!(!same_text("é", "e"));
    assert!(!same_text("", " "));
}

#[test]
fn text_helpers() {
    assert_eq!(join(&strings(&[]), ", "), "");
    assert_eq!(join(&strings(&["a"]), ", "), "a");
    assert_eq!(join(&strings(&["a", "", "c"]), ", "), "a, , c");
    assert_eq!(strip_prefix("sizeXL", "size"), Some("XL".to_string()));
    assert_eq!(strip_prefix("siz", "size"), None);
    assert_eq!(strip_prefix("héllo", "hé"), Some("llo".to_string()));
    assert_eq!(strip_prefix("abc", ""), Some("abc".to_string()));
    assert_eq!(capitalize("hello world"), "Hello world");
    assert_eq!(capitalize(""), "");
    assert_eq!(capitalize("éa"), "Éa");
}

#[test]
fn digest_is_sha256_in_lowercase_hex() {
    assert_eq!(
        hash_password("abc"),
        "ba7816bf8f01cfea414140de5dae2223b00361a396177a9cb410ff61f20015ad"
    );
    assert_eq!(
        hash_password(""),
        "e3b0c44298fc1c149afbf4c8996fb92427ae41e4649b934ca495991b7852b855"
    );
    assert_eq!(
        hash("pw1", "salt"),
        "bdb835c2dfe825d07015a179d5414c62a2a21c9dda5b94cfa4cc957b02bbcdd0"
    );
}

#[test]
fn digest_is_deterministic_and_depends_on_both_inputs() {
    assert_eq!(hash("pw1", "ABCDEFGHIJKLMNOP"), hash("pw1", "ABCDEFGHIJKLMNOP"));
    assert_eq!(
        hash("pw1", "ABCDEFGHIJKLMNOP"),
        "369320907a89ad746bd5c9cb4bdbccdaa316d0e322b24747f914f3d7b9d2df8f"
    );
    assert_ne!(hash("pw1", "ABCDEFGHIJKLMNOP"), hash("pw2", "ABCDEFGHIJKLMNOP"));
    assert_ne!(hash("pw1", "ABCDEFGHIJKLMNOP"), hash("pw1", "ABCDEFGHIJKLMNOQ"));
    assert_eq!(hash("pw1", "ABCDEFGHIJKLMNOP").len(), 64);
    assert_eq!(hash("ab", "c"), hash("a", "bc"));
}
