use storefront_core::address::{format_address, parse_address, split_fields, trim, Address};
use storefront_core::attribute::VarTag;
use storefront_core::cart::{
    add_line, count_items, count_signed, find_line, remove_lines, CartLine,
};
use storefront_core::catalog::{lookup_patterns, name_image, shown_text, submitted_text};
use storefront_core::error::AuthError;
use storefront_core::image::encode_image;

fn line(name: &str, variant: &str, quantity: u32) -> CartLine<u8> {
    CartLine { name: name.to_string(), variant: variant.to_string(), quantity, detail: 7 }
}

fn address() -> Address {
    Address {
        address_line_1: "1 Main St".to_string(),
        admin_area_2: "Springfield".to_string(),
        admin_area_1: "IL".to_string(),
        postal_code: "62701".to_string(),
        country_code: "US".to_string(),
    }
}

#[test]
fn image_is_base64_with_padding() {
    assert_eq!(encode_image(None), None);
    assert_eq!(encode_image(Some(&b"hello world~".to_vec())), Some("aGVsbG8gd29ybGR+".to_string()));
    assert_eq!(encode_image(Some(&vec![0, 255, 16, 1])), Some("AP8QAQ==".to_string()));
    assert_eq!(encode_image(Some(&Vec::new())), Some(String::new()));
}

#[test]
fn image_is_named_after_its_contents() {
    assert_eq!(
        name_image("<svg/>", "svg"),
        "d4dc56669143034f31aa309635d4113d9ad76a02b1739da22c965ed2049be9e6.svg"
    );
}

#[test]
fn shown_text_joins_what_is_shown() {
    let tags = vec![
        VarTag::Size("LARGE".to_string()),
        VarTag::Color("red".to_string()),
        VarTag::Fitted(true),
    ];
    assert_eq!(shown_text(&tags), "Large Red Fitted");
    assert_eq!(shown_text(&Vec::new()), "");
    assert_eq!(shown_text(&vec![VarTag::Fitted(false)]), "Snap");
}

#[test]
fn submitted_text_joins_vocabulary_words() {
    let tags = vec![
        VarTag::Size("small".to_string()),
        VarTag::Color("white".to_string()),
        VarTag::Fitted(true),
    ];
    assert_eq!(submitted_text(&tags), Ok("small white fitted".to_string()));
    let bad = vec![VarTag::Size("small".to_string()), VarTag::Color("purple".to_string())];
    assert_eq!(submitted_text(&bad), Err(AuthError::UnrecognizedTag));
    assert_eq!(submitted_text(&Vec::new()), Err(AuthError::UnrecognizedTag));
}

#[test]
fn lookup_patterns_need_two_words() {
    assert_eq!(lookup_patterns(""), None);
    assert_eq!(lookup_patterns("  small "), None);
    assert_eq!(
        lookup_patterns("small white"),
        Some(("%small%".to_string(), "%white%".to_string()))
    );
    assert_eq!(
        lookup_patterns(" small\twhite  fitted"),
        Some(("%small%".to_string(), "%white%".to_string()))
    );
}

#[test]
fn split_fields_agrees_with_std() {
    for sample in ["", ",", "a", "a,b", ",a,,b,", "1 Main St, Springfield, IL, 62701, US", "é,ü"] {
        let expected: Vec<String> = sample.split(',').map(|f| f.to_string()).collect();
        assert_eq!(split_fields(sample, ','), expected);
    }
}

#[test]
fn trim_agrees_with_std() {
    for sample in ["", " ", "a", " a", "a ", "  a b \t", "\u{3000}x\u{a0}", "\n\n", " é "] {
        assert_eq!(trim(sample), sample.trim());
    }
}

#[test]
fn address_line_round_trip() {
    assert_eq!(format_address(&address()), "1 Main St, Springfield, IL, 62701, US");
    assert_eq!(parse_address("1 Main St, Springfield, IL, 62701, US"), Some(address()));
    assert_eq!(parse_address("1 Main St,Springfield ,  IL,62701,US "), Some(address()));
    assert_eq!(parse_address("1 Main St, Springfield, IL, 62701"), None);
    assert_eq!(parse_address("1 Main St, Apt 2, Springfield, IL, 62701, US"), None);
    assert_eq!(parse_address(""), None);
    let blank = parse_address(",,,,").unwrap();
    assert_eq!(blank.address_line_1, "");
    assert_eq!(blank.country_code, "");
}

#[test]
fn cart_add_merges_or_appends_one() {
    let mut cart: Vec<CartLine<u8>> = Vec::new();
    add_line(&mut cart, line("shirt", "small", 5));
    assert_eq!(cart, vec![line("shirt", "small", 1)]);
    add_line(&mut cart, line("shirt", "large", 2));
    assert_eq!(cart, vec![line("shirt", "small", 1), line("shirt", "large", 1)]);
    add_line(&mut cart, line("shirt", "small", 3));
    assert_eq!(cart, vec![line("shirt", "small", 4), line("shirt", "large", 1)]);
    assert_eq!(count_items(&cart), Some(5));
    assert_eq!(find_line(&cart, "shirt", "large"), Some(1));
    assert_eq!(find_line(&cart, "shirt", "medium"), None);
    assert_eq!(find_line(&cart, "hat", "large"), None);
}

#[test]
fn cart_add_grows_the_first_match_only() {
    let mut cart = vec![line("a", "x", 1), line("a", "x", 10)];
    add_line(&mut cart, line("a", "x", 2));
    assert_eq!(cart, vec![line("a", "x", 3), line("a", "x", 10)]);
}

#[test]
fn cart_count_detects_overflow() {
    assert_eq!(count_items(&Vec::<CartLine<u8>>::new()), Some(0));
    let cart = vec![line("a", "x", u32::MAX), line("b", "y", 0)];
    assert_eq!(count_items(&cart), Some(u32::MAX));
    let cart = vec![line("a", "x", u32::MAX), line("b", "y", 1)];
    assert_eq!(count_items(&cart), None);
}

#[test]
fn cart_remove_takes_out_every_match() {
    let cart = vec![line("a", "x", 1), line("b", "x", 2), line("a", "y", 3), line("a", "x", 4)];
    assert_eq!(remove_lines(cart, "a", "x"), vec![line("b", "x", 2), line("a", "y", 3)]);
    let cart = vec![line("a", "x", 1)];
    assert_eq!(remove_lines(cart, "a", "z"), vec![line("a", "x", 1)]);
    assert_eq!(remove_lines(Vec::<CartLine<u8>>::new(), "a", "x"), vec![]);
}

#[test]
fn cart_count_signed_reads_quantities_as_i32() {
    assert_eq!(count_signed(&Vec::<CartLine<u8>>::new()), Some(0));
    assert_eq!(count_signed(&vec![line("a", "x", 2), line("b", "y", 3)]), Some(5));
    assert_eq!(count_signed(&vec![line("a", "x", u32::MAX)]), Some(-1));
    assert_eq!(count_signed(&vec![line("a", "x", 0x8000_0000)]), Some(i32::MIN));
    assert_eq!(count_signed(&vec![line("a", "x", 0x7fff_ffff)]), Some(i32::MAX));
    assert_eq!(count_signed(&vec![line("a", "x", 0x7fff_ffff), line("b", "y", 1)]), None);
    assert_eq!(
        count_signed(&vec![line("a", "x", 0x7fff_ffff), line("b", "y", 1), line("c", "z", u32::MAX)]),
        None
    );
    assert_eq!(
        count_signed(&vec![line("a", "x", 0x7fff_ffff), line("c", "z", u32::MAX), line("b", "y", 1)]),
        Some(i32::MAX)
    );
}
