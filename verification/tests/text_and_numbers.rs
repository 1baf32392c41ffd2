use gigachat::color::{color_hex_usable, convert_color, convert_color_hex, get_provider_color};
use gigachat::model::ProviderName;
use gigachat::numbers::{parse_usize, push_decimal, push_hex};
use gigachat::text::{
    chars_of, has_infix, has_prefix, split_words, str_eq, string_from_chars, trim_chars,
    trim_end_char, trim_start_char,
};

fn s(x: &str) -> String {
    x.to_string()
}

#[test]
fn split_keeps_empty_pieces() {
    assert_eq!(split_words("a  b", ' '), vec![s("a"), s(""), s("b")]);
    assert_eq!(split_words("", ' '), vec![s("")]);
    assert_eq!(split_words("one", ','), vec![s("one")]);
    assert_eq!(split_words("x,y,", ','), vec![s("x"), s("y"), s("")]);
}

#[test]
fn trimming_characters() {
    let cs = chars_of("  hello world \t");
    assert_eq!(string_from_chars(&trim_chars(&cs)), "hello world");
    let q = chars_of("\"\"quoted\"");
    assert_eq!(string_from_chars(&trim_start_char(&q, '"')), "quoted\"");
    assert_eq!(string_from_chars(&trim_end_char(&q, '"')), "\"\"quoted");
    let only = chars_of("\"\"\"");
    assert_eq!(trim_start_char(&only, '"').len(), 0);
}

#[test]
fn prefixes_and_infixes() {
    let s1 = chars_of("https://example.com");
    assert!(has_prefix(&s1, &chars_of("https://")));
    assert!(!has_prefix(&s1, &chars_of("http:/x")));
    assert!(has_infix(&s1, &chars_of("example")));
    assert!(!has_infix(&s1, &chars_of("examples")));
    assert!(has_infix(&s1, &chars_of("")));
    assert!(str_eq("abc", "abc"));
    assert!(!str_eq("abc", "abd"));
}

#[test]
fn parse_usize_reads_like_str_parse() {
    assert_eq!(parse_usize("123"), Some(123));
    assert_eq!(parse_usize("+7"), Some(7));
    assert_eq!(parse_usize("0"), Some(0));
    assert_eq!(parse_usize(""), None);
    assert_eq!(parse_usize("+"), None);
    assert_eq!(parse_usize("-1"), None);
    assert_eq!(parse_usize("12a"), None);
    assert_eq!(parse_usize(" 1"), None);
    assert_eq!(parse_usize("18446744073709551615"), Some(usize::MAX));
    assert_eq!(parse_usize("18446744073709551616"), None);
}

#[test]
fn decimal_and_hex_text() {
    let mut d = s("n=");
    push_decimal(&mut d, 0);
    assert_eq!(d, "n=0");
    let mut d = String::new();
    push_decimal(&mut d, 1234567890);
    assert_eq!(d, "1234567890");
    let mut h = String::new();
    push_hex(&mut h, 255);
    assert_eq!(h, "ff");
    let mut h = String::new();
    push_hex(&mut h, 0xdead_beef_0000_0001);
    assert_eq!(h, format!("{:x}", 0xdead_beef_0000_0001u128));
    let mut back = String::new();
    push_decimal(&mut back, 987654321);
    assert_eq!(parse_usize(&back), Some(987654321));
    let mut h = String::new();
    push_hex(&mut h, u128::MAX);
    assert_eq!(h, format!("{:x}", u128::MAX));
}

#[test]
fn user_colours_are_brightened() {
    assert_eq!(convert_color(&(255, 255, 255)), (255, 255, 255));
    assert_eq!(convert_color(&(100, 50, 200)), (150, 100, 250));
    assert_eq!(convert_color(&(0, 0, 0)), (150, 150, 150));
    assert_eq!(convert_color(&(200, 200, 200)), (200, 200, 200));
    assert_eq!(convert_color(&(0, 255, 255)), (50, 255, 255));
}

#[test]
fn provider_colours() {
    assert_eq!(get_provider_color(&ProviderName::Twitch), (169, 112, 255, 255));
    assert_eq!(get_provider_color(&ProviderName::YouTube), (255, 78, 69, 255));
    assert_eq!(get_provider_color(&ProviderName::DGG), (83, 140, 198, 255));
}

#[test]
fn hex_colour_tags() {
    assert_eq!(convert_color_hex(Some(&s("#FF8000"))), Some((255, 128, 0)));
    assert_eq!(convert_color_hex(Some(&s("1e90ff"))), Some((30, 144, 255)));
    assert_eq!(convert_color_hex(Some(&s("#FF80000102"))), Some((255, 128, 0)));
    assert_eq!(convert_color_hex(Some(&s(""))), None);
    assert_eq!(convert_color_hex(Some(&s("#zz0000"))), None);
    assert_eq!(convert_color_hex(Some(&s("#FF800"))), None);
    assert_eq!(convert_color_hex(None), None);
    assert!(color_hex_usable(Some(&s("#FF8000"))));
    assert!(color_hex_usable(None));
    assert!(!color_hex_usable(Some(&s("#FF80"))));
}
