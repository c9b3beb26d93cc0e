use themex::color::{is_dark_color, normalize_color, parse_color, FormatError};
use themex::mapping::{get_vim_groups_for_scope, get_vim_groups_for_semantic_token};
use themex::render::{replace_separators, sanitize_name};

#[test]
fn six_digits_read_opaque() {
    assert_eq!(parse_color("#1e1e2e"), Ok((0x1e, 0x1e, 0x2e, 255)));
    assert_eq!(parse_color("#CDD6F4"), Ok((0xcd, 0xd6, 0xf4, 255)));
}

#[test]
fn short_form_doubles_each_digit() {
    assert_eq!(parse_color("#abc"), Ok((0xaa, 0xbb, 0xcc, 255)));
    assert_eq!(parse_color("#abc"), parse_color("#aabbcc"));
    assert_eq!(normalize_color("#abc", "#abc").unwrap(), "#aabbcc");
}

#[test]
fn eight_digits_carry_alpha() {
    assert_eq!(parse_color("#11223344"), Ok((0x11, 0x22, 0x33, 0x44)));
}

#[test]
fn malformed_colors_fail() {
    assert_eq!(parse_color("123456"), Err(FormatError::MissingHash));
    assert_eq!(parse_color(""), Err(FormatError::MissingHash));
    assert_eq!(parse_color("#12345"), Err(FormatError::BadLength));
    assert_eq!(parse_color("#"), Err(FormatError::BadLength));
    assert_eq!(parse_color("#12g456"), Err(FormatError::BadDigit));
    assert_eq!(parse_color("#+f+f+f"), Err(FormatError::BadDigit));
    assert_eq!(normalize_color("red", "#000000"), Err(FormatError::MissingHash));
    assert_eq!(normalize_color("#000000", "#00"), Err(FormatError::BadLength));
}

#[test]
fn darkness_threshold() {
    // 0.299 * 128 + 0.587 * 128 + 0.114 * 128 = 128 exactly: light.
    assert!(!is_dark_color("#808080"));
    assert!(is_dark_color("#7f7f7f"));
    assert!(is_dark_color("#1e1e2e"));
    assert!(!is_dark_color("#ffffff"));
    assert!(!is_dark_color("not a color"));
}

#[test]
fn compositing_extremes_and_mix() {
    assert_eq!(normalize_color("#102030ff", "#ffffff").unwrap(), "#102030");
    assert_eq!(normalize_color("#10203000", "#405060").unwrap(), "#405060");
    // 0x80 = 128: (128 * 255 + 127 * 0 + 127) / 255 = 128.
    assert_eq!(normalize_color("#ffffff80", "#000000").unwrap(), "#808080");
    assert_eq!(normalize_color("#3e576780", "#3e5767").unwrap(), "#3e5767");
}

#[test]
fn slug_of_theme_names() {
    assert_eq!(sanitize_name("Catppuccin Mocha"), "catppuccin_mocha");
    assert_eq!(sanitize_name("A-B.C:D/E\\F"), "a_b_c_d_e_f");
    assert_eq!(replace_separators("x y-z"), "x_y_z");
    assert_eq!(sanitize_name(""), "");
}

#[test]
fn scope_lookup_prefers_longest_key() {
    assert_eq!(get_vim_groups_for_scope("comment.documentation.rust"), Some(vec!["SpecialComment"]));
    assert_eq!(get_vim_groups_for_scope("comment.line.double-slash"), Some(vec!["Comment"]));
    assert_eq!(get_vim_groups_for_scope("constant.character.escape.c"), Some(vec!["SpecialChar"]));
    assert_eq!(get_vim_groups_for_scope("meta.embedded"), None);
}

#[test]
fn semantic_lookup_is_exact() {
    assert_eq!(get_vim_groups_for_semantic_token("enumMember"), Some(vec!["Constant"]));
    assert_eq!(get_vim_groups_for_semantic_token("enum"), Some(vec!["Type"]));
    assert_eq!(get_vim_groups_for_semantic_token("enumMembers"), None);
}
