use stm32_bindings_gen::normalize::{
    constant_item_name, normalize_bindings, replace, rewrite_all_lines, rewrite_constant_line,
    terminate, with_single_newline,
};
use stm32_bindings_gen::text::{chars_of, join, string_of};

#[test]
fn constant_line_is_upper_cased() {
    assert_eq!(
        rewrite_constant_line("public constant foo_bar: u32 = 1;"),
        "public constant FOO_BAR:u32 = 1;"
    );
}

#[test]
fn other_line_is_kept() {
    assert_eq!(rewrite_constant_line("let foo_bar = 1;"), "let foo_bar = 1;");
    assert_eq!(rewrite_constant_line("public constant no_colon = 1;"), "public constant no_colon = 1;");
    assert_eq!(rewrite_constant_line("  public constant a: u8 = 1;"), "  public constant a: u8 = 1;");
}

#[test]
fn constant_name_is_trimmed_and_split_at_first_colon() {
    assert_eq!(
        rewrite_constant_line("public constant  mac_x9 :: a: b"),
        "public constant MAC_X9:: a: b"
    );
}

#[test]
fn lines_are_rewritten_one_by_one() {
    let v = chars_of("public constant a: u8 = 1;\nlet b = 2;\npublic constant c_d:u16 = 3;\n");
    assert_eq!(
        rewrite_all_lines(&v),
        "public constant A:u8 = 1;\nlet b = 2;\npublic constant C_D:u16 = 3;"
    );
}

#[test]
fn final_newline_does_not_start_a_line() {
    assert_eq!(normalize_bindings("a\n".to_string()), "a");
    assert_eq!(normalize_bindings("a\n\n".to_string()), "a\n");
    assert_eq!(normalize_bindings("\n".to_string()), "");
    assert_eq!(normalize_bindings("".to_string()), "");
}

#[test]
fn carriage_return_before_newline_is_dropped() {
    assert_eq!(
        normalize_bindings("public constant x: u8 = 1;\r\nlet y = 2;\r\nz\r".to_string()),
        "public constant X:u8 = 1;\nlet y = 2;\nz\r"
    );
}

#[test]
fn std_paths_become_core_paths() {
    let out = normalize_bindings(
        "pub type c = ::std::os::raw::c_int;\npub x: ::std::option::Option<u8>,\npublic constant max_len: c = 4;"
            .to_string(),
    );
    assert_eq!(
        out,
        "pub type c = ::core::ffi::c_int;\npub x: ::core::option::Option<u8>,\npublic constant MAX_LEN:c = 4;"
    );
}

#[test]
fn replace_is_global_and_left_to_right() {
    let v = chars_of("aaa-aa");
    assert_eq!(string_of(&replace(&v, "aa", "b")), "ba-b");
    let w = chars_of("no match");
    assert_eq!(string_of(&replace(&w, "::std::", "::core::")), "no match");
}

#[test]
fn single_trailing_newline() {
    assert_eq!(with_single_newline("x\n\n\n"), "x\n");
    assert_eq!(with_single_newline("x"), "x\n");
    assert_eq!(with_single_newline(""), "\n");
    assert_eq!(terminate("x\n\n".to_string()), "x\n\n");
    assert_eq!(terminate("x".to_string()), "x\n");
}

#[test]
fn variables_are_renamed_in_upper_case() {
    assert_eq!(constant_item_name("mac_max_len", true), Some("MAC_MAX_LEN".to_string()));
    assert_eq!(constant_item_name("mac_status", false), None);
}

#[test]
fn paths_join_like_the_platform() {
    assert_eq!(join("/src", "inc"), "/src/inc");
    assert_eq!(join("/src/", "inc"), "/src/inc");
    assert_eq!(join("/src", "/abs/inc"), "/abs/inc");
    assert_eq!(join("", "inc"), "inc");
}
