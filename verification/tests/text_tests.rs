use zigzag::style::{
    color_bold, paint_blue, paint_bold, paint_cyan, paint_dimmed, paint_italic, paint_white, GREEN,
    WHITE,
};
use zigzag::text::{string_insert, string_push, string_remove};

#[test]
fn owo_styles_write_exact_sequences() {
    assert_eq!(paint_bold("x"), "\x1b[1mx\x1b[0m");
    assert_eq!(paint_dimmed("x"), "\x1b[2mx\x1b[0m");
    assert_eq!(paint_italic("x"), "\x1b[3mx\x1b[0m");
    assert_eq!(paint_blue("x"), "\x1b[34mx\x1b[39m");
    assert_eq!(paint_cyan("x"), "\x1b[36mx\x1b[39m");
    assert_eq!(paint_white("x"), "\x1b[37mx\x1b[39m");
}

#[test]
fn ansi_term_bold_fixed_colour() {
    assert_eq!(color_bold(WHITE, "Hi"), "\x1b[1;38;5;15mHi\x1b[0m");
    assert_eq!(color_bold(GREEN, "ok"), "\x1b[1;38;5;154mok\x1b[0m");
}

#[test]
fn string_edits_at_byte_offsets() {
    let mut s = String::from("aé");
    string_insert(&mut s, 1, 'x');
    assert_eq!(s, "axé");
    string_insert(&mut s, 4, 'z');
    assert_eq!(s, "axéz");
    assert_eq!(string_remove(&mut s, 2), 'é');
    assert_eq!(s, "axz");
    string_push(&mut s, '!');
    assert_eq!(s, "axz!");
}
