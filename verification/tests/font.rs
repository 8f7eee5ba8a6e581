use chip8::hexfont::get_hex_font;

#[test]
fn length_makes_sense() {
    let font = get_hex_font();
    assert_eq!(font.len(), 16 * 5);
}

#[test]
fn characters_right_width() {
    // Make sure none of them are more than 4 'pixels' wide
    let font = get_hex_font();
    for i in 0..font.len() {
        assert!(font[i] <= 0xf0);
    }
}

#[test]
fn font_first_and_last_glyphs() {
    let font = get_hex_font();
    // glyph 0
    assert_eq!(&font[0..5], &[0xf0, 0x90, 0x90, 0x90, 0xf0]);
    // glyph F
    assert_eq!(&font[75..80], &[0xf0, 0x80, 0xf0, 0x80, 0x80]);
}
