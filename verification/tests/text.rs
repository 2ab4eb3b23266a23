use vitrine::text;

#[test]
fn white_space_and_control_characters_agree_with_std() {
    for code in 0..=0x10ffffu32 {
        if let Some(c) = char::from_u32(code) {
            assert_eq!(text::is_white_space(c), c.is_whitespace());
            assert_eq!(text::is_control(c), c.is_control());
        }
    }
}
