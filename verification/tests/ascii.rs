use fsh::ascii::Cursor;

#[test]
fn test_cursor_get_esc_code() {
    let cursor = Cursor::Move(5);
    assert_eq!(cursor.get_esc_code(), "\x1b[5G");

    let cursor = Cursor::Backspace;
    assert_eq!(cursor.get_esc_code(), "\x08 ");

    let cursor = Cursor::Left;
    assert_eq!(cursor.get_esc_code(), "\x1b[1D");

    let cursor = Cursor::Right;
    assert_eq!(cursor.get_esc_code(), "\x1b[1C");

    let cursor = Cursor::ClearLine;
    assert_eq!(cursor.get_esc_code(), "\x1b[2K");
}

#[test]
fn cursor_moves_to_columns_of_several_digits() {
    assert_eq!(Cursor::Move(0).get_esc_code(), "\x1b[0G");
    assert_eq!(Cursor::Move(120).get_esc_code(), "\x1b[120G");
}
