use k210_shared::lcd::{clear, command, direction, draw_picture, init, set_area, set_direction, Transfer};

#[test]
fn command_and_direction_codes() {
    assert_eq!(command::NO_OPERATION.code(), 0x00);
    assert_eq!(command::MEMORY_ACCESS_CTL.code(), 0x36);
    assert_eq!(command::INTERFACE_CTL.code(), 0xF6);
    assert_eq!(direction::XY_LRUD.code(), 0x40);
    assert_eq!(direction::YX_LRDU.code(), 0xE0);
}

#[test]
fn set_direction_sends_order() {
    assert_eq!(
        set_direction(direction::YX_RLUD),
        vec![Transfer::Command(command::MEMORY_ACCESS_CTL), Transfer::Bytes(vec![0x20])]
    );
}

#[test]
fn set_area_sends_big_endian_bounds() {
    assert_eq!(
        set_area(0x0102, 3, 0x013F, 0xEF),
        vec![
            Transfer::Command(command::HORIZONTAL_ADDRESS_SET),
            Transfer::Bytes(vec![0x01, 0x02, 0x01, 0x3F]),
            Transfer::Command(command::VERTICAL_ADDRESS_SET),
            Transfer::Bytes(vec![0x00, 0x03, 0x00, 0xEF]),
            Transfer::Command(command::MEMORY_WRITE),
        ]
    );
}

#[test]
fn clear_fills_screen_two_pixels_per_word() {
    let r = clear(0xF800);
    assert_eq!(r.len(), 6);
    assert_eq!(r[..5].to_vec(), set_area(0, 0, 319, 239));
    assert_eq!(r[5], Transfer::Fill(0xF800_F800, 38400));
}

#[test]
fn draw_picture_sends_area_then_words() {
    let data = [1u32, 2, 3];
    let r = draw_picture(10, 20, 3, 2, &data);
    let mut expected = set_area(10, 20, 12, 21);
    expected.push(Transfer::Words(vec![1, 2, 3]));
    assert_eq!(r, expected);
}

#[test]
fn draw_picture_at_the_edge() {
    let r = draw_picture(65535, 65535, 1, 1, &[]);
    let mut expected = set_area(65535, 65535, 65535, 65535);
    expected.push(Transfer::Words(vec![]));
    assert_eq!(r, expected);
}

#[test]
fn init_sequence() {
    let r = init();
    assert_eq!(
        r,
        vec![
            Transfer::HardInit,
            Transfer::Command(command::SOFTWARE_RESET),
            Transfer::Delay(100000),
            Transfer::Command(command::SLEEP_OFF),
            Transfer::Delay(100000),
            Transfer::Command(command::PIXEL_FORMAT_SET),
            Transfer::Bytes(vec![0x55]),
            Transfer::Command(command::MEMORY_ACCESS_CTL),
            Transfer::Bytes(vec![0x40]),
            Transfer::Command(command::DISPLAY_ON),
        ]
    );
}
