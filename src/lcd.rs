//! ST7789V LCD controller: the stream of commands and data that each
//! high-level operation sends. The caller performs the transfers on the SPI
//! bus, in order.
use vstd::prelude::*;

verus! {

pub const SPI_SLAVE_SELECT: u32 = 3;
pub const DCX_GPIONUM: u8 = 2;
pub const RST_GPIONUM: u8 = 3;

pub const LCD_X_MAX: u16 = 320;
pub const LCD_Y_MAX: u16 = 240;

pub const DIR_XY_MASK: u8 = 0x20;
pub const DIR_MASK: u8 = 0xE0;

/// Commands of the controller.
#[allow(non_camel_case_types)]
#[derive(Copy, Clone, Debug, PartialEq, Eq, Structural)]
pub enum command {
    NO_OPERATION,
    SOFTWARE_RESET,
    READ_ID,
    READ_STATUS,
    READ_POWER_MODE,
    READ_MADCTL,
    READ_PIXEL_FORMAT,
    READ_IMAGE_FORMAT,
    READ_SIGNAL_MODE,
    READ_SELT_DIAG_RESULT,
    SLEEP_ON,
    SLEEP_OFF,
    PARTIAL_DISPLAY_ON,
    NORMAL_DISPLAY_ON,
    INVERSION_DISPLAY_OFF,
    INVERSION_DISPLAY_ON,
    GAMMA_SET,
    DISPLAY_OFF,
    DISPLAY_ON,
    HORIZONTAL_ADDRESS_SET,
    VERTICAL_ADDRESS_SET,
    MEMORY_WRITE,
    COLOR_SET,
    MEMORY_READ,
    PARTIAL_AREA,
    VERTICAL_SCROLL_DEFINE,
    TEAR_EFFECT_LINE_OFF,
    TEAR_EFFECT_LINE_ON,
    MEMORY_ACCESS_CTL,
    VERTICAL_SCROLL_S_ADD,
    IDLE_MODE_OFF,
    IDLE_MODE_ON,
    PIXEL_FORMAT_SET,
    WRITE_MEMORY_CONTINUE,
    READ_MEMORY_CONTINUE,
    SET_TEAR_SCANLINE,
    GET_SCANLINE,
    WRITE_BRIGHTNESS,
    READ_BRIGHTNESS,
    WRITE_CTRL_DISPLAY,
    READ_CTRL_DISPLAY,
    WRITE_BRIGHTNESS_CTL,
    READ_BRIGHTNESS_CTL,
    WRITE_MIN_BRIGHTNESS,
    READ_MIN_BRIGHTNESS,
    READ_ID1,
    READ_ID2,
    READ_ID3,
    RGB_IF_SIGNAL_CTL,
    NORMAL_FRAME_CTL,
    IDLE_FRAME_CTL,
    PARTIAL_FRAME_CTL,
    INVERSION_CTL,
    BLANK_PORCH_CTL,
    DISPLAY_FUNCTION_CTL,
    ENTRY_MODE_SET,
    BACKLIGHT_CTL1,
    BACKLIGHT_CTL2,
    BACKLIGHT_CTL3,
    BACKLIGHT_CTL4,
    BACKLIGHT_CTL5,
    BACKLIGHT_CTL7,
    BACKLIGHT_CTL8,
    POWER_CTL1,
    POWER_CTL2,
    VCOM_CTL1,
    VCOM_CTL2,
    NV_MEMORY_WRITE,
    NV_MEMORY_PROTECT_KEY,
    NV_MEMORY_STATUS_READ,
    READ_ID4,
    POSITIVE_GAMMA_CORRECT,
    NEGATIVE_GAMMA_CORRECT,
    DIGITAL_GAMMA_CTL1,
    DIGITAL_GAMMA_CTL2,
    INTERFACE_CTL,
}

pub open spec fn command_code(c: command) -> u8 {
    match c {
        command::NO_OPERATION => 0x00,
        command::SOFTWARE_RESET => 0x01,
        command::READ_ID => 0x04,
        command::READ_STATUS => 0x09,
        command::READ_POWER_MODE => 0x0A,
        command::READ_MADCTL => 0x0B,
        command::READ_PIXEL_FORMAT => 0x0C,
        command::READ_IMAGE_FORMAT => 0x0D,
        command::READ_SIGNAL_MODE => 0x0E,
        command::READ_SELT_DIAG_RESULT => 0x0F,
        command::SLEEP_ON => 0x10,
        command::SLEEP_OFF => 0x11,
        command::PARTIAL_DISPLAY_ON => 0x12,
        command::NORMAL_DISPLAY_ON => 0x13,
        command::INVERSION_DISPLAY_OFF => 0x20,
        command::INVERSION_DISPLAY_ON => 0x21,
        command::GAMMA_SET => 0x26,
        command::DISPLAY_OFF => 0x28,
        command::DISPLAY_ON => 0x29,
        command::HORIZONTAL_ADDRESS_SET => 0x2A,
        command::VERTICAL_ADDRESS_SET => 0x2B,
        command::MEMORY_WRITE => 0x2C,
        command::COLOR_SET => 0x2D,
        command::MEMORY_READ => 0x2E,
        command::PARTIAL_AREA => 0x30,
        command::VERTICAL_SCROLL_DEFINE => 0x33,
        command::TEAR_EFFECT_LINE_OFF => 0x34,
        command::TEAR_EFFECT_LINE_ON => 0x35,
        command::MEMORY_ACCESS_CTL => 0x36,
        command::VERTICAL_SCROLL_S_ADD => 0x37,
        command::IDLE_MODE_OFF => 0x38,
        command::IDLE_MODE_ON => 0x39,
        command::PIXEL_FORMAT_SET => 0x3A,
        command::WRITE_MEMORY_CONTINUE => 0x3C,
        command::READ_MEMORY_CONTINUE => 0x3E,
        command::SET_TEAR_SCANLINE => 0x44,
        command::GET_SCANLINE => 0x45,
        command::WRITE_BRIGHTNESS => 0x51,
        command::READ_BRIGHTNESS => 0x52,
        command::WRITE_CTRL_DISPLAY => 0x53,
        command::READ_CTRL_DISPLAY => 0x54,
        command::WRITE_BRIGHTNESS_CTL => 0x55,
        command::READ_BRIGHTNESS_CTL => 0x56,
        command::WRITE_MIN_BRIGHTNESS => 0x5E,
        command::READ_MIN_BRIGHTNESS => 0x5F,
        command::READ_ID1 => 0xDA,
        command::READ_ID2 => 0xDB,
        command::READ_ID3 => 0xDC,
        command::RGB_IF_SIGNAL_CTL => 0xB0,
        command::NORMAL_FRAME_CTL => 0xB1,
        command::IDLE_FRAME_CTL => 0xB2,
        command::PARTIAL_FRAME_CTL => 0xB3,
        command::INVERSION_CTL => 0xB4,
        command::BLANK_PORCH_CTL => 0xB5,
        command::DISPLAY_FUNCTION_CTL => 0xB6,
        command::ENTRY_MODE_SET => 0xB7,
        command::BACKLIGHT_CTL1 => 0xB8,
        command::BACKLIGHT_CTL2 => 0xB9,
        command::BACKLIGHT_CTL3 => 0xBA,
        command::BACKLIGHT_CTL4 => 0xBB,
        command::BACKLIGHT_CTL5 => 0xBC,
        command::BACKLIGHT_CTL7 => 0xBE,
        command::BACKLIGHT_CTL8 => 0xBF,
        command::POWER_CTL1 => 0xC0,
        command::POWER_CTL2 => 0xC1,
        command::VCOM_CTL1 => 0xC5,
        command::VCOM_CTL2 => 0xC7,
        command::NV_MEMORY_WRITE => 0xD0,
        command::NV_MEMORY_PROTECT_KEY => 0xD1,
        command::NV_MEMORY_STATUS_READ => 0xD2,
        command::READ_ID4 => 0xD3,
        command::POSITIVE_GAMMA_CORRECT => 0xE0,
        command::NEGATIVE_GAMMA_CORRECT => 0xE1,
        command::DIGITAL_GAMMA_CTL1 => 0xE2,
        command::DIGITAL_GAMMA_CTL2 => 0xE3,
        command::INTERFACE_CTL => 0xF6,
    }
}

impl command {
    /// The byte that this value is sent as.
    pub fn code(self) -> (r: u8)
        ensures
            r == command_code(self),
    {
        match self {
            command::NO_OPERATION => 0x00,
            command::SOFTWARE_RESET => 0x01,
            command::READ_ID => 0x04,
            command::READ_STATUS => 0x09,
            command::READ_POWER_MODE => 0x0A,
            command::READ_MADCTL => 0x0B,
            command::READ_PIXEL_FORMAT => 0x0C,
            command::READ_IMAGE_FORMAT => 0x0D,
            command::READ_SIGNAL_MODE => 0x0E,
            command::READ_SELT_DIAG_RESULT => 0x0F,
            command::SLEEP_ON => 0x10,
            command::SLEEP_OFF => 0x11,
            command::PARTIAL_DISPLAY_ON => 0x12,
            command::NORMAL_DISPLAY_ON => 0x13,
            command::INVERSION_DISPLAY_OFF => 0x20,
            command::INVERSION_DISPLAY_ON => 0x21,
            command::GAMMA_SET => 0x26,
            command::DISPLAY_OFF => 0x28,
            command::DISPLAY_ON => 0x29,
            command::HORIZONTAL_ADDRESS_SET => 0x2A,
            command::VERTICAL_ADDRESS_SET => 0x2B,
            command::MEMORY_WRITE => 0x2C,
            command::COLOR_SET => 0x2D,
            command::MEMORY_READ => 0x2E,
            command::PARTIAL_AREA => 0x30,
            command::VERTICAL_SCROLL_DEFINE => 0x33,
            command::TEAR_EFFECT_LINE_OFF => 0x34,
            command::TEAR_EFFECT_LINE_ON => 0x35,
            command::MEMORY_ACCESS_CTL => 0x36,
            command::VERTICAL_SCROLL_S_ADD => 0x37,
            command::IDLE_MODE_OFF => 0x38,
            command::IDLE_MODE_ON => 0x39,
            command::PIXEL_FORMAT_SET => 0x3A,
            command::WRITE_MEMORY_CONTINUE => 0x3C,
            command::READ_MEMORY_CONTINUE => 0x3E,
            command::SET_TEAR_SCANLINE => 0x44,
            command::GET_SCANLINE => 0x45,
            command::WRITE_BRIGHTNESS => 0x51,
            command::READ_BRIGHTNESS => 0x52,
            command::WRITE_CTRL_DISPLAY => 0x53,
            command::READ_CTRL_DISPLAY => 0x54,
            command::WRITE_BRIGHTNESS_CTL => 0x55,
            command::READ_BRIGHTNESS_CTL => 0x56,
            command::WRITE_MIN_BRIGHTNESS => 0x5E,
            command::READ_MIN_BRIGHTNESS => 0x5F,
            command::READ_ID1 => 0xDA,
            command::READ_ID2 => 0xDB,
            command::READ_ID3 => 0xDC,
            command::RGB_IF_SIGNAL_CTL => 0xB0,
            command::NORMAL_FRAME_CTL => 0xB1,
            command::IDLE_FRAME_CTL => 0xB2,
            command::PARTIAL_FRAME_CTL => 0xB3,
            command::INVERSION_CTL => 0xB4,
            command::BLANK_PORCH_CTL => 0xB5,
            command::DISPLAY_FUNCTION_CTL => 0xB6,
            command::ENTRY_MODE_SET => 0xB7,
            command::BACKLIGHT_CTL1 => 0xB8,
            command::BACKLIGHT_CTL2 => 0xB9,
            command::BACKLIGHT_CTL3 => 0xBA,
            command::BACKLIGHT_CTL4 => 0xBB,
            command::BACKLIGHT_CTL5 => 0xBC,
            command::BACKLIGHT_CTL7 => 0xBE,
            command::BACKLIGHT_CTL8 => 0xBF,
            command::POWER_CTL1 => 0xC0,
            command::POWER_CTL2 => 0xC1,
            command::VCOM_CTL1 => 0xC5,
            command::VCOM_CTL2 => 0xC7,
            command::NV_MEMORY_WRITE => 0xD0,
            command::NV_MEMORY_PROTECT_KEY => 0xD1,
            command::NV_MEMORY_STATUS_READ => 0xD2,
            command::READ_ID4 => 0xD3,
            command::POSITIVE_GAMMA_CORRECT => 0xE0,
            command::NEGATIVE_GAMMA_CORRECT => 0xE1,
            command::DIGITAL_GAMMA_CTL1 => 0xE2,
            command::DIGITAL_GAMMA_CTL2 => 0xE3,
            command::INTERFACE_CTL => 0xF6,
        }
    }
}

/// Memory access orders: row/column exchange and the two scan directions.
#[allow(non_camel_case_types)]
#[derive(Copy, Clone, Debug, PartialEq, Eq, Structural)]
pub enum direction {
    XY_RLUD,
    YX_RLUD,
    XY_LRUD,
    YX_LRUD,
    XY_RLDU,
    YX_RLDU,
    XY_LRDU,
    YX_LRDU,
}

pub open spec fn direction_code(c: direction) -> u8 {
    match c {
        direction::XY_RLUD => 0x00,
        direction::YX_RLUD => 0x20,
        direction::XY_LRUD => 0x40,
        direction::YX_LRUD => 0x60,
        direction::XY_RLDU => 0x80,
        direction::YX_RLDU => 0xA0,
        direction::XY_LRDU => 0xC0,
        direction::YX_LRDU => 0xE0,
    }
}

impl direction {
    /// The byte that this value is sent as.
    pub fn code(self) -> (r: u8)
        ensures
            r == direction_code(self),
    {
        match self {
            direction::XY_RLUD => 0x00,
            direction::YX_RLUD => 0x20,
            direction::XY_LRUD => 0x40,
            direction::YX_LRUD => 0x60,
            direction::XY_RLDU => 0x80,
            direction::YX_RLDU => 0xA0,
            direction::XY_LRDU => 0xC0,
            direction::YX_LRDU => 0xE0,
        }
    }
}

/// One transfer to the controller.
#[derive(Debug, Clone, PartialEq, Eq)]
pub enum Transfer {
    /// Reset the controller and set up the bus.
    HardInit,
    /// A command byte, sent with the data/command line low.
    Command(command),
    /// Data bytes.
    Bytes(Vec<u8>),
    /// Data words of 32 bits.
    Words(Vec<u32>),
    /// One 32-bit word sent the given number of times.
    Fill(u32, usize),
    /// A pause of the given number of microseconds.
    Delay(u32),
}

/// What a transfer sends, over plain values.
pub enum Op {
    HardInit,
    Command(command),
    Bytes(Seq<u8>),
    Words(Seq<u32>),
    Fill(u32, nat),
    Delay(u32),
}

impl View for Transfer {
    type V = Op;

    open spec fn view(&self) -> Op {
        match self {
            Transfer::HardInit => Op::HardInit,
            Transfer::Command(c) => Op::Command(*c),
            Transfer::Bytes(b) => Op::Bytes(b@),
            Transfer::Words(w) => Op::Words(w@),
            Transfer::Fill(d, n) => Op::Fill(*d, *n as nat),
            Transfer::Delay(us) => Op::Delay(*us),
        }
    }
}

/// The operations of a list of transfers.
pub open spec fn ops(v: Seq<Transfer>) -> Seq<Op> {
    v.map_values(|t: Transfer| t@)
}

pub open spec fn set_direction_ops(dir: direction) -> Seq<Op> {
    seq![Op::Command(command::MEMORY_ACCESS_CTL), Op::Bytes(seq![direction_code(dir)])]
}

/// A 16-bit value as two bytes, the high one first.
pub open spec fn be16(v: u16) -> Seq<u8> {
    seq![(v / 256) as u8, (v % 256) as u8]
}

pub open spec fn set_area_ops(x1: u16, y1: u16, x2: u16, y2: u16) -> Seq<Op> {
    seq![
        Op::Command(command::HORIZONTAL_ADDRESS_SET),
        Op::Bytes(be16(x1) + be16(x2)),
        Op::Command(command::VERTICAL_ADDRESS_SET),
        Op::Bytes(be16(y1) + be16(y2)),
        Op::Command(command::MEMORY_WRITE),
    ]
}

proof fn lemma_ops_push(v: Seq<Transfer>, t: Transfer)
    ensures
        ops(v.push(t)) == ops(v).push(t@),
{
    assert(ops(v.push(t)) =~= ops(v).push(t@));
}

fn push(v: &mut Vec<Transfer>, t: Transfer)
    ensures
        ops(final(v)@) == ops(old(v)@).push(t@),
{
    proof {
        lemma_ops_push(old(v)@, t);
    }
    v.push(t);
}

fn one_byte(b: u8) -> (r: Vec<u8>)
    ensures
        r@ == seq![b],
{
    let mut r: Vec<u8> = Vec::new();
    r.push(b);
    assert(r@ =~= seq![b]);
    r
}

/// Powers the controller up: reset, wake from sleep, 16-bit pixels, the
/// default memory access order, display on.
pub fn init() -> (r: Vec<Transfer>)
    ensures
        ops(r@) == seq![
            Op::HardInit,
            Op::Command(command::SOFTWARE_RESET),
            Op::Delay(100000),
            Op::Command(command::SLEEP_OFF),
            Op::Delay(100000),
            Op::Command(command::PIXEL_FORMAT_SET),
            Op::Bytes(seq![0x55u8]),
        ] + set_direction_ops(direction::XY_LRUD) + seq![Op::Command(command::DISPLAY_ON)],
{
    let mut r: Vec<Transfer> = Vec::new();
    assert(ops(r@) =~= Seq::<Op>::empty());
    push(&mut r, Transfer::HardInit);
    push(&mut r, Transfer::Command(command::SOFTWARE_RESET));
    push(&mut r, Transfer::Delay(100000));
    push(&mut r, Transfer::Command(command::SLEEP_OFF));
    push(&mut r, Transfer::Delay(100000));
    push(&mut r, Transfer::Command(command::PIXEL_FORMAT_SET));
    push(&mut r, Transfer::Bytes(one_byte(0x55)));
    push(&mut r, Transfer::Command(command::MEMORY_ACCESS_CTL));
    push(&mut r, Transfer::Bytes(one_byte(direction::XY_LRUD.code())));
    push(&mut r, Transfer::Command(command::DISPLAY_ON));
    assert(ops(r@) =~= seq![
        Op::HardInit,
        Op::Command(command::SOFTWARE_RESET),
        Op::Delay(100000),
        Op::Command(command::SLEEP_OFF),
        Op::Delay(100000),
        Op::Command(command::PIXEL_FORMAT_SET),
        Op::Bytes(seq![0x55u8]),
    ] + set_direction_ops(direction::XY_LRUD) + seq![Op::Command(command::DISPLAY_ON)]);
    r
}

/// Sets the memory access order.
pub fn set_direction(dir: direction) -> (r: Vec<Transfer>)
    ensures
        ops(r@) == set_direction_ops(dir),
{
    let mut r: Vec<Transfer> = Vec::new();
    assert(ops(r@) =~= Seq::<Op>::empty());
    push(&mut r, Transfer::Command(command::MEMORY_ACCESS_CTL));
    push(&mut r, Transfer::Bytes(one_byte(dir.code())));
    assert(ops(r@) =~= set_direction_ops(dir));
    r
}

fn area_bytes(a: u16, b: u16) -> (r: Vec<u8>)
    ensures
        r@ == be16(a) + be16(b),
{
    let mut r: Vec<u8> = Vec::new();
    r.push((a / 256) as u8);
    r.push((a % 256) as u8);
    r.push((b / 256) as u8);
    r.push((b % 256) as u8);
    assert(r@ =~= be16(a) + be16(b));
    r
}

/// Selects the window `x1..=x2` by `y1..=y2` and starts a memory write
/// into it.
pub fn set_area(x1: u16, y1: u16, x2: u16, y2: u16) -> (r: Vec<Transfer>)
    ensures
        ops(r@) == set_area_ops(x1, y1, x2, y2),
{
    let mut r: Vec<Transfer> = Vec::new();
    assert(ops(r@) =~= Seq::<Op>::empty());
    push(&mut r, Transfer::Command(command::HORIZONTAL_ADDRESS_SET));
    push(&mut r, Transfer::Bytes(area_bytes(x1, x2)));
    push(&mut r, Transfer::Command(command::VERTICAL_ADDRESS_SET));
    push(&mut r, Transfer::Bytes(area_bytes(y1, y2)));
    push(&mut r, Transfer::Command(command::MEMORY_WRITE));
    assert(ops(r@) =~= set_area_ops(x1, y1, x2, y2));
    r
}

/// Fills the whole screen with one 16-bit color, two pixels per word.
pub fn clear(color: u16) -> (r: Vec<Transfer>)
    ensures
        ops(r@) == set_area_ops(0, 0, (LCD_X_MAX - 1) as u16, (LCD_Y_MAX - 1) as u16).push(
            Op::Fill(
                (color as int * 0x10000 + color as int) as u32,
                (LCD_X_MAX as nat * LCD_Y_MAX as nat / 2) as nat,
            ),
        ),
{
    let c = color as u32;
    let data: u32 = (c << 16u32) | c;
    assert(data == c * 0x10000 + c) by (bit_vector)
        requires
            data == (c << 16u32) | c,
            c < 0x10000,
    ;
    let mut r = set_area(0, 0, LCD_X_MAX - 1, LCD_Y_MAX - 1);
    push(&mut r, Transfer::Fill(data, (LCD_X_MAX as usize) * (LCD_Y_MAX as usize) / 2));
    r
}

/// Draws a picture of `width` by `height` pixels, two pixels per word,
/// with its top left corner at `x1, y1`.
pub fn draw_picture(x1: u16, y1: u16, width: u16, height: u16, data: &[u32]) -> (r: Vec<
    Transfer,
>)
    requires
        1 <= width,
        1 <= height,
        x1 + width - 1 <= u16::MAX,
        y1 + height - 1 <= u16::MAX,
        data@.len() == width as int * height as int / 2,
    ensures
        ops(r@) == set_area_ops(
            x1,
            y1,
            (x1 + width - 1) as u16,
            (y1 + height - 1) as u16,
        ).push(Op::Words(data@)),
{
    let mut r = set_area(x1, y1, x1 + (width - 1), y1 + (height - 1));
    let mut words: Vec<u32> = Vec::new();
    let mut i: usize = 0;
    while i < data.len()
        invariant
            i <= data@.len(),
            words@ == data@.take(i as int),
        decreases data@.len() - i,
    {
        words.push(data[i]);
        i += 1;
        assert(words@ =~= data@.take(i as int));
    }
    assert(words@ =~= data@);
    push(&mut r, Transfer::Words(words));
    r
}

} // verus!
