//! NS2009 touch controller: raw sample decoding, position filtering,
//! calibration and touch-event synthesis.
//!
//! The bus transactions stay with the caller: each step takes the readings
//! that the bus returned, so the logic holds for every outcome of the bus.
use vstd::prelude::*;
use crate::filters::{
    lemma_div_floor_bounds, lemma_mean_within, lemma_median_within, mean_of, median_of, slide,
    within, Mean, Median, MAX_WINDOW,
};

verus! {

/// Pressure readings above this bound count as contact.
pub const LOW_THRESHOLD: u16 = 80;

/// Pressure readings below this bound count as contact.
pub const HIGH_THRESHOLD: u16 = 2000;

/// Largest raw position sample that the filter takes in.
pub const RAW_MAX: i32 = 65535;

/// Default length of the median window.
pub const MEDIAN_WINDOW: usize = 3;

/// Default length of the mean window.
pub const MEAN_WINDOW: usize = 2;

/// Conversion commands of the controller.
#[allow(non_camel_case_types)]
#[derive(Copy, Clone)]
pub enum command {
    LOW_POWER_READ_X,
    LOW_POWER_READ_Y,
    LOW_POWER_READ_Z1,
    LOW_POWER_READ_Z2,
}

pub open spec fn command_code(c: command) -> u8 {
    match c {
        command::LOW_POWER_READ_X => 0xc0,
        command::LOW_POWER_READ_Y => 0xd0,
        command::LOW_POWER_READ_Z1 => 0xe0,
        command::LOW_POWER_READ_Z2 => 0xf0,
    }
}

impl command {
    /// The byte that requests this conversion on the bus.
    pub fn code(self) -> (r: u8)
        ensures
            r == command_code(self),
    {
        match self {
            command::LOW_POWER_READ_X => 0xc0,
            command::LOW_POWER_READ_Y => 0xd0,
            command::LOW_POWER_READ_Z1 => 0xe0,
            command::LOW_POWER_READ_Z2 => 0xf0,
        }
    }
}

/// Turns the two bytes that the controller answers with into a 12-bit
/// sample: the first byte holds the high eight bits, the high nibble of the
/// second the low four. A failed transaction stays a failure.
pub fn read(reply: Result<[u8; 2], ()>) -> (r: Result<u16, ()>)
    ensures
        match reply {
            Ok(b) => r == Ok::<u16, ()>((b@[0] as int * 16 + b@[1] as int / 16) as u16),
            Err(_) => r == Err::<u16, ()>(()),
        },
        r matches Ok(v) ==> v < 4096,
{
    match reply {
        Ok(buf) => {
            let hi = buf[0] as u16;
            let lo = buf[1] as u16;
            let v: u16 = (hi << 4u16) | (lo >> 4u16);
            assert(v == hi * 16 + lo / 16 && v < 4096) by (bit_vector)
                requires
                    v == (hi << 4u16) | (lo >> 4u16),
                    hi < 256,
                    lo < 256,
            ;
            Ok(v)
        },
        Err(_) => Err(()),
    }
}

/// Whether a pressure reading counts as contact.
pub open spec fn contact(z: u16) -> bool {
    LOW_THRESHOLD < z < HIGH_THRESHOLD
}

/// Whether a pressure reading counts as contact: the caller reads the
/// position channels only then.
pub fn is_contact(z: u16) -> (r: bool)
    ensures
        r == contact(z),
{
    LOW_THRESHOLD < z && z < HIGH_THRESHOLD
}

pub open spec fn min0(v: int) -> int {
    if v < 0 {
        v
    } else {
        0
    }
}

pub open spec fn max0(v: int) -> int {
    if v > 0 {
        v
    } else {
        0
    }
}

/// One output axis `(c + a*tx + b*ty)` stays strictly inside `i32` for
/// all filtered samples `tx, ty` in `0..=RAW_MAX`.
pub open spec fn axis_fits(a: int, b: int, c: int) -> bool {
    i32::MIN < c + min0(a * RAW_MAX) + min0(b * RAW_MAX) && c + max0(a * RAW_MAX) + max0(
        b * RAW_MAX,
    ) <= i32::MAX
}

/// A calibration matrix `[a, b, c, d, e, f, g]` is usable when `g` is not
/// zero and neither axis overflows.
pub open spec fn valid_calibration(cal: Seq<i32>) -> bool {
    &&& cal.len() == 7
    &&& cal[6] != 0
    &&& axis_fits(cal[0] as int, cal[1] as int, cal[2] as int)
    &&& axis_fits(cal[3] as int, cal[4] as int, cal[5] as int)
}

/// The calibration transform: `x = (c + a*tx + b*ty) / g`,
/// `y = (f + d*tx + e*ty) / g`, each quotient truncated toward zero.
pub open spec fn calibrate_spec(cal: Seq<i32>, tx: int, ty: int) -> (int, int) {
    (
        crate::filters::div_trunc(cal[2] + cal[0] * tx + cal[1] * ty, cal[6] as int),
        crate::filters::div_trunc(cal[5] + cal[3] * tx + cal[4] * ty, cal[6] as int),
    )
}

proof fn lemma_scaled_bounds(a: int, t: int)
    requires
        0 <= t <= RAW_MAX,
    ensures
        min0(a * RAW_MAX) <= a * t <= max0(a * RAW_MAX),
{
    if a >= 0 {
        assert(0 <= a * t <= a * RAW_MAX) by (nonlinear_arith)
            requires a >= 0, 0 <= t <= RAW_MAX;
    } else {
        assert(a * RAW_MAX <= a * t <= 0) by (nonlinear_arith)
            requires a < 0, 0 <= t <= RAW_MAX;
    }
}

proof fn lemma_div_trunc_shrinks(n: int, d: int)
    requires
        d != 0,
    ensures
        -n <= crate::filters::div_trunc(n, d) <= n || n <= crate::filters::div_trunc(n, d) <= -n,
{
    let an = if n >= 0 { n } else { -n };
    let ad = if d >= 0 { d } else { -d };
    assert(ad * 0 <= an <= ad * an) by (nonlinear_arith)
        requires an >= 0, ad >= 1;
    lemma_div_floor_bounds(an, ad, 0, an);
}

/// Quotient of `n` by `d`, truncated toward zero.
fn div_trunc_i64(n: i64, d: i64) -> (r: i64)
    requires
        d != 0,
        n > i64::MIN,
        d > i64::MIN,
    ensures
        r == crate::filters::div_trunc(n as int, d as int),
{
    let an: u64 = if n >= 0 {
        n as u64
    } else {
        (-n) as u64
    };
    let ad: u64 = if d >= 0 {
        d as u64
    } else {
        (-d) as u64
    };
    let q: u64 = an / ad;
    proof {
        assert(ad * 0 <= an <= ad * an) by (nonlinear_arith)
            requires an >= 0, ad >= 1;
        lemma_div_floor_bounds(an as int, ad as int, 0, an as int);
    }
    if (n >= 0) == (d > 0) {
        q as i64
    } else {
        -(q as i64)
    }
}

proof fn lemma_product_bound(a: int, t: int)
    requires
        i32::MIN <= a <= i32::MAX,
        0 <= t <= RAW_MAX,
    ensures
        -0x8000_0000_0000 <= a * t <= 0x8000_0000_0000,
{
    assert(-0x8000_0000_0000 <= a * t <= 0x8000_0000_0000) by (nonlinear_arith)
        requires
            i32::MIN <= a <= i32::MAX,
            0 <= t <= RAW_MAX,
    ;
}

/// Whether a calibration matrix is usable: see `valid_calibration`.
pub fn calibration_is_valid(cal: &[i32; 7]) -> (r: bool)
    ensures
        r == valid_calibration(cal@),
{
    if cal[6] == 0 {
        return false;
    }
    axis_fits_exec(cal[0], cal[1], cal[2]) && axis_fits_exec(cal[3], cal[4], cal[5])
}

fn axis_fits_exec(a: i32, b: i32, c: i32) -> (r: bool)
    ensures
        r == axis_fits(a as int, b as int, c as int),
{
    proof {
        lemma_product_bound(a as int, RAW_MAX as int);
        lemma_product_bound(b as int, RAW_MAX as int);
    }
    let am = a as i64 * RAW_MAX as i64;
    let bm = b as i64 * RAW_MAX as i64;
    let lo = c as i64 + (if am < 0 { am } else { 0 }) + (if bm < 0 { bm } else { 0 });
    let hi = c as i64 + (if am > 0 { am } else { 0 }) + (if bm > 0 { bm } else { 0 });
    (i32::MIN as i64) < lo && hi <= i32::MAX as i64
}

/// Applies the calibration matrix to a filtered position.
pub fn calibrate(cal: &[i32; 7], tx: i32, ty: i32) -> (r: (i32, i32))
    requires
        valid_calibration(cal@),
        0 <= tx <= RAW_MAX,
        0 <= ty <= RAW_MAX,
    ensures
        (r.0 as int, r.1 as int) == calibrate_spec(cal@, tx as int, ty as int),
{
    proof {
        lemma_product_bound(cal@[0] as int, tx as int);
        lemma_product_bound(cal@[1] as int, ty as int);
        lemma_product_bound(cal@[3] as int, tx as int);
        lemma_product_bound(cal@[4] as int, ty as int);
        lemma_scaled_bounds(cal@[0] as int, tx as int);
        lemma_scaled_bounds(cal@[1] as int, ty as int);
        lemma_scaled_bounds(cal@[3] as int, tx as int);
        lemma_scaled_bounds(cal@[4] as int, ty as int);
    }
    let nx: i64 = cal[2] as i64 + cal[0] as i64 * tx as i64 + cal[1] as i64 * ty as i64;
    let ny: i64 = cal[5] as i64 + cal[3] as i64 * tx as i64 + cal[4] as i64 * ty as i64;
    let g = cal[6] as i64;
    let qx = div_trunc_i64(nx, g);
    let qy = div_trunc_i64(ny, g);
    proof {
        lemma_div_trunc_shrinks(nx as int, g as int);
        lemma_div_trunc_shrinks(ny as int, g as int);
    }
    (qx as i32, qy as i32)
}

/// What a position filter holds: the four windows, their lengths and the
/// calibration matrix.
pub struct FilterModel {
    pub mx: Seq<i32>,
    pub my: Seq<i32>,
    pub nx: Seq<i32>,
    pub ny: Seq<i32>,
    pub median_len: nat,
    pub mean_len: nat,
    pub cal: Seq<i32>,
}

impl FilterModel {
    /// A filter with empty windows.
    pub open spec fn fresh(cal: Seq<i32>, median_len: nat, mean_len: nat) -> FilterModel {
        FilterModel {
            mx: Seq::empty(),
            my: Seq::empty(),
            nx: Seq::empty(),
            ny: Seq::empty(),
            median_len,
            mean_len,
            cal,
        }
    }

    /// The same filter with its history discarded.
    pub open spec fn cleared(self) -> FilterModel {
        FilterModel::fresh(self.cal, self.median_len, self.mean_len)
    }

    /// The filter after one raw sample per axis: each goes through its
    /// median window, and the median through the mean window.
    pub open spec fn advanced(self, x: u16, y: u16) -> FilterModel {
        let mx = slide(self.mx, x as i32, self.median_len);
        let my = slide(self.my, y as i32, self.median_len);
        FilterModel {
            mx,
            my,
            nx: slide(self.nx, median_of(mx), self.mean_len),
            ny: slide(self.ny, median_of(my), self.mean_len),
            ..self
        }
    }

    /// The calibrated position that the mean windows give.
    pub open spec fn position(self) -> (int, int) {
        calibrate_spec(self.cal, mean_of(self.nx), mean_of(self.ny))
    }

    pub open spec fn wf(self) -> bool {
        &&& 1 <= self.median_len <= MAX_WINDOW
        &&& 1 <= self.mean_len <= MAX_WINDOW
        &&& self.mx.len() <= self.median_len
        &&& self.my.len() <= self.median_len
        &&& self.nx.len() <= self.mean_len
        &&& self.ny.len() <= self.mean_len
        &&& within(self.mx, 0, RAW_MAX as int)
        &&& within(self.my, 0, RAW_MAX as int)
        &&& within(self.nx, 0, RAW_MAX as int)
        &&& within(self.ny, 0, RAW_MAX as int)
        &&& valid_calibration(self.cal)
    }
}

proof fn lemma_slide_within(w: Seq<i32>, v: i32, n: nat, lo: int, hi: int)
    requires
        within(w, lo, hi),
        lo <= v <= hi,
    ensures
        within(slide(w, v, n), lo, hi),
{
    let p = w.push(v);
    assert(within(p, lo, hi)) by {
        assert forall|i: int| 0 <= i < p.len() implies lo <= #[trigger] p[i] <= hi by {
            if i < w.len() {
                assert(p[i] == w[i]);
            }
        }
    }
    if p.len() > n {
        let d = p.drop_first();
        assert forall|i: int| 0 <= i < d.len() implies lo <= #[trigger] d[i] <= hi by {
            assert(d[i] == p[i + 1]);
        }
    }
}

/// Position filter: a median and a mean stage per axis, then calibration.
pub struct TSFilter {
    mx: Median,
    my: Median,
    nx: Mean,
    ny: Mean,
    cal: [i32; 7],
}

impl View for TSFilter {
    type V = FilterModel;

    closed spec fn view(&self) -> FilterModel {
        FilterModel {
            mx: self.mx.samples(),
            my: self.my.samples(),
            nx: self.nx.samples(),
            ny: self.ny.samples(),
            median_len: self.mx.capacity(),
            mean_len: self.nx.capacity(),
            cal: self.cal@,
        }
    }
}

impl TSFilter {
    pub closed spec fn wf(&self) -> bool {
        &&& self.mx.wf()
        &&& self.my.wf()
        &&& self.nx.wf()
        &&& self.ny.wf()
        &&& self.my.capacity() == self.mx.capacity()
        &&& self.ny.capacity() == self.nx.capacity()
        &&& self@.wf()
    }

    /// A filter with the default window lengths and the calibration matrix
    /// `cal`.
    pub fn new(cal: [i32; 7]) -> (r: TSFilter)
        requires
            valid_calibration(cal@),
        ensures
            r.wf(),
            r@ == FilterModel::fresh(cal@, MEDIAN_WINDOW as nat, MEAN_WINDOW as nat),
    {
        TSFilter::with_windows(cal, MEDIAN_WINDOW, MEAN_WINDOW)
    }

    /// A filter whose median window holds `median_len` samples and whose
    /// mean window holds `mean_len`.
    pub fn with_windows(cal: [i32; 7], median_len: usize, mean_len: usize) -> (r: TSFilter)
        requires
            valid_calibration(cal@),
            1 <= median_len <= MAX_WINDOW,
            1 <= mean_len <= MAX_WINDOW,
        ensures
            r.wf(),
            r@ == FilterModel::fresh(cal@, median_len as nat, mean_len as nat),
    {
        let r = TSFilter {
            mx: Median::new(median_len),
            my: Median::new(median_len),
            nx: Mean::new(mean_len),
            ny: Mean::new(mean_len),
            cal,
        };
        assert(r@ =~= FilterModel::fresh(cal@, median_len as nat, mean_len as nat));
        r
    }

    /// Takes in one raw sample per axis and returns the filtered, calibrated
    /// position.
    pub fn update(&mut self, x: u16, y: u16) -> (r: (i32, i32))
        requires
            old(self).wf(),
        ensures
            final(self).wf(),
            final(self)@ == old(self)@.advanced(x, y),
            (r.0 as int, r.1 as int) == final(self)@.position(),
    {
        let ghost m = self@;
        let tx = self.mx.update(x as i32);
        let ty = self.my.update(y as i32);
        proof {
            lemma_slide_within(m.mx, x as i32, m.median_len, 0, RAW_MAX as int);
            lemma_slide_within(m.my, y as i32, m.median_len, 0, RAW_MAX as int);
            lemma_median_within(self.mx.samples(), 0, RAW_MAX as int);
            lemma_median_within(self.my.samples(), 0, RAW_MAX as int);
        }
        let tx = self.nx.update(tx);
        let ty = self.ny.update(ty);
        proof {
            lemma_slide_within(m.nx, median_of(self.mx.samples()), m.mean_len, 0, RAW_MAX as int);
            lemma_slide_within(m.ny, median_of(self.my.samples()), m.mean_len, 0, RAW_MAX as int);
            lemma_mean_within(self.nx.samples(), 0, RAW_MAX as int);
            lemma_mean_within(self.ny.samples(), 0, RAW_MAX as int);
            assert(self@ =~= m.advanced(x, y));
        }
        calibrate(&self.cal, tx, ty)
    }

    /// Discards the history of all four windows; the calibration stays.
    pub fn clear(&mut self)
        requires
            old(self).wf(),
        ensures
            final(self).wf(),
            final(self)@ == old(self)@.cleared(),
    {
        self.mx.clear();
        self.my.clear();
        self.nx.clear();
        self.ny.clear();
        assert(self@ =~= old(self)@.cleared());
    }
}

/// Event kind.
#[derive(Debug, Copy, Clone, PartialEq, Eq, Structural)]
pub enum EventKind {
    Begin,
    Move,
    End,
}

/// Touch screen event.
#[derive(Debug, Copy, Clone, PartialEq, Eq, Structural)]
pub struct Event {
    pub kind: EventKind,
    pub x: i32,
    pub y: i32,
    pub z: i32,
}

/// What a touch screen holds: its filter, whether a touch is down, and the
/// last position reported.
pub struct TouchModel {
    pub filter: FilterModel,
    pub pressed: bool,
    pub x: i32,
    pub y: i32,
}

/// One poll, given the pressure reading `z1` and the position readings
/// `x`, `y` (looked at only on contact): the next state and the event.
pub open spec fn poll_step(
    m: TouchModel,
    z1: Result<u16, ()>,
    x: Result<u16, ()>,
    y: Result<u16, ()>,
) -> (TouchModel, Option<Event>) {
    match z1 {
        Err(_) => (m, None),
        Ok(z) => {
            if contact(z) {
                match (x, y) {
                    (Ok(rx), Ok(ry)) => {
                        let f = m.filter.advanced(rx, ry);
                        let px = f.position().0 as i32;
                        let py = f.position().1 as i32;
                        let ev = if !m.pressed {
                            Some(Event { kind: EventKind::Begin, x: px, y: py, z: z as i32 })
                        } else if m.x != px || m.y != py {
                            Some(Event { kind: EventKind::Move, x: px, y: py, z: z as i32 })
                        } else {
                            None
                        };
                        (TouchModel { filter: f, pressed: true, x: px, y: py }, ev)
                    },
                    _ => (m, None),
                }
            } else if m.pressed {
                (
                    TouchModel { filter: m.filter.cleared(), pressed: false, ..m },
                    Some(Event { kind: EventKind::End, x: m.x, y: m.y, z: 0 }),
                )
            } else {
                (m, None)
            }
        },
    }
}

/// High-level touch screen abstraction.
pub struct TouchScreen {
    filter: TSFilter,
    press: bool,
    x: i32,
    y: i32,
}

impl View for TouchScreen {
    type V = TouchModel;

    closed spec fn view(&self) -> TouchModel {
        TouchModel { filter: self.filter@, pressed: self.press, x: self.x, y: self.y }
    }
}

impl TouchScreen {
    pub closed spec fn wf(&self) -> bool {
        self.filter.wf()
    }

    /// A touch screen with the default filter windows, given the outcome of
    /// a test read of the pressure channel: `None` when the controller did
    /// not answer.
    pub fn init(cal: [i32; 7], probe: Result<u16, ()>) -> (r: Option<TouchScreen>)
        requires
            valid_calibration(cal@),
        ensures
            r.is_some() == probe.is_ok(),
            r matches Some(t) ==> t.wf() && t@ == (TouchModel {
                filter: FilterModel::fresh(cal@, MEDIAN_WINDOW as nat, MEAN_WINDOW as nat),
                pressed: false,
                x: 0,
                y: 0,
            }),
    {
        TouchScreen::init_with_windows(cal, MEDIAN_WINDOW, MEAN_WINDOW, probe)
    }

    /// As `init`, with the lengths of the median and mean windows given.
    pub fn init_with_windows(
        cal: [i32; 7],
        median_len: usize,
        mean_len: usize,
        probe: Result<u16, ()>,
    ) -> (r: Option<TouchScreen>)
        requires
            valid_calibration(cal@),
            1 <= median_len <= MAX_WINDOW,
            1 <= mean_len <= MAX_WINDOW,
        ensures
            r.is_some() == probe.is_ok(),
            r matches Some(t) ==> t.wf() && t@ == (TouchModel {
                filter: FilterModel::fresh(cal@, median_len as nat, mean_len as nat),
                pressed: false,
                x: 0,
                y: 0,
            }),
    {
        match probe {
            Ok(_) => Some(
                TouchScreen {
                    filter: TSFilter::with_windows(cal, median_len, mean_len),
                    press: false,
                    x: 0,
                    y: 0,
                },
            ),
            Err(_) => None,
        }
    }

    /// Whether a touch is down.
    pub fn pressed(&self) -> (r: bool)
        ensures
            r == self@.pressed,
    {
        self.press
    }

    /// One poll: takes the pressure reading and, where it counts as contact,
    /// the position readings, and returns the event it gives, if any.
    pub fn poll(&mut self, z1: Result<u16, ()>, x: Result<u16, ()>, y: Result<u16, ()>) -> (r:
        Option<Event>)
        requires
            old(self).wf(),
        ensures
            final(self).wf(),
            (final(self)@, r) == poll_step(old(self)@, z1, x, y),
    {
        let mut ev: Option<Event> = None;
        if let Ok(z1) = z1 {
            if is_contact(z1) {
                if let (Ok(x), Ok(y)) = (x, y) {
                    let (x, y) = self.filter.update(x, y);
                    if !self.press {
                        self.press = true;
                        ev = Some(Event { kind: EventKind::Begin, x, y, z: z1 as i32 });
                    } else if self.x != x || self.y != y {
                        ev = Some(Event { kind: EventKind::Move, x, y, z: z1 as i32 });
                    }
                    self.x = x;
                    self.y = y;
                }
            } else {
                if self.press {
                    self.filter.clear();
                    self.press = false;
                    ev = Some(Event { kind: EventKind::End, x: self.x, y: self.y, z: 0 });
                }
            }
        }
        ev
    }
}

} // verus!
