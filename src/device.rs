//! Device kinds, their input layouts and the metadata the daemon keeps.
use vstd::prelude::*;
use vstd::string::StringSliceAdditionalSpecFns;

verus! {

/// Whether an input slot is a key, an endless knob or a touch panel.
#[derive(PartialEq, Eq, Structural, Clone, Copy, Debug, Hash)]
pub enum InputType {
    Button,
    EndlessKnob,
    XYPanel,
}

/// One addressable control: its place on the grid, its kind and, when it
/// shows images, its pixel resolution.
#[derive(Clone, Copy, Debug, PartialEq, Eq, Hash)]
pub struct Input {
    pub x: i32,
    pub y: i32,
    pub w: u32,
    pub h: u32,
    pub ty: InputType,
    pub resolution: Option<(u32, u32)>,
}

/// Unique data that tells a device apart from any other.
#[derive(Debug, Hash)]
pub struct DeviceIdentifier {
    /// Driver that defined the device.
    pub driver_name: String,
    /// Identifier of the device, such as its serial number.
    pub identifier: String,
    /// Short description, such as "Stream Deck Plus".
    pub description: String,
}

impl Clone for DeviceIdentifier {
    fn clone(&self) -> (r: Self)
        ensures
            r == *self,
    {
        DeviceIdentifier {
            driver_name: self.driver_name.clone(),
            identifier: self.identifier.clone(),
            description: self.description.clone(),
        }
    }
}

/// What the daemon knows of a device.
#[derive(Debug)]
pub struct DeviceMetadata {
    pub identifier: DeviceIdentifier,
    /// Input slots; key indices elsewhere are positions in this list.
    pub layout: Vec<Input>,
}

impl Clone for DeviceMetadata {
    fn clone(&self) -> (r: Self)
        ensures
            r.identifier == self.identifier,
            r.layout@ == self.layout@,
    {
        DeviceMetadata { identifier: self.identifier.clone(), layout: self.layout.clone() }
    }
}

/// The device kinds the driver supports.
#[derive(PartialEq, Eq, Structural, Clone, Copy, Debug, Hash)]
pub enum DeviceKind {
    Original,
    OriginalV2,
    Mini,
    Xl,
    XlV2,
    Mk2,
    MiniMk2,
    Pedal,
    Plus,
}

pub open spec fn description_of(k: DeviceKind) -> Seq<char> {
    match k {
        DeviceKind::Original => "Stream Deck Original"@,
        DeviceKind::OriginalV2 => "Stream Deck Original V2"@,
        DeviceKind::Mini => "Stream Deck Mini"@,
        DeviceKind::Xl => "Stream Deck XL"@,
        DeviceKind::XlV2 => "Stream Deck XL V2"@,
        DeviceKind::Mk2 => "Stream Deck MK2"@,
        DeviceKind::MiniMk2 => "Stream Deck MK2 Mini"@,
        DeviceKind::Pedal => "Stream Deck Pedal"@,
        DeviceKind::Plus => "Stream Deck Plus"@,
    }
}

/// The description shown for a kind.
pub fn kind_to_description(k: DeviceKind) -> (r: &'static str)
    ensures
        r@ == description_of(k),
{
    match k {
        DeviceKind::Original => "Stream Deck Original",
        DeviceKind::OriginalV2 => "Stream Deck Original V2",
        DeviceKind::Mini => "Stream Deck Mini",
        DeviceKind::Xl => "Stream Deck XL",
        DeviceKind::XlV2 => "Stream Deck XL V2",
        DeviceKind::Mk2 => "Stream Deck MK2",
        DeviceKind::MiniMk2 => "Stream Deck MK2 Mini",
        DeviceKind::Pedal => "Stream Deck Pedal",
        DeviceKind::Plus => "Stream Deck Plus",
    }
}

/// Whether two strings hold the same characters.
pub fn str_eq(a: &str, b: &str) -> (r: bool)
    ensures
        r == (a@ == b@),
{
    let x = a.as_bytes();
    let y = b.as_bytes();
    proof {
        vstd::utf8::encode_utf8_decode_utf8(a@);
        vstd::utf8::encode_utf8_decode_utf8(b@);
    }
    if x.len() != y.len() {
        return false;
    }
    let mut i: usize = 0;
    while i < x.len()
        invariant
            x@ == a.spec_bytes(),
            y@ == b.spec_bytes(),
            x@.len() == y@.len(),
            i <= x@.len(),
            forall|q: int| 0 <= q < i ==> x@[q] == y@[q],
        decreases x@.len() - i,
    {
        if x[i] != y[i] {
            assert(x@ != y@);
            return false;
        }
        i = i + 1;
    }
    assert(x@ =~= y@);
    true
}

/// The kind a description names, if any.
pub fn description_to_kind(desc: &str) -> (r: Option<DeviceKind>)
    ensures
        r is Some ==> description_of(r->0) == desc@,
        r is None ==> forall|k: DeviceKind| description_of(k) != desc@,
{
    if str_eq(desc, "Stream Deck Original") {
        Some(DeviceKind::Original)
    } else if str_eq(desc, "Stream Deck Original V2") {
        Some(DeviceKind::OriginalV2)
    } else if str_eq(desc, "Stream Deck Mini") {
        Some(DeviceKind::Mini)
    } else if str_eq(desc, "Stream Deck XL") {
        Some(DeviceKind::Xl)
    } else if str_eq(desc, "Stream Deck XL V2") {
        Some(DeviceKind::XlV2)
    } else if str_eq(desc, "Stream Deck MK2") {
        Some(DeviceKind::Mk2)
    } else if str_eq(desc, "Stream Deck MK2 Mini") {
        Some(DeviceKind::MiniMk2)
    } else if str_eq(desc, "Stream Deck Pedal") {
        Some(DeviceKind::Pedal)
    } else if str_eq(desc, "Stream Deck Plus") {
        Some(DeviceKind::Plus)
    } else {
        None
    }
}

/// The geometry the driver reports for a kind.
#[derive(Clone, Copy, Debug)]
pub struct KindGeometry {
    pub rows: u8,
    pub columns: u8,
    pub key_resolution: (u32, u32),
    pub lcd_size: Option<(u32, u32)>,
    pub encoders: u8,
}

/// A key at column `x` of row `y`.
pub open spec fn key_input(x: int, y: int, res: (u32, u32)) -> Input {
    Input { x: x as i32, y: y as i32, w: 1, h: 1, ty: InputType::Button, resolution: Some(res) }
}

/// A grid of `rows` by `columns` keys, row by row.
pub fn buttons_only(rows: u8, columns: u8, res: (u32, u32)) -> (r: Vec<Input>)
    ensures
        r@.len() == rows as int * columns as int,
        forall|x: int, y: int|
            0 <= x < columns && 0 <= y < rows ==> #[trigger] r@[y * columns + x] == key_input(x, y, res),
{
    let mut v: Vec<Input> = Vec::new();
    let mut y: u8 = 0;
    while y < rows
        invariant
            y <= rows,
            v@.len() == y as int * columns as int,
            forall|xx: int, yy: int|
                0 <= xx < columns && 0 <= yy < y ==> #[trigger] v@[yy * columns + xx] == key_input(xx, yy, res),
        decreases rows - y,
    {
        let mut x: u8 = 0;
        while x < columns
            invariant
                x <= columns,
                y < rows,
                v@.len() == y as int * columns as int + x,
                forall|xx: int, yy: int|
                    0 <= xx < columns && 0 <= yy < y ==> #[trigger] v@[yy * columns + xx] == key_input(xx, yy, res),
                forall|xx: int| 0 <= xx < x ==> #[trigger] v@[y * columns + xx] == key_input(xx, y as int, res),
            decreases columns - x,
        {
            let ghost before = v@;
            v.push(Input { x: x as i32, y: y as i32, w: 1, h: 1, ty: InputType::Button, resolution: Some(res) });
            proof {
                assert forall|xx: int, yy: int|
                    0 <= xx < columns && 0 <= yy < y implies #[trigger] v@[yy * columns + xx] == key_input(xx, yy, res) by {
                    assert(yy * columns + xx < y * columns) by (nonlinear_arith)
                        requires 0 <= xx < columns, 0 <= yy < y;
                    assert(v@[yy * columns + xx] == before[yy * columns + xx]);
                }
            }
            x = x + 1;
        }
        proof {
            assert((y as int + 1) * columns as int == y as int * columns as int + columns as int) by (nonlinear_arith);
        }
        y = y + 1;
    }
    v
}

/// A pedal input at position `i`: a key without an image.
pub open spec fn pedal_input(i: int) -> Input {
    Input { x: i as i32, y: 0, w: 1, h: 1, ty: InputType::Button, resolution: None }
}

/// A row of `columns` pedals.
pub fn pedal(columns: u8) -> (r: Vec<Input>)
    ensures
        r@.len() == columns,
        forall|i: int| 0 <= i < columns ==> #[trigger] r@[i] == pedal_input(i),
{
    let mut v: Vec<Input> = Vec::new();
    let mut i: u8 = 0;
    while i < columns
        invariant
            i <= columns,
            v@.len() == i,
            forall|q: int| 0 <= q < i ==> #[trigger] v@[q] == pedal_input(q),
        decreases columns - i,
    {
        v.push(Input { x: i as i32, y: 0, w: 1, h: 1, ty: InputType::Button, resolution: None });
        i = i + 1;
    }
    v
}

/// The touch strip of a Plus: one panel below the keys.
pub open spec fn lcd_input(res: Option<(u32, u32)>) -> Input {
    Input { x: 0, y: 3, w: 4, h: 1, ty: InputType::XYPanel, resolution: res }
}

/// Encoder `i` of a Plus, in the row under the touch strip.
pub open spec fn encoder_input(i: int) -> Input {
    Input { x: i as i32, y: 4, w: 1, h: 1, ty: InputType::EndlessKnob, resolution: None }
}

/// The layout of a Plus: its keys, then the touch strip, then the encoders.
pub fn plus(geo: &KindGeometry) -> (r: Vec<Input>)
    ensures
        ({
            let keys = geo.rows as int * geo.columns as int;
            &&& r@.len() == keys + 1 + geo.encoders
            &&& forall|x: int, y: int|
                0 <= x < geo.columns && 0 <= y < geo.rows ==> #[trigger] r@[y * geo.columns + x] == key_input(x, y, geo.key_resolution)
            &&& r@[keys] == lcd_input(geo.lcd_size)
            &&& forall|i: int| 0 <= i < geo.encoders ==> #[trigger] r@[keys + 1 + i] == encoder_input(i)
        }),
{
    let mut v = buttons_only(geo.rows, geo.columns, geo.key_resolution);
    let ghost keys = v@;
    v.push(Input { x: 0, y: 3, w: 4, h: 1, ty: InputType::XYPanel, resolution: geo.lcd_size });
    let mut i: u8 = 0;
    while i < geo.encoders
        invariant
            i <= geo.encoders,
            keys.len() == geo.rows as int * geo.columns as int,
            v@.len() == keys.len() + 1 + i,
            v@.subrange(0, keys.len() as int) == keys,
            v@[keys.len() as int] == lcd_input(geo.lcd_size),
            forall|q: int| 0 <= q < i ==> #[trigger] v@[keys.len() + 1 + q] == encoder_input(q),
        decreases geo.encoders - i,
    {
        let ghost before = v@;
        v.push(Input { x: i as i32, y: 4, w: 1, h: 1, ty: InputType::EndlessKnob, resolution: None });
        assert(v@.subrange(0, keys.len() as int) =~= before.subrange(0, keys.len() as int));
        i = i + 1;
    }
    proof {
        assert forall|x: int, y: int|
            0 <= x < geo.columns && 0 <= y < geo.rows implies #[trigger] v@[y * geo.columns + x] == key_input(x, y, geo.key_resolution) by {
            assert(y * geo.columns + x < geo.rows as int * geo.columns as int) by (nonlinear_arith)
                requires 0 <= x < geo.columns, 0 <= y < geo.rows;
            assert(v@[y * geo.columns + x] == v@.subrange(0, keys.len() as int)[y * geo.columns + x]);
        }
    }
    v
}

/// The input layout of a kind, from the geometry the driver reports for it.
pub fn input_layout(kind: DeviceKind, geo: &KindGeometry) -> (r: Vec<Input>)
    ensures
        kind == DeviceKind::Pedal ==> r@.len() == geo.columns && forall|i: int|
            0 <= i < geo.columns ==> #[trigger] r@[i] == pedal_input(i),
        kind == DeviceKind::Plus ==> ({
            let keys = geo.rows as int * geo.columns as int;
            &&& r@.len() == keys + 1 + geo.encoders
            &&& forall|x: int, y: int|
                0 <= x < geo.columns && 0 <= y < geo.rows ==> #[trigger] r@[y * geo.columns + x] == key_input(x, y, geo.key_resolution)
            &&& r@[keys] == lcd_input(geo.lcd_size)
            &&& forall|i: int| 0 <= i < geo.encoders ==> #[trigger] r@[keys + 1 + i] == encoder_input(i)
        }),
        kind != DeviceKind::Pedal && kind != DeviceKind::Plus ==> r@.len() == geo.rows as int * geo.columns as int
            && forall|x: int, y: int|
            0 <= x < geo.columns && 0 <= y < geo.rows ==> #[trigger] r@[y * geo.columns + x] == key_input(x, y, geo.key_resolution),
{
    match kind {
        DeviceKind::Pedal => pedal(geo.columns),
        DeviceKind::Plus => plus(geo),
        _ => buttons_only(geo.rows, geo.columns, geo.key_resolution),
    }
}

/// Index of the first slot of type `ty`, if the layout has one that a `u16`
/// can number.
pub fn first_of_type(layout: &Vec<Input>, ty: InputType) -> (r: Option<u16>)
    ensures
        r is Some ==> r->0 < layout@.len() && layout@[r->0 as int].ty == ty && forall|j: int|
            0 <= j < r->0 ==> #[trigger] layout@[j].ty != ty,
        r is None ==> forall|j: int| 0 <= j < layout@.len() && j <= u16::MAX ==> #[trigger] layout@[j].ty != ty,
{
    let mut i: usize = 0;
    while i < layout.len() && i <= 0xffff
        invariant
            i <= layout@.len(),
            i <= 0x10000,
            forall|j: int| 0 <= j < i ==> #[trigger] layout@[j].ty != ty,
        decreases layout@.len() - i,
    {
        if layout[i].ty == ty {
            return Some(i as u16);
        }
        i = i + 1;
    }
    None
}

} // verus!
