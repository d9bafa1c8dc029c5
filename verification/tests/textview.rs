use flatipc::channel::LendChannel;
use flatipc::envelope::{Certified, Envelope};
use flatipc::flat::Reader;
use flatipc::{IntoIpc, Ipc, IpcSafe};

#[derive(Copy, Clone, Debug, Eq, PartialEq, Default)]
pub struct Point {
    pub x: i16,
    pub y: i16,
}

impl IpcSafe for Point {
    fn size() -> usize {
        i16::size() + i16::size()
    }

    fn store(&self, out: &mut Vec<u8>) {
        self.x.store(out);
        self.y.store(out);
    }

    fn load(bytes: &[u8]) -> Self {
        let mut reader = Reader::new(bytes);
        Point { x: reader.take(), y: reader.take() }
    }
}

#[derive(Copy, Clone, Debug, Eq, PartialEq)]
pub enum PixelColor {
    Dark,
    Light,
}

impl Default for PixelColor {
    fn default() -> Self {
        PixelColor::Dark
    }
}

impl IpcSafe for PixelColor {
    fn size() -> usize {
        u32::size()
    }

    fn store(&self, out: &mut Vec<u8>) {
        let tag: u32 = match self {
            PixelColor::Dark => 0,
            PixelColor::Light => 1,
        };
        tag.store(out);
    }

    fn load(bytes: &[u8]) -> Self {
        match u32::load(bytes) {
            1 => PixelColor::Light,
            _ => PixelColor::Dark,
        }
    }
}

/// Style properties for an object
#[derive(Debug, Copy, Clone, PartialEq, Default)]
pub struct DrawStyle {
    /// Fill colour of the object
    pub fill_color: Option<PixelColor>,

    /// Stroke (border/line) color of the object
    pub stroke_color: Option<PixelColor>,

    /// Stroke width
    pub stroke_width: i16,
}

impl IpcSafe for DrawStyle {
    fn size() -> usize {
        <Option<PixelColor>>::size() + <Option<PixelColor>>::size() + i16::size()
    }

    fn store(&self, out: &mut Vec<u8>) {
        self.fill_color.store(out);
        self.stroke_color.store(out);
        self.stroke_width.store(out);
    }

    fn load(bytes: &[u8]) -> Self {
        let mut reader = Reader::new(bytes);
        DrawStyle {
            fill_color: reader.take(),
            stroke_color: reader.take(),
            stroke_width: reader.take(),
        }
    }
}

#[derive(Debug, Clone, Copy, PartialEq, Default)]
pub struct Rectangle {
    /// Top left point of the rect
    pub tl: Point,

    /// Bottom right point of the rect
    pub br: Point,

    /// Drawing style
    pub style: DrawStyle,
}

impl IpcSafe for Rectangle {
    fn size() -> usize {
        Point::size() + Point::size() + DrawStyle::size()
    }

    fn store(&self, out: &mut Vec<u8>) {
        self.tl.store(out);
        self.br.store(out);
        self.style.store(out);
    }

    fn load(bytes: &[u8]) -> Self {
        let mut reader = Reader::new(bytes);
        Rectangle { tl: reader.take(), br: reader.take(), style: reader.take() }
    }
}

/// coordinates are local to the canvas, not absolute to the screen
#[derive(Debug, Copy, Clone, PartialEq)]
pub enum TextBounds {
    // fixed width and height in a rectangle
    BoundingBox(Rectangle),
    // fixed width, grows up from bottom right
    GrowableFromBr(Point, u16),
    // fixed width, grows down from top left
    GrowableFromTl(Point, u16),
    // fixed width, grows up from bottom left
    GrowableFromBl(Point, u16),
    // fixed width, grows down from top right
    GrowableFromTr(Point, u16),
    // fixed width, centered aligned top
    CenteredTop(Rectangle),
    // fixed width, centered aligned bottom
    CenteredBot(Rectangle),
}

impl Default for TextBounds {
    fn default() -> Self {
        TextBounds::BoundingBox(Rectangle::default())
    }
}

impl TextBounds {
    fn store_grown(tag: u32, point: &Point, width: &u16, out: &mut Vec<u8>) {
        tag.store(out);
        point.store(out);
        width.store(out);
        out.resize(out.len() + Rectangle::size() - Point::size() - u16::size(), 0);
    }
}

impl IpcSafe for TextBounds {
    fn size() -> usize {
        u32::size() + Rectangle::size()
    }

    fn store(&self, out: &mut Vec<u8>) {
        match self {
            TextBounds::BoundingBox(rectangle) => {
                0u32.store(out);
                rectangle.store(out);
            }
            TextBounds::GrowableFromBr(point, width) => Self::store_grown(1, point, width, out),
            TextBounds::GrowableFromTl(point, width) => Self::store_grown(2, point, width, out),
            TextBounds::GrowableFromBl(point, width) => Self::store_grown(3, point, width, out),
            TextBounds::GrowableFromTr(point, width) => Self::store_grown(4, point, width, out),
            TextBounds::CenteredTop(rectangle) => {
                5u32.store(out);
                rectangle.store(out);
            }
            TextBounds::CenteredBot(rectangle) => {
                6u32.store(out);
                rectangle.store(out);
            }
        }
    }

    fn load(bytes: &[u8]) -> Self {
        let mut reader = Reader::new(bytes);
        let tag: u32 = reader.take();
        match tag {
            1 => TextBounds::GrowableFromBr(reader.take(), reader.take()),
            2 => TextBounds::GrowableFromTl(reader.take(), reader.take()),
            3 => TextBounds::GrowableFromBl(reader.take(), reader.take()),
            4 => TextBounds::GrowableFromTr(reader.take(), reader.take()),
            5 => TextBounds::CenteredTop(reader.take()),
            6 => TextBounds::CenteredBot(reader.take()),
            _ => TextBounds::BoundingBox(reader.take()),
        }
    }
}

#[derive(Debug, Copy, Clone, PartialEq, Eq, Default)]
pub struct Gid {
    /// a 128-bit random identifier for graphical objects
    pub gid: [u32; 4],
}

impl IpcSafe for Gid {
    fn size() -> usize {
        <[u32; 4]>::size()
    }

    fn store(&self, out: &mut Vec<u8>) {
        self.gid.store(out);
    }

    fn load(bytes: &[u8]) -> Self {
        Gid { gid: <[u32; 4]>::load(bytes) }
    }
}

#[derive(Debug, Copy, Clone, PartialEq)]
/// operations that may be requested of a TextView when sent to GAM
pub enum TextOp {
    Nop,
    Render,
    ComputeBounds, // maybe we don't need this
}

impl Default for TextOp {
    fn default() -> Self {
        TextOp::Nop
    }
}

impl IpcSafe for TextOp {
    fn size() -> usize {
        u32::size()
    }

    fn store(&self, out: &mut Vec<u8>) {
        let tag: u32 = match self {
            TextOp::Nop => 0,
            TextOp::Render => 1,
            TextOp::ComputeBounds => 2,
        };
        tag.store(out);
    }

    fn load(bytes: &[u8]) -> Self {
        match u32::load(bytes) {
            1 => TextOp::Render,
            2 => TextOp::ComputeBounds,
            _ => TextOp::Nop,
        }
    }
}

/// Style options for Latin script fonts
#[derive(Copy, Clone, Debug, PartialEq)]
pub enum GlyphStyle {
    Small,
    Regular,
    Bold,
    Monospace,
    Cjk,
    Large,
    ExtraLarge,
    Tall,
}

impl Default for GlyphStyle {
    fn default() -> Self {
        GlyphStyle::Small
    }
}

impl IpcSafe for GlyphStyle {
    fn size() -> usize {
        u32::size()
    }

    fn store(&self, out: &mut Vec<u8>) {
        let tag: u32 = match self {
            GlyphStyle::Small => 0,
            GlyphStyle::Regular => 1,
            GlyphStyle::Bold => 2,
            GlyphStyle::Monospace => 3,
            GlyphStyle::Cjk => 4,
            GlyphStyle::Large => 5,
            GlyphStyle::ExtraLarge => 6,
            GlyphStyle::Tall => 7,
        };
        tag.store(out);
    }

    fn load(bytes: &[u8]) -> Self {
        match u32::load(bytes) {
            1 => GlyphStyle::Regular,
            2 => GlyphStyle::Bold,
            3 => GlyphStyle::Monospace,
            4 => GlyphStyle::Cjk,
            5 => GlyphStyle::Large,
            6 => GlyphStyle::ExtraLarge,
            7 => GlyphStyle::Tall,
            _ => GlyphStyle::Small,
        }
    }
}

/// Point specifies a pixel coordinate
#[derive(Copy, Clone, Debug, PartialEq, PartialOrd, Default)]
pub struct Pt {
    pub x: i16,
    pub y: i16,
}

impl IpcSafe for Pt {
    fn size() -> usize {
        i16::size() + i16::size()
    }

    fn store(&self, out: &mut Vec<u8>) {
        self.x.store(out);
        self.y.store(out);
    }

    fn load(bytes: &[u8]) -> Self {
        let mut reader = Reader::new(bytes);
        Pt { x: reader.take(), y: reader.take() }
    }
}

#[derive(Copy, Clone, Debug, PartialEq, Default)]
pub struct Cursor {
    pub pt: Pt,
    pub line_height: usize,
}

impl IpcSafe for Cursor {
    fn size() -> usize {
        Pt::size() + usize::size()
    }

    fn store(&self, out: &mut Vec<u8>) {
        self.pt.store(out);
        self.line_height.store(out);
    }

    fn load(bytes: &[u8]) -> Self {
        let mut reader = Reader::new(bytes);
        Cursor { pt: reader.take(), line_height: reader.take() }
    }
}

#[derive(Clone, Debug, Default)]
pub struct TextView {
    /// The operation as specified for the GAM. Note this is different from the "op" when sent
    /// to graphics-server only the GAM should be sending TextViews to the graphics-server, and a
    /// different coding scheme is used for that link.
    operation: TextOp,

    /// GID of the canvas to draw on
    canvas: Gid,

    /// Set by the GAM to the canvas' clip_rect; needed by gfx
    /// for drawing. Note this is in screen coordinates.
    pub clip_rect: Option<Rectangle>,

    /// Render content with random stipples to indicate the strings within are untrusted
    pub untrusted: bool,

    /// optional 128-bit token which is presented to prove a field's trustability
    pub token: Option<[u32; 4]>,

    /// Only trusted, token-validated TextViews will have the invert bit respected
    pub invert: bool,

    /// offsets for text drawing -- exactly one of the following options should be specified
    /// note that the TextBounds coordinate system is local to the canvas, not the screen
    pub bounds_hint: TextBounds,

    /// Some(Rectangle) if bounds have been computed and text
    /// has not been modified. This is local to the canvas.
    pub bounds_computed: Option<Rectangle>,

    /// indicates if the text has overflowed the canvas, set by the drawing routine
    pub overflow: Option<bool>,
    /// callers should not set; use TexOp to select. gam-side bookkeepping, set to true if
    /// no drawing is desired and we just want to compute the bounds
    dry_run: bool,

    pub style: GlyphStyle,
    pub cursor: Cursor,
    /// this is the insertion point offset, if it's to be drawn, on the string
    pub insertion: Option<i32>,
    pub ellipsis: bool,

    pub draw_border: bool,
    /// you almost always want this to be true
    pub clear_area: bool,
    pub border_width: u16,
    /// radius of the rounded border, if applicable
    pub rounded_border: Option<u16>,
    pub margin: Point,

    /// this field specifies the beginning and end of a "selected" region of text
    pub selected: Option<[u32; 2]>,

    /// this field tracks the state of a busy animation, if `Some`
    pub busy_animation_state: Option<u32>,
    pub text: flatipc::Vec<3000>,
}

impl IpcSafe for TextView {
    fn size() -> usize {
        TextOp::size()
            + Gid::size()
            + <Option<Rectangle>>::size()
            + bool::size()
            + <Option<[u32; 4]>>::size()
            + bool::size()
            + TextBounds::size()
            + <Option<Rectangle>>::size()
            + <Option<bool>>::size()
            + bool::size()
            + GlyphStyle::size()
            + Cursor::size()
            + <Option<i32>>::size()
            + bool::size()
            + bool::size()
            + bool::size()
            + u16::size()
            + <Option<u16>>::size()
            + Point::size()
            + <Option<[u32; 2]>>::size()
            + <Option<u32>>::size()
            + <flatipc::Vec<3000>>::size()
    }

    fn store(&self, out: &mut Vec<u8>) {
        self.operation.store(out);
        self.canvas.store(out);
        self.clip_rect.store(out);
        self.untrusted.store(out);
        self.token.store(out);
        self.invert.store(out);
        self.bounds_hint.store(out);
        self.bounds_computed.store(out);
        self.overflow.store(out);
        self.dry_run.store(out);
        self.style.store(out);
        self.cursor.store(out);
        self.insertion.store(out);
        self.ellipsis.store(out);
        self.draw_border.store(out);
        self.clear_area.store(out);
        self.border_width.store(out);
        self.rounded_border.store(out);
        self.margin.store(out);
        self.selected.store(out);
        self.busy_animation_state.store(out);
        self.text.store(out);
    }

    fn load(bytes: &[u8]) -> Self {
        let mut reader = Reader::new(bytes);
        TextView {
            operation: reader.take(),
            canvas: reader.take(),
            clip_rect: reader.take(),
            untrusted: reader.take(),
            token: reader.take(),
            invert: reader.take(),
            bounds_hint: reader.take(),
            bounds_computed: reader.take(),
            overflow: reader.take(),
            dry_run: reader.take(),
            style: reader.take(),
            cursor: reader.take(),
            insertion: reader.take(),
            ellipsis: reader.take(),
            draw_border: reader.take(),
            clear_area: reader.take(),
            border_width: reader.take(),
            rounded_border: reader.take(),
            margin: reader.take(),
            selected: reader.take(),
            busy_animation_state: reader.take(),
            text: reader.take(),
        }
    }
}

impl Certified for TextView {
    fn signature() -> u32 {
        0x7e87_51e3
    }
}

fn text_of(view: &TextView) -> String {
    let mut bytes = Vec::new();
    let mut at = 0;
    while let Some(byte) = view.text.get(at) {
        bytes.push(byte);
        at += 1;
    }
    String::from_utf8(bytes).unwrap()
}

fn read_server(opcode: usize, signature: usize, _arg: usize, buffer: &[u8]) -> (usize, usize) {
    let seen = Envelope::<TextView>::from_slice(buffer, signature).unwrap();
    (opcode, seen.as_original().text.len())
}

fn write_server(
    _opcode: usize,
    signature: usize,
    _arg: usize,
    buffer: &mut Vec<u8>,
) -> (usize, usize) {
    let mut seen = Envelope::<TextView>::from_slice(buffer, signature).unwrap();
    for byte in " Hello from the client!".bytes() {
        assert!(seen.as_original_mut().text.push(byte));
    }
    seen.as_original_mut().bounds_hint = TextBounds::GrowableFromTl(Point { x: -3, y: 9 }, 120);
    assert!(seen.store_into(buffer));
    (buffer.len(), 0)
}

#[test]
fn textview_general_test() {
    // Create a TextView with the default settings
    let tv = TextView::default();

    // Turn it into an envelope which is suitable for IPC.
    let mut tv_msg = tv.into_ipc();

    // Perform a `lend`.
    let mut machine = LendChannel::new();
    assert_eq!(machine.register(read_server, write_server), 0);
    assert_eq!(tv_msg.lend(&machine, 0, 42), Some((42, 0)));

    tv_msg.as_original_mut().draw_border = true;
    for byte in "Hello from the server!".bytes() {
        assert!(tv_msg.as_original_mut().text.push(byte));
    }

    let original_tv = tv_msg.into_original();
    println!("Original textview: {:?}", original_tv);
    assert!(original_tv.draw_border);
    assert_eq!(text_of(&original_tv), "Hello from the server!");
}

#[test]
fn a_large_record_survives_lending() {
    let mut view = TextView::default();
    view.clip_rect = Some(Rectangle {
        tl: Point { x: 1, y: -2 },
        br: Point { x: 300, y: 400 },
        style: DrawStyle {
            fill_color: Some(PixelColor::Light),
            stroke_color: None,
            stroke_width: -1,
        },
    });
    view.token = Some([1, 2, 3, u32::MAX]);
    view.style = GlyphStyle::ExtraLarge;
    view.cursor = Cursor { pt: Pt { x: 5, y: 6 }, line_height: 17 };
    view.insertion = Some(-40);
    view.overflow = Some(true);
    view.selected = Some([7, 70]);
    view.canvas = Gid { gid: [9, 8, 7, 6] };
    for byte in "Hello from the server!".bytes() {
        assert!(view.text.push(byte));
    }

    let mut machine = LendChannel::new();
    let connection = machine.register(read_server, write_server);
    let mut envelope = view.clone().into_ipc();
    assert_eq!(envelope.to_buffer().len(), 4096);
    assert_eq!(envelope.lend(&machine, connection, 1), Some((1, 22)));
    assert_eq!(envelope.lend_mut(&machine, connection, 1), Some((4096, 0)));

    let after = envelope.into_original();
    assert_eq!(text_of(&after), "Hello from the server! Hello from the client!");
    assert_eq!(after.bounds_hint, TextBounds::GrowableFromTl(Point { x: -3, y: 9 }, 120));
    assert_eq!(after.clip_rect, view.clip_rect);
    assert_eq!(after.token, view.token);
    assert_eq!(after.style, GlyphStyle::ExtraLarge);
    assert_eq!(after.cursor, view.cursor);
    assert_eq!(after.insertion, Some(-40));
    assert_eq!(after.overflow, Some(true));
    assert_eq!(after.selected, Some([7, 70]));
    assert_eq!(after.canvas, view.canvas);
}
