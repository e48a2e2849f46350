use vstd::prelude::*;

verus! {

/// A color as its red, green and blue channels.
#[derive(Clone, Copy, Debug, PartialEq, Eq, Structural)]
pub struct Rgb {
    pub r: u8,
    pub g: u8,
    pub b: u8,
}

pub open spec fn rgb(r: u8, g: u8, b: u8) -> Rgb {
    Rgb { r, g, b }
}

/// The colors of a wave ink. `center` and `span` are hues in hundredths of a
/// turn: the wave runs from `center` over `span`; a span of a whole turn is
/// the rainbow. `text` colors the readouts, `bands` the swatch and the wave.
#[derive(Clone, Copy, Debug)]
pub struct Palette {
    pub center: u8,
    pub span: u8,
    pub text: Rgb,
    pub bands: [Rgb; 4],
}

/// A palette as the contracts speak of it.
pub struct PaletteView {
    pub center: u8,
    pub span: u8,
    pub text: Rgb,
    pub bands: Seq<Rgb>,
}

impl View for Palette {
    type V = PaletteView;

    open spec fn view(&self) -> PaletteView {
        PaletteView { center: self.center, span: self.span, text: self.text, bands: self.bands@ }
    }
}

/// The color scheme of the readouts: five solid colors and four waves.
#[derive(Clone, Copy, Debug, PartialEq, Eq, Structural)]
pub enum Ink {
    Green,
    Red,
    Blue,
    White,
    Amber,
    Rainbow,
    BlueWave,
    PurpleWave,
    RedWave,
}

/// Whether the ink is a wave, as against a solid color.
pub open spec fn is_wave(ink: Ink) -> bool {
    ink == Ink::Rainbow || ink == Ink::BlueWave || ink == Ink::PurpleWave || ink == Ink::RedWave
}

/// The palette of each wave ink.
pub open spec fn spec_palette(ink: Ink) -> Option<PaletteView> {
    match ink {
        Ink::Rainbow => Some(
            PaletteView {
                center: 0,
                span: 100,
                text: rgb(0xF4, 0xF4, 0xF4),
                bands: seq![
                    rgb(0xFF, 0x2A, 0x2A),
                    rgb(0xFF, 0xE1, 0x2B),
                    rgb(0x3D, 0xFF, 0x6A),
                    rgb(0x3D, 0xA5, 0xFF),
                ],
            },
        ),
        Ink::BlueWave => Some(
            PaletteView {
                center: 50,
                span: 20,
                text: rgb(0x3D, 0xA5, 0xFF),
                bands: seq![
                    rgb(0x0A, 0x3A, 0xC4),
                    rgb(0x1E, 0x6B, 0xFF),
                    rgb(0x3D, 0xA5, 0xFF),
                    rgb(0x7A, 0xFF, 0xF0),
                ],
            },
        ),
        Ink::PurpleWave => Some(
            PaletteView {
                center: 76,
                span: 16,
                text: rgb(0xD0, 0x7B, 0xFF),
                bands: seq![
                    rgb(0x4A, 0x14, 0x8C),
                    rgb(0x7B, 0x2C, 0xBF),
                    rgb(0xC7, 0x7D, 0xFF),
                    rgb(0xFF, 0x6A, 0xD5),
                ],
            },
        ),
        Ink::RedWave => Some(
            PaletteView {
                center: 98,
                span: 16,
                text: rgb(0xFF, 0x45, 0x3A),
                bands: seq![
                    rgb(0xFF, 0x1E, 0x4A),
                    rgb(0xFF, 0x45, 0x3A),
                    rgb(0xFF, 0x7A, 0x18),
                    rgb(0xFF, 0xD0, 0x00),
                ],
            },
        ),
        _ => None,
    }
}

/// The color of the text in each ink: the solid color, or the text color of
/// the wave's palette.
pub open spec fn spec_color(ink: Ink) -> Rgb {
    match ink {
        Ink::Green => rgb(0x6B, 0xF0, 0x4A),
        Ink::Red => rgb(0xFF, 0x45, 0x3A),
        Ink::Blue => rgb(0x3D, 0xA5, 0xFF),
        Ink::White => rgb(0xF4, 0xF4, 0xF4),
        Ink::Amber => rgb(0xE2, 0xA2, 0x2A),
        _ => spec_palette(ink)->0.text,
    }
}

fn color(r: u8, g: u8, b: u8) -> (c: Rgb)
    ensures
        c == rgb(r, g, b),
{
    Rgb { r, g, b }
}

fn wave(center: u8, span: u8, text: Rgb, bands: [Rgb; 4]) -> (p: Palette)
    ensures
        p@ == (PaletteView { center, span, text, bands: bands@ }),
{
    Palette { center, span, text, bands }
}

impl Ink {
    /// Every ink, in the order the swatches show them.
    pub const ALL: [Ink; 9] = [
        Ink::Green,
        Ink::Red,
        Ink::Blue,
        Ink::White,
        Ink::Amber,
        Ink::Rainbow,
        Ink::BlueWave,
        Ink::PurpleWave,
        Ink::RedWave,
    ];

    /// The palette of a wave ink; a solid ink has none.
    pub fn palette(self) -> (r: Option<Palette>)
        ensures
            match r {
                Some(p) => spec_palette(self) == Some(p@),
                None => spec_palette(self) is None,
            },
            r is Some <==> is_wave(self),
    {
        match self {
            Ink::Rainbow => {
                let bands = [
                    color(0xFF, 0x2A, 0x2A),
                    color(0xFF, 0xE1, 0x2B),
                    color(0x3D, 0xFF, 0x6A),
                    color(0x3D, 0xA5, 0xFF),
                ];
                let p = wave(0, 100, color(0xF4, 0xF4, 0xF4), bands);
                assert(p@.bands =~= spec_palette(self)->0.bands);
                Some(p)
            },
            Ink::BlueWave => {
                let bands = [
                    color(0x0A, 0x3A, 0xC4),
                    color(0x1E, 0x6B, 0xFF),
                    color(0x3D, 0xA5, 0xFF),
                    color(0x7A, 0xFF, 0xF0),
                ];
                let p = wave(50, 20, color(0x3D, 0xA5, 0xFF), bands);
                assert(p@.bands =~= spec_palette(self)->0.bands);
                Some(p)
            },
            Ink::PurpleWave => {
                let bands = [
                    color(0x4A, 0x14, 0x8C),
                    color(0x7B, 0x2C, 0xBF),
                    color(0xC7, 0x7D, 0xFF),
                    color(0xFF, 0x6A, 0xD5),
                ];
                let p = wave(76, 16, color(0xD0, 0x7B, 0xFF), bands);
                assert(p@.bands =~= spec_palette(self)->0.bands);
                Some(p)
            },
            Ink::RedWave => {
                let bands = [
                    color(0xFF, 0x1E, 0x4A),
                    color(0xFF, 0x45, 0x3A),
                    color(0xFF, 0x7A, 0x18),
                    color(0xFF, 0xD0, 0x00),
                ];
                let p = wave(98, 16, color(0xFF, 0x45, 0x3A), bands);
                assert(p@.bands =~= spec_palette(self)->0.bands);
                Some(p)
            },
            _ => None,
        }
    }

    /// The color of text drawn in this ink.
    pub fn color(self) -> (r: Rgb)
        ensures
            r == spec_color(self),
            is_wave(self) ==> r == spec_palette(self)->0.text,
    {
        match self {
            Ink::Green => color(0x6B, 0xF0, 0x4A),
            Ink::Red => color(0xFF, 0x45, 0x3A),
            Ink::Blue => color(0x3D, 0xA5, 0xFF),
            Ink::White => color(0xF4, 0xF4, 0xF4),
            Ink::Amber => color(0xE2, 0xA2, 0x2A),
            _ => {
                let p = self.palette();
                p.unwrap().text
            },
        }
    }

    /// How often the window repaints in this ink, in milliseconds: a wave
    /// moves, so it repaints often; a solid ink only now and then.
    pub fn repaint_millis(self) -> (r: u64)
        ensures
            r == (if is_wave(self) {
                32u64
            } else {
                200u64
            }),
    {
        if self.palette().is_some() {
            32
        } else {
            200
        }
    }
}

/// The color of `FAULT` in the range well: white where the ink is itself a
/// strong red, a light red otherwise.
pub open spec fn spec_fault_color(ink: Rgb) -> Rgb {
    if ink.r > 220 && ink.g < 90 {
        rgb(255, 255, 255)
    } else {
        rgb(0xFF, 0x5A, 0x4A)
    }
}

/// Picks the color of `FAULT` so that it stands out from the ink `ink`.
pub fn fault_color(ink: Rgb) -> (r: Rgb)
    ensures
        r == spec_fault_color(ink),
{
    if ink.r > 220 && ink.g < 90 {
        color(255, 255, 255)
    } else {
        color(0xFF, 0x5A, 0x4A)
    }
}

} // verus!
