//! Font metrics: the measurements the text layout reads.
//!
//! A font driver owns glyph data and answers metric queries; the rasterizing
//! side of a driver belongs to the drawing layer outside this crate. A
//! `FontDescriptor` snapshots one driver's metrics at a chosen point size,
//! as plain values, so the layout can be verified against them.

use crate::drawing::Size;
use vstd::prelude::*;

verus! {

/// The font families the manager can serve. Scalable families may be absent;
/// lookups then fall back to the fixed system font.
#[derive(Clone, Copy, Debug, PartialEq, Eq, Structural)]
pub enum FontFamily {
    SystemUI,
    SansSerif,
    Serif,
    Cursive,
    FixedSystem,
    SmallFixed,
    Japanese,
}

/// Metric interface of a font driver. The drawing layer adds rasterization
/// on top; the layout here needs only measurements.
pub trait FontDriver {
    /// Whether glyphs scale to any point size.
    fn is_scalable(&self) -> bool;

    /// The design height glyphs are measured at.
    fn base_height(&self) -> isize;

    /// The preferred distance between two baselines.
    fn preferred_line_height(&self) -> isize;

    /// The advance width of one character at the design height.
    fn width_of(&self, character: char) -> isize;
}

/// A monospaced bitmap font: every glyph has the same cell.
pub struct FixedFontDriver {
    size: Size,
    data: Vec<u8>,
    leading: isize,
    line_height: isize,
    stride: usize,
}

impl FixedFontDriver {
    /// Cell width of this font.
    pub closed spec fn spec_width(self) -> isize {
        self.size.width
    }

    /// Cell height of this font.
    pub closed spec fn spec_height(self) -> isize {
        self.size.height
    }

    pub closed spec fn spec_line_height(self) -> isize {
        self.line_height
    }

    /// Sane metrics: a positive cell no larger than a screen tile.
    pub closed spec fn wf(self) -> bool {
        &&& 1 <= self.size.width <= 64
        &&& 1 <= self.size.height <= 64
        &&& 1 <= self.line_height <= 128
    }

    /// A fixed font of the given cell over its glyph bitmap. The line height
    /// leaves a quarter of the cell as leading, split above and below.
    pub fn new(width: usize, height: usize, data: Vec<u8>) -> (r: Self)
        requires
            1 <= width <= 64,
            1 <= height <= 64,
        ensures
            r.wf(),
            r.spec_width() == width,
            r.spec_height() == height,
            r.spec_line_height() == height as int * 5 / 4,
    {
        let w = width as isize;
        let h = height as isize;
        let line_height = h * 5 / 4;
        let leading = (line_height - h) / 2;
        proof {
            assert(((width + 7) / 8) * height <= 9 * 64) by (nonlinear_arith)
                requires
                    1 <= width <= 64,
                    1 <= height <= 64,
            ;
        }
        let stride = ((width + 7) / 8) * height;
        FixedFontDriver { size: Size::new(w, h), data, leading, line_height, stride }
    }

    /// Cell width.
    pub fn width(&self) -> (r: isize)
        ensures
            r == self.spec_width(),
    {
        self.size.width
    }

    /// Cell height.
    pub fn height(&self) -> (r: isize)
        ensures
            r == self.spec_height(),
    {
        self.size.height
    }

    /// Distance between baselines.
    pub fn line_height(&self) -> (r: isize)
        ensures
            r == self.spec_line_height(),
    {
        self.line_height
    }

    /// The glyph cell bytes for a printable character, if the bitmap covers
    /// it: `stride` bytes starting at the character's cell.
    pub fn glyph_for(&self, character: char) -> (r: Option<Vec<u8>>)
        ensures
            r is Some ==> r->Some_0@.len() == self.spec_stride(),
    {
        let c = character as usize;
        if c > 0x20 && c < 0x80 && self.stride > 0 && self.stride <= 0x1000 {
            proof {
                assert(self.stride * (c - 0x20) <= 0x1000 * 0x60) by (nonlinear_arith)
                    requires
                        0 < self.stride <= 0x1000,
                        0x20 < c < 0x80,
                ;
            }
            let base = self.stride * (c - 0x20);
            if base <= self.data.len() && self.stride <= self.data.len() - base {
                let mut out: Vec<u8> = Vec::new();
                let mut i: usize = 0;
                while i < self.stride
                    invariant
                        i <= self.stride,
                        out@.len() == i,
                        base + self.stride <= self.data@.len(),
                        self.data@.len() <= usize::MAX,
                    decreases self.stride - i,
                {
                    out.push(self.data[base + i]);
                    i = i + 1;
                }
                return Some(out);
            }
        }
        None
    }

    /// Bytes per glyph cell.
    pub closed spec fn spec_stride(self) -> usize {
        self.stride
    }
}

impl FontDriver for FixedFontDriver {
    fn is_scalable(&self) -> bool {
        false
    }

    fn base_height(&self) -> isize {
        self.size.height
    }

    fn preferred_line_height(&self) -> isize {
        self.line_height
    }

    fn width_of(&self, character: char) -> isize {
        let _ = character;
        self.size.width
    }
}

/// One driver's metrics at a chosen point size, as plain values. What the
/// layout reads of a font is all here; the driver itself stays with the
/// drawing layer.
#[derive(Clone, Copy, Debug, PartialEq, Eq, Structural)]
pub struct FontDescriptor {
    point: isize,
    line_height: isize,
    base_height: isize,
    fixed_width: isize,
    scalable: bool,
}

impl FontDescriptor {
    pub closed spec fn spec_point(self) -> isize {
        self.point
    }

    pub closed spec fn spec_line_height(self) -> isize {
        self.line_height
    }

    /// The advance width of any character under this descriptor. A fixed
    /// font advances by its cell width at design height, scaled otherwise.
    pub closed spec fn spec_width_of(self, character: char) -> isize {
        let _ = character;
        if self.point == self.base_height {
            self.fixed_width
        } else {
            (self.fixed_width as int * self.point as int / self.base_height as int) as isize
        }
    }

    /// Bounded positive metrics; what the layout's arithmetic relies on.
    pub closed spec fn wf(self) -> bool {
        &&& 1 <= self.point <= 0x1000
        &&& 1 <= self.line_height <= 0x1000
        &&& 1 <= self.base_height <= 0x1000
        &&& 0 <= self.fixed_width <= 0x1000
        &&& self.point == self.base_height
    }

    /// Widths are non-negative and bounded, and the line height positive:
    /// the layout's sums cannot overflow.
    pub proof fn lemma_metric_bounds(self, character: char)
        requires
            self.wf(),
        ensures
            0 <= self.spec_width_of(character) <= 0x1000,
            1 <= self.spec_line_height() <= 0x1000,
    {
    }

    /// A descriptor carries exactly one fixed driver's metrics: the point
    /// size snapped to the driver's design height, its line height, its cell
    /// width as the advance of every character, and no scaling.
    pub open spec fn spec_matches_driver(d: FontDescriptor, drv: FixedFontDriver) -> bool {
        &&& d.spec_point() == drv.spec_height()
        &&& d.spec_line_height() == drv.spec_line_height()
        &&& forall|c: char| #[trigger] d.spec_width_of(c) == drv.spec_width()
        &&& !d.spec_scalable()
    }

    /// Take a descriptor for `family` at `point` from the manager's drivers:
    /// nothing exactly when the family has no installed driver, otherwise
    /// that driver's metrics. The drivers here are fixed fonts, so the
    /// requested point size snaps to the design height.
    pub fn new(mgr: &FontManager, family: FontFamily, point: isize) -> (r: Option<Self>)
        requires
            mgr.wf(),
        ensures
            r is Some <==> mgr.spec_driver_for(family) is Some,
            r matches Some(d) ==> d.wf() && Self::spec_matches_driver(
                d,
                mgr.spec_driver_for(family)->Some_0,
            ),
    {
        let _ = point;
        match mgr.driver_for(family) {
            None => None,
            Some(driver) => {
                // Every driver the manager serves here is a fixed font: the
                // point size snaps to the design height.
                Some(
                    FontDescriptor {
                        point: driver.height(),
                        line_height: driver.line_height(),
                        base_height: driver.height(),
                        fixed_width: driver.width(),
                        scalable: false,
                    },
                )
            },
        }
    }

    /// The chosen point size.
    pub fn point(&self) -> (r: isize)
        ensures
            r == self.spec_point(),
    {
        self.point
    }

    /// Distance between baselines at this point size.
    pub fn line_height(&self) -> (r: isize)
        ensures
            r == self.spec_line_height(),
    {
        self.line_height
    }

    /// Advance width of `character` at this point size.
    pub fn width_of(&self, character: char) -> (r: isize)
        requires
            self.wf(),
        ensures
            r == self.spec_width_of(character),
    {
        if self.point == self.base_height {
            self.fixed_width
        } else {
            self.fixed_width * self.point / self.base_height
        }
    }

    /// Whether the underlying driver scales to any point size.
    pub fn is_scalable(&self) -> (r: bool)
        ensures
            r == self.spec_scalable(),
    {
        self.scalable
    }

    pub closed spec fn spec_scalable(self) -> bool {
        self.scalable
    }
}

/// Owner of the installed font drivers, keyed by family. Built once at boot;
/// the fixed system fonts are always present, scalable families only when
/// their data was loaded, with lookups falling back to the system font.
pub struct FontManager {
    fonts: Vec<(FontFamily, FixedFontDriver)>,
}

impl FontManager {
    /// Every installed driver has sane metrics.
    pub closed spec fn wf(self) -> bool {
        forall|i: int| 0 <= i < self.fonts@.len() ==> (#[trigger] self.fonts@[i]).1.wf()
    }

    /// The first installed driver for `family`, if any: what every lookup
    /// serves.
    pub closed spec fn spec_driver_for(self, family: FontFamily) -> Option<FixedFontDriver> {
        Self::spec_driver_from(self.fonts@, family, 0)
    }

    pub closed spec fn spec_driver_from(
        fonts: Seq<(FontFamily, FixedFontDriver)>,
        family: FontFamily,
        i: int,
    ) -> Option<FixedFontDriver>
        decreases fonts.len() - i,
    {
        if i < 0 || i >= fonts.len() {
            None
        } else if fonts[i].0 == family {
            Some(fonts[i].1)
        } else {
            Self::spec_driver_from(fonts, family, i + 1)
        }
    }

    /// Whether `family` has an installed driver.
    pub open spec fn spec_has_family(self, family: FontFamily) -> bool {
        self.spec_driver_for(family) is Some
    }

    /// The driver a user-interface lookup serves: the `SystemUI` family when
    /// installed, else the fixed system font.
    pub open spec fn spec_ui_driver(self) -> Option<FixedFontDriver> {
        if self.spec_driver_for(FontFamily::SystemUI) is Some {
            self.spec_driver_for(FontFamily::SystemUI)
        } else {
            self.spec_driver_for(FontFamily::FixedSystem)
        }
    }

    /// The driver a title lookup serves: the `SansSerif` family when
    /// installed, else the fixed system font.
    pub open spec fn spec_title_driver(self) -> Option<FixedFontDriver> {
        if self.spec_driver_for(FontFamily::SansSerif) is Some {
            self.spec_driver_for(FontFamily::SansSerif)
        } else {
            self.spec_driver_for(FontFamily::FixedSystem)
        }
    }

    /// A manager holding exactly the two fixed fonts: the eight-by-sixteen
    /// system font (line height twenty) and the six-by-eight small font
    /// (line height ten), over the given glyph bitmaps. No other family has
    /// a driver; lookups of the scalable families fall back to the system
    /// font.
    pub fn init(system_font_data: Vec<u8>, small_font_data: Vec<u8>) -> (r: Self)
        ensures
            r.wf(),
            ({
                let sys = r.spec_driver_for(FontFamily::FixedSystem);
                &&& sys is Some
                &&& sys->Some_0.spec_width() == 8
                &&& sys->Some_0.spec_height() == 16
                &&& sys->Some_0.spec_line_height() == 20
            }),
            ({
                let small = r.spec_driver_for(FontFamily::SmallFixed);
                &&& small is Some
                &&& small->Some_0.spec_width() == 6
                &&& small->Some_0.spec_height() == 8
                &&& small->Some_0.spec_line_height() == 10
            }),
            forall|f: FontFamily|
                f != FontFamily::FixedSystem && f != FontFamily::SmallFixed ==> !(
                #[trigger] r.spec_has_family(f)),
    {
        let mut fonts: Vec<(FontFamily, FixedFontDriver)> = Vec::new();
        fonts.push((FontFamily::FixedSystem, FixedFontDriver::new(8, 16, system_font_data)));
        fonts.push((FontFamily::SmallFixed, FixedFontDriver::new(6, 8, small_font_data)));
        let r = FontManager { fonts };
        proof {
            assert(r.fonts@[0].0 == FontFamily::FixedSystem);
            assert(r.fonts@[1].0 == FontFamily::SmallFixed);
            assert(r.spec_driver_for(FontFamily::FixedSystem) == Some(r.fonts@[0].1));
            assert(Self::spec_driver_from(r.fonts@, FontFamily::SmallFixed, 1) == Some(
                r.fonts@[1].1,
            ));
            assert(r.spec_driver_for(FontFamily::SmallFixed) == Some(r.fonts@[1].1));
            assert forall|f: FontFamily|
                f != FontFamily::FixedSystem && f != FontFamily::SmallFixed implies !(
            #[trigger] r.spec_has_family(f)) by {
                assert(Self::spec_driver_from(r.fonts@, f, 2) is None);
                assert(Self::spec_driver_from(r.fonts@, f, 1) is None);
                assert(Self::spec_driver_from(r.fonts@, f, 0) is None);
            }
        }
        r
    }

    /// The installed driver for `family`: exactly `spec_driver_for`.
    pub fn driver_for(&self, family: FontFamily) -> (r: Option<&FixedFontDriver>)
        requires
            self.wf(),
        ensures
            r is Some <==> self.spec_driver_for(family) is Some,
            r matches Some(d) ==> d.wf() && *d == self.spec_driver_for(family)->Some_0,
    {
        let mut i: usize = 0;
        while i < self.fonts.len()
            invariant
                self.wf(),
                i <= self.fonts@.len(),
                Self::spec_driver_from(self.fonts@, family, i as int) == self.spec_driver_for(
                    family,
                ),
            decreases self.fonts@.len() - i,
        {
            if self.fonts[i].0 == family {
                return Some(&self.fonts[i].1);
            }
            i = i + 1;
        }
        None
    }

    /// The fixed system font driver: the eight-by-sixteen font `init`
    /// installs.
    pub fn fixed_system_font(&self) -> (r: Option<&FixedFontDriver>)
        requires
            self.wf(),
        ensures
            r is Some <==> self.spec_driver_for(FontFamily::FixedSystem) is Some,
            r matches Some(d) ==> d.wf() && *d == self.spec_driver_for(
                FontFamily::FixedSystem,
            )->Some_0,
    {
        self.driver_for(FontFamily::FixedSystem)
    }

    /// The fixed small font driver: the six-by-eight font `init` installs.
    pub fn fixed_small_font(&self) -> (r: Option<&FixedFontDriver>)
        requires
            self.wf(),
        ensures
            r is Some <==> self.spec_driver_for(FontFamily::SmallFixed) is Some,
            r matches Some(d) ==> d.wf() && *d == self.spec_driver_for(
                FontFamily::SmallFixed,
            )->Some_0,
    {
        self.driver_for(FontFamily::SmallFixed)
    }

    /// Descriptor of the fixed system font.
    pub fn system_font(&self) -> (r: Option<FontDescriptor>)
        requires
            self.wf(),
        ensures
            r is Some <==> self.spec_driver_for(FontFamily::FixedSystem) is Some,
            r matches Some(d) ==> d.wf() && FontDescriptor::spec_matches_driver(
                d,
                self.spec_driver_for(FontFamily::FixedSystem)->Some_0,
            ),
    {
        FontDescriptor::new(self, FontFamily::FixedSystem, 0)
    }

    /// Descriptor of the title font: the `SansSerif` family when installed,
    /// else the fixed system font.
    pub fn title_font(&self) -> (r: Option<FontDescriptor>)
        requires
            self.wf(),
        ensures
            r is Some <==> self.spec_title_driver() is Some,
            r matches Some(d) ==> d.wf() && FontDescriptor::spec_matches_driver(
                d,
                self.spec_title_driver()->Some_0,
            ),
    {
        match FontDescriptor::new(self, FontFamily::SansSerif, 16) {
            Some(d) => Some(d),
            None => self.system_font(),
        }
    }

    /// Descriptor of the user-interface font: the `SystemUI` family when
    /// installed, else the fixed system font.
    pub fn ui_font(&self) -> (r: Option<FontDescriptor>)
        requires
            self.wf(),
        ensures
            r is Some <==> self.spec_ui_driver() is Some,
            r matches Some(d) ==> d.wf() && FontDescriptor::spec_matches_driver(
                d,
                self.spec_ui_driver()->Some_0,
            ),
    {
        match FontDescriptor::new(self, FontFamily::SystemUI, 16) {
            Some(d) => Some(d),
            None => self.system_font(),
        }
    }
}

} // verus!
