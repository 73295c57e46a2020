use crate::ids::HandleId;
use crate::mode::{spec_parse_mode, ImgMode};
use vstd::prelude::*;

verus! {

/// A dynamically-typed value as handed over by the widget-configuration
/// system, reduced to the shapes this widget reads: a text value, a resource
/// handle, a fit mode, a tint color, or some other value carried with a
/// description of itself.
#[derive(Clone, Debug)]
pub enum Variant {
    String(String),
    Handle(HandleId),
    Mode(ImgMode),
    Color(Color),
    Other(String),
}

/// A tint color with 8-bit channels, multiplied over the image.
#[derive(Clone, Copy, Debug, PartialEq, Eq, Structural)]
pub struct Color {
    pub red: u8,
    pub green: u8,
    pub blue: u8,
    pub alpha: u8,
}

impl Default for Color {
    /// Opaque white: the neutral tint.
    fn default() -> (r: Self)
        ensures
            r == (Color { red: 255, green: 255, blue: 255, alpha: 255 }),
    {
        Color { red: 255, green: 255, blue: 255, alpha: 255 }
    }
}

/// A reference to an image asset: either a logical path to load it from,
/// or a direct handle to an already known resource.
#[derive(Clone, Debug)]
pub enum AssetSource {
    Path(String),
    Handle(HandleId),
}

/// Equality of asset references: path against path by text, handle against
/// handle by identity; a path never equals a handle.
pub open spec fn src_eq(a: AssetSource, b: AssetSource) -> bool {
    match (a, b) {
        (AssetSource::Path(s), AssetSource::Path(o)) => s@ == o@,
        (AssetSource::Handle(s), AssetSource::Handle(o)) => s == o,
        _ => false,
    }
}

impl PartialEq for AssetSource {
    fn eq(&self, other: &Self) -> (r: bool)
        ensures
            r == src_eq(*self, *other),
    {
        match (self, other) {
            (AssetSource::Path(s), AssetSource::Path(o)) => *s == *o,
            (AssetSource::Handle(s), AssetSource::Handle(o)) => *s == *o,
            _ => false,
        }
    }
}

impl vstd::std_specs::cmp::PartialEqSpecImpl for AssetSource {
    open spec fn obeys_eq_spec() -> bool {
        true
    }

    open spec fn eq_spec(&self, other: &Self) -> bool {
        src_eq(*self, *other)
    }
}

impl Default for AssetSource {
    /// The default reference: the empty path, denoting "no asset".
    fn default() -> (r: Self)
        ensures
            r matches AssetSource::Path(p) && p@ == Seq::<char>::empty(),
    {
        AssetSource::Path(String::new())
    }
}

impl From<String> for AssetSource {
    /// A text value converts to a path reference.
    fn from(s: String) -> (r: Self) {
        AssetSource::Path(s)
    }
}

impl vstd::std_specs::convert::FromSpecImpl<String> for AssetSource {
    open spec fn obeys_from_spec() -> bool {
        true
    }

    open spec fn from_spec(v: String) -> Self {
        AssetSource::Path(v)
    }
}

impl From<HandleId> for AssetSource {
    /// A handle value converts to a direct reference.
    fn from(h: HandleId) -> (r: Self) {
        AssetSource::Handle(h)
    }
}

impl vstd::std_specs::convert::FromSpecImpl<HandleId> for AssetSource {
    open spec fn obeys_from_spec() -> bool {
        true
    }

    open spec fn from_spec(v: HandleId) -> Self {
        AssetSource::Handle(v)
    }
}

impl AssetSource {
    /// Reads an asset reference out of a configuration value: a text value
    /// becomes a path, a handle value a direct handle; anything else is a
    /// configuration error carrying the value's description.
    pub fn try_from(value: Variant) -> (r: Result<Self, String>)
        ensures
            match r {
                Ok(s) => match value {
                    Variant::String(p) => s == AssetSource::Path(p),
                    Variant::Handle(h) => s == AssetSource::Handle(h),
                    _ => false,
                },
                Err(e) => !(value is String) && !(value is Handle) && e@ == spec_describe(value),
            },
    {
        match value {
            Variant::String(s) => Ok(AssetSource::Path(s)),
            Variant::Handle(h) => Ok(AssetSource::Handle(h)),
            v => Err(v.describe()),
        }
    }
}

/// The description a configuration value gives of itself in error reports:
/// a text value reads as its text, any other value as its shape.
pub open spec fn spec_describe(v: Variant) -> Seq<char> {
    match v {
        Variant::String(s) => s@,
        Variant::Handle(_) => "handle"@,
        Variant::Mode(_) => "mode"@,
        Variant::Color(_) => "color"@,
        Variant::Other(d) => d@,
    }
}

impl Variant {
    /// A short description of the value, used in configuration errors.
    pub fn describe(&self) -> (r: String)
        ensures
            r@ == spec_describe(*self),
    {
        match self {
            Variant::String(s) => s.clone(),
            Variant::Handle(_) => "handle".to_owned(),
            Variant::Mode(_) => "mode".to_owned(),
            Variant::Color(_) => "color".to_owned(),
            Variant::Other(d) => d.clone(),
        }
    }

    /// Reads a fit mode out of a configuration value: a mode value is taken
    /// as it is, a text value is parsed; anything else is a configuration
    /// error carrying the value's description.
    pub fn get_or_parse_mode(self) -> (r: Result<ImgMode, String>)
        ensures
            match r {
                Ok(m) => match self {
                    Variant::Mode(v) => m == v,
                    Variant::String(s) => spec_parse_mode(s@) == Some(m),
                    _ => false,
                },
                Err(e) => match self {
                    Variant::Mode(_) => false,
                    Variant::String(s) => spec_parse_mode(s@) is None && e@ == s@,
                    v => e@ == spec_describe(v),
                },
            },
    {
        match self {
            Variant::Mode(m) => Ok(m),
            Variant::String(s) => ImgMode::try_from(s),
            v => Err(v.describe()),
        }
    }

    /// Reads a tint color out of a configuration value; anything but a color
    /// is a configuration error carrying the value's description.
    pub fn get_color(self) -> (r: Result<Color, String>)
        ensures
            match r {
                Ok(c) => self matches Variant::Color(v) && c == v,
                Err(e) => !(self is Color) && e@ == spec_describe(self),
            },
    {
        match self {
            Variant::Color(c) => Ok(c),
            v => Err(v.describe()),
        }
    }
}

impl ImgMode {
    /// Reads a fit mode out of a configuration value, as
    /// [`Variant::get_or_parse_mode`] does.
    pub fn from_variant(value: Variant) -> (r: Result<ImgMode, String>)
        ensures
            match r {
                Ok(m) => match value {
                    Variant::Mode(v) => m == v,
                    Variant::String(s) => spec_parse_mode(s@) == Some(m),
                    _ => false,
                },
                Err(e) => match value {
                    Variant::Mode(_) => false,
                    Variant::String(s) => spec_parse_mode(s@) is None && e@ == s@,
                    v => e@ == spec_describe(v),
                },
            },
    {
        value.get_or_parse_mode()
    }

}

impl From<ImgMode> for Variant {
    /// Wraps a fit mode back into a configuration value.
    fn from(mode: ImgMode) -> (r: Self) {
        Variant::Mode(mode)
    }
}

impl vstd::std_specs::convert::FromSpecImpl<ImgMode> for Variant {
    open spec fn obeys_from_spec() -> bool {
        true
    }

    open spec fn from_spec(v: ImgMode) -> Self {
        Variant::Mode(v)
    }
}

} // verus!
