use vstd::prelude::*;

verus! {

/// Specifies how an image should fit the space:
/// - `fit`: resize the image to fit the box keeping its aspect ratio
/// - `cover`: resize the image to cover the box keeping its aspect ratio
/// - `stretch`: resize the image to take all the space ignoring the aspect ratio
/// - `source`: keep the image at its original size
#[derive(Clone, Copy, Debug, PartialEq, Eq, Structural)]
pub enum ImgMode {
    Fit,
    Cover,
    Stretch,
    Source,
}

/// The mode a fit-mode string denotes, or `None` where the text is no mode.
/// The empty string denotes the default mode, `Fit`.
pub open spec fn spec_parse_mode(s: Seq<char>) -> Option<ImgMode> {
    if s.len() == 0 || s == "fit"@ {
        Some(ImgMode::Fit)
    } else if s == "cover"@ {
        Some(ImgMode::Cover)
    } else if s == "stretch"@ {
        Some(ImgMode::Stretch)
    } else if s == "source"@ {
        Some(ImgMode::Source)
    } else {
        None
    }
}

impl Default for ImgMode {
    fn default() -> (r: Self)
        ensures
            r == ImgMode::Fit,
    {
        ImgMode::Fit
    }
}

impl ImgMode {
    /// Parses a fit-mode string, case-sensitively; any other text is a
    /// parse failure carrying that text.
    pub fn from_str(s: &str) -> (r: Result<ImgMode, String>)
        ensures
            match r {
                Ok(m) => spec_parse_mode(s@) == Some(m),
                Err(e) => spec_parse_mode(s@) is None && e@ == s@,
            },
    {
        if s.is_empty() || s.to_owned() == "fit".to_owned() {
            Ok(ImgMode::Fit)
        } else if s.to_owned() == "cover".to_owned() {
            Ok(ImgMode::Cover)
        } else if s.to_owned() == "stretch".to_owned() {
            Ok(ImgMode::Stretch)
        } else if s.to_owned() == "source".to_owned() {
            Ok(ImgMode::Source)
        } else {
            Err(s.to_owned())
        }
    }

    /// Parses an owned fit-mode string under the same rules as [`Self::from_str`].
    pub fn try_from(value: String) -> (r: Result<ImgMode, String>)
        ensures
            match r {
                Ok(m) => spec_parse_mode(value@) == Some(m),
                Err(e) => spec_parse_mode(value@) is None && e@ == value@,
            },
    {
        Self::from_str(value.as_str())
    }
}

} // verus!
