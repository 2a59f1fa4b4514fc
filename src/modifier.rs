use vstd::prelude::*;

verus! {

/// One parametrized transformation step of a modifier chain.
#[derive(Debug, Clone, Copy, PartialEq, Eq)]
pub enum Modifier {
    Negative(NegativeOptions),
    Thresholding(ThresholdingOptions),
    Grayscale(GrayscaleOptions),
    Channels(ChannelOptions),
    LightnessCorrection(LightnessCorrectionOptions),
    BoxBlur(BoxBlurOptions),
    GaussianBlur(GaussianBlurOptions),
    MedianBlur(MedianBlurOptions),
    Sobel(SobelOptions),
    Laplace,
    Sharpening,
    UnsharpMasking(UnsharpMaskingOptions),
}

impl Modifier {
    /// The human-readable name of the modifier's kind.
    pub fn name(&self) -> (r: &'static str)
        ensures
            r@ == modifier_name(*self)@,
    {
        match self {
            Modifier::Grayscale(_) => "Grayscale",
            Modifier::Negative(_) => "Negative",
            Modifier::Thresholding(_) => "Thresholding",
            Modifier::Channels(_) => "Channels",
            Modifier::LightnessCorrection(_) => "Lightness correction",
            Modifier::BoxBlur(_) => "Box blur",
            Modifier::GaussianBlur(_) => "Gaussian blur",
            Modifier::MedianBlur(_) => "Median blur",
            Modifier::Sobel(_) => "Sobel",
            Modifier::Laplace => "Laplace",
            Modifier::Sharpening => "Sharpening",
            Modifier::UnsharpMasking(_) => "Unsharp masking",
        }
    }
}

/// The display name of each modifier kind.
pub open spec fn modifier_name(m: Modifier) -> &'static str {
    match m {
        Modifier::Grayscale(_) => "Grayscale",
        Modifier::Negative(_) => "Negative",
        Modifier::Thresholding(_) => "Thresholding",
        Modifier::Channels(_) => "Channels",
        Modifier::LightnessCorrection(_) => "Lightness correction",
        Modifier::BoxBlur(_) => "Box blur",
        Modifier::GaussianBlur(_) => "Gaussian blur",
        Modifier::MedianBlur(_) => "Median blur",
        Modifier::Sobel(_) => "Sobel",
        Modifier::Laplace => "Laplace",
        Modifier::Sharpening => "Sharpening",
        Modifier::UnsharpMasking(_) => "Unsharp masking",
    }
}

#[derive(Debug, Clone, Copy, PartialEq, Eq)]
pub struct NegativeOptions {
    pub grayscale: bool,
}

impl Default for NegativeOptions {
    fn default() -> (r: Self)
        ensures
            r.grayscale == false,
    {
        NegativeOptions { grayscale: false }
    }
}

#[derive(Debug, Clone, Copy, PartialEq, Eq)]
pub struct ThresholdingOptions {
    pub grayscale: bool,
    pub threshold: u8,
}

impl Default for ThresholdingOptions {
    fn default() -> (r: Self)
        ensures
            r.grayscale == false,
            r.threshold == 127,
    {
        ThresholdingOptions { grayscale: false, threshold: u8::MAX / 2 }
    }
}

#[derive(Debug, Clone, Copy, PartialEq, Eq)]
pub struct GrayscaleOptions {
    pub red_weight: u8,
    pub blue_weight: u8,
    pub green_weight: u8,
}

/// The luma weights used when a kernel converts to grayscale on its own.
pub open spec fn default_grayscale() -> GrayscaleOptions {
    GrayscaleOptions { red_weight: 72, green_weight: 149, blue_weight: 34 }
}

impl Default for GrayscaleOptions {
    fn default() -> (r: Self)
        ensures
            r == default_grayscale(),
    {
        GrayscaleOptions { red_weight: 72, green_weight: 149, blue_weight: 34 }
    }
}

#[derive(Debug, Clone, Copy, PartialEq, Eq)]
pub struct ChannelOptions {
    pub red_enabled: bool,
    pub red_weight: u8,
    pub blue_enabled: bool,
    pub blue_weight: u8,
    pub green_enabled: bool,
    pub green_weight: u8,
}

impl Default for ChannelOptions {
    fn default() -> (r: Self)
        ensures
            r.red_enabled && r.green_enabled && r.blue_enabled,
            r.red_weight == 100 && r.green_weight == 100 && r.blue_weight == 100,
    {
        ChannelOptions {
            red_enabled: true,
            red_weight: 100,
            green_weight: 100,
            blue_weight: 100,
            blue_enabled: true,
            green_enabled: true,
        }
    }
}

#[derive(Debug, Clone, Copy, PartialEq, Eq)]
pub struct LightnessCorrectionOptions {
    pub exponent: u8,
}

impl Default for LightnessCorrectionOptions {
    fn default() -> (r: Self)
        ensures
            r.exponent == 127,
    {
        LightnessCorrectionOptions { exponent: u8::MAX / 2 }
    }
}

#[derive(Debug, Clone, Copy, PartialEq, Eq)]
pub struct BoxBlurOptions {
    pub size: u8,
}

impl Default for BoxBlurOptions {
    fn default() -> (r: Self)
        ensures
            r.size == 3,
    {
        BoxBlurOptions { size: 3 }
    }
}

#[derive(Debug, Clone, Copy, PartialEq, Eq)]
pub struct GaussianBlurOptions {
    pub size: u8,
}

impl Default for GaussianBlurOptions {
    fn default() -> (r: Self)
        ensures
            r.size == 3,
    {
        GaussianBlurOptions { size: 3 }
    }
}

#[derive(Debug, Clone, Copy, PartialEq, Eq)]
pub struct MedianBlurOptions {
    pub size: u8,
}

impl Default for MedianBlurOptions {
    fn default() -> (r: Self)
        ensures
            r.size == 3,
    {
        MedianBlurOptions { size: 3 }
    }
}

#[derive(Debug, Clone, Copy, PartialEq, Eq)]
pub struct SobelOptions {
    pub horizontal: bool,
    pub vertical: bool,
}

impl Default for SobelOptions {
    fn default() -> (r: Self)
        ensures
            r.horizontal && r.vertical,
    {
        SobelOptions { horizontal: true, vertical: true }
    }
}

#[derive(Debug, Clone, Copy, PartialEq, Eq)]
pub struct UnsharpMaskingOptions {
    pub blur_size: u8,
}

impl Default for UnsharpMaskingOptions {
    fn default() -> (r: Self)
        ensures
            r.blur_size == 3,
    {
        UnsharpMaskingOptions { blur_size: 3 }
    }
}

} // verus!
