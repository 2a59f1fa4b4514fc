//! Raster image editing core: a chain of pixel-level modifiers recomputed
//! from an immutable base image, and a reversible edit history over that chain.

pub mod buffer;
pub mod conv;
pub mod filters;
pub mod functions;
pub mod histogram;
pub mod history;
pub mod modifier;
pub mod pipeline;
pub mod point;
pub mod session;
pub mod window;

pub use modifier::{
    BoxBlurOptions, ChannelOptions, GaussianBlurOptions, GrayscaleOptions,
    LightnessCorrectionOptions, MedianBlurOptions, Modifier, NegativeOptions, SobelOptions,
    ThresholdingOptions, UnsharpMaskingOptions,
};
pub use functions::{median, pitagora};
pub use buffer::PixelBuffer;
pub use point::{channels, grayscale, lightness_correction, negative, thresholding};
pub use window::{box_blur, median_blur};
pub use conv::{convolve, Kernel, SignedBuffer};
pub use filters::{gaussian_blur, laplace, sharpening, sobel, unsharp_masking};
pub use pipeline::{apply, apply_modifier, Precomputed};
pub use histogram::{histogram, Histogram};
pub use history::{Action, History, EditState, HistoryError, ModifierAdded, ModifierOptionsApplied, ModifierRemoved, ModifierSelected};
pub use session::EditSession;
