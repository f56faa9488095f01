//! Watches a fixed region of a display for text changes.
//!
//! The pipeline is: capture a rectangular screen region with safety
//! bounds, preprocess the pixels for recognition (grayscale, upscale of
//! narrow images, contrast equalization, median denoise, sharpen),
//! reconcile repeated readings of an external text recognizer by a
//! line-wise majority vote, and diff the recognized text against the
//! previous snapshot to produce change events.
//!
//! The external capture provider and the external recognition engine
//! are collaborators: the provider is called here behind narrow trusted
//! wrappers, while the engine (which works on files and is re-created
//! per call) is driven by the host, which hands each outcome back to
//! the decision functions of this crate.

pub mod capture;
pub mod monitor;
pub mod ocr;
pub mod pixels;
pub mod preprocess;
pub mod text;
pub mod vote;

pub use capture::CaptureError;
pub use capture::CaptureRegion;
pub use capture::ScreenCapture;
pub use monitor::MonitorError;
pub use monitor::MonitorStatus;
pub use monitor::ScreenMonitor;
pub use monitor::TextChangeEvent;
pub use monitor::TextDiffer;
pub use ocr::OcrEngine;
pub use ocr::OcrError;
pub use pixels::GrayImage;
pub use pixels::RawImage;
pub use preprocess::PreprocessError;
