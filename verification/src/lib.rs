//! Verified core of the WW OCR desktop tool: OCR text layout, screen capture
//! sessions and composition, native pin windows, global shortcuts, image
//! storage rules, and log-safe diagnostics.

pub mod pixels;
pub mod sorting;
pub mod layout;
pub mod layout_order;
pub mod text;
pub mod ids;
pub mod diagnostics;
pub mod storage;
pub mod capture;
pub mod session;
mod imaging;
pub mod composition;
pub mod capture_actions;
pub mod acquisition;
pub mod ocr_engine;
pub mod pin_window;
pub mod shortcut_apply;
pub mod image_import;
pub mod deletion;
pub mod main_window;
pub mod pins;
pub mod shortcuts;
pub mod records;
