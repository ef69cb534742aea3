//! Verified core of UTranslate, a desktop translator: text rules, the clipboard capture and
//! paste protocol, the screen selector and screen-translation flow, OCR bounds, the engine
//! chain with its cache, settings, history export and hotkeys. The window system, the
//! network and the OCR runtime are driven from outside by the actions these machines name.

pub mod text;
pub mod capture;
pub mod copy_poll;
pub mod engines;
pub mod ocr;
pub mod screen_capture;
pub mod settings;
pub mod policy;
pub mod screen_translation;
pub mod selector;
pub mod selection_flow;
pub mod history;
pub mod hotkeys;
pub mod engine_chain;
pub mod cache;
pub mod capture_flow;
