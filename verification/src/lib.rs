//! The rules of a document scanner application: what is known of the scanners
//! in reach, how a scan job runs, and what the screen shows of it.

pub mod dashboard;
pub mod dashboard_laws;
pub mod discovery;
pub mod error;
pub mod escl;
pub mod images;
pub mod job;
pub mod keys;
pub mod laws;
pub mod mail;
pub mod number;
pub mod ocr;
pub mod pdf;
pub mod percent;
pub mod poll;
pub mod report;
pub mod scan;
pub mod scanner;
pub mod state;
pub mod status;
pub mod text;
pub mod usb;
pub mod view;
pub mod xml;
