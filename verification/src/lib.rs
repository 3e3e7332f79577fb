//! Verified decision and bookkeeping core of the Breeze browser shell.
pub mod geometry;
pub mod text;
pub mod float_decimal;
pub mod stats;
pub mod early_scroll;
pub mod filmstrip;
pub mod benchmark;
pub mod options;
pub mod diagnostics;
pub mod panel_layout;
pub mod performance;
pub mod navigation_transaction;
pub mod incident_log;
pub mod video;
pub mod script_navigation;
pub mod tab_router;
pub mod window_placement;
pub mod accessibility;
pub mod color_scheme;
pub mod performance_report;
pub mod fullscreen;
pub mod async_scripts;
pub mod page_crash;
pub mod runtime_timeline;
pub mod paint_index;
pub mod page_controls;
pub mod tab_navigation;
pub mod presentation;
pub mod navigation_response;
pub mod chrome_layout;
pub mod native_controls;
pub mod document_state;
pub mod surface_paint;
pub mod chrome_look;
pub mod capture;
