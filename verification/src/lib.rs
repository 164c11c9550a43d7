//! A gateway between HTTP clients and a CUPS print server: print options and
//! their IPP keywords, the interpretation of IPP replies, HTTP error mapping,
//! and the ESC/POS raster encoding of images.

pub mod capabilities_cache;
pub mod cups_client;
pub mod errors;
pub mod escpos;
pub mod http_api;
pub mod ipp_model;
pub mod models;
pub mod print_options;
pub mod printer;
pub mod printer_uri;
pub mod services;
pub mod text;

