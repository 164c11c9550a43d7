use cups_http_gateway::capabilities_cache::CapabilitiesCache;
use cups_http_gateway::cups_client::CupsClient;
use cups_http_gateway::errors::CupsError;
use cups_http_gateway::printer::PrinterCapabilities;
use cups_http_gateway::services::AppState;

fn caps(model: &str) -> PrinterCapabilities {
    PrinterCapabilities {
        make_and_model: model.to_owned(),
        state: "idle".to_owned(),
        state_reasons: vec!["none".to_owned()],
        formats_supported: vec!["application/pdf".to_owned()],
        media_supported: vec![],
        media_default: "iso_a4".to_owned(),
        media_ready: vec![],
        sides_supported: vec![],
        sides_default: String::new(),
        color_modes_supported: vec![],
        color_mode_default: String::new(),
    }
}

#[test]
fn cache_returns_what_was_stored_within_ttl() {
    let mut cache = CapabilitiesCache::new(1_000);
    assert!(cache.get("office", 0).is_none());
    cache.set("office", caps("HP"), 100);
    let c = cache.get("office", 500).unwrap();
    assert_eq!(c.make_and_model, "HP");
    assert_eq!(c.formats_supported, vec!["application/pdf".to_owned()]);
    assert!(cache.get("office", 1_099).is_some());
    assert!(cache.get("office", 1_100).is_none());
    // a clock reading earlier than the store counts as no time elapsed
    assert!(cache.get("office", 50).is_some());
}

#[test]
fn cache_set_replaces_and_invalidate_removes() {
    let mut cache = CapabilitiesCache::new(1_000);
    cache.set("office", caps("HP"), 0);
    cache.set("receipt", caps("Epson"), 0);
    cache.set("office", caps("Brother"), 10);
    assert_eq!(cache.get("office", 20).unwrap().make_and_model, "Brother");
    cache.invalidate("office");
    assert!(cache.get("office", 20).is_none());
    assert_eq!(cache.get("receipt", 20).unwrap().make_and_model, "Epson");
    cache.invalidate("nobody");
    assert!(cache.get("receipt", 20).is_some());
}

#[test]
fn printer_and_root_uris() {
    let client = CupsClient::new("localhost", 631);
    assert_eq!(client.printer_uri_text("office"), "http://localhost:631/printers/office");
    assert_eq!(client.root_uri_text(), "http://localhost:631/");
    let uri = client.printer_uri("office").unwrap();
    assert_eq!(uri.text(), "http://localhost:631/printers/office");
    assert_eq!(uri.uri().to_string(), "http://localhost:631/printers/office");
    assert_eq!(uri.uri().path(), "/printers/office");
    let root = client.root_uri().unwrap();
    assert_eq!(root.text(), "http://localhost:631/");
    assert_eq!(root.uri().to_string(), "http://localhost:631/");
}

#[test]
fn invalid_uri_is_reported() {
    let client = CupsClient::new("bad host", 631);
    assert!(matches!(client.printer_uri("office"), Err(CupsError::InvalidUri(_))));
    assert!(matches!(client.root_uri(), Err(CupsError::InvalidUri(_))));
}

#[test]
fn app_state_reports_cups_address() {
    let state = AppState::new("print-server", 6631);
    assert_eq!(state.cups_addr, "print-server:6631");
    assert_eq!(state.service.client().root_uri_text(), "http://print-server:6631/");
}
