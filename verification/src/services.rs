//! The service layer and the state shared by the HTTP handlers.
use vstd::prelude::*;

use std::sync::Arc;

use crate::cups_client::CupsClient;
use crate::text::{decimal, owned, push_decimal, push_text};

verus! {

/// Stateless service layer: validates input, delegates to the CUPS adapter.
/// Does not depend on any HTTP primitives — can be used by any transport layer.
pub struct PrinterService {
    cups: CupsClient,
}

impl PrinterService {
    /// The adapter this service delegates to.
    pub closed spec fn client_spec(&self) -> CupsClient {
        self.cups
    }

    pub fn new(cups: CupsClient) -> (r: Self)
        ensures
            r.client_spec() == cups,
    {
        PrinterService { cups }
    }

    /// The adapter this service delegates to.
    pub fn client(&self) -> (r: &CupsClient)
        ensures
            *r == self.client_spec(),
    {
        &self.cups
    }
}

/// What every HTTP handler shares: the service and the CUPS address it reports.
#[derive(Clone)]
pub struct AppState {
    pub service: Arc<PrinterService>,
    pub cups_addr: String,
}

impl AppState {
    pub fn new(cups_host: &str, cups_port: u16) -> (r: Self)
        ensures
            r.service.client_spec().host_text() == cups_host@,
            r.service.client_spec().port_number() == cups_port,
            r.cups_addr@ == cups_host@ + ":"@ + decimal(cups_port as nat),
    {
        let client = CupsClient::new(cups_host, cups_port);
        let mut cups_addr = owned(cups_host);
        push_text(&mut cups_addr, ":");
        push_decimal(&mut cups_addr, cups_port as u64);
        AppState { service: Arc::new(PrinterService::new(client)), cups_addr }
    }
}

} // verus!
