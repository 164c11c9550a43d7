//! What the gateway reports about printers and jobs.
use vstd::prelude::*;

use crate::text::views;

verus! {

#[derive(Debug)]
pub struct PrinterInfo {
    pub name: String,
    pub state: String,
    pub queued_jobs: u32,
}

#[derive(Debug, Clone)]
pub struct PrinterCapabilities {
    pub make_and_model: String,
    pub state: String,
    pub state_reasons: Vec<String>,
    /// MIME types this printer accepts (e.g. "application/pdf", "image/jpeg").
    pub formats_supported: Vec<String>,
    /// CUPS media keywords this printer accepts (e.g. `iso_a4`, `custom_80x297mm`).
    pub media_supported: Vec<String>,
    /// Currently configured default media keyword.
    pub media_default: String,
    /// Media physically loaded/ready right now.
    pub media_ready: Vec<String>,
    pub sides_supported: Vec<String>,
    pub sides_default: String,
    pub color_modes_supported: Vec<String>,
    pub color_mode_default: String,
}

/// The mathematical value of `PrinterCapabilities`.
pub struct CapabilitiesView {
    pub make_and_model: Seq<char>,
    pub state: Seq<char>,
    pub state_reasons: Seq<Seq<char>>,
    pub formats_supported: Seq<Seq<char>>,
    pub media_supported: Seq<Seq<char>>,
    pub media_default: Seq<char>,
    pub media_ready: Seq<Seq<char>>,
    pub sides_supported: Seq<Seq<char>>,
    pub sides_default: Seq<char>,
    pub color_modes_supported: Seq<Seq<char>>,
    pub color_mode_default: Seq<char>,
}

impl View for PrinterCapabilities {
    type V = CapabilitiesView;

    open spec fn view(&self) -> CapabilitiesView {
        CapabilitiesView {
            make_and_model: self.make_and_model@,
            state: self.state@,
            state_reasons: views(self.state_reasons@),
            formats_supported: views(self.formats_supported@),
            media_supported: views(self.media_supported@),
            media_default: self.media_default@,
            media_ready: views(self.media_ready@),
            sides_supported: views(self.sides_supported@),
            sides_default: self.sides_default@,
            color_modes_supported: views(self.color_modes_supported@),
            color_mode_default: self.color_mode_default@,
        }
    }
}

fn copy_strings(v: &Vec<String>) -> (r: Vec<String>)
    ensures
        views(r@) == views(v@),
{
    let mut out: Vec<String> = Vec::new();
    let mut i: usize = 0;
    while i < v.len()
        invariant
            i <= v@.len(),
            out@.len() == i,
            forall|k: int| 0 <= k < i ==> #[trigger] out@[k]@ == v@[k]@,
        decreases v@.len() - i,
    {
        out.push(v[i].clone());
        i = i + 1;
    }
    assert(views(out@) =~= views(v@));
    out
}

impl PrinterCapabilities {
    /// A copy with the same contents.
    pub fn duplicate(&self) -> (r: Self)
        ensures
            r@ == self@,
    {
        PrinterCapabilities {
            make_and_model: self.make_and_model.clone(),
            state: self.state.clone(),
            state_reasons: copy_strings(&self.state_reasons),
            formats_supported: copy_strings(&self.formats_supported),
            media_supported: copy_strings(&self.media_supported),
            media_default: self.media_default.clone(),
            media_ready: copy_strings(&self.media_ready),
            sides_supported: copy_strings(&self.sides_supported),
            sides_default: self.sides_default.clone(),
            color_modes_supported: copy_strings(&self.color_modes_supported),
            color_mode_default: self.color_mode_default.clone(),
        }
    }
}

/// A print job as CUPS lists it.
#[derive(Debug, Clone)]
pub struct JobDetail {
    pub id: i32,
    pub name: String,
    pub state: String,
}

impl View for JobDetail {
    type V = (i32, Seq<char>, Seq<char>);

    open spec fn view(&self) -> (i32, Seq<char>, Seq<char>) {
        (self.id, self.name@, self.state@)
    }
}

} // verus!
