//! OCR-side decisions. The OCR pipeline itself — rasterizing pages and
//! recognizing them — is an outside collaborator; this module holds what
//! the engine decides about it: whether OCR may run at all, and how the
//! per-page recognized texts are assembled into one document text.

use vstd::prelude::*;

use crate::pdf::{assembled, assemble_page_texts};

verus! {

/// OCR-side decision helper.
pub struct OcrProcessor {
    /// In text-only mode OCR is never attempted, not even as a fallback.
    pub text_only: bool,
}

impl OcrProcessor {
    /// A helper for a run in the given mode.
    pub fn new(text_only: bool) -> (r: OcrProcessor)
        ensures
            r.text_only == text_only,
    {
        OcrProcessor { text_only }
    }

    /// Whether the run may attempt OCR at all.
    pub fn ocr_enabled(&self) -> (r: bool)
        ensures
            r == !self.text_only,
    {
        !self.text_only
    }

    /// Concatenate per-page recognized texts into one document text, each
    /// non-blank page under an OCR-marked page header.
    pub fn assemble_ocr_text(&self, pages: &Vec<String>) -> (r: String)
        ensures
            r@ == assembled(pages@.map_values(|p: String| p@), true),
    {
        assemble_page_texts(pages, true)
    }
}

} // verus!
