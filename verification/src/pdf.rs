//! Direct (structural) extraction support: the acceptance predicate for a
//! document's own text layer, the page-text assembly, and the choice
//! between a primary extraction and a fallback one.
//!
//! The extraction calls themselves — loading a document and reading its
//! text layer — are outside collaborators; the logic here works on the
//! texts they hand back.

use vstd::prelude::*;

use crate::text::{dec_rep, str_trimmed_len, trimmed_len, u64_to_dec};

verus! {

/// How many trimmed characters a direct extraction must yield to count as
/// substantial: the "has extractable text" threshold.
pub const TEXT_THRESHOLD: usize = 50;

/// Direct-extraction helper.
pub struct PdfProcessor;

/// A direct extraction counts as substantial when its trimmed text is
/// longer than the threshold.
pub open spec fn spec_has_text(text: Seq<char>) -> bool {
    trimmed_len(text) > TEXT_THRESHOLD
}

/// The header block one page contributes to the assembled text, when its
/// text is not all whitespace.
pub open spec fn page_block(n: int, text: Seq<char>, ocr: bool) -> Seq<char> {
    if ocr {
        "--- Page "@ + dec_rep(n) + " (OCR) ---\n"@ + text + "\n\n"@
    } else {
        "--- Page "@ + dec_rep(n) + " ---\n"@ + text + "\n\n"@
    }
}

/// The assembled document text: one labelled block per page whose text is
/// not all whitespace, pages numbered from one.
pub open spec fn assembled(pages: Seq<Seq<char>>, ocr: bool) -> Seq<char>
    decreases pages.len(),
{
    if pages.len() == 0 {
        Seq::<char>::empty()
    } else {
        assembled(pages.drop_last(), ocr) + if trimmed_len(pages.last()) > 0 {
            page_block(pages.len() as int, pages.last(), ocr)
        } else {
            Seq::<char>::empty()
        }
    }
}

/// Concatenate per-page texts into the stored document text, labelling
/// each non-blank page with its number (and an OCR mark when requested).
pub fn assemble_page_texts(pages: &Vec<String>, ocr: bool) -> (r: String)
    ensures
        r@ == assembled(pages@.map_values(|p: String| p@), ocr),
{
    let ghost ps = pages@.map_values(|p: String| p@);
    let mut out = String::new();
    let mut i: usize = 0;
    while i < pages.len()
        invariant
            0 <= i <= pages@.len(),
            ps == pages@.map_values(|p: String| p@),
            out@ == assembled(ps.take(i as int), ocr),
        decreases pages@.len() - i,
    {
        assert(pages@[i as int]@ == ps[i as int]);
        proof {
            assert(ps.take(i + 1).drop_last() =~= ps.take(i as int));
            assert(ps.take(i + 1).last() == ps[i as int]);
        }
        let text = pages[i].as_str();
        if str_trimmed_len(text) > 0 {
            out.append("--- Page ");
            let n = u64_to_dec((i + 1) as u64);
            out.append(n.as_str());
            if ocr {
                out.append(" (OCR) ---\n");
            } else {
                out.append(" ---\n");
            }
            out.append(text);
            out.append("\n\n");
        }
        proof {
            assert(out@ =~= assembled(ps.take(i + 1), ocr));
        }
        i = i + 1;
    }
    proof {
        assert(ps.take(ps.len() as int) =~= ps);
    }
    out
}

/// Which text a direct extraction keeps when a fallback extraction was
/// also tried: the fallback only where the primary is thin and the
/// fallback's trimmed text is strictly longer.
pub open spec fn spec_choose_direct(primary: Seq<char>, fallback: Option<Seq<char>>) -> Seq<char> {
    if trimmed_len(primary) < TEXT_THRESHOLD {
        match fallback {
            Option::Some(f) => if trimmed_len(f) > trimmed_len(primary) {
                f
            } else {
                primary
            },
            Option::None => primary,
        }
    } else {
        primary
    }
}

impl PdfProcessor {
    /// A fresh, stateless helper.
    pub fn new() -> (r: PdfProcessor) {
        PdfProcessor
    }

    /// Whether a text layer is substantial enough to accept without OCR:
    /// more than the threshold of characters once trimmed.
    pub fn has_extractable_text(&self, text: &str) -> (r: bool)
        ensures
            r == spec_has_text(text@),
    {
        str_trimmed_len(text) > TEXT_THRESHOLD
    }

    /// Whether the primary extraction is thin enough that a fallback
    /// extraction is worth attempting.
    pub fn needs_fallback(&self, text: &str) -> (r: bool)
        ensures
            r == (trimmed_len(text@) < TEXT_THRESHOLD),
    {
        str_trimmed_len(text) < TEXT_THRESHOLD
    }

    /// Pick between the primary extraction's text and a fallback
    /// extraction's, keeping the fallback only where it says strictly more.
    pub fn choose_direct_text(&self, primary: String, fallback: Option<String>) -> (r: String)
        ensures
            r@ == spec_choose_direct(
                primary@,
                match fallback {
                    Option::Some(ref f) => Option::Some(f@),
                    Option::None => Option::None::<Seq<char>>,
                },
            ),
    {
        if str_trimmed_len(primary.as_str()) < TEXT_THRESHOLD {
            match fallback {
                Option::Some(f) => {
                    if str_trimmed_len(f.as_str()) > str_trimmed_len(primary.as_str()) {
                        f
                    } else {
                        primary
                    }
                },
                Option::None => primary,
            }
        } else {
            primary
        }
    }
}

} // verus!
