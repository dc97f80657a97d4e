//! The per-file fallback chain and the run driver.
//!
//! Extraction attempts themselves are outside collaborators; the engine's
//! own work is the decision between them. The chain is a small state
//! machine: it first asks for a direct extraction (unless the run is
//! OCR-only), judges the result, and either accepts it, asks for OCR with
//! a recorded fallback, or — once the OCR result is in — settles on the
//! final resolution. Every file resolves to exactly one outcome; no
//! failure of an attempt escapes the chain.

use vstd::prelude::*;

use crate::cli::Args;
use crate::database::{ExtractionResult, ExtractionResultView, Method};
use crate::fingerprint::{fast_hash_bytes, fingerprint_fast, fingerprint_file, fingerprint_full,
    sha256_hex_of, spec_fingerprint};
use crate::ocr::OcrProcessor;
use crate::pdf::{spec_has_text, PdfProcessor};

verus! {

/// What one extraction attempt came back with: the collaborator's text
/// and page count, or its failure message.
pub enum Attempt {
    /// The call returned; an empty text still counts as returning.
    Success { text: String, pages: usize },
    /// The call raised or the backend was unavailable.
    Failure { message: String },
}

/// The mathematical image of an attempt.
pub enum AttemptView {
    Success { text: Seq<char>, pages: usize },
    Failure { message: Seq<char> },
}

impl View for Attempt {
    type V = AttemptView;

    open spec fn view(&self) -> AttemptView {
        match self {
            Attempt::Success { text, pages } => AttemptView::Success {
                text: text@,
                pages: *pages,
            },
            Attempt::Failure { message } => AttemptView::Failure { message: message@ },
        }
    }
}

/// A copy of an attempt, character for character.
pub fn clone_attempt(a: &Attempt) -> (r: Attempt)
    ensures
        r@ == a@,
{
    match a {
        Attempt::Success { text, pages } => Attempt::Success { text: text.clone(), pages: *pages },
        Attempt::Failure { message } => Attempt::Failure { message: message.clone() },
    }
}

/// What the chain settles on for one file.
pub struct Resolution {
    /// The text to store; empty when no strategy succeeded.
    pub text: String,
    /// The page count that came with the accepted attempt.
    pub page_count: usize,
    /// Which strategy the text is from, or `Error`.
    pub method: Method,
    /// The concatenated failure reasons, only when nothing succeeded.
    pub error_detail: Option<String>,
}

/// The mathematical image of a resolution.
pub struct ResolutionView {
    pub text: Seq<char>,
    pub page_count: usize,
    pub method: Method,
    pub error_detail: Option<Seq<char>>,
}

impl View for Resolution {
    type V = ResolutionView;

    open spec fn view(&self) -> ResolutionView {
        ResolutionView {
            text: self.text@,
            page_count: self.page_count,
            method: self.method,
            error_detail: match self.error_detail {
                Option::Some(ref d) => Option::Some(d@),
                Option::None => Option::None,
            },
        }
    }
}

impl ResolutionView {
    /// A resolution carries text exactly when some strategy succeeded, and
    /// an error detail exactly when none did.
    pub open spec fn wf(self) -> bool {
        &&& self.method == Method::Error ==> self.text.len() == 0 && self.page_count == 0
        &&& (self.error_detail is Some) == (self.method == Method::Error)
    }
}

/// The recorded failure reasons when the run was OCR-only.
pub open spec fn ocr_failed_detail(ocr: Seq<char>) -> Seq<char> {
    "OCR failed: "@ + ocr
}

/// The recorded failure reason when only direct extraction was attempted.
pub open spec fn direct_failed_detail(direct: Seq<char>) -> Seq<char> {
    "Direct: "@ + direct
}

/// The concatenated failure reasons when both strategies were attempted.
pub open spec fn both_failed_detail(direct: Seq<char>, ocr: Seq<char>) -> Seq<char> {
    "Direct: "@ + direct + ", OCR: "@ + ocr
}

/// The failed resolution with the given detail.
pub open spec fn error_resolution(detail: Seq<char>) -> ResolutionView {
    ResolutionView {
        text: Seq::<char>::empty(),
        page_count: 0,
        method: Method::Error,
        error_detail: Option::Some(detail),
    }
}

/// What the whole chain resolves, given the run's mode and what each
/// strategy would come back with. OCR-only runs never consult the direct
/// attempt; text-only runs never consult the OCR attempt.
pub open spec fn spec_resolve(
    text_only: bool,
    ocr_only: bool,
    direct: AttemptView,
    ocr: AttemptView,
) -> ResolutionView {
    if ocr_only {
        match ocr {
            AttemptView::Success { text, pages } => ResolutionView {
                text,
                page_count: pages,
                method: Method::Ocr,
                error_detail: Option::None,
            },
            AttemptView::Failure { message } => error_resolution(ocr_failed_detail(message)),
        }
    } else {
        match direct {
            AttemptView::Success { text, pages } => if spec_has_text(text) {
                ResolutionView {
                    text,
                    page_count: pages,
                    method: Method::Direct,
                    error_detail: Option::None,
                }
            } else if text_only {
                ResolutionView {
                    text,
                    page_count: pages,
                    method: Method::DirectPartial,
                    error_detail: Option::None,
                }
            } else {
                match ocr {
                    AttemptView::Success { text: otext, pages: opages } => ResolutionView {
                        text: otext,
                        page_count: opages,
                        method: Method::Ocr,
                        error_detail: Option::None,
                    },
                    AttemptView::Failure { .. } => ResolutionView {
                        text,
                        page_count: pages,
                        method: Method::DirectPartial,
                        error_detail: Option::None,
                    },
                }
            },
            AttemptView::Failure { message } => if text_only {
                error_resolution(direct_failed_detail(message))
            } else {
                match ocr {
                    AttemptView::Success { text: otext, pages: opages } => ResolutionView {
                        text: otext,
                        page_count: opages,
                        method: Method::Ocr,
                        error_detail: Option::None,
                    },
                    AttemptView::Failure { message: omessage } => error_resolution(
                        both_failed_detail(message, omessage),
                    ),
                }
            },
        }
    }
}

/// Whatever the mode and whatever each strategy came back with, the chain's
/// resolution is well formed: failure means empty text and a recorded
/// reason, success means none.
pub proof fn lemma_resolution_wf(
    text_only: bool,
    ocr_only: bool,
    direct: AttemptView,
    ocr: AttemptView,
)
    ensures
        spec_resolve(text_only, ocr_only, direct, ocr).wf(),
{
}

/// What to do with the OCR result, recorded when the chain asks for OCR.
pub enum OcrFallback {
    /// The run is OCR-only: an OCR failure fails the file.
    OcrOnly,
    /// Direct extraction returned thin text: an OCR failure falls back to
    /// it as a partial result.
    AfterThin { text: String, pages: usize },
    /// Direct extraction itself failed: an OCR failure fails the file with
    /// both reasons.
    AfterError { detail: String },
}

/// The mathematical image of the recorded fallback.
pub enum OcrFallbackView {
    OcrOnly,
    AfterThin { text: Seq<char>, pages: usize },
    AfterError { detail: Seq<char> },
}

impl View for OcrFallback {
    type V = OcrFallbackView;

    open spec fn view(&self) -> OcrFallbackView {
        match self {
            OcrFallback::OcrOnly => OcrFallbackView::OcrOnly,
            OcrFallback::AfterThin { text, pages } => OcrFallbackView::AfterThin {
                text: text@,
                pages: *pages,
            },
            OcrFallback::AfterError { detail } => OcrFallbackView::AfterError { detail: detail@ },
        }
    }
}

/// One step of the chain: what the engine asks for next, or the settled
/// resolution.
pub enum ChainStep {
    /// Attempt direct extraction and hand the result to `on_direct`.
    NeedDirect,
    /// Attempt OCR and hand the result to `on_ocr` with this fallback.
    NeedOcr { fallback: OcrFallback },
    /// The file is resolved; no further attempt is made.
    Done { resolution: Resolution },
}

/// What the chain settles on once the OCR result is in.
pub open spec fn spec_on_ocr(fallback: OcrFallbackView, attempt: AttemptView) -> ResolutionView {
    match attempt {
        AttemptView::Success { text, pages } => ResolutionView {
            text,
            page_count: pages,
            method: Method::Ocr,
            error_detail: Option::None,
        },
        AttemptView::Failure { message } => match fallback {
            OcrFallbackView::OcrOnly => error_resolution(ocr_failed_detail(message)),
            OcrFallbackView::AfterThin { text, pages } => ResolutionView {
                text,
                page_count: pages,
                method: Method::DirectPartial,
                error_detail: Option::None,
            },
            OcrFallbackView::AfterError { detail } => error_resolution(
                both_failed_detail(detail, message),
            ),
        },
    }
}

/// Settle the chain on the OCR attempt's result: accept OCR text on
/// success, and on failure fall back as recorded — to the thin direct
/// text, or to a failed outcome carrying every attempted strategy's reason.
pub fn on_ocr(fallback: OcrFallback, attempt: Attempt) -> (r: Resolution)
    ensures
        r@ == spec_on_ocr(fallback@, attempt@),
{
    match attempt {
        Attempt::Success { text, pages } => Resolution {
            text,
            page_count: pages,
            method: Method::Ocr,
            error_detail: Option::None,
        },
        Attempt::Failure { message } => match fallback {
            OcrFallback::OcrOnly => {
                let mut d = String::new();
                d.append("OCR failed: ");
                d.append(message.as_str());
                let r = Resolution {
                    text: String::new(),
                    page_count: 0,
                    method: Method::Error,
                    error_detail: Option::Some(d),
                };
                proof {
                    assert(r@.text =~= Seq::<char>::empty());
                }
                r
            },
            OcrFallback::AfterThin { text, pages } => Resolution {
                text,
                page_count: pages,
                method: Method::DirectPartial,
                error_detail: Option::None,
            },
            OcrFallback::AfterError { detail } => {
                let mut d = String::new();
                d.append("Direct: ");
                d.append(detail.as_str());
                d.append(", OCR: ");
                d.append(message.as_str());
                let r = Resolution {
                    text: String::new(),
                    page_count: 0,
                    method: Method::Error,
                    error_detail: Option::Some(d),
                };
                proof {
                    assert(r@.text =~= Seq::<char>::empty());
                    assert(r@.error_detail->Some_0 =~= both_failed_detail(detail@, message@));
                }
                r
            },
        },
    }
}

/// Everything one file's resolution consumed, as plain values: the file's
/// identity and metadata, the fingerprint (absent when the file could not
/// be read for hashing), what each strategy came back with, and the timing.
pub struct FileTask {
    /// Where the file was found.
    pub path: String,
    /// File size in bytes.
    pub size: u64,
    /// The content fingerprint; `None` when hashing itself failed, which
    /// drops the file from the batch without an outcome.
    pub fingerprint: Option<String>,
    /// What direct extraction came back with.
    pub direct: Attempt,
    /// What OCR came back with.
    pub ocr: Attempt,
    /// Wall-clock time of the file's whole resolution, in milliseconds.
    pub elapsed_ms: u64,
    /// When the resolution finished, as seconds since the epoch.
    pub timestamp: u64,
}

/// The mathematical image of a file task.
pub struct FileTaskView {
    pub path: Seq<char>,
    pub size: u64,
    pub fingerprint: Option<Seq<char>>,
    pub direct: AttemptView,
    pub ocr: AttemptView,
    pub elapsed_ms: u64,
    pub timestamp: u64,
}

impl View for FileTask {
    type V = FileTaskView;

    open spec fn view(&self) -> FileTaskView {
        FileTaskView {
            path: self.path@,
            size: self.size,
            fingerprint: match self.fingerprint {
                Option::Some(ref f) => Option::Some(f@),
                Option::None => Option::None,
            },
            direct: self.direct@,
            ocr: self.ocr@,
            elapsed_ms: self.elapsed_ms,
            timestamp: self.timestamp,
        }
    }
}

/// The stored row a resolution yields for one file.
pub open spec fn outcome_from(
    path: Seq<char>,
    fingerprint: Seq<char>,
    size: u64,
    elapsed_ms: u64,
    timestamp: u64,
    res: ResolutionView,
) -> ExtractionResultView {
    ExtractionResultView {
        id: Option::None,
        file_path: path,
        file_hash: Option::Some(fingerprint),
        file_size: size,
        extraction_method: res.method,
        extracted_text: res.text,
        page_count: res.page_count,
        processing_time_ms: elapsed_ms,
        timestamp,
        success: res.method != Method::Error,
        error_message: res.error_detail,
    }
}

/// The outcome of one fingerprinted file under the run's mode.
pub open spec fn spec_outcome(
    text_only: bool,
    ocr_only: bool,
    t: FileTaskView,
) -> ExtractionResultView {
    outcome_from(
        t.path,
        t.fingerprint->Some_0,
        t.size,
        t.elapsed_ms,
        t.timestamp,
        spec_resolve(text_only, ocr_only, t.direct, t.ocr),
    )
}

/// Build the immutable outcome record for one resolved file.
pub fn make_outcome(
    path: String,
    fingerprint: String,
    size: u64,
    elapsed_ms: u64,
    timestamp: u64,
    resolution: Resolution,
) -> (r: ExtractionResult)
    requires
        resolution@.wf(),
    ensures
        r@ == outcome_from(path@, fingerprint@, size, elapsed_ms, timestamp, resolution@),
        r@.wf(),
{
    let success = match resolution.method {
        Method::Error => false,
        _ => true,
    };
    ExtractionResult {
        id: Option::None,
        file_path: path,
        file_hash: Option::Some(fingerprint),
        file_size: size,
        extraction_method: resolution.method,
        extracted_text: resolution.text,
        page_count: resolution.page_count,
        processing_time_ms: elapsed_ms,
        timestamp,
        success,
        error_message: resolution.error_detail,
    }
}

/// How many tasks carry a fingerprint and so yield an outcome.
pub open spec fn count_hashed(ts: Seq<FileTaskView>) -> int
    decreases ts.len(),
{
    if ts.len() == 0 {
        0
    } else {
        count_hashed(ts.drop_last()) + if ts.last().fingerprint is Some {
            1int
        } else {
            0int
        }
    }
}

/// The outcomes of a whole run, one per fingerprinted task, in task order.
pub open spec fn spec_run_batch(
    text_only: bool,
    ocr_only: bool,
    ts: Seq<FileTaskView>,
) -> Seq<ExtractionResultView>
    decreases ts.len(),
{
    if ts.len() == 0 {
        Seq::<ExtractionResultView>::empty()
    } else {
        spec_run_batch(text_only, ocr_only, ts.drop_last()) + if ts.last().fingerprint is Some {
            seq![spec_outcome(text_only, ocr_only, ts.last())]
        } else {
            Seq::<ExtractionResultView>::empty()
        }
    }
}

/// Exactly one outcome is produced per fingerprinted file, and every
/// outcome is well formed: it is successful exactly when its method is not
/// `Error`, a failed outcome stores no text, and an error detail is
/// recorded exactly on failure.
pub proof fn lemma_run_batch_invariant(text_only: bool, ocr_only: bool, ts: Seq<FileTaskView>)
    ensures
        spec_run_batch(text_only, ocr_only, ts).len() == count_hashed(ts),
        forall|i: int|
            0 <= i < spec_run_batch(text_only, ocr_only, ts).len() ==> (#[trigger] spec_run_batch(
                text_only,
                ocr_only,
                ts,
            )[i]).wf(),
    decreases ts.len(),
{
    if ts.len() > 0 {
        lemma_run_batch_invariant(text_only, ocr_only, ts.drop_last());
        if ts.last().fingerprint is Some {
            lemma_resolution_wf(text_only, ocr_only, ts.last().direct, ts.last().ocr);
        }
    }
}

/// The orchestration engine of one run: the configuration with the two
/// stateless strategy helpers, shared by every in-flight file.
pub struct PdfExtractor {
    /// The run's configuration.
    pub args: Args,
    /// Direct-extraction decisions.
    pub pdf_processor: PdfProcessor,
    /// OCR-side decisions.
    pub ocr_processor: OcrProcessor,
}

impl PdfExtractor {
    /// An engine for one run.
    pub fn new(args: Args) -> (r: PdfExtractor)
        ensures
            r.args@ == args@,
            r.ocr_processor.text_only == args.text_only,
    {
        let text_only = args.text_only;
        PdfExtractor {
            pdf_processor: PdfProcessor::new(),
            ocr_processor: OcrProcessor::new(text_only),
            args,
        }
    }

    /// An engine value for one concurrent task: the same configuration,
    /// fresh stateless helpers.
    pub fn clone_for_task(&self) -> (r: PdfExtractor)
        ensures
            r.args@ == self.args@,
            r.ocr_processor.text_only == self.args.text_only,
    {
        PdfExtractor {
            args: self.args.duplicate(),
            pdf_processor: PdfProcessor::new(),
            ocr_processor: OcrProcessor::new(self.args.text_only),
        }
    }

    /// The degraded-OCR warning is issued once per run, exactly when the
    /// OCR backend is unavailable and the run is not text-only.
    pub fn should_warn_degraded(&self, ocr_available: bool) -> (r: bool)
        ensures
            r == (!ocr_available && !self.args.text_only),
    {
        !ocr_available && !self.args.text_only
    }

    /// The fast fingerprint: hash over size, modification time and the two
    /// sampled chunks.
    pub fn calculate_fast_hash(&self, len: u64, mtime: Option<u64>, content: &Vec<u8>) -> (r:
        String)
        ensures
            r@ == sha256_hex_of(fast_hash_bytes(len, mtime, content@)),
    {
        fingerprint_fast(len, mtime, content)
    }

    /// The full fingerprint: hash over the entire content.
    pub fn calculate_full_hash(&self, content: &Vec<u8>) -> (r: String)
        ensures
            r@ == sha256_hex_of(content@),
    {
        fingerprint_full(content)
    }

    /// The fingerprint under the run's configured mode.
    pub fn calculate_file_hash(&self, len: u64, mtime: Option<u64>, content: &Vec<u8>) -> (r:
        String)
        ensures
            r@ == spec_fingerprint(self.args.full_hash, len, mtime, content@),
    {
        fingerprint_file(self.args.full_hash, len, mtime, content)
    }

    /// The chain's first step: OCR-only runs go straight to OCR, every
    /// other run attempts direct extraction first.
    pub fn start_chain(&self) -> (r: ChainStep)
        ensures
            self.args.ocr_only ==> r matches ChainStep::NeedOcr { fallback: OcrFallback::OcrOnly },
            !self.args.ocr_only ==> r is NeedDirect,
    {
        if self.args.ocr_only {
            ChainStep::NeedOcr { fallback: OcrFallback::OcrOnly }
        } else {
            ChainStep::NeedDirect
        }
    }

    /// Judge the direct attempt: accept substantial text as `direct`; keep
    /// thin text as the fallback and ask for OCR (or accept it as partial
    /// in a text-only run); on a raised error ask for OCR as last resort
    /// (or fail the file in a text-only run).
    pub fn on_direct(&self, attempt: Attempt) -> (r: ChainStep)
        ensures
            match attempt@ {
                AttemptView::Success { text, pages } => {
                    if spec_has_text(text) {
                        r matches ChainStep::Done { resolution } && resolution@
                            == (ResolutionView {
                            text,
                            page_count: pages,
                            method: Method::Direct,
                            error_detail: Option::None,
                        })
                    } else if self.args.text_only {
                        r matches ChainStep::Done { resolution } && resolution@
                            == (ResolutionView {
                            text,
                            page_count: pages,
                            method: Method::DirectPartial,
                            error_detail: Option::None,
                        })
                    } else {
                        r matches ChainStep::NeedOcr { fallback } && fallback@
                            == (OcrFallbackView::AfterThin { text, pages })
                    }
                },
                AttemptView::Failure { message } => {
                    if self.args.text_only {
                        r matches ChainStep::Done { resolution } && resolution@
                            == error_resolution(direct_failed_detail(message))
                    } else {
                        r matches ChainStep::NeedOcr { fallback } && fallback@
                            == (OcrFallbackView::AfterError { detail: message })
                    }
                },
            },
    {
        match attempt {
            Attempt::Success { text, pages } => {
                if self.pdf_processor.has_extractable_text(text.as_str()) {
                    ChainStep::Done {
                        resolution: Resolution {
                            text,
                            page_count: pages,
                            method: Method::Direct,
                            error_detail: Option::None,
                        },
                    }
                } else if self.args.text_only {
                    ChainStep::Done {
                        resolution: Resolution {
                            text,
                            page_count: pages,
                            method: Method::DirectPartial,
                            error_detail: Option::None,
                        },
                    }
                } else {
                    ChainStep::NeedOcr { fallback: OcrFallback::AfterThin { text, pages } }
                }
            },
            Attempt::Failure { message } => {
                if self.args.text_only {
                    let mut d = String::new();
                    d.append("Direct: ");
                    d.append(message.as_str());
                    let resolution = Resolution {
                        text: String::new(),
                        page_count: 0,
                        method: Method::Error,
                        error_detail: Option::Some(d),
                    };
                    proof {
                        assert(resolution@.text =~= Seq::<char>::empty());
                    }
                    ChainStep::Done { resolution }
                } else {
                    ChainStep::NeedOcr { fallback: OcrFallback::AfterError { detail: message } }
                }
            },
        }
    }

    /// Run the whole chain, both attempts' results given: what the file
    /// resolves to. The chain never raises; every combination of attempt
    /// results yields exactly one well-formed resolution.
    pub fn resolve_with(&self, direct: Attempt, ocr: Attempt) -> (r: Resolution)
        ensures
            r@ == spec_resolve(self.args.text_only, self.args.ocr_only, direct@, ocr@),
            r@.wf(),
    {
        proof {
            lemma_resolution_wf(self.args.text_only, self.args.ocr_only, direct@, ocr@);
        }
        match self.start_chain() {
            ChainStep::NeedDirect => {
                match self.on_direct(direct) {
                    ChainStep::Done { resolution } => resolution,
                    ChainStep::NeedOcr { fallback } => on_ocr(fallback, ocr),
                    ChainStep::NeedDirect => {
                        proof {
                            assert(false);
                        }
                        on_ocr(OcrFallback::OcrOnly, ocr)
                    },
                }
            },
            ChainStep::NeedOcr { fallback } => on_ocr(fallback, ocr),
            ChainStep::Done { resolution } => {
                proof {
                    assert(false);
                }
                resolution
            },
        }
    }

    /// Resolve one file from its task: the single outcome of a
    /// fingerprinted file, or nothing when hashing failed and the file is
    /// dropped from the batch.
    pub fn process_single_file(&self, task: &FileTask) -> (r: Option<ExtractionResult>)
        ensures
            match task@.fingerprint {
                Option::Some(_) => r matches Option::Some(o) && o@ == spec_outcome(
                    self.args.text_only,
                    self.args.ocr_only,
                    task@,
                ) && o@.wf(),
                Option::None => r is None,
            },
    {
        match &task.fingerprint {
            Option::None => Option::None,
            Option::Some(fp) => {
                let direct = clone_attempt(&task.direct);
                let ocr = clone_attempt(&task.ocr);
                let resolution = self.resolve_with(direct, ocr);
                Option::Some(
                    make_outcome(
                        task.path.clone(),
                        fp.clone(),
                        task.size,
                        task.elapsed_ms,
                        task.timestamp,
                        resolution,
                    ),
                )
            },
        }
    }

    /// Resolve a whole run's tasks: exactly one outcome per fingerprinted
    /// file, in task order, ready for one atomic batch commit.
    pub fn process_files(&self, tasks: &Vec<FileTask>) -> (r: Vec<ExtractionResult>)
        ensures
            r@.map_values(|o: ExtractionResult| o@) == spec_run_batch(
                self.args.text_only,
                self.args.ocr_only,
                tasks@.map_values(|t: FileTask| t@),
            ),
            forall|i: int| 0 <= i < r@.len() ==> (#[trigger] r@[i])@.wf(),
    {
        let ghost ts = tasks@.map_values(|t: FileTask| t@);
        let mut out: Vec<ExtractionResult> = Vec::new();
        let mut i: usize = 0;
        while i < tasks.len()
            invariant
                0 <= i <= tasks@.len(),
                ts == tasks@.map_values(|t: FileTask| t@),
                out@.map_values(|o: ExtractionResult| o@) == spec_run_batch(
                    self.args.text_only,
                    self.args.ocr_only,
                    ts.take(i as int),
                ),
                forall|j: int| 0 <= j < out@.len() ==> (#[trigger] out@[j])@.wf(),
            decreases tasks@.len() - i,
        {
            assert(tasks@[i as int]@ == ts[i as int]);
            proof {
                assert(ts.take(i + 1).drop_last() =~= ts.take(i as int));
                assert(ts.take(i + 1).last() == ts[i as int]);
            }
            match self.process_single_file(&tasks[i]) {
                Option::Some(outcome) => {
                    out.push(outcome);
                    proof {
                        assert(out@.map_values(|o: ExtractionResult| o@) =~= spec_run_batch(
                            self.args.text_only,
                            self.args.ocr_only,
                            ts.take(i + 1),
                        ));
                    }
                },
                Option::None => {
                    proof {
                        assert(out@.map_values(|o: ExtractionResult| o@) =~= spec_run_batch(
                            self.args.text_only,
                            self.args.ocr_only,
                            ts.take(i + 1),
                        ));
                    }
                },
            }
            i = i + 1;
        }
        proof {
            assert(ts.take(ts.len() as int) =~= ts);
        }
        out
    }
}

} // verus!
