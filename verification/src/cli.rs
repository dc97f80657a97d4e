//! Run configuration.

use vstd::prelude::*;

verus! {

/// Configuration of one extraction run.
///
/// `text_only` and `ocr_only` select the strategy chain: with `text_only`
/// only direct extraction is attempted, with `ocr_only` only OCR; with
/// neither, the direct-then-OCR fallback chain runs. The two are exclusive
/// in effect; should both be set, `ocr_only` decides the chain.
#[derive(Debug)]
pub struct Args {
    /// Number of worker permits: the bound on simultaneously in-flight files.
    pub threads: usize,
    /// Database file location.
    pub database: String,
    /// Root directory searched for input files.
    pub input_dir: String,
    /// Where to write the plain-text report, if anywhere.
    pub export_txt: Option<String>,
    /// Fingerprint the whole file content instead of the fast sample.
    pub full_hash: bool,
    /// Never invoke OCR, not even as a fallback.
    pub text_only: bool,
    /// Skip direct extraction entirely and go straight to OCR.
    pub ocr_only: bool,
    /// Re-process files whose (path, fingerprint) is already stored.
    pub force: bool,
    /// Verbose logging.
    pub verbose: bool,
}

/// The mathematical image of a configuration.
pub struct ArgsView {
    pub threads: usize,
    pub database: Seq<char>,
    pub input_dir: Seq<char>,
    pub export_txt: Option<Seq<char>>,
    pub full_hash: bool,
    pub text_only: bool,
    pub ocr_only: bool,
    pub force: bool,
    pub verbose: bool,
}

impl View for Args {
    type V = ArgsView;

    open spec fn view(&self) -> ArgsView {
        ArgsView {
            threads: self.threads,
            database: self.database@,
            input_dir: self.input_dir@,
            export_txt: match self.export_txt {
                Option::Some(ref p) => Option::Some(p@),
                Option::None => Option::None,
            },
            full_hash: self.full_hash,
            text_only: self.text_only,
            ocr_only: self.ocr_only,
            force: self.force,
            verbose: self.verbose,
        }
    }
}

impl Args {
    /// A copy of the configuration, field for field.
    pub fn duplicate(&self) -> (r: Args)
        ensures
            r@ == self@,
    {
        Args {
            threads: self.threads,
            database: self.database.clone(),
            input_dir: self.input_dir.clone(),
            export_txt: crate::text::clone_opt_string(&self.export_txt),
            full_hash: self.full_hash,
            text_only: self.text_only,
            ocr_only: self.ocr_only,
            force: self.force,
            verbose: self.verbose,
        }
    }

    /// The scheduler's concurrency limit: the configured worker count,
    /// with a minimum of one.
    pub fn concurrency_limit(&self) -> (r: usize)
        ensures
            r == if self.threads >= 1 { self.threads as int } else { 1int },
            r >= 1,
    {
        if self.threads >= 1 {
            self.threads
        } else {
            1
        }
    }
}

} // verus!
