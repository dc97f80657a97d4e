//! The result store model: one row per processed file, keyed by
//! (path, fingerprint), kept ordered by path.
//!
//! The store is the in-memory model of the engine's persisted table. A
//! repeated insert with an already-stored key replaces the row instead of
//! appending a duplicate, and a batch commits as one transaction: its rows
//! become visible all at once, or — if the batch is dropped before the
//! commit — not at all.

use vstd::prelude::*;

use crate::text::{bool_rep, bool_to_str, clone_opt_string, contains_sub, dec_rep, lex_le,
    lemma_lex_le_refl, lemma_lex_le_total, lemma_lex_le_trans, str_contains, str_eq, str_lex_le,
    u64_to_dec};

verus! {

/// Which extraction strategy produced a stored text, or that none did.
#[derive(Clone, Copy, Debug, PartialEq, Eq, Structural)]
pub enum Method {
    /// The document's own text layer, substantial enough to accept.
    Direct,
    /// Optical recognition of the rasterized pages.
    Ocr,
    /// The thin direct text, kept because OCR was unavailable or failed.
    DirectPartial,
    /// No strategy yielded text.
    Error,
}

impl Method {
    /// The method's stored name.
    pub open spec fn spec_name(self) -> Seq<char> {
        match self {
            Method::Direct => "direct"@,
            Method::Ocr => "ocr"@,
            Method::DirectPartial => "direct_partial"@,
            Method::Error => "error"@,
        }
    }

    /// The method's name as a static string.
    pub fn as_str(&self) -> (r: &'static str)
        ensures
            r@ == self.spec_name(),
    {
        match self {
            Method::Direct => "direct",
            Method::Ocr => "ocr",
            Method::DirectPartial => "direct_partial",
            Method::Error => "error",
        }
    }
}

/// The outcome of processing one file, as the store keeps it.
pub struct ExtractionResult {
    /// Storage row id, if the row came back from storage.
    pub id: Option<i64>,
    /// Where the file was found.
    pub file_path: String,
    /// The content fingerprint; with the path it is the dedup key.
    pub file_hash: Option<String>,
    /// File size in bytes.
    pub file_size: u64,
    /// Which strategy produced the text.
    pub extraction_method: Method,
    /// The extracted text; empty when no strategy succeeded.
    pub extracted_text: String,
    /// How many pages the document has.
    pub page_count: usize,
    /// Wall-clock time of the file's whole resolution, in milliseconds.
    pub processing_time_ms: u64,
    /// When the outcome was produced, as seconds since the epoch.
    pub timestamp: u64,
    /// Whether some strategy returned usable text.
    pub success: bool,
    /// The concatenated failure reasons, only when nothing succeeded.
    pub error_message: Option<String>,
}

/// The mathematical image of a stored row.
pub struct ExtractionResultView {
    pub id: Option<i64>,
    pub file_path: Seq<char>,
    pub file_hash: Option<Seq<char>>,
    pub file_size: u64,
    pub extraction_method: Method,
    pub extracted_text: Seq<char>,
    pub page_count: usize,
    pub processing_time_ms: u64,
    pub timestamp: u64,
    pub success: bool,
    pub error_message: Option<Seq<char>>,
}

impl View for ExtractionResult {
    type V = ExtractionResultView;

    open spec fn view(&self) -> ExtractionResultView {
        ExtractionResultView {
            id: self.id,
            file_path: self.file_path@,
            file_hash: match self.file_hash {
                Option::Some(ref h) => Option::Some(h@),
                Option::None => Option::None,
            },
            file_size: self.file_size,
            extraction_method: self.extraction_method,
            extracted_text: self.extracted_text@,
            page_count: self.page_count,
            processing_time_ms: self.processing_time_ms,
            timestamp: self.timestamp,
            success: self.success,
            error_message: match self.error_message {
                Option::Some(ref m) => Option::Some(m@),
                Option::None => Option::None,
            },
        }
    }
}

impl ExtractionResultView {
    /// The per-outcome invariant: success means some strategy produced the
    /// text, failure means no text and a recorded reason.
    pub open spec fn wf(self) -> bool {
        &&& self.success == (self.extraction_method != Method::Error)
        &&& self.extraction_method == Method::Error ==> self.extracted_text.len() == 0
        &&& self.error_message is Some <==> !self.success
    }
}

/// Two rows fall on the same (path, fingerprint) dedup key.
pub open spec fn key_eq(a: ExtractionResultView, b: ExtractionResultView) -> bool {
    a.file_path == b.file_path && a.file_hash == b.file_hash
}

/// Some stored row has the row's key.
pub open spec fn has_key(s: Seq<ExtractionResultView>, r: ExtractionResultView) -> bool {
    exists|i: int| 0 <= i < s.len() && key_eq(#[trigger] s[i], r)
}

/// The store's rows are ordered by path, carry distinct keys, and each
/// satisfies the per-outcome invariant.
pub open spec fn rows_ok(s: Seq<ExtractionResultView>) -> bool {
    &&& forall|i: int, j: int|
        0 <= i < j < s.len() ==> lex_le(#[trigger] s[i].file_path, #[trigger] s[j].file_path)
    &&& forall|i: int, j: int|
        0 <= i < j < s.len() ==> !key_eq(#[trigger] s[i], #[trigger] s[j])
    &&& forall|i: int| 0 <= i < s.len() ==> (#[trigger] s[i]).wf()
}

/// Insert-or-replace: the row replaces the row with its key if one is
/// stored, and otherwise enters at its place in path order, after any
/// stored rows of the same path.
pub open spec fn spec_upsert(
    s: Seq<ExtractionResultView>,
    r: ExtractionResultView,
) -> Seq<ExtractionResultView>
    decreases s.len(),
{
    if s.len() == 0 {
        seq![r]
    } else if key_eq(s[0], r) {
        seq![r] + s.skip(1)
    } else if lex_le(s[0].file_path, r.file_path) {
        seq![s[0]] + spec_upsert(s.skip(1), r)
    } else {
        seq![r] + s
    }
}

/// Every row of the upserted store is the new row or one of the old rows.
proof fn lemma_upsert_elems(s: Seq<ExtractionResultView>, r: ExtractionResultView)
    ensures
        forall|i: int|
            0 <= i < spec_upsert(s, r).len() ==> (#[trigger] spec_upsert(s, r)[i] == r
                || exists|j: int| 0 <= j < s.len() && s[j] == spec_upsert(s, r)[i]),
    decreases s.len(),
{
    if s.len() == 0 {
    } else if key_eq(s[0], r) {
        assert forall|i: int| 0 <= i < spec_upsert(s, r).len() implies (#[trigger] spec_upsert(
            s,
            r,
        )[i] == r || exists|j: int| 0 <= j < s.len() && s[j] == spec_upsert(s, r)[i]) by {
            if i > 0 {
                assert(s[i] == spec_upsert(s, r)[i]);
            }
        }
    } else if lex_le(s[0].file_path, r.file_path) {
        lemma_upsert_elems(s.skip(1), r);
        assert forall|i: int| 0 <= i < spec_upsert(s, r).len() implies (#[trigger] spec_upsert(
            s,
            r,
        )[i] == r || exists|j: int| 0 <= j < s.len() && s[j] == spec_upsert(s, r)[i]) by {
            if i > 0 {
                let e = spec_upsert(s, r)[i];
                assert(e == spec_upsert(s.skip(1), r)[i - 1]);
                if e != r {
                    let j = choose|j: int|
                        0 <= j < s.skip(1).len() && s.skip(1)[j] == spec_upsert(s.skip(1), r)[i
                            - 1];
                    assert(s[j + 1] == e);
                }
            }
        }
    } else {
        assert forall|i: int| 0 <= i < spec_upsert(s, r).len() implies (#[trigger] spec_upsert(
            s,
            r,
        )[i] == r || exists|j: int| 0 <= j < s.len() && s[j] == spec_upsert(s, r)[i]) by {
            if i > 0 {
                assert(s[i - 1] == spec_upsert(s, r)[i]);
            }
        }
    }
}

/// Upserting keeps the store well formed.
proof fn lemma_upsert_ok(s: Seq<ExtractionResultView>, r: ExtractionResultView)
    requires
        rows_ok(s),
        r.wf(),
    ensures
        rows_ok(spec_upsert(s, r)),
    decreases s.len(),
{
    let t = spec_upsert(s, r);
    if s.len() == 0 {
    } else if key_eq(s[0], r) {
        assert(r.file_path == s[0].file_path);
        assert forall|i: int, j: int| 0 <= i < j < t.len() implies lex_le(
            #[trigger] t[i].file_path,
            #[trigger] t[j].file_path,
        ) by {
            if i > 0 {
                assert(t[i] == s[i] && t[j] == s[j]);
            } else {
                assert(t[j] == s[j]);
            }
        }
        assert forall|i: int, j: int| 0 <= i < j < t.len() implies !key_eq(
            #[trigger] t[i],
            #[trigger] t[j],
        ) by {
            if i > 0 {
                assert(t[i] == s[i] && t[j] == s[j]);
            } else {
                assert(t[j] == s[j]);
                assert(!key_eq(s[0], s[j]));
            }
        }
    } else if lex_le(s[0].file_path, r.file_path) {
        lemma_upsert_ok(s.skip(1), r);
        lemma_upsert_elems(s.skip(1), r);
        let u = spec_upsert(s.skip(1), r);
        assert forall|i: int, j: int| 0 <= i < j < t.len() implies lex_le(
            #[trigger] t[i].file_path,
            #[trigger] t[j].file_path,
        ) by {
            if i == 0 {
                let e = t[j];
                assert(e == u[j - 1]);
                if e == r {
                } else {
                    let k = choose|k: int| 0 <= k < s.skip(1).len() && s.skip(1)[k] == u[j - 1];
                    assert(lex_le(s[0].file_path, s[k + 1].file_path));
                }
            } else {
                assert(t[i] == u[i - 1] && t[j] == u[j - 1]);
            }
        }
        assert forall|i: int, j: int| 0 <= i < j < t.len() implies !key_eq(
            #[trigger] t[i],
            #[trigger] t[j],
        ) by {
            if i == 0 {
                let e = t[j];
                assert(e == u[j - 1]);
                if e == r {
                    assert(!key_eq(s[0], r));
                } else {
                    let k = choose|k: int| 0 <= k < s.skip(1).len() && s.skip(1)[k] == u[j - 1];
                    assert(!key_eq(s[0], s[k + 1]));
                }
            } else {
                assert(t[i] == u[i - 1] && t[j] == u[j - 1]);
            }
        }
        assert forall|i: int| 0 <= i < t.len() implies (#[trigger] t[i]).wf() by {
            if i > 0 {
                assert(t[i] == u[i - 1]);
                if t[i] == r {
                } else {
                    let k = choose|k: int| 0 <= k < s.skip(1).len() && s.skip(1)[k] == u[i - 1];
                    assert(s[k + 1].wf());
                }
            }
        }
    } else {
        lemma_lex_le_total(s[0].file_path, r.file_path);
        assert(lex_le(r.file_path, s[0].file_path));
        assert forall|i: int, j: int| 0 <= i < j < t.len() implies lex_le(
            #[trigger] t[i].file_path,
            #[trigger] t[j].file_path,
        ) by {
            if i == 0 {
                assert(t[j] == s[j - 1]);
                if j > 1 {
                    lemma_lex_le_trans(r.file_path, s[0].file_path, s[j - 1].file_path);
                }
            } else {
                assert(t[i] == s[i - 1] && t[j] == s[j - 1]);
            }
        }
        assert forall|i: int, j: int| 0 <= i < j < t.len() implies !key_eq(
            #[trigger] t[i],
            #[trigger] t[j],
        ) by {
            if i == 0 {
                assert(t[j] == s[j - 1]);
                if key_eq(r, s[j - 1]) {
                    assert(r.file_path == s[j - 1].file_path);
                    if j == 1 {
                        lemma_lex_le_refl(r.file_path);
                    } else {
                        lemma_lex_le_refl(s[0].file_path);
                        assert(lex_le(s[0].file_path, s[j - 1].file_path));
                        assert(false);
                    }
                }
            } else {
                assert(t[i] == s[i - 1] && t[j] == s[j - 1]);
            }
        }
    }
}

/// The upserted store keeps the new row's key.
proof fn lemma_upsert_adds(s: Seq<ExtractionResultView>, r: ExtractionResultView)
    ensures
        has_key(spec_upsert(s, r), r),
    decreases s.len(),
{
    let t = spec_upsert(s, r);
    if s.len() == 0 {
        assert(key_eq(t[0], r));
    } else if key_eq(s[0], r) {
        assert(key_eq(t[0], r));
    } else if lex_le(s[0].file_path, r.file_path) {
        lemma_upsert_adds(s.skip(1), r);
        let i = choose|i: int|
            0 <= i < spec_upsert(s.skip(1), r).len() && key_eq(
                #[trigger] spec_upsert(s.skip(1), r)[i],
                r,
            );
        assert(key_eq(t[i + 1], r));
    } else {
        assert(key_eq(t[0], r));
    }
}

/// Upserting keeps every key that the store already had.
proof fn lemma_upsert_keeps(
    s: Seq<ExtractionResultView>,
    r: ExtractionResultView,
    x: ExtractionResultView,
)
    requires
        has_key(s, x),
    ensures
        has_key(spec_upsert(s, r), x),
    decreases s.len(),
{
    let t = spec_upsert(s, r);
    let i = choose|i: int| 0 <= i < s.len() && key_eq(#[trigger] s[i], x);
    if s.len() == 0 {
    } else if key_eq(s[0], r) {
        if i == 0 {
            assert(key_eq(t[0], x));
        } else {
            assert(t[i] == s[i]);
            assert(key_eq(t[i], x));
        }
    } else if lex_le(s[0].file_path, r.file_path) {
        if i == 0 {
            assert(key_eq(t[0], x));
        } else {
            assert(key_eq(s.skip(1)[i - 1], x));
            assert(has_key(s.skip(1), x));
            lemma_upsert_keeps(s.skip(1), r, x);
            let j = choose|j: int|
                0 <= j < spec_upsert(s.skip(1), r).len() && key_eq(
                    #[trigger] spec_upsert(s.skip(1), r)[j],
                    x,
                );
            assert(key_eq(t[j + 1], x));
        }
    } else {
        assert(t[i + 1] == s[i]);
        assert(key_eq(t[i + 1], x));
    }
}

/// Upserting a row whose key is stored keeps the row count; a new key
/// grows it by one.
proof fn lemma_upsert_len(s: Seq<ExtractionResultView>, r: ExtractionResultView)
    requires
        rows_ok(s),
    ensures
        spec_upsert(s, r).len() == if has_key(s, r) {
            s.len() as int
        } else {
            s.len() + 1int
        },
    decreases s.len(),
{
    if s.len() == 0 {
    } else if key_eq(s[0], r) {
        assert(has_key(s, r));
    } else if lex_le(s[0].file_path, r.file_path) {
        lemma_upsert_len(s.skip(1), r);
        if has_key(s, r) {
            let i = choose|i: int| 0 <= i < s.len() && key_eq(#[trigger] s[i], r);
            assert(i > 0);
            assert(key_eq(s.skip(1)[i - 1], r));
            assert(has_key(s.skip(1), r));
        }
        if has_key(s.skip(1), r) {
            let i = choose|i: int| 0 <= i < s.skip(1).len() && key_eq(#[trigger] s.skip(1)[i], r);
            assert(key_eq(s[i + 1], r));
            assert(has_key(s, r));
        }
    } else {
        if has_key(s, r) {
            let i = choose|i: int| 0 <= i < s.len() && key_eq(#[trigger] s[i], r);
            assert(r.file_path == s[i].file_path);
            if i == 0 {
                lemma_lex_le_refl(r.file_path);
            } else {
                lemma_lex_le_refl(s[0].file_path);
                assert(lex_le(s[0].file_path, s[i].file_path));
            }
            assert(false);
        }
    }
}

/// Splitting an upsert at a prefix that neither matches the key nor comes
/// after the row's path.
proof fn lemma_upsert_split(s: Seq<ExtractionResultView>, r: ExtractionResultView, k: int)
    requires
        0 <= k <= s.len(),
        forall|j: int|
            0 <= j < k ==> !key_eq(#[trigger] s[j], r) && lex_le(s[j].file_path, r.file_path),
    ensures
        spec_upsert(s, r) == s.take(k) + spec_upsert(s.skip(k), r),
    decreases k,
{
    if k == 0 {
        assert(s.skip(0) =~= s);
        assert(s.take(0) + spec_upsert(s, r) =~= spec_upsert(s, r));
    } else {
        assert(!key_eq(s[0], r) && lex_le(s[0].file_path, r.file_path));
        lemma_upsert_split(s.skip(1), r, k - 1);
        assert(s.skip(1).skip(k - 1) =~= s.skip(k));
        assert(seq![s[0]] + (s.skip(1).take(k - 1) + spec_upsert(s.skip(k), r)) =~= s.take(k)
            + spec_upsert(s.skip(k), r));
    }
}

/// A whole batch applied in order, row by row.
pub open spec fn spec_upsert_batch(
    s: Seq<ExtractionResultView>,
    b: Seq<ExtractionResultView>,
) -> Seq<ExtractionResultView>
    decreases b.len(),
{
    if b.len() == 0 {
        s
    } else {
        spec_upsert(spec_upsert_batch(s, b.drop_last()), b.last())
    }
}

/// A batch keeps the store well formed.
proof fn lemma_upsert_batch_ok(s: Seq<ExtractionResultView>, b: Seq<ExtractionResultView>)
    requires
        rows_ok(s),
        forall|i: int| 0 <= i < b.len() ==> (#[trigger] b[i]).wf(),
    ensures
        rows_ok(spec_upsert_batch(s, b)),
    decreases b.len(),
{
    if b.len() > 0 {
        lemma_upsert_batch_ok(s, b.drop_last());
        lemma_upsert_ok(spec_upsert_batch(s, b.drop_last()), b.last());
    }
}

/// A batch keeps every key the store already had.
proof fn lemma_upsert_batch_keeps(
    s: Seq<ExtractionResultView>,
    b: Seq<ExtractionResultView>,
    x: ExtractionResultView,
)
    requires
        has_key(s, x),
    ensures
        has_key(spec_upsert_batch(s, b), x),
    decreases b.len(),
{
    if b.len() > 0 {
        lemma_upsert_batch_keeps(s, b.drop_last(), x);
        lemma_upsert_keeps(spec_upsert_batch(s, b.drop_last()), b.last(), x);
    }
}

/// Batch atomicity, seen from after the commit: every row of a committed
/// batch is visible in the store under its key. Before the commit none of
/// the staged rows touches the store at all — staging happens outside it —
/// so a batch abandoned mid-way leaves no partial subset behind.
pub proof fn lemma_batch_all_visible(
    s: Seq<ExtractionResultView>,
    b: Seq<ExtractionResultView>,
    k: int,
)
    requires
        0 <= k < b.len(),
    ensures
        has_key(spec_upsert_batch(s, b), b[k]),
    decreases b.len(),
{
    if k == b.len() - 1 {
        lemma_upsert_adds(spec_upsert_batch(s, b.drop_last()), b.last());
    } else {
        lemma_batch_all_visible(s, b.drop_last(), k);
        lemma_upsert_keeps(spec_upsert_batch(s, b.drop_last()), b.last(), b[k]);
    }
}

/// Idempotence of a re-run: a batch whose every row carries an
/// already-stored (path, fingerprint) key replaces rows instead of
/// appending them, so the row count — and with it `stats().total` — is
/// unchanged.
pub proof fn lemma_batch_rerun_total_unchanged(
    s: Seq<ExtractionResultView>,
    b: Seq<ExtractionResultView>,
)
    requires
        rows_ok(s),
        forall|i: int| 0 <= i < b.len() ==> (#[trigger] b[i]).wf(),
        forall|i: int| 0 <= i < b.len() ==> has_key(s, #[trigger] b[i]),
    ensures
        spec_upsert_batch(s, b).len() == s.len(),
    decreases b.len(),
{
    if b.len() > 0 {
        lemma_batch_rerun_total_unchanged(s, b.drop_last());
        lemma_upsert_batch_ok(s, b.drop_last());
        lemma_upsert_batch_keeps(s, b.drop_last(), b.last());
        lemma_upsert_len(spec_upsert_batch(s, b.drop_last()), b.last());
    }
}

/// Rows staged for one atomic commit. Staged rows are not visible in the
/// store; dropping the batch instead of committing it leaves the store
/// exactly as it was, so no partial subset of a batch can ever be seen.
pub struct Batch {
    staged: Vec<ExtractionResult>,
}

impl View for Batch {
    type V = Seq<ExtractionResultView>;

    closed spec fn view(&self) -> Seq<ExtractionResultView> {
        self.staged@.map_values(|r: ExtractionResult| r@)
    }
}

impl Batch {
    /// Every staged row satisfies the per-outcome invariant.
    pub open spec fn wf(&self) -> bool {
        forall|i: int| 0 <= i < self@.len() ==> (#[trigger] self@[i]).wf()
    }

    /// An empty batch.
    pub fn new() -> (r: Batch)
        ensures
            r@ == Seq::<ExtractionResultView>::empty(),
            r.wf(),
    {
        let r = Batch { staged: Vec::new() };
        proof {
            assert(r@ =~= Seq::<ExtractionResultView>::empty());
        }
        r
    }

    /// Queue one row for the commit. The store does not see it yet.
    pub fn stage(&mut self, row: ExtractionResult)
        requires
            row@.wf(),
        ensures
            final(self)@ == old(self)@.push(row@),
            old(self).wf() ==> final(self).wf(),
    {
        self.staged.push(row);
        proof {
            assert(self@ =~= old(self)@.push(row@));
        }
    }

    /// How many rows are staged.
    pub fn len(&self) -> (r: usize)
        ensures
            r == self@.len(),
    {
        self.staged.len()
    }
}

/// A field-for-field copy of a row.
pub fn clone_result(x: &ExtractionResult) -> (r: ExtractionResult)
    ensures
        r@ == x@,
{
    ExtractionResult {
        id: x.id,
        file_path: x.file_path.clone(),
        file_hash: clone_opt_string(&x.file_hash),
        file_size: x.file_size,
        extraction_method: x.extraction_method,
        extracted_text: x.extracted_text.clone(),
        page_count: x.page_count,
        processing_time_ms: x.processing_time_ms,
        timestamp: x.timestamp,
        success: x.success,
        error_message: clone_opt_string(&x.error_message),
    }
}

/// How many stored rows were successful.
pub open spec fn count_success(s: Seq<ExtractionResultView>) -> int
    decreases s.len(),
{
    if s.len() == 0 {
        0
    } else {
        count_success(s.drop_last()) + if s.last().success {
            1int
        } else {
            0int
        }
    }
}

/// The summed processing time of the successful rows, in milliseconds.
pub open spec fn sum_success_ms(s: Seq<ExtractionResultView>) -> int
    decreases s.len(),
{
    if s.len() == 0 {
        0
    } else {
        sum_success_ms(s.drop_last()) + if s.last().success {
            s.last().processing_time_ms as int
        } else {
            0int
        }
    }
}

proof fn lemma_count_success_le(s: Seq<ExtractionResultView>)
    ensures
        0 <= count_success(s) <= s.len(),
    decreases s.len(),
{
    if s.len() > 0 {
        lemma_count_success_le(s.drop_last());
    }
}

/// Aggregate counts over the store, computed fresh from the rows.
pub struct DatabaseStats {
    /// How many rows are stored.
    pub total: u64,
    /// How many of them were successful.
    pub successful: u64,
    /// How many were not.
    pub failed: u64,
    /// Mean processing time of the successful rows, in milliseconds,
    /// rounded down; zero when no row succeeded.
    pub avg_processing_time_ms: u64,
}

/// How many characters of a row's text a search result shows.
pub const PREVIEW_LEN: usize = 200;

/// One hit of a text search.
pub struct SearchResult {
    /// Where the file was found.
    pub file_path: String,
    /// Which strategy produced the text.
    pub extraction_method: Method,
    /// The first characters of the stored text.
    pub preview: String,
    /// When the row's outcome was produced.
    pub timestamp: u64,
}

/// The mathematical image of a search hit.
pub struct SearchResultView {
    pub file_path: Seq<char>,
    pub extraction_method: Method,
    pub preview: Seq<char>,
    pub timestamp: u64,
}

impl View for SearchResult {
    type V = SearchResultView;

    open spec fn view(&self) -> SearchResultView {
        SearchResultView {
            file_path: self.file_path@,
            extraction_method: self.extraction_method,
            preview: self.preview@,
            timestamp: self.timestamp,
        }
    }
}

/// The search hit a stored row yields.
pub open spec fn entry_of(r: ExtractionResultView) -> SearchResultView {
    SearchResultView {
        file_path: r.file_path,
        extraction_method: r.extraction_method,
        preview: r.extracted_text.take(
            if r.extracted_text.len() < PREVIEW_LEN {
                r.extracted_text.len() as int
            } else {
                PREVIEW_LEN as int
            },
        ),
        timestamp: r.timestamp,
    }
}

/// A row answers a search when it was successful and its text holds the
/// query as a substring, case-sensitively.
pub open spec fn row_matches(r: ExtractionResultView, q: Seq<char>) -> bool {
    r.success && contains_sub(r.extracted_text, q)
}

/// The hits of a search, in stored order.
pub open spec fn spec_matches(s: Seq<ExtractionResultView>, q: Seq<char>) -> Seq<SearchResultView>
    decreases s.len(),
{
    if s.len() == 0 {
        Seq::<SearchResultView>::empty()
    } else {
        spec_matches(s.drop_last(), q) + if row_matches(s.last(), q) {
            seq![entry_of(s.last())]
        } else {
            Seq::<SearchResultView>::empty()
        }
    }
}

/// Insertion into a most-recent-first sequence: the hit enters after every
/// hit at least as recent.
pub open spec fn insert_desc(s: Seq<SearchResultView>, e: SearchResultView) -> Seq<
    SearchResultView,
>
    decreases s.len(),
{
    if s.len() == 0 {
        seq![e]
    } else if s[0].timestamp >= e.timestamp {
        seq![s[0]] + insert_desc(s.skip(1), e)
    } else {
        seq![e] + s
    }
}

/// The hits ordered most-recent-first (stable for equal timestamps).
pub open spec fn sort_desc(s: Seq<SearchResultView>) -> Seq<SearchResultView>
    decreases s.len(),
{
    if s.len() == 0 {
        Seq::<SearchResultView>::empty()
    } else {
        insert_desc(sort_desc(s.drop_last()), s.last())
    }
}

/// Hits ordered most-recent-first: no hit is older than a later one.
pub open spec fn sorted_desc(s: Seq<SearchResultView>) -> bool {
    forall|i: int, j: int|
        0 <= i < j < s.len() ==> (#[trigger] s[i]).timestamp >= (#[trigger] s[j]).timestamp
}

/// Every hit of the inserted sequence is the new hit or one of the old ones.
proof fn lemma_insert_desc_elems(s: Seq<SearchResultView>, e: SearchResultView)
    ensures
        forall|i: int|
            0 <= i < insert_desc(s, e).len() ==> (#[trigger] insert_desc(s, e)[i] == e || exists|j: int|
                0 <= j < s.len() && s[j] == insert_desc(s, e)[i]),
    decreases s.len(),
{
    if s.len() == 0 {
    } else if s[0].timestamp >= e.timestamp {
        lemma_insert_desc_elems(s.skip(1), e);
        assert forall|i: int| 0 <= i < insert_desc(s, e).len() implies (#[trigger] insert_desc(
            s,
            e,
        )[i] == e || exists|j: int| 0 <= j < s.len() && s[j] == insert_desc(s, e)[i]) by {
            if i > 0 {
                let x = insert_desc(s, e)[i];
                assert(x == insert_desc(s.skip(1), e)[i - 1]);
                if x != e {
                    let j = choose|j: int|
                        0 <= j < s.skip(1).len() && s.skip(1)[j] == insert_desc(s.skip(1), e)[i
                            - 1];
                    assert(s[j + 1] == x);
                }
            }
        }
    } else {
        assert forall|i: int| 0 <= i < insert_desc(s, e).len() implies (#[trigger] insert_desc(
            s,
            e,
        )[i] == e || exists|j: int| 0 <= j < s.len() && s[j] == insert_desc(s, e)[i]) by {
            if i > 0 {
                assert(s[i - 1] == insert_desc(s, e)[i]);
            }
        }
    }
}

proof fn lemma_insert_desc_sorted(s: Seq<SearchResultView>, e: SearchResultView)
    requires
        sorted_desc(s),
    ensures
        sorted_desc(insert_desc(s, e)),
    decreases s.len(),
{
    let t = insert_desc(s, e);
    if s.len() == 0 {
    } else if s[0].timestamp >= e.timestamp {
        assert(sorted_desc(s.skip(1)));
        lemma_insert_desc_sorted(s.skip(1), e);
        lemma_insert_desc_elems(s.skip(1), e);
        let u = insert_desc(s.skip(1), e);
        assert forall|i: int, j: int| 0 <= i < j < t.len() implies (#[trigger] t[i]).timestamp >= (
        #[trigger] t[j]).timestamp by {
            if i == 0 {
                let x = t[j];
                assert(x == u[j - 1]);
                if x == e {
                } else {
                    let k = choose|k: int| 0 <= k < s.skip(1).len() && s.skip(1)[k] == u[j - 1];
                    assert(s[0].timestamp >= s[k + 1].timestamp);
                }
            } else {
                assert(t[i] == u[i - 1] && t[j] == u[j - 1]);
            }
        }
    } else {
        assert forall|i: int, j: int| 0 <= i < j < t.len() implies (#[trigger] t[i]).timestamp >= (
        #[trigger] t[j]).timestamp by {
            if i > 0 {
                assert(t[i] == s[i - 1] && t[j] == s[j - 1]);
            } else {
                assert(t[j] == s[j - 1]);
                if j > 1 {
                    assert(s[0].timestamp >= s[j - 1].timestamp);
                }
            }
        }
    }
}

/// The search's ordering, proved of the sequence it answers: the sorted
/// hits are most-recent-first — and so is every prefix that a result
/// limit leaves of them.
pub proof fn lemma_sort_desc_sorted(s: Seq<SearchResultView>)
    ensures
        sorted_desc(sort_desc(s)),
    decreases s.len(),
{
    if s.len() > 0 {
        lemma_sort_desc_sorted(s.drop_last());
        lemma_insert_desc_sorted(sort_desc(s.drop_last()), s.last());
    }
}

proof fn lemma_insert_desc_split(s: Seq<SearchResultView>, e: SearchResultView, k: int)
    requires
        0 <= k <= s.len(),
        forall|j: int| 0 <= j < k ==> (#[trigger] s[j]).timestamp >= e.timestamp,
    ensures
        insert_desc(s, e) == s.take(k) + insert_desc(s.skip(k), e),
    decreases k,
{
    if k == 0 {
        assert(s.skip(0) =~= s);
        assert(s.take(0) + insert_desc(s, e) =~= insert_desc(s, e));
    } else {
        lemma_insert_desc_split(s.skip(1), e, k - 1);
        assert(s.skip(1).skip(k - 1) =~= s.skip(k));
        assert(seq![s[0]] + (s.skip(1).take(k - 1) + insert_desc(s.skip(k), e)) =~= s.take(k)
            + insert_desc(s.skip(k), e));
    }
}

fn clone_search(e: &SearchResult) -> (r: SearchResult)
    ensures
        r@ == e@,
{
    SearchResult {
        file_path: e.file_path.clone(),
        extraction_method: e.extraction_method,
        preview: e.preview.clone(),
        timestamp: e.timestamp,
    }
}

/// The 80-character rule line that delimits report blocks.
pub open spec fn rule_rep() -> Seq<char> {
    "================================================================================"@
}

/// One report block: a header of path, method, success flag and timestamp,
/// a rule line, then the row's text — or its error detail when it failed.
pub open spec fn block_of(r: ExtractionResultView) -> Seq<char> {
    "FILE: "@ + r.file_path + "\n"@ + "METHOD: "@ + r.extraction_method.spec_name() + "\n"@
        + "SUCCESS: "@ + bool_rep(r.success) + "\n"@ + "TIMESTAMP: "@ + dec_rep(
        r.timestamp as int,
    ) + "\n"@ + rule_rep() + "\n"@ + (if r.success && r.extracted_text.len() > 0 {
        r.extracted_text
    } else {
        match r.error_message {
            Option::Some(e) => "ERROR: "@ + e + "\n"@,
            Option::None => Seq::<char>::empty(),
        }
    }) + "\n"@ + rule_rep() + "\n\n"@
}

/// The blocks of all rows, in stored (path) order.
pub open spec fn blocks_of(s: Seq<ExtractionResultView>) -> Seq<char>
    decreases s.len(),
{
    if s.len() == 0 {
        Seq::<char>::empty()
    } else {
        blocks_of(s.drop_last()) + block_of(s.last())
    }
}

/// The whole plain-text report: a title, a rule line, then one block per
/// stored row.
pub open spec fn spec_report(s: Seq<ExtractionResultView>) -> Seq<char> {
    "PDF Text Extraction Results (Rust Edition)\n"@ + rule_rep() + "\n\n"@ + blocks_of(s)
}

fn append_block(out: &mut String, row: &ExtractionResult)
    ensures
        final(out)@ == old(out)@ + block_of(row@),
{
    out.append("FILE: ");
    out.append(row.file_path.as_str());
    out.append("\n");
    out.append("METHOD: ");
    out.append(row.extraction_method.as_str());
    out.append("\n");
    out.append("SUCCESS: ");
    out.append(bool_to_str(row.success));
    out.append("\n");
    out.append("TIMESTAMP: ");
    let ts = u64_to_dec(row.timestamp);
    out.append(ts.as_str());
    out.append("\n");
    out.append("================================================================================");
    out.append("\n");
    if row.success && !row.extracted_text.as_str().is_empty() {
        out.append(row.extracted_text.as_str());
    } else {
        match &row.error_message {
            Option::Some(e) => {
                out.append("ERROR: ");
                out.append(e.as_str());
                out.append("\n");
            },
            Option::None => (),
        }
    }
    out.append("\n");
    out.append("================================================================================");
    out.append("\n\n");
    proof {
        assert(out@ =~= old(out)@ + block_of(row@));
    }
}

/// The verified model of the engine's result store.
pub struct ResultStore {
    rows: Vec<ExtractionResult>,
}

impl View for ResultStore {
    type V = Seq<ExtractionResultView>;

    closed spec fn view(&self) -> Seq<ExtractionResultView> {
        self.rows@.map_values(|r: ExtractionResult| r@)
    }
}

fn same_key(a: &ExtractionResult, b: &ExtractionResult) -> (r: bool)
    ensures
        r == key_eq(a@, b@),
{
    let paths_eq = a.file_path == b.file_path;
    match (&a.file_hash, &b.file_hash) {
        (Option::Some(x), Option::Some(y)) => paths_eq && *x == *y,
        (Option::None, Option::None) => paths_eq,
        _ => false,
    }
}

impl ResultStore {
    /// The store's invariant.
    pub open spec fn inv(&self) -> bool {
        rows_ok(self@)
    }

    /// An empty store.
    pub fn new() -> (r: ResultStore)
        ensures
            r.inv(),
            r@ == Seq::<ExtractionResultView>::empty(),
    {
        let r = ResultStore { rows: Vec::new() };
        proof {
            assert(r@ =~= Seq::<ExtractionResultView>::empty());
        }
        r
    }

    /// How many rows the store holds.
    pub fn len(&self) -> (r: usize)
        ensures
            r == self@.len(),
    {
        self.rows.len()
    }

    /// Insert-or-replace one outcome, keyed by (path, fingerprint).
    pub fn insert_result(&mut self, row: ExtractionResult)
        requires
            old(self).inv(),
            row@.wf(),
        ensures
            final(self).inv(),
            final(self)@ == spec_upsert(old(self)@, row@),
    {
        let ghost s0 = self@;
        let mut i: usize = 0;
        while i < self.rows.len()
            invariant
                self@ == s0,
                old(self)@ == s0,
                rows_ok(s0),
                row@.wf(),
                i <= self.rows.len(),
                self.rows@.len() == s0.len(),
                forall|j: int|
                    0 <= j < i ==> !key_eq(#[trigger] s0[j], row@) && lex_le(
                        s0[j].file_path,
                        row@.file_path,
                    ),
            decreases self.rows.len() - i,
        {
            assert(self.rows@[i as int]@ == s0[i as int]);
            if same_key(&self.rows[i], &row) {
                proof {
                    lemma_upsert_ok(s0, row@);
                    lemma_upsert_split(s0, row@, i as int);
                    assert(s0.skip(i as int)[0] == s0[i as int]);
                    assert(spec_upsert(s0.skip(i as int), row@) =~= seq![row@] + s0.skip(
                        i as int,
                    ).skip(1));
                    assert(s0.skip(i as int).skip(1) =~= s0.skip(i + 1));
                }
                let _replaced = self.rows.remove(i);
                self.rows.insert(i, row);
                proof {
                    assert(self@ =~= s0.take(i as int) + (seq![row@] + s0.skip(i + 1)));
                }
                return;
            }
            if !str_lex_le(self.rows[i].file_path.as_str(), row.file_path.as_str()) {
                proof {
                    lemma_upsert_ok(s0, row@);
                    lemma_upsert_split(s0, row@, i as int);
                    assert(s0.skip(i as int)[0] == s0[i as int]);
                    assert(spec_upsert(s0.skip(i as int), row@) =~= seq![row@] + s0.skip(i as int));
                }
                self.rows.insert(i, row);
                proof {
                    assert(self@ =~= s0.take(i as int) + (seq![row@] + s0.skip(i as int)));
                }
                return;
            }
            i = i + 1;
        }
        proof {
            lemma_upsert_ok(s0, row@);
            lemma_upsert_split(s0, row@, s0.len() as int);
            assert(s0.skip(s0.len() as int) =~= Seq::<ExtractionResultView>::empty());
            assert(spec_upsert(s0.skip(s0.len() as int), row@) =~= seq![row@]);
        }
        self.rows.push(row);
        proof {
            assert(self@ =~= s0.take(s0.len() as int) + seq![row@]);
        }
    }

    /// Commit a staged batch: all of its rows become visible at once, each
    /// replacing any stored row with its key.
    pub fn commit(&mut self, batch: Batch)
        requires
            old(self).inv(),
            batch.wf(),
        ensures
            final(self).inv(),
            final(self)@ == spec_upsert_batch(old(self)@, batch@),
    {
        let ghost s0 = self@;
        let ghost b = batch@;
        let mut i: usize = 0;
        while i < batch.staged.len()
            invariant
                0 <= i <= batch.staged.len(),
                batch@ == b,
                batch.staged@.len() == b.len(),
                batch.wf(),
                self.inv(),
                self@ == spec_upsert_batch(s0, b.take(i as int)),
            decreases batch.staged.len() - i,
        {
            assert(batch.staged@[i as int]@ == b[i as int]);
            let row = clone_result(&batch.staged[i]);
            self.insert_result(row);
            proof {
                assert(b.take(i + 1).drop_last() =~= b.take(i as int));
                assert(b.take(i + 1).last() == b[i as int]);
            }
            i = i + 1;
        }
        proof {
            assert(b.take(b.len() as int) =~= b);
        }
    }

    /// Insert-or-replace a whole run's outcomes as one atomic batch.
    pub fn batch_insert(&mut self, results: &Vec<ExtractionResult>)
        requires
            old(self).inv(),
            forall|i: int| 0 <= i < results@.len() ==> (#[trigger] results@[i])@.wf(),
        ensures
            final(self).inv(),
            final(self)@ == spec_upsert_batch(
                old(self)@,
                results@.map_values(|r: ExtractionResult| r@),
            ),
    {
        let ghost b = results@.map_values(|r: ExtractionResult| r@);
        let mut batch = Batch::new();
        let mut i: usize = 0;
        while i < results.len()
            invariant
                0 <= i <= results@.len(),
                b == results@.map_values(|r: ExtractionResult| r@),
                forall|j: int| 0 <= j < results@.len() ==> (#[trigger] results@[j])@.wf(),
                batch@ == b.take(i as int),
                batch.wf(),
            decreases results@.len() - i,
        {
            batch.stage(clone_result(&results[i]));
            proof {
                assert(batch@ =~= b.take(i + 1));
            }
            i = i + 1;
        }
        proof {
            assert(b.take(b.len() as int) =~= b);
        }
        self.commit(batch);
    }

    /// Counts and mean successful processing time, computed fresh from the
    /// stored rows on each call.
    pub fn get_stats(&self) -> (r: DatabaseStats)
        ensures
            r.total == self@.len(),
            r.successful == count_success(self@),
            r.failed == self@.len() - count_success(self@),
            r.avg_processing_time_ms == if count_success(self@) == 0 {
                0int
            } else {
                sum_success_ms(self@) / count_success(self@)
            },
    {
        let n = self.rows.len();
        let mut cnt: u64 = 0;
        let mut sum: u128 = 0;
        let mut i: usize = 0;
        while i < n
            invariant
                n == self@.len(),
                self.rows@.len() == self@.len(),
                0 <= i <= n,
                cnt == count_success(self@.take(i as int)),
                sum == sum_success_ms(self@.take(i as int)),
                cnt <= i,
                sum <= cnt * (u64::MAX as u128),
            decreases n - i,
        {
            assert(self.rows@[i as int]@ == self@[i as int]);
            proof {
                assert(self@.take(i + 1).drop_last() =~= self@.take(i as int));
                assert(self@.take(i + 1).last() == self@[i as int]);
            }
            let row = &self.rows[i];
            if row.success {
                let ghost c0 = cnt as int;
                let ghost s0 = sum as int;
                let ghost m = row.processing_time_ms as int;
                assert(s0 + m <= (c0 + 1) * (u64::MAX as int)) by (nonlinear_arith)
                    requires
                        s0 <= c0 * (u64::MAX as int),
                        0 <= m <= u64::MAX as int,
                        0 <= c0,
                ;
                assert((c0 + 1) * (u64::MAX as int) < u128::MAX as int) by (nonlinear_arith)
                    requires
                        0 <= c0 <= u64::MAX as int,
                ;
                cnt = cnt + 1;
                sum = sum + (row.processing_time_ms as u128);
            }
            i = i + 1;
        }
        proof {
            assert(self@.take(n as int) =~= self@);
            lemma_count_success_le(self@);
        }
        let avg: u64 = if cnt == 0 {
            0
        } else {
            let ghost c0 = cnt as int;
            let ghost s0 = sum as int;
            assert(s0 / c0 <= u64::MAX as int) by (nonlinear_arith)
                requires
                    0 < c0,
                    0 <= s0 <= c0 * (u64::MAX as int),
            ;
            (sum / (cnt as u128)) as u64
        };
        DatabaseStats { total: n as u64, successful: cnt, failed: n as u64 - cnt, avg_processing_time_ms: avg }
    }

    /// Case-sensitive substring search over the successful rows' texts:
    /// the hits ordered most-recent-first, at most `limit` of them, each
    /// with a preview of the stored text.
    pub fn search_text(&self, query: &str, limit: usize) -> (r: Vec<SearchResult>)
        ensures
            r@.map_values(|e: SearchResult| e@) == sort_desc(spec_matches(self@, query@)).take(
                if limit < spec_matches(self@, query@).len() {
                    limit as int
                } else {
                    spec_matches(self@, query@).len() as int
                },
            ),
    {
        let ghost q = query@;
        let mut matched: Vec<SearchResult> = Vec::new();
        let mut i: usize = 0;
        while i < self.rows.len()
            invariant
                0 <= i <= self.rows@.len(),
                self.rows@.len() == self@.len(),
                self@ == self.rows@.map_values(|x: ExtractionResult| x@),
                q == query@,
                matched@.map_values(|e: SearchResult| e@) == spec_matches(
                    self@.take(i as int),
                    q,
                ),
            decreases self.rows@.len() - i,
        {
            assert(self.rows@[i as int]@ == self@[i as int]);
            proof {
                assert(self@.take(i + 1).drop_last() =~= self@.take(i as int));
                assert(self@.take(i + 1).last() == self@[i as int]);
            }
            let row = &self.rows[i];
            if row.success && str_contains(row.extracted_text.as_str(), query) {
                let text = row.extracted_text.as_str();
                let n = text.unicode_len();
                let end = if n < PREVIEW_LEN {
                    n
                } else {
                    PREVIEW_LEN
                };
                let hit = SearchResult {
                    file_path: row.file_path.clone(),
                    extraction_method: row.extraction_method,
                    preview: text.substring_char(0, end).to_owned(),
                    timestamp: row.timestamp,
                };
                assert(hit@ == entry_of(self@[i as int])) by {
                    assert(hit@.preview =~= entry_of(self@[i as int]).preview);
                }
                matched.push(hit);
                proof {
                    assert(matched@.map_values(|e: SearchResult| e@) =~= spec_matches(
                        self@.take(i + 1),
                        q,
                    ));
                }
            } else {
                proof {
                    assert(matched@.map_values(|e: SearchResult| e@) =~= spec_matches(
                        self@.take(i + 1),
                        q,
                    ));
                }
            }
            i = i + 1;
        }
        proof {
            assert(self@.take(self@.len() as int) =~= self@);
        }
        let ghost ms = matched@.map_values(|e: SearchResult| e@);
        let mut sorted: Vec<SearchResult> = Vec::new();
        let mut j: usize = 0;
        while j < matched.len()
            invariant
                0 <= j <= matched@.len(),
                ms == matched@.map_values(|e: SearchResult| e@),
                sorted@.map_values(|e: SearchResult| e@) == sort_desc(ms.take(j as int)),
                sorted@.len() == j,
            decreases matched@.len() - j,
        {
            assert(matched@[j as int]@ == ms[j as int]);
            let e = clone_search(&matched[j]);
            let ghost sv = sorted@.map_values(|x: SearchResult| x@);
            let mut k: usize = 0;
            while k < sorted.len() && sorted[k].timestamp >= e.timestamp
                invariant
                    0 <= k <= sorted@.len(),
                    sv == sorted@.map_values(|x: SearchResult| x@),
                    e@ == ms[j as int],
                    forall|t: int| 0 <= t < k ==> (#[trigger] sv[t]).timestamp >= e@.timestamp,
                decreases sorted@.len() - k,
            {
                assert(sorted@[k as int]@ == sv[k as int]);
                k = k + 1;
            }
            assert(k < sorted@.len() ==> sv[k as int].timestamp < e@.timestamp);
            proof {
                lemma_insert_desc_split(sv, e@, k as int);
                if k < sv.len() {
                    assert(insert_desc(sv.skip(k as int), e@) =~= seq![e@] + sv.skip(k as int));
                } else {
                    assert(sv.skip(k as int) =~= Seq::<SearchResultView>::empty());
                    assert(insert_desc(sv.skip(k as int), e@) =~= seq![e@]);
                }
            }
            sorted.insert(k, e);
            proof {
                assert(sorted@.map_values(|x: SearchResult| x@) =~= sv.take(k as int) + insert_desc(
                    sv.skip(k as int),
                    e@,
                ));
                assert(ms.take(j + 1).drop_last() =~= ms.take(j as int));
                assert(ms.take(j + 1).last() == ms[j as int]);
            }
            j = j + 1;
        }
        proof {
            assert(ms.take(ms.len() as int) =~= ms);
        }
        sorted.truncate(limit);
        sorted
    }

    /// The plain-text report over every stored row, ordered by path (the
    /// store keeps its rows in path order): per row a header block and the
    /// row's text or error detail, delimited by rule lines.
    pub fn export_report(&self) -> (r: String)
        ensures
            r@ == spec_report(self@),
    {
        let mut out = String::new();
        out.append("PDF Text Extraction Results (Rust Edition)\n");
        out.append(
            "================================================================================",
        );
        out.append("\n\n");
        let ghost header = "PDF Text Extraction Results (Rust Edition)\n"@ + rule_rep() + "\n\n"@;
        proof {
            assert(out@ =~= header);
        }
        let mut i: usize = 0;
        while i < self.rows.len()
            invariant
                0 <= i <= self.rows@.len(),
                self.rows@.len() == self@.len(),
                self@ == self.rows@.map_values(|x: ExtractionResult| x@),
                header == "PDF Text Extraction Results (Rust Edition)\n"@ + rule_rep() + "\n\n"@,
                out@ == header + blocks_of(self@.take(i as int)),
            decreases self.rows@.len() - i,
        {
            assert(self.rows@[i as int]@ == self@[i as int]);
            proof {
                assert(self@.take(i + 1).drop_last() =~= self@.take(i as int));
                assert(self@.take(i + 1).last() == self@[i as int]);
            }
            append_block(&mut out, &self.rows[i]);
            proof {
                assert(out@ =~= header + blocks_of(self@.take(i + 1)));
            }
            i = i + 1;
        }
        proof {
            assert(self@.take(self@.len() as int) =~= self@);
        }
        out
    }

    /// Whether a row with this (path, fingerprint) key is stored: the
    /// "already processed" fast path honored when no force flag is set.
    pub fn file_exists(&self, file_path: &str, file_hash: &str) -> (r: bool)
        ensures
            r == exists|i: int|
                0 <= i < self@.len() && (#[trigger] self@[i]).file_path == file_path@
                    && self@[i].file_hash == Option::Some(file_hash@),
    {
        let mut i: usize = 0;
        while i < self.rows.len()
            invariant
                i <= self.rows.len(),
                forall|j: int|
                    0 <= j < i ==> !((#[trigger] self@[j]).file_path == file_path@
                        && self@[j].file_hash == Option::Some(file_hash@)),
            decreases self.rows.len() - i,
        {
            assert(self.rows@[i as int]@ == self@[i as int]);
            let row = &self.rows[i];
            let path_eq = str_eq(row.file_path.as_str(), file_path);
            let hash_eq = match &row.file_hash {
                Option::Some(h) => str_eq(h.as_str(), file_hash),
                Option::None => false,
            };
            if path_eq && hash_eq {
                return true;
            }
            i = i + 1;
        }
        false
    }
}

} // verus!
