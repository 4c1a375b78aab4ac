//! Per-corpus settings: the overrides a corpus keeps, the form that edits
//! them, and the check of saved settings against the last index build.

use vstd::prelude::*;
use crate::numbers::{
    decimal_digits, format_decimal, law_parse_unsigned_of_digits, parse_unsigned_spec, parse_usize,
};
use crate::text::{
    bool_str, bool_text, join3, error_message, owned, push_all, same_text, starts_with,
    occurs_at, trim, trimmed,
};

verus! {

/// The overrides a corpus keeps; `None` falls back to the global value.
/// The semantic similarity threshold, a float, travels beside this record.
#[derive(Clone, Debug, PartialEq, Eq)]
pub struct CorpusSettings {
    pub search_top_k: Option<usize>,
    pub chunker_mode: Option<String>,
    pub distance_metric: Option<String>,
    pub hnsw_ef_construction: Option<usize>,
    pub hnsw_ef_search: Option<usize>,
    pub pq_subvectors: Option<usize>,
    pub native_pdf_enabled: Option<bool>,
    pub target_size: Option<usize>,
    pub min_size: Option<usize>,
    pub max_size: Option<usize>,
    pub overlap: Option<usize>,
    pub context_prefix_enabled: Option<bool>,
    pub context_prefix_tokens: Option<usize>,
    pub pipeline_stages: Option<String>,
}

/// Corpus overrides, as plain values.
pub struct CorpusSettingsView {
    pub search_top_k: Option<usize>,
    pub chunker_mode: Option<Seq<char>>,
    pub distance_metric: Option<Seq<char>>,
    pub hnsw_ef_construction: Option<usize>,
    pub hnsw_ef_search: Option<usize>,
    pub pq_subvectors: Option<usize>,
    pub native_pdf_enabled: Option<bool>,
    pub target_size: Option<usize>,
    pub min_size: Option<usize>,
    pub max_size: Option<usize>,
    pub overlap: Option<usize>,
    pub context_prefix_enabled: Option<bool>,
    pub context_prefix_tokens: Option<usize>,
    pub pipeline_stages: Option<Seq<char>>,
}

/// The text of an optional string.
pub open spec fn opt_text(o: Option<String>) -> Option<Seq<char>> {
    match o {
        Some(s) => Some(s@),
        None => None,
    }
}

impl View for CorpusSettings {
    type V = CorpusSettingsView;

    open spec fn view(&self) -> CorpusSettingsView {
        CorpusSettingsView {
            search_top_k: self.search_top_k,
            chunker_mode: opt_text(self.chunker_mode),
            distance_metric: opt_text(self.distance_metric),
            hnsw_ef_construction: self.hnsw_ef_construction,
            hnsw_ef_search: self.hnsw_ef_search,
            pq_subvectors: self.pq_subvectors,
            native_pdf_enabled: self.native_pdf_enabled,
            target_size: self.target_size,
            min_size: self.min_size,
            max_size: self.max_size,
            overlap: self.overlap,
            context_prefix_enabled: self.context_prefix_enabled,
            context_prefix_tokens: self.context_prefix_tokens,
            pipeline_stages: opt_text(self.pipeline_stages),
        }
    }
}

impl CorpusSettings {
    /// No overrides at all.
    pub fn none() -> (s: CorpusSettings)
        ensures
            s@ == (CorpusSettingsView {
                search_top_k: None,
                chunker_mode: None,
                distance_metric: None,
                hnsw_ef_construction: None,
                hnsw_ef_search: None,
                pq_subvectors: None,
                native_pdf_enabled: None,
                target_size: None,
                min_size: None,
                max_size: None,
                overlap: None,
                context_prefix_enabled: None,
                context_prefix_tokens: None,
                pipeline_stages: None,
            }),
    {
        CorpusSettings {
            search_top_k: None,
            chunker_mode: None,
            distance_metric: None,
            hnsw_ef_construction: None,
            hnsw_ef_search: None,
            pq_subvectors: None,
            native_pdf_enabled: None,
            target_size: None,
            min_size: None,
            max_size: None,
            overlap: None,
            context_prefix_enabled: None,
            context_prefix_tokens: None,
            pipeline_stages: None,
        }
    }
}

/// The text fields of the per-corpus form, as typed.
#[derive(Clone, Debug, PartialEq, Eq)]
pub struct CorpusForm {
    pub top_k: String,
    pub chunker_mode: String,
    pub metric: String,
    pub ef_construction: String,
    pub ef_search: String,
    pub pq: String,
    /// `true`, `false`, or empty to inherit the global setting.
    pub native_pdf: String,
}

/// The per-corpus form, as plain values.
pub struct CorpusFormView {
    pub top_k: Seq<char>,
    pub chunker_mode: Seq<char>,
    pub metric: Seq<char>,
    pub ef_construction: Seq<char>,
    pub ef_search: Seq<char>,
    pub pq: Seq<char>,
    pub native_pdf: Seq<char>,
}

impl View for CorpusForm {
    type V = CorpusFormView;

    open spec fn view(&self) -> CorpusFormView {
        CorpusFormView {
            top_k: self.top_k@,
            chunker_mode: self.chunker_mode@,
            metric: self.metric@,
            ef_construction: self.ef_construction@,
            ef_search: self.ef_search@,
            pq: self.pq@,
            native_pdf: self.native_pdf@,
        }
    }
}

impl CorpusForm {
    /// The form with every field empty, as after switching corpus.
    pub fn blank() -> (f: CorpusForm)
        ensures
            f@.top_k.len() == 0,
            f@.chunker_mode.len() == 0,
            f@.metric.len() == 0,
            f@.ef_construction.len() == 0,
            f@.ef_search.len() == 0,
            f@.pq.len() == 0,
            f@.native_pdf.len() == 0,
    {
        CorpusForm {
            top_k: String::new(),
            chunker_mode: String::new(),
            metric: String::new(),
            ef_construction: String::new(),
            ef_search: String::new(),
            pq: String::new(),
            native_pdf: String::new(),
        }
    }
}

/// A count in a form field: its digits, or empty when unset.
pub open spec fn count_text(o: Option<usize>) -> Seq<char> {
    match o {
        Some(v) => decimal_digits(v as nat),
        None => Seq::empty(),
    }
}

/// A count for a form field.
pub fn count_field(o: Option<usize>) -> (r: String)
    ensures
        r@ == count_text(o),
{
    match o {
        Some(v) => format_decimal(v as u64),
        None => String::new(),
    }
}

/// An optional text for a form field, empty when unset.
pub open spec fn opt_field_text(o: Option<Seq<char>>) -> Seq<char> {
    match o {
        Some(v) => v,
        None => Seq::empty(),
    }
}

/// An optional string for a form field.
fn text_field(o: &Option<String>) -> (r: String)
    ensures
        r@ == opt_field_text(opt_text(*o)),
{
    match o {
        Some(v) => v.clone(),
        None => String::new(),
    }
}

/// A tri-state flag in a form field: `true`, `false`, or empty when unset.
pub open spec fn flag_text(o: Option<bool>) -> Seq<char> {
    match o {
        Some(b) => bool_text(b),
        None => Seq::empty(),
    }
}

/// A tri-state flag for a form field.
pub fn flag_field(o: Option<bool>) -> (r: String)
    ensures
        r@ == flag_text(o),
{
    match o {
        Some(b) => owned(bool_str(b)),
        None => String::new(),
    }
}

/// The form showing the overrides `s`.
pub open spec fn form_of_settings(s: CorpusSettingsView) -> CorpusFormView {
    CorpusFormView {
        top_k: count_text(s.search_top_k),
        chunker_mode: opt_field_text(s.chunker_mode),
        metric: opt_field_text(s.distance_metric),
        ef_construction: count_text(s.hnsw_ef_construction),
        ef_search: count_text(s.hnsw_ef_search),
        pq: count_text(s.pq_subvectors),
        native_pdf: flag_text(s.native_pdf_enabled),
    }
}

/// The form showing a corpus' overrides.
pub fn form_from_settings(s: &CorpusSettings) -> (f: CorpusForm)
    ensures
        f@ == form_of_settings(s@),
{
    CorpusForm {
        top_k: count_field(s.search_top_k),
        chunker_mode: text_field(&s.chunker_mode),
        metric: text_field(&s.distance_metric),
        ef_construction: count_field(s.hnsw_ef_construction),
        ef_search: count_field(s.hnsw_ef_search),
        pq: count_field(s.pq_subvectors),
        native_pdf: flag_field(s.native_pdf_enabled),
    }
}

/// A count typed in a form field: set when it parses as a `usize`.
pub open spec fn count_of_text(t: Seq<char>) -> Option<usize> {
    match parse_unsigned_spec(t, usize::MAX as nat) {
        Some(v) => Some(v as usize),
        None => None,
    }
}

/// A count typed in a form field.
pub fn count_from_field(t: &str) -> (r: Option<usize>)
    ensures
        r == count_of_text(t@),
{
    parse_usize(t)
}

/// A text typed in a form field: set unless empty.
pub open spec fn text_of_field(t: Seq<char>) -> Option<Seq<char>> {
    if t.len() == 0 { None } else { Some(t) }
}

/// A text typed in a form field.
fn text_from_field(t: &String) -> (r: Option<String>)
    ensures
        opt_text(r) == text_of_field(t@),
{
    if t.as_str().is_empty() {
        None
    } else {
        Some(t.clone())
    }
}

/// A tri-state flag typed in a form field: `true`, `false`, or unset.
pub open spec fn flag_of_text(t: Seq<char>) -> Option<bool> {
    if t == "true"@ {
        Some(true)
    } else if t == "false"@ {
        Some(false)
    } else {
        None
    }
}

/// A tri-state flag typed in a form field.
pub fn flag_from_field(t: &str) -> (r: Option<bool>)
    ensures
        r == flag_of_text(t@),
{
    if same_text(t, "true") {
        Some(true)
    } else if same_text(t, "false") {
        Some(false)
    } else {
        None
    }
}

/// The overrides a filled-in form saves; the chunker sizes and stages are
/// left unset.
pub open spec fn settings_of_form(f: CorpusFormView) -> CorpusSettingsView {
    CorpusSettingsView {
        search_top_k: count_of_text(f.top_k),
        chunker_mode: text_of_field(f.chunker_mode),
        distance_metric: text_of_field(f.metric),
        hnsw_ef_construction: count_of_text(f.ef_construction),
        hnsw_ef_search: count_of_text(f.ef_search),
        pq_subvectors: count_of_text(f.pq),
        native_pdf_enabled: flag_of_text(f.native_pdf),
        target_size: None,
        min_size: None,
        max_size: None,
        overlap: None,
        context_prefix_enabled: None,
        context_prefix_tokens: None,
        pipeline_stages: None,
    }
}

/// The overrides a filled-in form saves.
pub fn settings_from_form(f: &CorpusForm) -> (s: CorpusSettings)
    ensures
        s@ == settings_of_form(f@),
{
    CorpusSettings {
        search_top_k: count_from_field(f.top_k.as_str()),
        chunker_mode: text_from_field(&f.chunker_mode),
        distance_metric: text_from_field(&f.metric),
        hnsw_ef_construction: count_from_field(f.ef_construction.as_str()),
        hnsw_ef_search: count_from_field(f.ef_search.as_str()),
        pq_subvectors: count_from_field(f.pq.as_str()),
        native_pdf_enabled: flag_from_field(f.native_pdf.as_str()),
        target_size: None,
        min_size: None,
        max_size: None,
        overlap: None,
        context_prefix_enabled: None,
        context_prefix_tokens: None,
        pipeline_stages: None,
    }
}

/// A count shown in the form and saved again is the same count.
pub proof fn lemma_count_round_trip(o: Option<usize>)
    ensures
        count_of_text(count_text(o)) == o,
{
    match o {
        Some(v) => {
            law_parse_unsigned_of_digits(v as nat, usize::MAX as nat);
        },
        None => {
            assert(crate::numbers::without_plus(Seq::<char>::empty()) =~= Seq::<char>::empty());
        },
    }
}

/// Showing a corpus' overrides in the form and saving the form unchanged
/// keeps every override the form edits (an empty text override is saved
/// as unset, since the form cannot tell it from none).
pub proof fn law_form_round_trip(s: CorpusSettingsView)
    requires
        s.chunker_mode != Some(Seq::<char>::empty()),
        s.distance_metric != Some(Seq::<char>::empty()),
    ensures
        ({
            let back = settings_of_form(form_of_settings(s));
            &&& back.search_top_k == s.search_top_k
            &&& back.chunker_mode == s.chunker_mode
            &&& back.distance_metric == s.distance_metric
            &&& back.hnsw_ef_construction == s.hnsw_ef_construction
            &&& back.hnsw_ef_search == s.hnsw_ef_search
            &&& back.pq_subvectors == s.pq_subvectors
            &&& back.native_pdf_enabled == s.native_pdf_enabled
        }),
{
    reveal_strlit("true");
    reveal_strlit("false");
    if let Some(m) = s.chunker_mode {
        if m.len() == 0 {
            assert(m =~= Seq::<char>::empty());
        }
    }
    if let Some(m) = s.distance_metric {
        if m.len() == 0 {
            assert(m =~= Seq::<char>::empty());
        }
    }
    lemma_count_round_trip(s.search_top_k);
    lemma_count_round_trip(s.hnsw_ef_construction);
    lemma_count_round_trip(s.hnsw_ef_search);
    lemma_count_round_trip(s.pq_subvectors);
    assert("true"@ != "false"@) by {
        assert("true"@.len() != "false"@.len());
    }
    assert(Seq::<char>::empty() != "true"@ && Seq::<char>::empty() != "false"@) by {
        assert("true"@.len() == 4);
        assert("false"@.len() == 5);
    }
}


/// What the index of a corpus was last built with.
#[derive(Clone, Debug, PartialEq, Eq)]
pub struct CorpusBuildMeta {
    pub built_at: Option<String>,
    pub distance_metric: Option<String>,
    pub hnsw_ef_construction: Option<usize>,
    pub hnsw_ef_search: Option<usize>,
    pub pq_subvectors: Option<usize>,
}

/// The build record, as plain values.
pub struct CorpusBuildMetaView {
    pub built_at: Option<Seq<char>>,
    pub distance_metric: Option<Seq<char>>,
    pub hnsw_ef_construction: Option<usize>,
    pub hnsw_ef_search: Option<usize>,
    pub pq_subvectors: Option<usize>,
}

impl View for CorpusBuildMeta {
    type V = CorpusBuildMetaView;

    open spec fn view(&self) -> CorpusBuildMetaView {
        CorpusBuildMetaView {
            built_at: opt_text(self.built_at),
            distance_metric: opt_text(self.distance_metric),
            hnsw_ef_construction: self.hnsw_ef_construction,
            hnsw_ef_search: self.hnsw_ef_search,
            pq_subvectors: self.pq_subvectors,
        }
    }
}

/// How the saved settings differ from the last build.
#[derive(Clone, Copy, Debug, PartialEq, Eq)]
pub struct Drift {
    /// The metric, `ef_construction` or the PQ subvectors changed: a reindex is needed.
    pub needs_reindex: bool,
    /// `ef_search` changed: this applies from the next search on.
    pub ef_search_changed: bool,
}

/// The default distance metric.
pub open spec fn default_metric() -> Seq<char> {
    "cosine"@
}

/// The metric the form stands for: its own, or the default when empty.
pub open spec fn form_metric(f: CorpusFormView) -> Seq<char> {
    if f.metric.len() == 0 { default_metric() } else { f.metric }
}

/// A count from the form, or the default `d` when the field does not parse.
pub open spec fn count_or(t: Seq<char>, d: usize) -> usize {
    match count_of_text(t) {
        Some(v) => v,
        None => d,
    }
}

/// An optional count, or the default `d`.
pub open spec fn opt_or(o: Option<usize>, d: usize) -> usize {
    match o {
        Some(v) => v,
        None => d,
    }
}

/// Whether (and how) the form differs from the last build, where the
/// defaults are the cosine metric, `ef_construction` and `ef_search` of 100
/// and 48 PQ subvectors. A corpus never built shows no drift.
pub open spec fn drift_of(f: CorpusFormView, m: CorpusBuildMetaView) -> Option<(bool, bool)> {
    if m.built_at is None {
        None
    } else {
        let built_metric = match m.distance_metric {
            Some(v) => v,
            None => default_metric(),
        };
        let needs = form_metric(f) != built_metric
            || count_or(f.ef_construction, 100) != opt_or(m.hnsw_ef_construction, 100)
            || count_or(f.pq, 48) != opt_or(m.pq_subvectors, 48);
        let ef_s = count_or(f.ef_search, 100) != opt_or(m.hnsw_ef_search, 100);
        if needs || ef_s {
            Some((needs, ef_s))
        } else {
            None
        }
    }
}

/// What the drift check reports, over the raw fields: for a built corpus, a
/// reindex is needed exactly when the metric (empty meaning cosine), the
/// `ef_construction` (unparsable meaning 100) or the PQ subvectors
/// (unparsable meaning 48) differ from the build's (unset meaning the same
/// defaults); `ef_search` (default 100) is reported on its own; nothing is
/// reported when neither differs or the corpus was never built.
pub proof fn law_drift_reports_changes(f: CorpusFormView, m: CorpusBuildMetaView)
    ensures
        m.built_at is None ==> drift_of(f, m) is None,
        m.built_at is Some ==> ({
            let metric_now = if f.metric.len() == 0 { "cosine"@ } else { f.metric };
            let metric_built = match m.distance_metric {
                Some(v) => v,
                None => "cosine"@,
            };
            let efc_now: nat = match parse_unsigned_spec(f.ef_construction, usize::MAX as nat) {
                Some(v) => v,
                None => 100,
            };
            let efc_built: nat = match m.hnsw_ef_construction {
                Some(v) => v as nat,
                None => 100,
            };
            let pq_now: nat = match parse_unsigned_spec(f.pq, usize::MAX as nat) {
                Some(v) => v,
                None => 48,
            };
            let pq_built: nat = match m.pq_subvectors {
                Some(v) => v as nat,
                None => 48,
            };
            let efs_now: nat = match parse_unsigned_spec(f.ef_search, usize::MAX as nat) {
                Some(v) => v,
                None => 100,
            };
            let efs_built: nat = match m.hnsw_ef_search {
                Some(v) => v as nat,
                None => 100,
            };
            let reindex = metric_now != metric_built || efc_now != efc_built || pq_now != pq_built;
            let search = efs_now != efs_built;
            &&& (reindex || search) ==> drift_of(f, m) == Some((reindex, search))
            &&& !(reindex || search) ==> drift_of(f, m) is None
        }),
{
}

/// A count from the form, or `d`.
fn count_field_or(t: &str, d: usize) -> (r: usize)
    ensures
        r == count_or(t@, d),
{
    match count_from_field(t) {
        Some(v) => v,
        None => d,
    }
}

/// An optional count, or `d`.
fn opt_count_or(o: Option<usize>, d: usize) -> (r: usize)
    ensures
        r == opt_or(o, d),
{
    match o {
        Some(v) => v,
        None => d,
    }
}

/// How the form differs from the last build of the corpus, if it does.
pub fn detect_drift(f: &CorpusForm, m: &CorpusBuildMeta) -> (r: Option<Drift>)
    ensures
        match r {
            Some(d) => drift_of(f@, m@) == Some((d.needs_reindex, d.ef_search_changed)),
            None => drift_of(f@, m@) is None,
        },
{
    if m.built_at.is_none() {
        return None;
    }
    let current_metric = if f.metric.as_str().is_empty() { owned("cosine") } else { f.metric.clone() };
    let built_metric = match &m.distance_metric {
        Some(v) => v.clone(),
        None => owned("cosine"),
    };
    let needs = !same_text(current_metric.as_str(), built_metric.as_str())
        || count_field_or(f.ef_construction.as_str(), 100) != opt_count_or(m.hnsw_ef_construction, 100)
        || count_field_or(f.pq.as_str(), 48) != opt_count_or(m.pq_subvectors, 48);
    let ef_s = count_field_or(f.ef_search.as_str(), 100) != opt_count_or(m.hnsw_ef_search, 100);
    if needs || ef_s {
        Some(Drift { needs_reindex: needs, ef_search_changed: ef_s })
    } else {
        None
    }
}

/// A corpus whose saved overrides are those its index was built with shows
/// no drift.
pub proof fn law_no_drift_when_saved_matches_build(s: CorpusSettingsView, m: CorpusBuildMetaView)
    requires
        m.built_at is Some,
        s.distance_metric == m.distance_metric,
        s.distance_metric != Some(Seq::<char>::empty()),
        s.hnsw_ef_construction == m.hnsw_ef_construction,
        s.hnsw_ef_search == m.hnsw_ef_search,
        s.pq_subvectors == m.pq_subvectors,
    ensures
        drift_of(form_of_settings(s), m) is None,
{
    lemma_count_round_trip(s.hnsw_ef_construction);
    lemma_count_round_trip(s.hnsw_ef_search);
    lemma_count_round_trip(s.pq_subvectors);
    if let Some(v) = s.distance_metric {
        if v.len() == 0 {
            assert(v =~= Seq::<char>::empty());
        }
    }
}

/// The watched-directory field as sent: trimmed, and unset when that leaves nothing.
pub open spec fn watch_dir_of_text(raw: Seq<char>) -> Option<Seq<char>> {
    if trimmed(raw).len() == 0 { None } else { Some(trimmed(raw)) }
}

/// The directory saved is the typed text without surrounding white space,
/// and nothing is saved (the default is used) when that leaves no text;
/// white space around the typed text changes nothing.
pub proof fn law_watch_dir(raw: Seq<char>, p: Seq<char>, q: Seq<char>)
    requires
        crate::text::all_white(p),
        crate::text::all_white(q),
    ensures
        watch_dir_of_text(raw) is None <==> trimmed(raw).len() == 0,
        watch_dir_of_text(raw) matches Some(d) ==> d.len() > 0 && d == trimmed(raw) && trimmed(d) == d,
        watch_dir_of_text(p + raw + q) == watch_dir_of_text(raw),
{
    crate::text::law_trim_idempotent(raw);
    crate::text::law_trim_ignores_padding(p, raw, q);
}

/// The watched directory the form starts with is that of the first corpus
/// with the slug, empty when it has none set or no corpus has the slug.
pub proof fn law_watch_dir_for(corpora: Seq<CorpusEntry>, slug: Seq<char>)
    ensures
        (forall|i: int| 0 <= i < corpora.len() ==> (#[trigger] corpora[i]).slug@ != slug)
            ==> watch_dir_text_for(corpora, slug).len() == 0,
        forall|i: int| 0 <= i < corpora.len() && (#[trigger] corpora[i]).slug@ == slug
            && (forall|j: int| 0 <= j < i ==> corpora[j].slug@ != slug)
            ==> watch_dir_text_for(corpora, slug) == opt_field_text(opt_text(corpora[i].watch_dir)),
    decreases corpora.len(),
{
    if corpora.len() > 0 {
        let rest = corpora.drop_first();
        law_watch_dir_for(rest, slug);
        assert forall|i: int| 0 <= i < corpora.len() && (#[trigger] corpora[i]).slug@ == slug
            && (forall|j: int| 0 <= j < i ==> corpora[j].slug@ != slug)
            implies watch_dir_text_for(corpora, slug) == opt_field_text(opt_text(corpora[i].watch_dir)) by {
            if i > 0 {
                assert(corpora[0].slug@ != slug);
                assert(rest[i - 1] == corpora[i]);
                assert forall|j: int| 0 <= j < i - 1 implies rest[j].slug@ != slug by {
                    assert(rest[j] == corpora[j + 1]);
                }
            }
        }
        if forall|i: int| 0 <= i < corpora.len() ==> (#[trigger] corpora[i]).slug@ != slug {
            assert(corpora[0].slug@ != slug);
            assert forall|i: int| 0 <= i < rest.len() implies (#[trigger] rest[i]).slug@ != slug by {
                assert(rest[i] == corpora[i + 1]);
            }
        }
    }
}

/// The watched directory to save, from the text typed.
pub fn watch_dir_argument(raw: &str) -> (r: Option<String>)
    ensures
        opt_text(r) == watch_dir_of_text(raw@),
{
    let t = trim(raw);
    if t.as_str().is_empty() {
        None
    } else {
        Some(t)
    }
}

/// One corpus of the corpus list.
#[derive(Clone, Debug, PartialEq, Eq)]
pub struct CorpusEntry {
    pub slug: String,
    pub doc_count: usize,
    pub watch_dir: Option<String>,
}

/// The watched directory of the first corpus in `corpora` whose slug is
/// `slug`, or empty when there is none or it has no directory set.
pub open spec fn watch_dir_text_for(corpora: Seq<CorpusEntry>, slug: Seq<char>) -> Seq<char>
    decreases corpora.len(),
{
    if corpora.len() == 0 {
        Seq::empty()
    } else if corpora[0].slug@ == slug {
        opt_field_text(opt_text(corpora[0].watch_dir))
    } else {
        watch_dir_text_for(corpora.drop_first(), slug)
    }
}

/// The watched directory the form starts with for corpus `slug`.
pub fn watch_dir_for(corpora: &Vec<CorpusEntry>, slug: &str) -> (r: String)
    ensures
        r@ == watch_dir_text_for(corpora@, slug@),
{
    let mut i: usize = 0;
    assert(corpora@.skip(0) =~= corpora@);
    while i < corpora.len()
        invariant
            i <= corpora@.len(),
            watch_dir_text_for(corpora@, slug@) == watch_dir_text_for(corpora@.skip(i as int), slug@),
        decreases corpora.len() - i,
    {
        let c = &corpora[i];
        assert(corpora@.skip(i as int)[0] == *c);
        if same_text(c.slug.as_str(), slug) {
            return text_field(&c.watch_dir);
        }
        assert(corpora@.skip(i as int).drop_first() =~= corpora@.skip(i + 1));
        i = i + 1;
    }
    String::new()
}

/// The label of a corpus in the selector: its slug, and its document count
/// when it has documents.
pub open spec fn option_label_text(c: CorpusEntry) -> Seq<char> {
    if c.doc_count > 0 {
        c.slug@ + " ("@ + decimal_digits(c.doc_count as nat) + " docs)"@
    } else {
        c.slug@
    }
}

/// An empty corpus is labelled by its slug alone; a corpus with documents
/// by its slug, then ` (`, its document count in base ten (which reads back
/// as the count) and ` docs)`.
pub proof fn law_option_label(c: CorpusEntry)
    ensures
        c.doc_count == 0 ==> option_label_text(c) == c.slug@,
        c.doc_count > 0 ==> option_label_text(c) == c.slug@ + " ("@ + decimal_digits(c.doc_count as nat) + " docs)"@,
        c.doc_count > 0 ==> parse_unsigned_spec(decimal_digits(c.doc_count as nat), usize::MAX as nat)
            == Some(c.doc_count as nat),
{
    law_parse_unsigned_of_digits(c.doc_count as nat, usize::MAX as nat);
}

/// The label of a corpus in the selector.
pub fn option_label(c: &CorpusEntry) -> (r: String)
    ensures
        r@ == option_label_text(*c),
{
    if c.doc_count > 0 {
        let count = format_decimal(c.doc_count as u64);
        let mut r = join3(c.slug.as_str(), " (", count.as_str());
        push_all(&mut r, " docs)");
        r
    } else {
        c.slug.clone()
    }
}

/// The label of the "inherit" choice of the chunker select: it names the
/// global mode once that is known.
pub open spec fn global_mode_label_text(mode: Option<Seq<char>>) -> Seq<char> {
    match mode {
        Some(m) => "\u{2014} global ("@ + m + ") \u{2014}"@,
        None => "\u{2014} global \u{2014}"@,
    }
}

/// The label of the "inherit" choice of the chunker select.
pub fn global_mode_label(mode: Option<&str>) -> (r: String)
    ensures
        r@ == global_mode_label_text(
            match mode {
                Some(m) => Some(m@),
                None => None,
            },
        ),
{
    match mode {
        Some(m) => join3("\u{2014} global (", m, ") \u{2014}"),
        None => owned("\u{2014} global \u{2014}"),
    }
}

/// Whether a status message reports a failure: it starts with `Error`.
pub fn is_error_message(msg: &str) -> (r: bool)
    ensures
        r == occurs_at(msg@, "Error"@, 0),
{
    starts_with(msg, "Error")
}

/// The message after saving the per-corpus settings.
pub fn save_message(result: &Result<(), String>) -> (r: String)
    ensures
        match result {
            Ok(_) => r@ == "Saved"@,
            Err(e) => r@ == "Error: "@ + e@,
        },
{
    match result {
        Ok(_) => owned("Saved"),
        Err(e) => error_message(e.as_str()),
    }
}

/// The message after saving the watched directory.
pub fn watch_dir_save_message(result: &Result<(), String>) -> (r: String)
    ensures
        match result {
            Ok(_) => r@ == "Saved \u{2014} restart required for the watcher to pick up the new path."@,
            Err(e) => r@ == "Error: "@ + e@,
        },
{
    match result {
        Ok(_) => owned("Saved \u{2014} restart required for the watcher to pick up the new path."),
        Err(e) => error_message(e.as_str()),
    }
}


/// The page after a corpus creation finishes.
#[derive(Clone, Debug, PartialEq, Eq)]
pub struct CreateOutcome {
    /// What the slug field holds afterwards.
    pub slug_text: String,
    /// The error shown under the field, if the creation failed.
    pub error: Option<String>,
    /// The corpus list is to be fetched again.
    pub refresh_list: bool,
}

/// The page after creating a corpus with the slug typed as `slug_text`: on
/// success the field is cleared and the list fetched again; on failure the
/// field keeps its text and the error is shown.
pub fn after_create(slug_text: &str, result: &Result<(), String>) -> (o: CreateOutcome)
    ensures
        match result {
            Ok(_) => o.slug_text@.len() == 0 && o.error is None && o.refresh_list,
            Err(e) => o.slug_text@ == slug_text@ && o.error == Some(*e) && !o.refresh_list,
        },
{
    match result {
        Ok(_) => CreateOutcome { slug_text: String::new(), error: None, refresh_list: true },
        Err(e) => CreateOutcome { slug_text: owned(slug_text), error: Some(e.clone()), refresh_list: false },
    }
}

} // verus!
