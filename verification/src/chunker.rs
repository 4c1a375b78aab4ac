//! The chunker page: the pipeline preset and the stage list it stands for,
//! the sizes the form accepts, and what it saves for a corpus.

use vstd::prelude::*;
use crate::corpus::{CorpusSettings, CorpusSettingsView};
use crate::numbers::{decimal_digits, format_decimal, parse_unsigned_spec, parse_usize};
use crate::text::{
    bool_str, bool_text, chars_of, error_message, join3, owned, same_text,
    trim_range, trimmed,
};

verus! {

/// The fields of `s` between the separators `sep`, as `str::split` yields
/// them: one more field than there are separators, empty fields included.
pub open spec fn split_fields(s: Seq<char>, sep: char) -> Seq<Seq<char>>
    decreases s.len(),
{
    if s.len() == 0 {
        seq![Seq::empty()]
    } else {
        let init = split_fields(s.drop_last(), sep);
        if s.last() == sep {
            init.push(Seq::empty())
        } else {
            init.update(init.len() - 1, init.last().push(s.last()))
        }
    }
}

/// The comma-separated list `stages` names `stage`: one of its fields,
/// trimmed, is `stage`.
pub open spec fn names_stage(stages: Seq<char>, stage: Seq<char>) -> bool {
    exists|i: int| 0 <= i < split_fields(stages, ',').len()
        && trimmed(#[trigger] split_fields(stages, ',')[i]) == stage
}

/// A list names a stage when either of the lists joined by a comma names it;
/// a list without commas names exactly its trimmed self.
pub proof fn law_names_stage(a: Seq<char>, b: Seq<char>, stage: Seq<char>)
    ensures
        names_stage(a + seq![','] + b, stage) <==> (names_stage(a, stage) || names_stage(b, stage)),
        !a.contains(',') ==> (names_stage(a, stage) <==> trimmed(a) == stage),
{
    lemma_split_join(a, b, ',');
    let fa = split_fields(a, ',');
    let fb = split_fields(b, ',');
    let f = fa + fb;
    if names_stage(a + seq![','] + b, stage) {
        let i = choose|i: int| 0 <= i < f.len() && trimmed(#[trigger] f[i]) == stage;
        if i < fa.len() {
            assert(fa[i] == f[i]);
        } else {
            assert(fb[i - fa.len()] == f[i]);
        }
    }
    if names_stage(a, stage) {
        let i = choose|i: int| 0 <= i < fa.len() && trimmed(#[trigger] fa[i]) == stage;
        assert(f[i] == fa[i]);
    }
    if names_stage(b, stage) {
        let i = choose|i: int| 0 <= i < fb.len() && trimmed(#[trigger] fb[i]) == stage;
        assert(f[fa.len() + i] == fb[i]);
    }
    if !a.contains(',') {
        lemma_split_single(a, ',');
        if trimmed(a) == stage {
            assert(trimmed(fa[0]) == stage);
        }
    }
}

/// Whether the comma-separated list `stages` names `stage`.
pub fn has_stage(stages: &str, stage: &str) -> (r: bool)
    ensures
        r == names_stage(stages@, stage@),
{
    let v = chars_of(stages);
    let n = v.len();
    let mut start: usize = 0;
    let mut found = false;
    let ghost mut done: Seq<Seq<char>> = Seq::empty();
    let mut i: usize = 0;
    assert(v@.take(0) =~= Seq::<char>::empty());
    assert(v@.subrange(0, 0) =~= Seq::<char>::empty());
    assert(split_fields(Seq::<char>::empty(), ',') =~= done.push(Seq::<char>::empty()));
    while i < n
        invariant
            start <= i <= n == v@.len(),
            v@ == stages@,
            split_fields(v@.take(i as int), ',') == done.push(v@.subrange(start as int, i as int)),
            found == exists|j: int| 0 <= j < done.len() && trimmed(#[trigger] done[j]) == stage@,
        decreases n - i,
    {
        let ghost cur = v@.subrange(start as int, i as int);
        assert(v@.take(i + 1).drop_last() =~= v@.take(i as int));
        assert(v@.take(i + 1).last() == v@[i as int]);
        if v[i] == ',' {
            let t = trim_range(&v, start, i);
            let hit = same_text(t.as_str(), stage);
            proof {
                let old_done = done;
                done = done.push(cur);
                assert(split_fields(v@.take(i + 1), ',') =~= done.push(Seq::<char>::empty()));
                assert(v@.subrange(i + 1, i + 1) =~= Seq::<char>::empty());
                assert(done[old_done.len() as int] == cur);
                if hit {
                    assert(trimmed(done[old_done.len() as int]) == stage@);
                }
                if found {
                    let w = choose|j: int| 0 <= j < old_done.len() && trimmed(#[trigger] old_done[j]) == stage@;
                    assert(done[w] == old_done[w]);
                }
                assert forall|j: int| 0 <= j < done.len() && trimmed(#[trigger] done[j]) == stage@
                    implies (found || hit) by {
                    if j < old_done.len() {
                        assert(done[j] == old_done[j]);
                    }
                }
            }
            found = found || hit;
            start = i + 1;
        } else {
            proof {
                let init = done.push(cur);
                assert(v@.subrange(start as int, i + 1) =~= cur.push(v@[i as int]));
                assert(init.update(init.len() - 1, init.last().push(v@[i as int])) =~= done.push(cur.push(v@[i as int])));
            }
        }
        i = i + 1;
    }
    assert(v@.take(n as int) =~= v@);
    let t = trim_range(&v, start, n);
    let hit = same_text(t.as_str(), stage);
    proof {
        let fields = done.push(v@.subrange(start as int, n as int));
        assert(split_fields(stages@, ',') == fields);
        if hit {
            assert(trimmed(fields[done.len() as int]) == stage@);
        }
        if found {
            let w = choose|j: int| 0 <= j < done.len() && trimmed(#[trigger] done[j]) == stage@;
            assert(fields[w] == done[w]);
        }
        assert forall|j: int| 0 <= j < fields.len() && trimmed(#[trigger] fields[j]) == stage@
            implies (found || hit) by {
            if j < done.len() {
                assert(fields[j] == done[j]);
            }
        }
    }
    found || hit
}

/// The preset that a stage list corresponds to: the full cascade when it
/// names both `lw` and `sem`, sentences then semantics when it names `sem`
/// alone, and structure then sentences otherwise.
pub open spec fn preset_of_stages(stages: Seq<char>) -> Seq<char> {
    let lw = names_stage(stages, "lw"@);
    let sem = names_stage(stages, "sem"@);
    if lw && sem {
        "lw_sent_sem"@
    } else if !lw && sem {
        "sent_sem"@
    } else {
        "lw_sent"@
    }
}

/// The preset that a stage list corresponds to.
pub fn preset_from_stages(stages: &str) -> (r: String)
    ensures
        r@ == preset_of_stages(stages@),
{
    let lw = has_stage(stages, "lw");
    let sem = has_stage(stages, "sem");
    if lw && sem {
        owned("lw_sent_sem")
    } else if !lw && sem {
        owned("sent_sem")
    } else {
        owned("lw_sent")
    }
}

/// The stage list a preset stands for; an unknown preset is the full cascade.
pub open spec fn stages_of_preset(preset: Seq<char>) -> Seq<char> {
    if preset == "lw_sent"@ {
        "lw,sent"@
    } else if preset == "sent_sem"@ {
        "sent,sem"@
    } else {
        "lw,sent,sem"@
    }
}

/// The stage list a preset stands for.
pub fn stages_for_preset(preset: &str) -> (r: String)
    ensures
        r@ == stages_of_preset(preset@),
{
    if same_text(preset, "lw_sent") {
        owned("lw,sent")
    } else if same_text(preset, "sent_sem") {
        owned("sent,sem")
    } else {
        owned("lw,sent,sem")
    }
}

/// The preset a preset value is read as: `lw_sent` and `sent_sem` stand for
/// themselves, anything else for the full cascade.
pub open spec fn canonical_preset(preset: Seq<char>) -> Seq<char> {
    if preset == "lw_sent"@ || preset == "sent_sem"@ {
        preset
    } else {
        "lw_sent_sem"@
    }
}

/// Saving a preset as its stage list and reading the list back gives the
/// preset again (an unknown preset comes back as the full cascade).
pub proof fn law_preset_round_trip(preset: Seq<char>)
    ensures
        preset_of_stages(stages_of_preset(preset)) == canonical_preset(preset),
{
    reveal_strlit("lw");
    reveal_strlit("sem");
    reveal_strlit("sent");
    reveal_strlit("lw,sent");
    reveal_strlit("sent,sem");
    reveal_strlit("lw,sent,sem");
    let lw = seq!['l', 'w'];
    let sent = seq!['s', 'e', 'n', 't'];
    let sem = seq!['s', 'e', 'm'];
    assert(trimmed(lw) == lw);
    assert(trimmed(sent) == sent);
    assert(trimmed(sem) == sem);
    assert("lw"@ == lw);
    assert("sem"@ == sem);
    lemma_preset_stage_fields();
    if preset == "lw_sent"@ {
        let f = split_fields("lw,sent"@, ',');
        assert(trimmed(f[0]) == "lw"@);
        assert forall|i: int| 0 <= i < f.len() implies trimmed(#[trigger] f[i]) != "sem"@ by {
            if i == 0 {
                assert(trimmed(f[i]).len() == 2);
            } else {
                assert(trimmed(f[i]).len() == 4);
            }
        }
    } else if preset == "sent_sem"@ {
        let f = split_fields("sent,sem"@, ',');
        assert(trimmed(f[1]) == "sem"@);
        assert forall|i: int| 0 <= i < f.len() implies trimmed(#[trigger] f[i]) != "lw"@ by {
            if i == 0 {
                assert(trimmed(f[i]).len() == 4);
            } else {
                assert(trimmed(f[i]).len() == 3);
            }
        }
    } else {
        let f = split_fields("lw,sent,sem"@, ',');
        assert(trimmed(f[0]) == "lw"@);
        assert(trimmed(f[2]) == "sem"@);
    }
}

/// A text that holds no separator is one field.
pub proof fn lemma_split_single(w: Seq<char>, sep: char)
    requires
        !w.contains(sep),
    ensures
        split_fields(w, sep) == seq![w],
    decreases w.len(),
{
    if w.len() == 0 {
        assert(w =~= Seq::<char>::empty());
    } else {
        let init = w.drop_last();
        assert(!init.contains(sep)) by {
            if init.contains(sep) {
                let k = choose|k: int| 0 <= k < init.len() && init[k] == sep;
                assert(w[k] == sep);
            }
        }
        lemma_split_single(init, sep);
        assert(w.last() != sep) by {
            assert(w[w.len() - 1] == w.last());
        }
        assert(init.push(w.last()) =~= w);
        assert(seq![init].update(0, init.push(w.last())) =~~= seq![w]);
    }
}

/// There is always at least one field.
pub proof fn lemma_split_nonempty(s: Seq<char>, sep: char)
    ensures
        split_fields(s, sep).len() >= 1,
    decreases s.len(),
{
    if s.len() > 0 {
        lemma_split_nonempty(s.drop_last(), sep);
    }
}

/// Joining two texts with a separator joins their lists of fields.
pub proof fn lemma_split_join(a: Seq<char>, b: Seq<char>, sep: char)
    ensures
        split_fields(a + seq![sep] + b, sep) == split_fields(a, sep) + split_fields(b, sep),
    decreases b.len(),
{
    let s = a + seq![sep] + b;
    if b.len() == 0 {
        assert(s.drop_last() =~= a);
        assert(s.last() == sep);
        assert(split_fields(b, sep) =~= seq![Seq::<char>::empty()]);
        assert(split_fields(a, sep).push(Seq::<char>::empty()) =~= split_fields(a, sep) + split_fields(b, sep));
    } else {
        let b0 = b.drop_last();
        assert(s.drop_last() =~= a + seq![sep] + b0);
        assert(s.last() == b.last());
        lemma_split_join(a, b0, sep);
        lemma_split_nonempty(b0, sep);
        lemma_split_nonempty(a, sep);
        let fa = split_fields(a, sep);
        let fb = split_fields(b0, sep);
        if b.last() == sep {
            assert((fa + fb).push(Seq::<char>::empty()) =~= fa + fb.push(Seq::<char>::empty()));
        } else {
            let c = fa + fb;
            assert(c.last() == fb.last());
            assert(c.update(c.len() - 1, c.last().push(b.last()))
                =~= fa + fb.update(fb.len() - 1, fb.last().push(b.last())));
        }
    }
}

/// The fields of the stage list for each preset.
proof fn lemma_preset_stage_fields()
    ensures
        split_fields("lw,sent"@, ',') == seq![seq!['l', 'w'], seq!['s', 'e', 'n', 't']],
        split_fields("sent,sem"@, ',') == seq![seq!['s', 'e', 'n', 't'], seq!['s', 'e', 'm']],
        split_fields("lw,sent,sem"@, ',')
            == seq![seq!['l', 'w'], seq!['s', 'e', 'n', 't'], seq!['s', 'e', 'm']],
{
    reveal_strlit("lw,sent");
    reveal_strlit("sent,sem");
    reveal_strlit("lw,sent,sem");
    let lw = seq!['l', 'w'];
    let sent = seq!['s', 'e', 'n', 't'];
    let sem = seq!['s', 'e', 'm'];
    assert(!lw.contains(',')) by {
        assert(forall|k: int| 0 <= k < lw.len() ==> lw[k] != ',');
    }
    assert(!sent.contains(',')) by {
        assert(forall|k: int| 0 <= k < sent.len() ==> sent[k] != ',');
    }
    assert(!sem.contains(',')) by {
        assert(forall|k: int| 0 <= k < sem.len() ==> sem[k] != ',');
    }
    lemma_split_single(lw, ',');
    lemma_split_single(sent, ',');
    lemma_split_single(sem, ',');
    assert("lw,sent"@ =~= lw + seq![','] + sent);
    assert("sent,sem"@ =~= sent + seq![','] + sem);
    let lw_sent = lw + seq![','] + sent;
    assert("lw,sent,sem"@ =~= lw_sent + seq![','] + sem);
    lemma_split_join(lw, sent, ',');
    lemma_split_join(sent, sem, ',');
    lemma_split_join(lw_sent, sem, ',');
    assert(seq![lw] + seq![sent] =~= seq![lw, sent]);
    assert(seq![sent] + seq![sem] =~= seq![sent, sem]);
    assert(seq![lw, sent] + seq![sem] =~= seq![lw, sent, sem]);
}

/// The global chunker configuration the server reports. Its semantic
/// similarity threshold, a float, is kept by the page beside this record.
#[derive(Clone, Debug, PartialEq, Eq)]
pub struct ChunkerConfig {
    pub mode: String,
    pub target_size: usize,
    pub min_size: usize,
    pub max_size: usize,
    pub overlap: usize,
    pub context_prefix_enabled: bool,
    pub context_prefix_tokens: usize,
    pub pipeline_stages: String,
}

/// The chunker form: what the page shows and saves for the active corpus
/// (the float threshold aside).
#[derive(Clone, Debug, PartialEq, Eq)]
pub struct ChunkerForm {
    pub mode: String,
    pub target_size: usize,
    pub min_size: usize,
    pub max_size: usize,
    pub overlap: usize,
    pub context_prefix_enabled: bool,
    pub context_prefix_tokens: usize,
    pub pipeline_preset: String,
}

/// The chunker form, as plain values.
pub struct ChunkerFormView {
    pub mode: Seq<char>,
    pub target_size: usize,
    pub min_size: usize,
    pub max_size: usize,
    pub overlap: usize,
    pub context_prefix_enabled: bool,
    pub context_prefix_tokens: usize,
    pub pipeline_preset: Seq<char>,
}

impl View for ChunkerForm {
    type V = ChunkerFormView;

    open spec fn view(&self) -> ChunkerFormView {
        ChunkerFormView {
            mode: self.mode@,
            target_size: self.target_size,
            min_size: self.min_size,
            max_size: self.max_size,
            overlap: self.overlap,
            context_prefix_enabled: self.context_prefix_enabled,
            context_prefix_tokens: self.context_prefix_tokens,
            pipeline_preset: self.pipeline_preset@,
        }
    }
}

impl ChunkerForm {
    /// The form before anything is fetched: lightweight mode, target 256,
    /// minimum 128, maximum 384, overlap 32, context prefix off with 32
    /// tokens, and the full cascade preset.
    pub fn defaults() -> (f: ChunkerForm)
        ensures
            f@.mode == "lightweight"@,
            f@.target_size == 256,
            f@.min_size == 128,
            f@.max_size == 384,
            f@.overlap == 32,
            !f@.context_prefix_enabled,
            f@.context_prefix_tokens == 32,
            f@.pipeline_preset == "lw_sent_sem"@,
    {
        ChunkerForm {
            mode: owned("lightweight"),
            target_size: 256,
            min_size: 128,
            max_size: 384,
            overlap: 32,
            context_prefix_enabled: false,
            context_prefix_tokens: 32,
            pipeline_preset: owned("lw_sent_sem"),
        }
    }
}

/// The form for the global configuration.
pub open spec fn form_of_config(c: ChunkerConfig) -> ChunkerFormView {
    ChunkerFormView {
        mode: c.mode@,
        target_size: c.target_size,
        min_size: c.min_size,
        max_size: c.max_size,
        overlap: c.overlap,
        context_prefix_enabled: c.context_prefix_enabled,
        context_prefix_tokens: c.context_prefix_tokens,
        pipeline_preset: preset_of_stages(c.pipeline_stages@),
    }
}

/// The form for the global configuration, before any corpus override.
pub fn form_from_config(c: &ChunkerConfig) -> (f: ChunkerForm)
    ensures
        f@ == form_of_config(*c),
{
    ChunkerForm {
        mode: c.mode.clone(),
        target_size: c.target_size,
        min_size: c.min_size,
        max_size: c.max_size,
        overlap: c.overlap,
        context_prefix_enabled: c.context_prefix_enabled,
        context_prefix_tokens: c.context_prefix_tokens,
        pipeline_preset: preset_from_stages(c.pipeline_stages.as_str()),
    }
}

/// An override, or the global value.
pub open spec fn or_global<T>(o: Option<T>, g: T) -> T {
    match o {
        Some(v) => v,
        None => g,
    }
}

/// The form for a corpus: each override it sets replaces the global value;
/// a stage list override is shown as its preset.
pub open spec fn form_with_overrides(g: ChunkerFormView, s: CorpusSettingsView) -> ChunkerFormView {
    ChunkerFormView {
        mode: or_global(s.chunker_mode, g.mode),
        target_size: or_global(s.target_size, g.target_size),
        min_size: or_global(s.min_size, g.min_size),
        max_size: or_global(s.max_size, g.max_size),
        overlap: or_global(s.overlap, g.overlap),
        context_prefix_enabled: or_global(s.context_prefix_enabled, g.context_prefix_enabled),
        context_prefix_tokens: or_global(s.context_prefix_tokens, g.context_prefix_tokens),
        pipeline_preset: match s.pipeline_stages {
            Some(stages) => preset_of_stages(stages),
            None => g.pipeline_preset,
        },
    }
}

/// An optional count, or the global one.
fn usize_or(o: Option<usize>, g: usize) -> (r: usize)
    ensures
        r == or_global(o, g),
{
    match o {
        Some(v) => v,
        None => g,
    }
}

/// An optional flag, or the global one.
fn bool_or(o: Option<bool>, g: bool) -> (r: bool)
    ensures
        r == or_global(o, g),
{
    match o {
        Some(v) => v,
        None => g,
    }
}

/// The form for a corpus, from the global form and the corpus' overrides.
pub fn apply_corpus_overrides(g: &ChunkerForm, s: &CorpusSettings) -> (f: ChunkerForm)
    ensures
        f@ == form_with_overrides(g@, s@),
{
    ChunkerForm {
        mode: match &s.chunker_mode {
            Some(m) => m.clone(),
            None => g.mode.clone(),
        },
        target_size: usize_or(s.target_size, g.target_size),
        min_size: usize_or(s.min_size, g.min_size),
        max_size: usize_or(s.max_size, g.max_size),
        overlap: usize_or(s.overlap, g.overlap),
        context_prefix_enabled: bool_or(s.context_prefix_enabled, g.context_prefix_enabled),
        context_prefix_tokens: usize_or(s.context_prefix_tokens, g.context_prefix_tokens),
        pipeline_preset: match &s.pipeline_stages {
            Some(stages) => preset_from_stages(stages.as_str()),
            None => g.pipeline_preset.clone(),
        },
    }
}

/// Each override a corpus sets replaces its field of the form, whatever the
/// other overrides hold, and a field without an override keeps the global
/// value; a stage list override shows as the preset it names.
pub proof fn law_overrides_replace_fields(g: ChunkerFormView, s: CorpusSettingsView)
    ensures
        ({
            let f = form_with_overrides(g, s);
            &&& (s.chunker_mode matches Some(m) ==> f.mode == m)
            &&& (s.chunker_mode is None ==> f.mode == g.mode)
            &&& (s.target_size matches Some(v) ==> f.target_size == v)
            &&& (s.target_size is None ==> f.target_size == g.target_size)
            &&& (s.min_size matches Some(v) ==> f.min_size == v)
            &&& (s.min_size is None ==> f.min_size == g.min_size)
            &&& (s.max_size matches Some(v) ==> f.max_size == v)
            &&& (s.max_size is None ==> f.max_size == g.max_size)
            &&& (s.overlap matches Some(v) ==> f.overlap == v)
            &&& (s.overlap is None ==> f.overlap == g.overlap)
            &&& (s.context_prefix_enabled matches Some(v) ==> f.context_prefix_enabled == v)
            &&& (s.context_prefix_enabled is None ==> f.context_prefix_enabled == g.context_prefix_enabled)
            &&& (s.context_prefix_tokens matches Some(v) ==> f.context_prefix_tokens == v)
            &&& (s.context_prefix_tokens is None ==> f.context_prefix_tokens == g.context_prefix_tokens)
            &&& (s.pipeline_stages matches Some(st) ==> f.pipeline_preset == preset_of_stages(st))
            &&& (s.pipeline_stages is None ==> f.pipeline_preset == g.pipeline_preset)
        }),
{
}

/// The form when the page opens: the global configuration once it is
/// fetched, the form as it was when the fetch fails.
pub fn load_global(current: ChunkerForm, global: Option<&ChunkerConfig>) -> (f: ChunkerForm)
    ensures
        match global {
            Some(g) => f@ == form_of_config(*g),
            None => f@ == current@,
        },
{
    match global {
        Some(g) => form_from_config(g),
        None => current,
    }
}

/// The form when the active corpus changes: the corpus' overrides on top of
/// the freshly fetched global configuration, but only when both fetches
/// succeed; otherwise the form stays as it was.
pub fn load_for_corpus(
    current: ChunkerForm,
    global: Option<&ChunkerConfig>,
    corpus: Option<&CorpusSettings>,
) -> (f: ChunkerForm)
    ensures
        match (global, corpus) {
            (Some(g), Some(s)) => f@ == form_with_overrides(form_of_config(*g), s@),
            _ => f@ == current@,
        },
{
    match (global, corpus) {
        (Some(g), Some(s)) => apply_corpus_overrides(&form_from_config(g), s),
        _ => current,
    }
}

/// The overrides the chunker page saves for a corpus: every field of the
/// form, the preset written as its stage list; the other overrides unset.
pub open spec fn settings_of_chunker_form(f: ChunkerFormView) -> CorpusSettingsView {
    CorpusSettingsView {
        search_top_k: None,
        chunker_mode: Some(f.mode),
        distance_metric: None,
        hnsw_ef_construction: None,
        hnsw_ef_search: None,
        pq_subvectors: None,
        native_pdf_enabled: None,
        target_size: Some(f.target_size),
        min_size: Some(f.min_size),
        max_size: Some(f.max_size),
        overlap: Some(f.overlap),
        context_prefix_enabled: Some(f.context_prefix_enabled),
        context_prefix_tokens: Some(f.context_prefix_tokens),
        pipeline_stages: Some(stages_of_preset(f.pipeline_preset)),
    }
}

/// The overrides the chunker page saves for a corpus.
pub fn settings_from_chunker_form(f: &ChunkerForm) -> (s: CorpusSettings)
    ensures
        s@ == settings_of_chunker_form(f@),
{
    CorpusSettings {
        search_top_k: None,
        chunker_mode: Some(f.mode.clone()),
        distance_metric: None,
        hnsw_ef_construction: None,
        hnsw_ef_search: None,
        pq_subvectors: None,
        native_pdf_enabled: None,
        target_size: Some(f.target_size),
        min_size: Some(f.min_size),
        max_size: Some(f.max_size),
        overlap: Some(f.overlap),
        context_prefix_enabled: Some(f.context_prefix_enabled),
        context_prefix_tokens: Some(f.context_prefix_tokens),
        pipeline_stages: Some(stages_for_preset(f.pipeline_preset.as_str())),
    }
}

/// What the chunker page saves for a corpus is what it shows for that
/// corpus when loaded again, whatever the global configuration (a preset
/// outside the three known ones comes back as the full cascade).
pub proof fn law_saved_form_reloads(g: ChunkerFormView, f: ChunkerFormView)
    ensures
        ({
            let back = form_with_overrides(g, settings_of_chunker_form(f));
            &&& back.mode == f.mode
            &&& back.target_size == f.target_size
            &&& back.min_size == f.min_size
            &&& back.max_size == f.max_size
            &&& back.overlap == f.overlap
            &&& back.context_prefix_enabled == f.context_prefix_enabled
            &&& back.context_prefix_tokens == f.context_prefix_tokens
            &&& back.pipeline_preset == canonical_preset(f.pipeline_preset)
        }),
{
    law_preset_round_trip(f.pipeline_preset);
}

/// Whether the semantic threshold applies: in semantic mode, and in
/// pipeline mode unless the preset skips the semantic stage.
pub open spec fn semantic_active(mode: Seq<char>, preset: Seq<char>) -> bool {
    mode == "semantic"@ || (mode == "pipeline"@ && preset != "lw_sent"@)
}

/// The threshold applies in semantic mode whatever the preset, never
/// outside the semantic and pipeline modes, and in pipeline mode exactly
/// when the preset is not the structure-then-sentences one.
pub proof fn law_semantic_active(mode: Seq<char>, preset: Seq<char>)
    ensures
        mode == "semantic"@ ==> semantic_active(mode, preset),
        mode != "semantic"@ && mode != "pipeline"@ ==> !semantic_active(mode, preset),
        mode == "pipeline"@ ==> (semantic_active(mode, preset) <==> preset != "lw_sent"@),
{
    reveal_strlit("pipeline");
    reveal_strlit("semantic");
    assert("pipeline"@ != "semantic"@) by {
        assert("pipeline"@[0] != "semantic"@[0]);
    }
}

/// Whether the semantic threshold applies.
pub fn is_semantic(mode: &str, preset: &str) -> (r: bool)
    ensures
        r == semantic_active(mode@, preset@),
{
    same_text(mode, "semantic") || (same_text(mode, "pipeline") && !same_text(preset, "lw_sent"))
}

/// A token size typed in the form: it takes effect when it parses, raised to at least 1.
pub open spec fn size_of_input(text: Seq<char>) -> Option<usize> {
    match parse_unsigned_spec(text, usize::MAX as nat) {
        Some(v) => Some(if v < 1 { 1usize } else { v as usize }),
        None => None,
    }
}

/// A token size typed in the form.
pub fn size_input(text: &str) -> (r: Option<usize>)
    ensures
        r == size_of_input(text@),
{
    match parse_usize(text) {
        Some(v) => Some(if v < 1 { 1 } else { v }),
        None => None,
    }
}

/// A token size that parses as a `usize` (by `str::parse`'s rules) is taken
/// as it is when it is at least 1, and as 1 when it is 0; text that does not
/// parse changes nothing. Every size printed in base ten reads back as itself.
pub proof fn law_size_input(text: Seq<char>, n: usize)
    ensures
        parse_unsigned_spec(text, usize::MAX as nat) is None ==> size_of_input(text) is None,
        parse_unsigned_spec(text, usize::MAX as nat) matches Some(v) ==> (
            size_of_input(text) matches Some(r) && r as nat == if v >= 1 { v } else { 1 }),
        n >= 1 ==> size_of_input(decimal_digits(n as nat)) == Some(n),
{
    crate::numbers::law_parse_unsigned_of_digits(n as nat, usize::MAX as nat);
}

/// An overlap typed in the form: it takes effect when it parses; zero is allowed.
pub fn overlap_input(text: &str) -> (r: Option<usize>)
    ensures
        r == match parse_unsigned_spec(text@, usize::MAX as nat) {
            Some(v) => Some(v as usize),
            None => None,
        },
{
    parse_usize(text)
}

/// The explanation shown under the preset select.
pub open spec fn preset_description_text(preset: Seq<char>) -> Seq<char> {
    if preset == "lw_sent"@ {
        "Structural paragraph splits \u{2192} sentence boundary refinement. No embedding calls."@
    } else if preset == "sent_sem"@ {
        "Sentence boundaries \u{2192} semantic topic merging. Good for content without clear headings."@
    } else {
        "Full cascade: structure \u{2192} sentences \u{2192} topic coherence. Most embedding calls."@
    }
}

/// The explanation shown under the preset select.
pub fn pipeline_description(preset: &str) -> (r: &'static str)
    ensures
        r@ == preset_description_text(preset@),
{
    if same_text(preset, "lw_sent") {
        "Structural paragraph splits \u{2192} sentence boundary refinement. No embedding calls."
    } else if same_text(preset, "sent_sem") {
        "Sentence boundaries \u{2192} semantic topic merging. Good for content without clear headings."
    } else {
        "Full cascade: structure \u{2192} sentences \u{2192} topic coherence. Most embedding calls."
    }
}

/// The message after saving for corpus `slug`.
pub fn chunker_save_message(slug: &str, result: &Result<(), String>) -> (r: String)
    ensures
        match result {
            Ok(_) => r@ == "Saved for corpus '"@ + slug@ + "'"@,
            Err(e) => r@ == "Error: "@ + e@,
        },
{
    match result {
        Ok(_) => join3("Saved for corpus '", slug, "'"),
        Err(e) => error_message(e.as_str()),
    }
}

/// The message after switching the index in or out of RAM: a warning with
/// the index size when it is switched on and is over 100 MB.
pub fn ram_saved_message(enabled: bool, size_bytes: u64, size_human: &str) -> (r: String)
    ensures
        r@ == if enabled && size_bytes > 100_000_000 {
            "Saved \u{2014} index is "@ + size_human@ + " and will be fully heap-allocated. Restart to apply."@
        } else {
            "Saved \u{2014} restart to apply."@
        },
{
    if enabled && size_bytes > 100_000_000 {
        join3("Saved \u{2014} index is ", size_human, " and will be fully heap-allocated. Restart to apply.")
    } else {
        owned("Saved \u{2014} restart to apply.")
    }
}

/// The message after asking for a restart.
pub fn restart_message(result: &Result<(), String>) -> (r: String)
    ensures
        match result {
            Ok(_) => r@ == "Restarting\u{2026}"@,
            Err(e) => r@ == "Error: "@ + e@,
        },
{
    match result {
        Ok(_) => owned("Restarting\u{2026}"),
        Err(e) => error_message(e.as_str()),
    }
}

/// `KEY=value`.
fn env_line(key: &str, value: &str) -> (r: String)
    ensures
        r@ == key@ + "="@ + value@,
{
    join3(key, "=", value)
}

/// One `KEY=value` line.
pub open spec fn env_entry(key: Seq<char>, value: Seq<char>) -> Seq<char> {
    key + "="@ + value
}

/// The `.env` lines for the form, in the order the page lists them, without
/// the semantic threshold (a float); the stage list comes last and only in
/// pipeline mode.
pub open spec fn env_lines_of(f: ChunkerFormView, index_in_ram: bool) -> Seq<Seq<char>> {
    let base = seq![
        env_entry("INDEX_IN_RAM"@, bool_text(index_in_ram)),
        env_entry("CHUNKER_MODE"@, f.mode),
        env_entry("CHUNK_TARGET_SIZE"@, decimal_digits(f.target_size as nat)),
        env_entry("CHUNK_MIN_SIZE"@, decimal_digits(f.min_size as nat)),
        env_entry("CHUNK_MAX_SIZE"@, decimal_digits(f.max_size as nat)),
        env_entry("CHUNK_OVERLAP"@, decimal_digits(f.overlap as nat)),
        env_entry("CHUNK_CONTEXT_PREFIX"@, bool_text(f.context_prefix_enabled)),
        env_entry("CHUNK_CONTEXT_PREFIX_TOKENS"@, decimal_digits(f.context_prefix_tokens as nat)),
    ];
    if f.mode == "pipeline"@ {
        base.push(env_entry("PIPELINE_STAGES"@, stages_of_preset(f.pipeline_preset)))
    } else {
        base
    }
}

/// The first reference line is `INDEX_IN_RAM=` and `true` exactly when the
/// index is held in RAM, so two calls that differ only in that argument
/// differ in that line and in no other; the size lines carry the form's
/// sizes in base ten, which read back as those sizes; the stage line is
/// there exactly in pipeline mode.
pub proof fn law_env_lines(f: ChunkerFormView, in_ram: bool)
    ensures
        env_lines_of(f, in_ram)[0] == "INDEX_IN_RAM"@ + "="@ + (if in_ram { "true"@ } else { "false"@ }),
        env_lines_of(f, true)[0] != env_lines_of(f, false)[0],
        env_lines_of(f, true).len() == env_lines_of(f, false).len(),
        forall|i: int| 1 <= i < env_lines_of(f, true).len() ==> env_lines_of(f, true)[i] == env_lines_of(f, false)[i],
        env_lines_of(f, in_ram).len() == if f.mode == "pipeline"@ { 9int } else { 8int },
        env_lines_of(f, in_ram)[1] == "CHUNKER_MODE"@ + "="@ + f.mode,
        env_lines_of(f, in_ram)[2] == "CHUNK_TARGET_SIZE"@ + "="@ + decimal_digits(f.target_size as nat),
        env_lines_of(f, in_ram)[3] == "CHUNK_MIN_SIZE"@ + "="@ + decimal_digits(f.min_size as nat),
        env_lines_of(f, in_ram)[4] == "CHUNK_MAX_SIZE"@ + "="@ + decimal_digits(f.max_size as nat),
        env_lines_of(f, in_ram)[5] == "CHUNK_OVERLAP"@ + "="@ + decimal_digits(f.overlap as nat),
        env_lines_of(f, in_ram)[6] == "CHUNK_CONTEXT_PREFIX"@ + "="@ + (if f.context_prefix_enabled { "true"@ } else { "false"@ }),
        env_lines_of(f, in_ram)[7] == "CHUNK_CONTEXT_PREFIX_TOKENS"@ + "="@ + decimal_digits(f.context_prefix_tokens as nat),
        parse_unsigned_spec(decimal_digits(f.target_size as nat), usize::MAX as nat) == Some(f.target_size as nat),
        parse_unsigned_spec(decimal_digits(f.max_size as nat), usize::MAX as nat) == Some(f.max_size as nat),
{
    reveal_strlit("true");
    reveal_strlit("false");
    let t = env_lines_of(f, true)[0];
    let u = env_lines_of(f, false)[0];
    let k = "INDEX_IN_RAM"@ + "="@;
    assert(t.len() != u.len() || t != u) by {
        assert(t.len() == k.len() + 4);
        assert(u.len() == k.len() + 5);
    }
    crate::numbers::law_parse_unsigned_of_digits(f.target_size as nat, usize::MAX as nat);
    crate::numbers::law_parse_unsigned_of_digits(f.max_size as nat, usize::MAX as nat);
}

/// The `.env` reference lines for the form.
pub fn env_reference_lines(f: &ChunkerForm, index_in_ram: bool) -> (lines: Vec<String>)
    ensures
        lines@.map_values(|s: String| s@) == env_lines_of(f@, index_in_ram),
{
    let mut lines: Vec<String> = Vec::new();
    lines.push(env_line("INDEX_IN_RAM", bool_str(index_in_ram)));
    lines.push(env_line("CHUNKER_MODE", f.mode.as_str()));
    lines.push(env_line("CHUNK_TARGET_SIZE", format_decimal(f.target_size as u64).as_str()));
    lines.push(env_line("CHUNK_MIN_SIZE", format_decimal(f.min_size as u64).as_str()));
    lines.push(env_line("CHUNK_MAX_SIZE", format_decimal(f.max_size as u64).as_str()));
    lines.push(env_line("CHUNK_OVERLAP", format_decimal(f.overlap as u64).as_str()));
    lines.push(env_line("CHUNK_CONTEXT_PREFIX", bool_str(f.context_prefix_enabled)));
    lines.push(
        env_line("CHUNK_CONTEXT_PREFIX_TOKENS", format_decimal(f.context_prefix_tokens as u64).as_str()),
    );
    if same_text(f.mode.as_str(), "pipeline") {
        let stages = stages_for_preset(f.pipeline_preset.as_str());
        lines.push(env_line("PIPELINE_STAGES", stages.as_str()));
    }
    assert(lines@.map_values(|s: String| s@) =~= env_lines_of(f@, index_in_ram));
    lines
}

} // verus!
