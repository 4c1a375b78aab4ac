use fro::corpus::{
    count_field, count_from_field, detect_drift, flag_field, flag_from_field, form_from_settings,
    global_mode_label, is_error_message, option_label, save_message, settings_from_form,
    watch_dir_argument, watch_dir_for, watch_dir_save_message, CorpusBuildMeta, CorpusEntry,
    CorpusForm, CorpusSettings, Drift,
};

fn settings() -> CorpusSettings {
    let mut s = CorpusSettings::none();
    s.search_top_k = Some(10);
    s.distance_metric = Some("dot".into());
    s.hnsw_ef_construction = Some(200);
    s.pq_subvectors = Some(48);
    s.native_pdf_enabled = Some(false);
    s
}

#[test]
fn form_shows_overrides() {
    let f = form_from_settings(&settings());
    assert_eq!(f.top_k, "10");
    assert_eq!(f.chunker_mode, "");
    assert_eq!(f.metric, "dot");
    assert_eq!(f.ef_construction, "200");
    assert_eq!(f.ef_search, "");
    assert_eq!(f.native_pdf, "false");
}

#[test]
fn form_round_trip_keeps_overrides() {
    let s = settings();
    let back = settings_from_form(&form_from_settings(&s));
    assert_eq!(back, s);
}

#[test]
fn form_fields_parse() {
    assert_eq!(count_from_field("12"), Some(12));
    assert_eq!(count_from_field(""), None);
    assert_eq!(count_from_field("1.5"), None);
    assert_eq!(flag_from_field("true"), Some(true));
    assert_eq!(flag_from_field("false"), Some(false));
    assert_eq!(flag_from_field(""), None);
    assert_eq!(flag_from_field("yes"), None);
    assert_eq!(count_field(Some(7)), "7");
    assert_eq!(count_field(None), "");
    assert_eq!(flag_field(Some(true)), "true");
    assert_eq!(flag_field(None), "");
    let blank = CorpusForm::blank();
    let s = settings_from_form(&blank);
    assert_eq!(s, CorpusSettings::none());
}

fn meta() -> CorpusBuildMeta {
    CorpusBuildMeta {
        built_at: Some("2024-01-01".into()),
        distance_metric: None,
        hnsw_ef_construction: None,
        hnsw_ef_search: None,
        pq_subvectors: None,
    }
}

#[test]
fn drift_against_defaults() {
    let blank = CorpusForm::blank();
    assert_eq!(detect_drift(&blank, &meta()), None);
    let mut f = CorpusForm::blank();
    f.metric = "cosine".into();
    f.ef_construction = "100".into();
    f.pq = "48".into();
    f.ef_search = "100".into();
    assert_eq!(detect_drift(&f, &meta()), None);
    f.ef_search = "150".into();
    assert_eq!(detect_drift(&f, &meta()), Some(Drift { needs_reindex: false, ef_search_changed: true }));
    f.pq = "96".into();
    assert_eq!(detect_drift(&f, &meta()), Some(Drift { needs_reindex: true, ef_search_changed: true }));
    let mut g = CorpusForm::blank();
    g.metric = "dot".into();
    assert_eq!(detect_drift(&g, &meta()), Some(Drift { needs_reindex: true, ef_search_changed: false }));
    let mut unbuilt = meta();
    unbuilt.built_at = None;
    assert_eq!(detect_drift(&g, &unbuilt), None);
}

#[test]
fn saved_settings_that_match_the_build_show_no_drift() {
    let s = settings();
    let m = CorpusBuildMeta {
        built_at: Some("t".into()),
        distance_metric: s.distance_metric.clone(),
        hnsw_ef_construction: s.hnsw_ef_construction,
        hnsw_ef_search: s.hnsw_ef_search,
        pq_subvectors: s.pq_subvectors,
    };
    assert_eq!(detect_drift(&form_from_settings(&s), &m), None);
}

#[test]
fn watched_directory() {
    assert_eq!(watch_dir_argument("  /data/in  "), Some("/data/in".to_string()));
    assert_eq!(watch_dir_argument("   "), None);
    assert_eq!(watch_dir_argument(""), None);
    let corpora = vec![
        CorpusEntry { slug: "default".into(), doc_count: 0, watch_dir: None },
        CorpusEntry { slug: "papers".into(), doc_count: 3, watch_dir: Some("/p".into()) },
        CorpusEntry { slug: "papers".into(), doc_count: 1, watch_dir: Some("/q".into()) },
    ];
    assert_eq!(watch_dir_for(&corpora, "papers"), "/p");
    assert_eq!(watch_dir_for(&corpora, "default"), "");
    assert_eq!(watch_dir_for(&corpora, "missing"), "");
}

#[test]
fn labels_and_messages() {
    let c = CorpusEntry { slug: "papers".into(), doc_count: 12, watch_dir: None };
    assert_eq!(option_label(&c), "papers (12 docs)");
    let e = CorpusEntry { slug: "empty".into(), doc_count: 0, watch_dir: None };
    assert_eq!(option_label(&e), "empty");
    assert_eq!(global_mode_label(Some("semantic")), "\u{2014} global (semantic) \u{2014}");
    assert_eq!(global_mode_label(None), "\u{2014} global \u{2014}");
    assert!(is_error_message("Error: x"));
    assert!(!is_error_message("Saved"));
    assert_eq!(save_message(&Ok(())), "Saved");
    assert_eq!(save_message(&Err("x".into())), "Error: x");
    assert!(watch_dir_save_message(&Ok(())).starts_with("Saved \u{2014} restart required"));
    assert_eq!(watch_dir_save_message(&Err("denied".into())), "Error: denied");
}
