use fro::chunker::{
    apply_corpus_overrides, chunker_save_message, env_reference_lines, form_from_config,
    has_stage, is_semantic, overlap_input, pipeline_description, preset_from_stages,
    ram_saved_message, restart_message, settings_from_chunker_form, size_input,
    stages_for_preset, ChunkerConfig, ChunkerForm,
};
use fro::corpus::CorpusSettings;

fn global() -> ChunkerConfig {
    ChunkerConfig {
        mode: "lightweight".into(),
        target_size: 256,
        min_size: 128,
        max_size: 384,
        overlap: 32,
        context_prefix_enabled: false,
        context_prefix_tokens: 32,
        pipeline_stages: "lw,sent,sem".into(),
    }
}

#[test]
fn stage_lists_name_stages_by_trimmed_field() {
    assert!(has_stage("lw, sent ,sem", "sem"));
    assert!(has_stage(" lw ,sent", "lw"));
    assert!(!has_stage("lwx,sent", "lw"));
    assert!(!has_stage("", "lw"));
    assert!(has_stage(",,lw,", "lw"));
    assert!(!has_stage("l,w", "lw"));
    assert!(has_stage("sem", "sem"));
}

#[test]
fn presets_from_stage_lists() {
    assert_eq!(preset_from_stages("lw,sent,sem"), "lw_sent_sem");
    assert_eq!(preset_from_stages("sent,sem"), "sent_sem");
    assert_eq!(preset_from_stages("lw,sent"), "lw_sent");
    assert_eq!(preset_from_stages(""), "lw_sent");
    assert_eq!(preset_from_stages(" sem , lw "), "lw_sent_sem");
}

#[test]
fn stage_lists_from_presets_round_trip() {
    assert_eq!(stages_for_preset("lw_sent"), "lw,sent");
    assert_eq!(stages_for_preset("sent_sem"), "sent,sem");
    assert_eq!(stages_for_preset("lw_sent_sem"), "lw,sent,sem");
    assert_eq!(stages_for_preset("anything"), "lw,sent,sem");
    for p in ["lw_sent", "sent_sem", "lw_sent_sem"] {
        assert_eq!(preset_from_stages(&stages_for_preset(p)), p);
    }
    assert_eq!(preset_from_stages(&stages_for_preset("bogus")), "lw_sent_sem");
}

#[test]
fn semantic_threshold_activity() {
    assert!(is_semantic("semantic", "lw_sent"));
    assert!(is_semantic("pipeline", "sent_sem"));
    assert!(is_semantic("pipeline", "lw_sent_sem"));
    assert!(!is_semantic("pipeline", "lw_sent"));
    assert!(!is_semantic("lightweight", "lw_sent_sem"));
}

#[test]
fn size_fields() {
    assert_eq!(size_input("512"), Some(512));
    assert_eq!(size_input("0"), Some(1));
    assert_eq!(size_input("abc"), None);
    assert_eq!(size_input(""), None);
    assert_eq!(overlap_input("0"), Some(0));
    assert_eq!(overlap_input("-3"), None);
}

#[test]
fn corpus_overrides_replace_globals() {
    let g = form_from_config(&global());
    assert_eq!(g.pipeline_preset, "lw_sent_sem");
    let mut s = CorpusSettings::none();
    s.target_size = Some(512);
    s.pipeline_stages = Some("sent,sem".into());
    s.chunker_mode = Some("pipeline".into());
    let f = apply_corpus_overrides(&g, &s);
    assert_eq!(f.target_size, 512);
    assert_eq!(f.min_size, 128);
    assert_eq!(f.mode, "pipeline");
    assert_eq!(f.pipeline_preset, "sent_sem");
    let same = apply_corpus_overrides(&g, &CorpusSettings::none());
    assert_eq!(same, g);
}

#[test]
fn saved_form_reloads_unchanged() {
    let g = form_from_config(&global());
    let f = ChunkerForm {
        mode: "semantic".into(),
        target_size: 300,
        min_size: 10,
        max_size: 900,
        overlap: 0,
        context_prefix_enabled: true,
        context_prefix_tokens: 16,
        pipeline_preset: "lw_sent".into(),
    };
    let s = settings_from_chunker_form(&f);
    assert_eq!(s.pipeline_stages.as_deref(), Some("lw,sent"));
    assert_eq!(s.search_top_k, None);
    assert_eq!(apply_corpus_overrides(&g, &s), f);
}

#[test]
fn messages() {
    assert_eq!(chunker_save_message("docs", &Ok(())), "Saved for corpus 'docs'");
    assert_eq!(chunker_save_message("docs", &Err("down".into())), "Error: down");
    assert_eq!(
        ram_saved_message(true, 200_000_000, "190.7 MB"),
        "Saved \u{2014} index is 190.7 MB and will be fully heap-allocated. Restart to apply."
    );
    assert_eq!(ram_saved_message(true, 100_000_000, "95 MB"), "Saved \u{2014} restart to apply.");
    assert_eq!(ram_saved_message(false, 500_000_000, "x"), "Saved \u{2014} restart to apply.");
    assert_eq!(restart_message(&Ok(())), "Restarting\u{2026}");
    assert_eq!(restart_message(&Err("e".into())), "Error: e");
    assert!(pipeline_description("lw_sent").starts_with("Structural"));
    assert!(pipeline_description("sent_sem").starts_with("Sentence"));
    assert!(pipeline_description("other").starts_with("Full cascade"));
}

#[test]
fn env_reference() {
    let mut f = form_from_config(&global());
    let lines = env_reference_lines(&f, true);
    assert_eq!(
        lines,
        vec![
            "INDEX_IN_RAM=true",
            "CHUNKER_MODE=lightweight",
            "CHUNK_TARGET_SIZE=256",
            "CHUNK_MIN_SIZE=128",
            "CHUNK_MAX_SIZE=384",
            "CHUNK_OVERLAP=32",
            "CHUNK_CONTEXT_PREFIX=false",
            "CHUNK_CONTEXT_PREFIX_TOKENS=32",
        ]
    );
    f.mode = "pipeline".into();
    f.pipeline_preset = "sent_sem".into();
    let lines = env_reference_lines(&f, false);
    assert_eq!(lines.last().map(|s| s.as_str()), Some("PIPELINE_STAGES=sent,sem"));
}
