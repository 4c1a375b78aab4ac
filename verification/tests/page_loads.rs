use fro::chunker::{load_for_corpus, load_global, ChunkerConfig, ChunkerForm};
use fro::corpus::{after_create, CorpusSettings};
use fro::embedding::{EmbeddingConfig, EmbeddingPage, OnnxInfo};
use fro::io_uring::{power_of_two, queue_sizes_ok, IoUringConfig};
use fro::runtime_settings::{
    RuntimeListing, RuntimeRollback, RuntimeSettingEntry, SettingSource,
};

fn config() -> ChunkerConfig {
    ChunkerConfig {
        mode: "semantic".into(),
        target_size: 512,
        min_size: 64,
        max_size: 1024,
        overlap: 16,
        context_prefix_enabled: true,
        context_prefix_tokens: 8,
        pipeline_stages: "sent,sem".into(),
    }
}

#[test]
fn chunker_defaults() {
    let f = ChunkerForm::defaults();
    assert_eq!(f.mode, "lightweight");
    assert_eq!((f.target_size, f.min_size, f.max_size, f.overlap), (256, 128, 384, 32));
    assert!(!f.context_prefix_enabled);
    assert_eq!(f.context_prefix_tokens, 32);
    assert_eq!(f.pipeline_preset, "lw_sent_sem");
}

#[test]
fn chunker_loads() {
    let d = ChunkerForm::defaults();
    assert_eq!(load_global(d.clone(), None), d);
    let g = load_global(d.clone(), Some(&config()));
    assert_eq!(g.mode, "semantic");
    assert_eq!(g.pipeline_preset, "sent_sem");
    let mut s = CorpusSettings::none();
    s.overlap = Some(0);
    assert_eq!(load_for_corpus(d.clone(), Some(&config()), None), d);
    assert_eq!(load_for_corpus(d.clone(), None, Some(&s)), d);
    let f = load_for_corpus(d.clone(), Some(&config()), Some(&s));
    assert_eq!(f.overlap, 0);
    assert_eq!(f.target_size, 512);
}

#[test]
fn embedding_page_loads() {
    let mut p = EmbeddingPage::defaults();
    assert_eq!(p.active, "bge-small-en-v1.5");
    assert_eq!(p.dimension, 384);
    assert!(p.onnx_loading);
    let before = p.clone();
    p.load(None, None);
    assert!(!p.onnx_loading);
    assert_eq!(p.active, before.active);
    assert_eq!(p.dimension, 384);
    p.load(
        Some(EmbeddingConfig { model: "e5-small-v2".into(), dimension: 384, tokenizer_exists: true, model_exists: true }),
        Some(OnnxInfo { model_path: "/m/e5.onnx".into(), max_length: 512 }),
    );
    assert_eq!((p.active.as_str(), p.pending.as_str()), ("e5-small-v2", "e5-small-v2"));
    assert!(p.tokenizer_ok && p.model_file_ok);
    assert_eq!((p.model_path.as_str(), p.max_length), ("/m/e5.onnx", 512));
}

#[test]
fn corpus_creation() {
    let o = after_create("my-corpus", &Ok(()));
    assert_eq!(o.slug_text, "");
    assert!(o.error.is_none() && o.refresh_list);
    let o = after_create("Bad Slug", &Err("invalid slug".into()));
    assert_eq!(o.slug_text, "Bad Slug");
    assert_eq!(o.error.as_deref(), Some("invalid slug"));
    assert!(!o.refresh_list);
}

fn row(key: &str) -> RuntimeSettingEntry {
    RuntimeSettingEntry {
        key: key.into(),
        category: None,
        description: None,
        kind: None,
        source: SettingSource::Env,
        override_value: None,
        effective: None,
        env_value: None,
        restart_required: false,
        registered: true,
    }
}

#[test]
fn runtime_listing_loads() {
    let mut l = RuntimeListing::initial();
    assert!(l.loading && l.entries.is_empty() && l.error.is_none());
    let rb = RuntimeRollback { last_bad_file: "/b.json".into(), rolled_back_at: "now".into() };
    l.finish_fetch(Ok((vec![row("A")], Some(rb.clone()))));
    assert!(!l.loading);
    assert_eq!(l.entries.len(), 1);
    assert_eq!(l.rollback, Some(rb.clone()));
    l.start_fetch();
    assert!(l.loading && l.entries.len() == 1);
    l.finish_fetch(Err("offline".into()));
    assert!(!l.loading);
    assert_eq!(l.error.as_deref(), Some("offline"));
    assert_eq!(l.entries.len(), 1);
    assert_eq!(l.rollback, Some(rb));
}

#[test]
fn queue_size_rules() {
    assert!(queue_sizes_ok(&IoUringConfig::defaults()));
    for n in [1u32, 2, 4, 256, 32768] {
        assert!(power_of_two(n));
    }
    for n in [0u32, 3, 6, 100, 32767] {
        assert!(!power_of_two(n));
    }
    let mut c = IoUringConfig::defaults();
    c.ring_size = 65536;
    assert!(!queue_sizes_ok(&c));
    c.ring_size = 300;
    assert!(!queue_sizes_ok(&c));
    c.ring_size = 256;
    c.cq_size = 256;
    assert!(!queue_sizes_ok(&c));
    c.cq_size = 512;
    assert!(queue_sizes_ok(&c));
}
