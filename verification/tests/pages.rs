use fro::embedding::{
    after_apply, after_tokenizer_download, can_apply, model_file_label, needs_rebuild_warning,
    offers_restart, tokenizer_label,
};
use fro::io_uring::{
    after_save, byte_scale, health_detail, health_status, load_error_message, reset_message,
    scale_divisor, scale_suffix, small_bytes_text, ByteScale, IoUringConfig,
};
use fro::overview::documents_label;

#[test]
fn embedding_apply_rules() {
    assert!(can_apply(false, "e5-small-v2", "bge-small-en-v1.5"));
    assert!(!can_apply(true, "e5-small-v2", "bge-small-en-v1.5"));
    assert!(!can_apply(false, "bge-small-en-v1.5", "bge-small-en-v1.5"));
    assert!(needs_rebuild_warning("bge-base-en-v1.5", "bge-small-en-v1.5"));
    assert!(!needs_rebuild_warning("bge-base-en-v1.5", "bge-base-en-v1.5"));
    assert!(!needs_rebuild_warning("e5-small-v2", "bge-small-en-v1.5"));
    assert!(offers_restart("Tokenizer downloaded. Restart to activate."));
    assert!(!offers_restart("Tokenizer downloaded."));
    assert_eq!(model_file_label(true), "\u{25cf} model file");
    assert_eq!(tokenizer_label(false), "\u{25cb} tokenizer");
}

#[test]
fn embedding_outcomes() {
    let o = after_apply("bge-small-en-v1.5", "e5-small-v2", &Ok("Model set".into()));
    assert_eq!((o.active.as_str(), o.message.as_str()), ("e5-small-v2", "Model set"));
    let o = after_apply("bge-small-en-v1.5", "e5-small-v2", &Err("busy".into()));
    assert_eq!((o.active.as_str(), o.message.as_str()), ("bge-small-en-v1.5", "Error: busy"));
    assert_eq!(after_tokenizer_download(false, &Ok("ok".into())), (true, "ok".to_string()));
    assert_eq!(after_tokenizer_download(false, &Err("net".into())), (false, "Error: net".to_string()));
}

#[test]
fn io_uring_defaults_and_health() {
    let d = IoUringConfig::defaults();
    assert_eq!(d.ring_size, 256);
    assert_eq!(d.cq_size, 0);
    assert_eq!(d.buffer_size, 65536);
    assert_eq!(d.buffer_pool_size, 64);
    assert_eq!(d.sqpoll_idle_ms, 1000);
    assert_eq!(d.sqpoll_cpu, -1);
    assert_eq!(d.attach_wq_fd, -1);
    assert!(d.single_issuer && !d.sqpoll && !d.dontfork);
    assert_eq!(reset_message(), "Reset to defaults (not saved yet)");
    assert_eq!(health_status(false, 9, "io_uring"), "Unknown");
    assert_eq!(health_status(true, 1, "io_uring"), "Unhealthy");
    assert_eq!(health_status(true, 0, "io_uring"), "Healthy");
    assert_eq!(health_status(true, 0, "tokio::fs"), "Degraded");
    assert_eq!(health_detail(false, "io_uring", "1 B"), "API unreachable");
    assert_eq!(health_detail(true, "io_uring", "1.00 KB"), "io_uring | 1.00 KB");
    assert_eq!(load_error_message("timeout"), "Failed to load io_uring config: timeout");
    assert_eq!(after_save(&Ok(())), (Some("Saved! Restart required.".to_string()), None));
    assert_eq!(after_save(&Err("x".into())), (None, Some("x".to_string())));
}

#[test]
fn byte_units() {
    assert_eq!(byte_scale(0), ByteScale::Bytes);
    assert_eq!(byte_scale(1023), ByteScale::Bytes);
    assert_eq!(byte_scale(1024), ByteScale::Kilobytes);
    assert_eq!(byte_scale(1024 * 1024), ByteScale::Megabytes);
    assert_eq!(byte_scale(1024 * 1024 * 1024 * 5), ByteScale::Gigabytes);
    assert_eq!(scale_divisor(ByteScale::Megabytes), 1 << 20);
    assert_eq!(scale_suffix(ByteScale::Gigabytes), "GB");
    assert_eq!(small_bytes_text(512), "512 B");
    assert_eq!(small_bytes_text(0), "0 B");
}

#[test]
fn overview_documents() {
    assert_eq!(documents_label(None), "--");
    assert_eq!(documents_label(Some(0)), "0");
    assert_eq!(documents_label(Some(1534)), "1534");
}
