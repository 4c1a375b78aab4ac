//! The embedding-model page: when a model change can be applied, when it
//! forces a rebuild, and what the page reports.

use vstd::prelude::*;
use crate::text::{contains, contains_text, error_message, owned, same_text};

verus! {

/// The model whose vectors are twice as wide as the others'.
pub open spec fn wide_model() -> Seq<char> {
    "bge-base-en-v1.5"@
}

/// Whether the Apply button accepts a click: not while saving, and only for
/// a model other than the active one.
pub fn can_apply(saving: bool, pending: &str, active: &str) -> (r: bool)
    ensures
        r == (!saving && pending@ != active@),
{
    !saving && !same_text(pending, active)
}

/// Whether to warn that the index must be rebuilt: switching to the
/// 768-dimension model from another one.
pub fn needs_rebuild_warning(pending: &str, active: &str) -> (r: bool)
    ensures
        r == (pending@ == wide_model() && active@ != wide_model()),
{
    same_text(pending, "bge-base-en-v1.5") && !same_text(active, "bge-base-en-v1.5")
}

/// Whether a tokenizer-download message offers a restart: it says
/// `Restart to activate`.
pub fn offers_restart(msg: &str) -> (r: bool)
    ensures
        r == contains_text(msg@, "Restart to activate"@),
{
    contains(msg, "Restart to activate")
}

/// The model-file indicator.
pub fn model_file_label(present: bool) -> (r: &'static str)
    ensures
        r@ == if present { "\u{25cf} model file"@ } else { "\u{25cb} model file"@ },
{
    if present { "\u{25cf} model file" } else { "\u{25cb} model file" }
}

/// The tokenizer indicator.
pub fn tokenizer_label(present: bool) -> (r: &'static str)
    ensures
        r@ == if present { "\u{25cf} tokenizer"@ } else { "\u{25cb} tokenizer"@ },
{
    if present { "\u{25cf} tokenizer" } else { "\u{25cb} tokenizer" }
}

/// The page after an Apply finishes: the active model and the message shown.
#[derive(Clone, Debug, PartialEq, Eq)]
pub struct ApplyOutcome {
    pub active: String,
    pub message: String,
}

/// The page after applying `selected` while `active` was in use: the server
/// either accepts with a message, and `selected` becomes active, or refuses.
pub fn after_apply(active: &str, selected: &str, result: &Result<String, String>) -> (o: ApplyOutcome)
    ensures
        match result {
            Ok(msg) => o.active@ == selected@ && o.message@ == msg@,
            Err(e) => o.active@ == active@ && o.message@ == "Error: "@ + e@,
        },
{
    match result {
        Ok(msg) => ApplyOutcome { active: owned(selected), message: msg.clone() },
        Err(e) => ApplyOutcome { active: owned(active), message: error_message(e.as_str()) },
    }
}

/// The page after a tokenizer download finishes: whether the tokenizer is
/// now there, and the message shown.
pub fn after_tokenizer_download(had_tokenizer: bool, result: &Result<String, String>) -> (o: (bool, String))
    ensures
        match result {
            Ok(msg) => o.0 && o.1@ == msg@,
            Err(e) => o.0 == had_tokenizer && o.1@ == "Error: "@ + e@,
        },
{
    match result {
        Ok(msg) => (true, msg.clone()),
        Err(e) => (had_tokenizer, error_message(e.as_str())),
    }
}


/// The embedding configuration the server reports.
#[derive(Clone, Debug, PartialEq, Eq)]
pub struct EmbeddingConfig {
    pub model: String,
    pub dimension: usize,
    pub tokenizer_exists: bool,
    pub model_exists: bool,
}

/// The ONNX runtime facts the page shows.
#[derive(Clone, Debug, PartialEq, Eq)]
pub struct OnnxInfo {
    pub model_path: String,
    pub max_length: usize,
}

/// What the embedding page shows.
#[derive(Clone, Debug, PartialEq, Eq)]
pub struct EmbeddingPage {
    pub active: String,
    pub pending: String,
    pub dimension: usize,
    pub tokenizer_ok: bool,
    pub model_file_ok: bool,
    pub model_path: String,
    pub max_length: usize,
    pub onnx_loading: bool,
}

impl EmbeddingPage {
    /// The page before anything is fetched: the small BGE model with 384
    /// dimensions, no tokenizer or model file seen, runtime info loading.
    pub fn defaults() -> (p: EmbeddingPage)
        ensures
            p.active@ == "bge-small-en-v1.5"@,
            p.pending@ == "bge-small-en-v1.5"@,
            p.dimension == 384,
            !p.tokenizer_ok,
            !p.model_file_ok,
            p.model_path@.len() == 0,
            p.max_length == 0,
            p.onnx_loading,
    {
        EmbeddingPage {
            active: owned("bge-small-en-v1.5"),
            pending: owned("bge-small-en-v1.5"),
            dimension: 384,
            tokenizer_ok: false,
            model_file_ok: false,
            model_path: String::new(),
            max_length: 0,
            onnx_loading: true,
        }
    }

    /// The page after its two fetches: a fetched embedding configuration
    /// replaces the model (active and pending), its dimension and the file
    /// indicators; fetched runtime info replaces the path and length. A
    /// failed fetch keeps what was shown. Either way the runtime info is no
    /// longer loading.
    pub fn load(&mut self, emb: Option<EmbeddingConfig>, onnx: Option<OnnxInfo>)
        ensures
            !final(self).onnx_loading,
            match emb {
                Some(c) => {
                    &&& final(self).active == c.model
                    &&& final(self).pending == c.model
                    &&& final(self).dimension == c.dimension
                    &&& final(self).tokenizer_ok == c.tokenizer_exists
                    &&& final(self).model_file_ok == c.model_exists
                },
                None => {
                    &&& final(self).active == old(self).active
                    &&& final(self).pending == old(self).pending
                    &&& final(self).dimension == old(self).dimension
                    &&& final(self).tokenizer_ok == old(self).tokenizer_ok
                    &&& final(self).model_file_ok == old(self).model_file_ok
                },
            },
            match onnx {
                Some(o) => final(self).model_path == o.model_path && final(self).max_length == o.max_length,
                None => final(self).model_path == old(self).model_path
                    && final(self).max_length == old(self).max_length,
            },
    {
        if let Some(c) = emb {
            self.active = c.model.clone();
            self.pending = c.model;
            self.dimension = c.dimension;
            self.tokenizer_ok = c.tokenizer_exists;
            self.model_file_ok = c.model_exists;
        }
        if let Some(o) = onnx {
            self.model_path = o.model_path;
            self.max_length = o.max_length;
        }
        self.onnx_loading = false;
    }
}

} // verus!
