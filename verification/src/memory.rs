//! Memory accounting of a session.
use vstd::prelude::*;

verus! {

/// Bytes retained by each part of a session, with cache and worker counters.
#[derive(Debug, Clone, Copy, PartialEq, Eq, Structural, Default)]
pub struct AppMemorySnapshot {
    pub catalog_count: usize,
    pub loaded_body_bytes: usize,
    pub body_cache_hits: u64,
    pub body_cache_misses: u64,
    pub body_cache_evictions: u64,
    pub parsed_document_bytes: usize,
    pub editor_and_undo_bytes: usize,
    pub history_payload_bytes: usize,
    pub search_index_bytes: usize,
    pub search_result_bytes: usize,
    pub graph_bytes: usize,
    pub graph_index_bytes: usize,
    pub graph_session_bytes: usize,
    pub graph_cache_reused_files: usize,
    pub graph_parsed_files: usize,
    pub image_bytes: usize,
    pub image_decoded_bytes: usize,
    pub image_protocol_bytes: usize,
    pub syntax_definition_bytes: usize,
    pub syntax_result_cache_bytes: usize,
    pub highlight_cache_bytes: usize,
    pub highlight_worker_bytes: usize,
    pub live_workers: usize,
    pub pending_requests: usize,
}

/// The bytes a snapshot attributes to named owners: loaded bodies, the parsed
/// document, the editor, search index and results, the graph, images,
/// syntax definitions and highlight caches.
pub open spec fn attributed(s: AppMemorySnapshot) -> int {
    s.loaded_body_bytes + s.parsed_document_bytes + s.editor_and_undo_bytes + s.search_index_bytes + s.search_result_bytes + s.graph_bytes + s.image_bytes + s.syntax_definition_bytes + s.highlight_cache_bytes
}

impl AppMemorySnapshot {
    /// Total of the attributed byte counts.
    pub fn attributed_bytes(&self) -> (n: usize)
        requires
            attributed(*self) <= usize::MAX,
        ensures
            n == attributed(*self),
    {
        self.loaded_body_bytes + self.parsed_document_bytes + self.editor_and_undo_bytes + self.search_index_bytes + self.search_result_bytes + self.graph_bytes + self.image_bytes + self.syntax_definition_bytes + self.highlight_cache_bytes
    }
}

} // verus!
