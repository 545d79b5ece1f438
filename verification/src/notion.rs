//! The remote sync capability: the interface the worker pushes through.

use vstd::prelude::*;

verus! {

/// Identifiers of the remote databases and of their properties, as
/// configured: the main (batch) database, the resource database, and the
/// property each pushed field lands in.
#[derive(Debug, Clone)]
pub struct NotionIds {
    pub main_db: String,
    pub resource_db: String,
    pub f_main_title: String,
    pub f_rel_parent: String,
    pub f_res_order: String,
    pub f_res_text: String,
    pub f_res_media: String,
}

/// One property of a remote database schema: its id and its type name.
#[derive(Debug, Clone)]
pub struct DatabaseProperty {
    pub id: String,
    pub typ: String,
}

/// The capability to create pages remotely. Production and test
/// implementations are interchangeable; the worker never assumes the remote
/// side is idempotent — its own already-synced check is what prevents
/// duplicate creation on retry. Nothing is promised of these methods'
/// results: the worker states what holds of its own state whatever an
/// implementation returns.
pub trait NotionService {
    /// Creates the remote page for a committed batch, from its title, and
    /// returns the page's external id, or a retryable failure message.
    fn create_main_page(&mut self, ids: &NotionIds, title: &str) -> Result<String, String>;

    /// Creates the remote page for one resource — its position, text and
    /// media, under the given parent page if any — and returns the page's
    /// external id, or a retryable failure message.
    fn create_resource_page(
        &mut self,
        ids: &NotionIds,
        parent_main_page_id: Option<&str>,
        order: i64,
        text: Option<&str>,
        media_name: Option<&str>,
        media_url: Option<&str>,
    ) -> Result<String, String>;
}

} // verus!
