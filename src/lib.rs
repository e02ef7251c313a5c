//! An in-memory store of meme records, the ingestion of submitted forms into
//! new records, and the popularity ranking of the stored records.
pub mod meme;
pub mod text;
pub mod store;
pub mod rank;
pub mod ingest;

pub use meme::{Meme, MemeDraft, Info, HealthStatus, sample_memes};
pub use store::{MemeStore, StoreError};
pub use rank::rank;
pub use ingest::{FieldKind, IngestError, Submission, field_kind, upload_file_name, upload_reference, draft_from_parts};
