use vstd::prelude::*;

mod errors;
mod listing;
mod order;
mod permission;

pub use errors::{error_text, FSError};
pub use listing::{
    build_listing, check_path, collect_entries, entry_from_meta, insert_by_name, is_hidden,
    is_hidden_name, is_listing, kept, lemma_kept_entries, lemma_special_entries_once,
    metadata_missing, models, open_error, sorted_by_name, special, DirItem, EntryMeta,
    EntryModel, FileMetadata, OpenFailure, PathKind,
};
pub use order::{bytes_le, bytes_leq, lemma_bytes_le_total, lemma_bytes_le_trans};
pub use permission::{
    all_octal, decoded, expand, get_permission_string_from_string_number,
    lemma_mode_permission_decodes, permission_from_mode, permission_of,
};

verus! {

} // verus!
