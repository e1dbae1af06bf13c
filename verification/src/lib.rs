//! Verified core of a file-parsing record store.
//!
//! The library builds filtered preview trees of file-system snapshots,
//! concatenates file contents into a single text artifact, and keeps parse
//! records (content, metadata, tree) with create/read/update/rename/delete
//! and listing semantics. File-system access happens outside and hands the
//! library plain values; the clock enters through a single trusted call.
//! Everything else is verified over mathematical models of those values.

use vstd::prelude::*;

mod clock;
mod commands;
mod concat;
mod error;
mod filter;
mod ids;
mod layout;
mod listing;
mod presets;
mod preview;
mod store;
mod tree;

pub use clock::now_millis;
pub use commands::get_file_detail;
pub use commands::open_in_default_editor;
pub use commands::open_in_folder;
pub use commands::parse;
pub use commands::parse_at;
pub use commands::parse_post;
pub use commands::CompleteParseDetail;
pub use commands::OpenAction;
pub use commands::ParsedFileDetail;
pub use concat::artifact_of;
pub use concat::block_of;
pub use concat::blocks_of;
pub use concat::byte_size;
pub use concat::concatenate;
pub use concat::total_size_of;
pub use concat::FileRead;
pub use concat::ParseOutcome;
pub use error::CommandError;
pub use error::ErrorKind;
pub use filter::contains_substring;
pub use filter::excluded;
pub use filter::included;
pub use filter::is_substring_of;
pub use ids::digit_char;
pub use ids::digits_of;
pub use ids::id_base;
pub use ids::id_base_spec;
pub use ids::u64_digits;
pub use layout::app_dir_path;
pub use layout::content_path;
pub use layout::join_path;
pub use layout::metadata_path;
pub use layout::presets_file_path;
pub use layout::record_dir_path;
pub use layout::records_dir_path;
pub use layout::tree_path;
pub use listing::apply_limit;
pub use listing::assemble_list;
pub use listing::clone_item;
pub use listing::items_sorted_desc;
pub use listing::lemma_assembly_bounded;
pub use listing::loaded_fn;
pub use listing::make_list_item;
pub use listing::provisional_order;
pub use listing::stamps_sorted_desc;
pub use listing::strict_order;
pub use listing::DirStamp;
pub use listing::ParsedFileListItem;
pub use preview::file_name_of;
pub use preview::get_file_preview;
pub use preview::is_file_name_of;
pub use preview::is_preview_of;
pub use preview::newline_count;
pub use preview::take_lines;
pub use preview::FilePreview;
pub use preview::PREVIEW_LINE_LIMIT;
pub use presets::builtin_presets;
pub use presets::builtin_presets_spec;
pub use presets::clone_patterns;
pub use presets::delete_preset;
pub use presets::lemma_preset_idx_props;
pub use presets::list_presets;
pub use presets::preset_idx;
pub use presets::presets_view;
pub use presets::save_preset;
pub use presets::Preset;
pub use presets::PresetResponse;
pub use presets::PresetView;
pub use presets::SavedPreset;
pub use store::contains_id;
pub use store::find_idx;
pub use store::find_rec;
pub use store::fresh_id_spec;
pub use store::lemma_create_then_read;
pub use store::lemma_delete_then_read;
pub use store::lemma_find_idx_hit;
pub use store::lemma_find_idx_props;
pub use store::lemma_max_id_len_bound;
pub use store::lemma_read_after_update;
pub use store::max_id_len;
pub use store::wf_ids;
pub use store::MetaView;
pub use store::ParseMetadata;
pub use store::ParsedRecord;
pub use store::RecordStore;
pub use store::RecordView;
pub use tree::build_children_spec;
pub use tree::build_file_tree;
pub use tree::build_node;
pub use tree::build_spec;
pub use tree::clone_tree;
pub use tree::clone_trees;
pub use tree::children_filtered;
pub use tree::fs_name;
pub use tree::get_preview_tree;
pub use tree::lemma_build_children_prunes;
pub use tree::lemma_build_prunes;
pub use tree::node_name;
pub use tree::preview_fn;
pub use tree::tree_filtered;
pub use tree::tree_view;
pub use tree::trees_view;
pub use tree::FsNode;
pub use tree::ParsedPath;
pub use tree::TreeView;
