//! Backend of a delimited-text preview tool: delimiter resolution from a
//! user override and a file extension, a bounded ragged-row-tolerant CSV
//! preview, and the pure decision logic behind a directory listing and a
//! script-execution bridge.

mod boundary;
mod delimiter;
mod preview;

pub use boundary::{bridge_outcome, greet, make_directory_listing, DirectoryListing};
pub use delimiter::{
    get_delimeter, lemma_csv_extension_gives_comma, lemma_custom_override_wins,
    lemma_tsv_extension_gives_tab, spec_delim_for_path, spec_extension, spec_get_delimeter,
    spec_str_to_delim, str_to_delim, COMMA, TAB,
};
pub use preview::{
    build_preview, csv_prefix, lemma_preview_line_count, parsed_view, preview_from_bytes,
    spec_preview_rows, CsvPreview, PreviewError, MAX_DATA_ROWS, MAX_PREVIEW_ROWS,
};
