//! Recover the original source tree of a bundled web application.
//!
//! Starting from the JavaScript a bundler ships to the browser, the library
//! locates source map references, analyzes the emitted bundler runtime to
//! enumerate chunk asset URLs, parses source maps, and reconstructs clean
//! on-disk paths for the original files under an output root.

pub mod download;
pub mod fetch;
pub mod file_checks;
pub mod output;
pub mod path_reconstruct;
pub mod scan;
pub mod sm_parse;
pub mod sourcemaps;
pub mod storage;
pub mod url_utils;
pub mod urls;
pub mod webpack;
pub mod webpack_ids;
pub mod webpack_maps;

pub use download::DownloadManagerConfig;
pub use download::DownloadResult;
pub use download::HeadProbe;
pub use download::filter_live_urls;
pub use download::truncate_urls;
pub use fetch::FetchError;
pub use fetch::validate_url;
pub use file_checks::FileAnalysisError;
pub use file_checks::PathProbe;
pub use file_checks::check_js_path;
pub use file_checks::has_js_extension;
pub use output::TreeFile;
pub use output::validate_output;
pub use path_reconstruct::reconstruct_paths;
pub use path_reconstruct::reconstruct_paths_with_contents;
pub use sm_parse::SourceMapData;
pub use sm_parse::SourcemapError;
pub use sm_parse::parse_sourcemap;
pub use sm_parse::sources_list;
pub use sourcemaps::extract_sourcemap_urls;
pub use sourcemaps::find_sourcemap_url_in_js;
pub use sourcemaps::validate_sourcemap_urls;
pub use storage::HtmlDocument;
pub use storage::MemoryStorage;
pub use storage::StorageError;
pub use url_utils::derive_base_from_runtime;
pub use url_utils::extract_script_urls;
pub use url_utils::is_webpack_runtime_path;
pub use url_utils::manifest_chunk_urls;
pub use webpack::ChunkFilenameTemplate;
pub use webpack::build_chunk_url;
pub use webpack::extract_public_path;
pub use webpack::generate_chunk_urls;
pub use webpack::infer_chunk_filename_template;
pub use webpack_ids::extract_chunk_ids;
pub use webpack_ids::extract_literal_chunk_paths;
pub use webpack_ids::extract_paths_from_build_manifest;
pub use webpack_maps::ChunkMapInfo;
pub use webpack_maps::extract_chunk_maps;
pub use webpack_maps::generate_urls_from_chunk_maps;
