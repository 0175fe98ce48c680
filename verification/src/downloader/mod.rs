pub mod download;
pub mod fallback;
pub mod partner;
pub mod sanitize;

pub use download::{DownloadedFileInfo, FileDownloader};
pub use partner::PartnerDownloadResolver;
pub use sanitize::{make_safe_filepath, sanitize_filename};
