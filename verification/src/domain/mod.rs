pub mod book;
pub mod metadata;

pub use book::{Book, Paper};
pub use metadata::{DownloadSource, Identifiers, IpfsInfo, ItemDetails};
