pub mod anna_client;
pub mod elasticsearch;
pub mod scraper;

pub use elasticsearch::parse_elasticsearch_record;
pub use scraper::AnnaScraper;
