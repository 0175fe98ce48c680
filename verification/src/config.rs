//! Settings of the client: defaults, and how they are read from the
//! environment and overridden from the command line.
use vstd::prelude::*;

use crate::domain::book::ov;
use crate::text::{parse_u64, parse_u64_exec, trim, trim_ws};

verus! {

/// The browser identity sent with requests.
pub const DEFAULT_USER_AGENT: &'static str = "Mozilla/5.0 (Macintosh; Intel Mac OS X 10_15_7) AppleWebKit/537.36 (KHTML, like Gecko) Chrome/124.0.0.0 Safari/537.36";

/// The Wikipedia article that lists the domains of Anna's Archive.
pub const DEFAULT_WIKIPEDIA_URL: &'static str = "https://en.wikipedia.org/wiki/Anna%27s_Archive";

/// The SLUM status page used when none is configured.
pub const DEFAULT_SLUM_STATUS_URL: &'static str = "https://open-slum.org/";

/// The request timeout, in seconds, when none is configured.
pub const DEFAULT_TIMEOUT_SECS: u64 = 60;

/// The mirror used when no candidate can be reached.
pub const DEFAULT_FALLBACK_MIRROR: &'static str = "annas-archive.gl";

/// The settings of the client.
#[derive(Clone, Debug)]
pub struct AppConfig {
    /// The key for fast downloads, if any.
    pub secret_key: Option<String>,
    /// The folder where downloads are saved.
    pub download_path: String,
    /// A mirror to use instead of discovering one.
    pub base_url: Option<String>,
    pub wikipedia_url: String,
    pub slum_status_url: String,
    pub timeout_secs: u64,
    pub user_agent: String,
}

pub struct AppConfigView {
    pub secret_key: Option<Seq<char>>,
    pub download_path: Seq<char>,
    pub base_url: Option<Seq<char>>,
    pub wikipedia_url: Seq<char>,
    pub slum_status_url: Seq<char>,
    pub timeout_secs: u64,
    pub user_agent: Seq<char>,
}

impl View for AppConfig {
    type V = AppConfigView;

    open spec fn view(&self) -> AppConfigView {
        AppConfigView {
            secret_key: ov(self.secret_key),
            download_path: self.download_path@,
            base_url: ov(self.base_url),
            wikipedia_url: self.wikipedia_url@,
            slum_status_url: self.slum_status_url@,
            timeout_secs: self.timeout_secs,
            user_agent: self.user_agent@,
        }
    }
}

/// What the environment holds for the settings: the value of each variable
/// that is set, and the user's download folder when the system knows one.
#[derive(Clone, Debug)]
pub struct EnvSettings {
    /// `ANNAS_SECRET_KEY`.
    pub secret_key: Option<String>,
    /// `ANNAS_ARCHIVE_API_KEY`, read when `ANNAS_SECRET_KEY` is not set.
    pub archive_api_key: Option<String>,
    /// `ANNAS_DOWNLOAD_PATH`.
    pub download_path: Option<String>,
    /// The user's download folder.
    pub user_download_dir: Option<String>,
    /// `ANNAS_BASE_URL`.
    pub base_url: Option<String>,
    /// `ANNAS_WIKI_URL`.
    pub wiki_url: Option<String>,
    /// `ANNAS_SLUM_URL`.
    pub slum_url: Option<String>,
    /// `ANNAS_TIMEOUT`.
    pub timeout: Option<String>,
}

/// A setting trimmed, or nothing when it is blank.
pub open spec fn trimmed_setting(o: Option<Seq<char>>) -> Option<Seq<char>> {
    match o {
        Some(s) => if trim_ws(s).len() == 0 {
            None
        } else {
            Some(trim_ws(s))
        },
        None => None,
    }
}

/// The settings that the environment gives: the key trimmed (the second
/// variable read only when the first is unset), the download folder from its
/// variable, else the user's download folder, else `.`, the mirror trimmed,
/// the URLs as given or by default, and the timeout when it parses as a
/// number of seconds, else 60.
pub open spec fn config_from(env: EnvSettings) -> AppConfigView {
    AppConfigView {
        secret_key: trimmed_setting(
            match env.secret_key {
                Some(s) => Some(s@),
                None => ov(env.archive_api_key),
            },
        ),
        download_path: match env.download_path {
            Some(p) => p@,
            None => match env.user_download_dir {
                Some(d) => d@,
                None => "."@,
            },
        },
        base_url: trimmed_setting(ov(env.base_url)),
        wikipedia_url: match env.wiki_url {
            Some(u) => u@,
            None => DEFAULT_WIKIPEDIA_URL@,
        },
        slum_status_url: match env.slum_url {
            Some(u) => u@,
            None => DEFAULT_SLUM_STATUS_URL@,
        },
        timeout_secs: match env.timeout {
            Some(t) => match parse_u64(t@) {
                Some(v) => v,
                None => DEFAULT_TIMEOUT_SECS,
            },
            None => DEFAULT_TIMEOUT_SECS,
        },
        user_agent: DEFAULT_USER_AGENT@,
    }
}

fn trimmed_setting_exec(o: Option<String>) -> (r: Option<String>)
    ensures
        ov(r) == trimmed_setting(ov(o)),
{
    match o {
        Some(s) => {
            let t = trim(s.as_str());
            if t.as_str().is_empty() {
                None
            } else {
                Some(t)
            }
        },
        None => None,
    }
}

impl AppConfig {
    /// The settings that the environment gives.
    pub fn from_settings(env: EnvSettings) -> (r: Self)
        ensures
            r@ == config_from(env),
    {
        let ghost e = env;
        let key = match env.secret_key {
            Some(s) => Some(s),
            None => env.archive_api_key,
        };
        let download_path = match env.download_path {
            Some(p) => p,
            None => match env.user_download_dir {
                Some(d) => d,
                None => String::from_str("."),
            },
        };
        let wikipedia_url = match env.wiki_url {
            Some(u) => u,
            None => String::from_str(DEFAULT_WIKIPEDIA_URL),
        };
        let slum_status_url = match env.slum_url {
            Some(u) => u,
            None => String::from_str(DEFAULT_SLUM_STATUS_URL),
        };
        let timeout_secs = match env.timeout {
            Some(t) => match parse_u64_exec(t.as_str()) {
                Some(v) => v,
                None => DEFAULT_TIMEOUT_SECS,
            },
            None => DEFAULT_TIMEOUT_SECS,
        };
        AppConfig {
            secret_key: trimmed_setting_exec(key),
            download_path,
            base_url: trimmed_setting_exec(env.base_url),
            wikipedia_url,
            slum_status_url,
            timeout_secs,
            user_agent: String::from_str(DEFAULT_USER_AGENT),
        }
    }

    /// The settings with the values given on the command line put in place
    /// of the others.
    pub fn with_overrides(
        self,
        base_url: Option<String>,
        secret_key: Option<String>,
        download_path: Option<String>,
        timeout: Option<u64>,
    ) -> (r: Self)
        ensures
            r@.base_url == (if base_url is Some {
                ov(base_url)
            } else {
                self@.base_url
            }),
            r@.secret_key == (if secret_key is Some {
                ov(secret_key)
            } else {
                self@.secret_key
            }),
            r@.download_path == match download_path {
                Some(p) => p@,
                None => self@.download_path,
            },
            r@.timeout_secs == match timeout {
                Some(t) => t,
                None => self.timeout_secs,
            },
            r@.wikipedia_url == self@.wikipedia_url,
            r@.slum_status_url == self@.slum_status_url,
            r@.user_agent == self@.user_agent,
    {
        let mut c = self;
        match base_url {
            Some(u) => {
                c.base_url = Some(u);
            },
            None => {},
        }
        match secret_key {
            Some(k) => {
                c.secret_key = Some(k);
            },
            None => {},
        }
        match download_path {
            Some(p) => {
                c.download_path = p;
            },
            None => {},
        }
        match timeout {
            Some(t) => {
                c.timeout_secs = t;
            },
            None => {},
        }
        c
    }
}

} // verus!
