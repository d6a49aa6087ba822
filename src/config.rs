//! Runtime configuration and the checks a new configuration must pass
//! before it replaces the current one.

use vstd::prelude::*;
use vstd::string::{StrSliceExecFns, StringExecFns};

use crate::filter::{is_level_name, parse_level_name, LevelFilters, UrlFilters};

verus! {

/// Scheme and host (if any) of a text read as an absolute URL, or `None`
/// when it is not one, as the `url` crate reads it.
pub uninterp spec fn parsed_url(s: Seq<char>) -> Option<(Seq<char>, Option<Seq<char>>)>;

/// Relies on `url::Url::parse` (an error for text that is not an absolute
/// URL), and on `Url::scheme` and `Url::host_str` of the parsed value.
#[verifier::external_body]
fn parse_url(s: &str) -> (r: Option<(String, Option<String>)>)
    ensures
        r is None <==> parsed_url(s@) is None,
        r matches Some((scheme, host)) ==> (parsed_url(s@) matches Some((ps, ph)) && ps == scheme@
            && (ph is Some <==> host is Some) && (host matches Some(h) ==> ph == Some(h@))),
{
    match url::Url::parse(s) {
        Ok(u) => Some((u.scheme().to_string(), u.host_str().map(|h| h.to_string()))),
        Err(_) => None,
    }
}

/// Service settings and the per-URL filters.
#[derive(Debug)]
pub struct Config {
    pub server_ip: String,
    pub server_port: u16,
    pub currency: String,
    pub refresh_interval_minutes: u64,
    pub log_filename: String,
    pub database_name: String,
    pub url_filters: UrlFilters,
}

/// Why a configuration was refused.
#[derive(Debug, Clone, PartialEq)]
pub enum ConfigError {
    ZeroPort,
    ZeroRefreshInterval,
    InvalidUrl(String),
    InvalidLevelName { level: String, url: String },
}

/// A URL the configuration accepts: absolute, with a scheme and a non-empty
/// host.
pub open spec fn url_well_formed(u: Seq<char>) -> bool {
    match parsed_url(u) {
        Some((scheme, host)) => scheme.len() > 0 && (host matches Some(h) && h.len() > 0),
        None => false,
    }
}

/// A level name the configuration accepts: the names the filter evaluator
/// treats as levels.
pub open spec fn is_configured_level_name(n: Seq<char>) -> bool {
    is_level_name(n)
}

/// Every level name of `levels` is accepted.
pub open spec fn level_names_valid(levels: Map<Seq<char>, Vec<String>>) -> bool {
    forall|name: Seq<char>| #[trigger] levels.contains_key(name) ==> is_configured_level_name(name)
}

/// One filter entry is accepted.
pub open spec fn filter_entry_valid(url: Seq<char>, levels: LevelFilters) -> bool {
    url_well_formed(url) && level_names_valid(levels@)
}

/// The `i`-th URL of `filters` in key order, with its levels.
pub open spec fn filter_entry_at(filters: UrlFilters, i: int) -> bool {
    filter_entry_valid(filters.keys()[i], filters@[filters.keys()[i]])
}

/// Every filter entry is accepted.
pub open spec fn filters_valid(filters: UrlFilters) -> bool {
    forall|u: Seq<char>| #[trigger] filters@.contains_key(u) ==> filter_entry_valid(u, filters@[u])
}

/// A configuration that may replace the current one.
pub open spec fn config_valid(c: Config) -> bool {
    c.server_port != 0 && c.refresh_interval_minutes != 0 && filters_valid(c.url_filters)
}

/// Whether `name` is an accepted level name.
pub fn is_valid_level_name(name: &str) -> (r: bool)
    ensures
        r == is_configured_level_name(name@),
{
    parse_level_name(name).is_some()
}

/// Whether `url` is an accepted filter URL.
pub fn is_valid_url(url: &str) -> (r: bool)
    ensures
        r == url_well_formed(url@),
{
    match parse_url(url) {
        None => false,
        Some((scheme, host)) => {
            let has_scheme = scheme.unicode_len() > 0;
            match host {
                Some(h) => has_scheme && h.unicode_len() > 0,
                None => false,
            }
        },
    }
}

impl Config {
    /// Checks the port, the refresh interval, and then the filter entries in
    /// key order (each URL before its level names, the level names in key
    /// order); the first failure found is reported.
    pub fn validate(&self) -> (r: Result<(), ConfigError>)
        ensures
            r is Ok <==> config_valid(*self),
            self.server_port == 0 ==> r == Err::<(), ConfigError>(ConfigError::ZeroPort),
            self.server_port != 0 && self.refresh_interval_minutes == 0 ==> r == Err::<
                (),
                ConfigError,
            >(ConfigError::ZeroRefreshInterval),
            r matches Err(ConfigError::InvalidUrl(u)) ==> self.server_port != 0
                && self.refresh_interval_minutes != 0 && exists|i: int|
                0 <= i < self.url_filters.keys().len() && self.url_filters.keys()[i] == u@
                    && !url_well_formed(u@) && forall|j: int|
                    0 <= j < i ==> #[trigger] filter_entry_at(self.url_filters, j),
            r matches Err(ConfigError::InvalidLevelName { level, url }) ==> self.server_port != 0
                && self.refresh_interval_minutes != 0 && exists|i: int|
                0 <= i < self.url_filters.keys().len() && self.url_filters.keys()[i] == url@
                    && url_well_formed(url@) && (exists|q: int|
                    0 <= q < self.url_filters@[url@].keys().len()
                        && self.url_filters@[url@].keys()[q] == level@ && forall|p: int|
                        0 <= p < q ==> #[trigger] is_configured_level_name(
                            self.url_filters@[url@].keys()[p],
                        )) && !is_configured_level_name(level@) && forall|j: int|
                    0 <= j < i ==> #[trigger] filter_entry_at(self.url_filters, j),
    {
        if self.server_port == 0 {
            return Err(ConfigError::ZeroPort);
        }
        if self.refresh_interval_minutes == 0 {
            return Err(ConfigError::ZeroRefreshInterval);
        }
        let filters = &self.url_filters;
        let n = filters.len();
        let ghost ks = filters.keys();
        let mut i: usize = 0;
        while i < n
            invariant
                n == ks.len(),
                ks == filters.keys(),
                filters == &self.url_filters,
                self.server_port != 0,
                self.refresh_interval_minutes != 0,
                0 <= i <= n,
                forall|k: Seq<char>| #[trigger] filters@.contains_key(k) <==> ks.contains(k),
                forall|j: int| 0 <= j < n ==> #[trigger] filters@.contains_key(ks[j]),
                forall|j: int| 0 <= j < i ==> #[trigger] filter_entry_at(*filters, j),
            decreases n - i,
        {
            let url = filters.key_at(i);
            let levels = filters.value_at(i);
            if !is_valid_url(url.as_str()) {
                return Err(ConfigError::InvalidUrl(url.clone()));
            }
            let m = levels.len();
            let ghost lk = levels.keys();
            let mut j: usize = 0;
            while j < m
                invariant
                    m == lk.len(),
                    lk == levels.keys(),
                    0 <= j <= m,
                    forall|q: int| 0 <= q < m ==> #[trigger] levels@.contains_key(lk[q]),
                    filters == &self.url_filters,
                    self.server_port != 0,
                    self.refresh_interval_minutes != 0,
                    0 <= i < n,
                    n == ks.len(),
                    ks == filters.keys(),
                    ks[i as int] == url@,
                    filters@.contains_key(url@),
                    filters@[url@] == *levels,
                    url_well_formed(url@),
                    forall|q: int| 0 <= q < i ==> #[trigger] filter_entry_at(*filters, q),
                    forall|q: int| 0 <= q < j ==> #[trigger] is_configured_level_name(lk[q]),
                decreases m - j,
            {
                let name = levels.key_at(j);
                if !is_valid_level_name(name.as_str()) {
                    proof {
                        assert(levels@.contains_key(lk[j as int]));
                    }
                    return Err(ConfigError::InvalidLevelName { level: name.clone(), url: url.clone() });
                }
                j = j + 1;
            }
            proof {
                assert forall|name: Seq<char>| #[trigger] levels@.contains_key(name)
                    implies is_configured_level_name(name) by {
                    let q = lk.index_of(name);
                    assert(lk[q] == name);
                }
                assert(filter_entry_at(*filters, i as int));
            }
            i = i + 1;
        }
        proof {
            assert forall|u: Seq<char>| #[trigger] filters@.contains_key(u) implies filter_entry_valid(
                u,
                filters@[u],
            ) by {
                let q = ks.index_of(u);
                assert(ks[q] == u);
                assert(filter_entry_at(*filters, q));
            }
        }
        Ok(())
    }
}

impl ConfigError {
    /// A human-readable description.
    pub fn message(&self) -> (r: String)
        ensures
            r@ == match *self {
                ConfigError::ZeroPort => "Server port must be greater than 0"@,
                ConfigError::ZeroRefreshInterval => "Refresh interval must be greater than 0"@,
                ConfigError::InvalidUrl(u) => "Invalid URL format: "@ + u@,
                ConfigError::InvalidLevelName { level, url } => "Invalid filter level name '"@
                    + level@ + "' for URL '"@ + url@ + "'"@,
            },
    {
        match self {
            ConfigError::ZeroPort => String::from_str("Server port must be greater than 0"),
            ConfigError::ZeroRefreshInterval => String::from_str(
                "Refresh interval must be greater than 0",
            ),
            ConfigError::InvalidUrl(u) => String::from_str("Invalid URL format: ").concat(u.as_str()),
            ConfigError::InvalidLevelName { level, url } => String::from_str(
                "Invalid filter level name '",
            ).concat(level.as_str()).concat("' for URL '").concat(url.as_str()).concat("'"),
        }
    }
}

} // verus!
