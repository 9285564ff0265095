//! Client configuration: the API key and the URL parts, with the defaults
//! applied when a part is not provided.

use vstd::prelude::*;
use vstd::string::StringExecFns;

verus! {

/// The configuration of the data-source client.
#[derive(Debug, Clone)]
pub struct SportRadarConfig {
    api_key: String,
    access_level: String,
    language_code: String,
    format: String,
}

/// The text a configuration part takes: the given value, or the default
/// where none was given.
pub open spec fn spec_or_default(given: Option<String>, default: Seq<char>) -> Seq<char> {
    match given {
        Some(s) => s@,
        None => default,
    }
}

impl SportRadarConfig {
    /// The configuration's parts as the contracts speak of them.
    pub closed spec fn spec_api_key(self) -> Seq<char> {
        self.api_key@
    }

    pub closed spec fn spec_access_level(self) -> Seq<char> {
        self.access_level@
    }

    pub closed spec fn spec_language_code(self) -> Seq<char> {
        self.language_code@
    }

    pub closed spec fn spec_format(self) -> Seq<char> {
        self.format@
    }

    /// Builds a configuration; absent parts fall back to the trial access
    /// level, English, and the JSON format.
    pub fn new(
        api_key: String,
        access_level: Option<String>,
        language_code: Option<String>,
        format: Option<String>,
    ) -> (r: Self)
        ensures
            r.spec_api_key() == api_key@,
            r.spec_access_level() == spec_or_default(access_level, "trial"@),
            r.spec_language_code() == spec_or_default(language_code, "en"@),
            r.spec_format() == spec_or_default(format, "json"@),
    {
        SportRadarConfig {
            api_key,
            access_level: match access_level {
                Some(s) => s,
                None => String::from_str("trial"),
            },
            language_code: match language_code {
                Some(s) => s,
                None => String::from_str("en"),
            },
            format: match format {
                Some(s) => s,
                None => String::from_str("json"),
            },
        }
    }

    pub fn api_key<'a>(&'a self) -> (r: &'a str)
        ensures
            r@ == self.spec_api_key(),
    {
        self.api_key.as_str()
    }

    pub fn access_level<'a>(&'a self) -> (r: &'a str)
        ensures
            r@ == self.spec_access_level(),
    {
        self.access_level.as_str()
    }

    pub fn language_code<'a>(&'a self) -> (r: &'a str)
        ensures
            r@ == self.spec_language_code(),
    {
        self.language_code.as_str()
    }

    pub fn format<'a>(&'a self) -> (r: &'a str)
        ensures
            r@ == self.spec_format(),
    {
        self.format.as_str()
    }
}

} // verus!
