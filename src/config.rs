//! The service's settings: a YAML mapping of strings, read once at startup
//! into an explicit context object, and the checks made on the values that
//! the core consumes.
use vstd::prelude::*;

verus! {

/// The key of the database file's path.
pub const DATABASE_FILE_KEY: &'static str = "DatabaseFile";
/// The key of the TLS certificate file's path.
pub const CERT_KEY: &'static str = "Cert";
/// The key of the TLS private key file's path.
pub const PRIVKEY_KEY: &'static str = "Privkey";
/// The key of the address to listen on.
pub const ADDR_KEY: &'static str = "Addr";
/// The key of the origin that cross-origin requests may come from.
pub const CORS_ORIGIN_KEY: &'static str = "CorsOrigin";
/// The key of the number of requests admitted per second.
pub const REQ_PER_SEC_KEY: &'static str = "ReqPerSec";

/// The entries of a settings text, in the order of their keys, where the
/// text is a YAML mapping from strings to strings; nothing where it is not.
pub uninterp spec fn yaml_string_entries(text: Seq<char>) -> Option<Seq<(Seq<char>, Seq<char>)>>;

/// The entries of a list of pairs of strings.
pub open spec fn entries_of(v: Seq<(String, String)>) -> Seq<(Seq<char>, Seq<char>)> {
    v.map_values(|p: (String, String)| (p.0@, p.1@))
}

/// Relies on `serde_yaml::from_str` into a `BTreeMap<String, String>`: it
/// fails unless the text is a mapping of strings, and what it returns
/// depends on the text alone. The map's entries come out in key order; a
/// failure is handed on as the error's text.
#[verifier::external_body]
fn parse_yaml_entries(text: &str) -> (r: Result<Vec<(String, String)>, String>)
    ensures
        match r {
            Ok(v) => yaml_string_entries(text@) == Some(entries_of(v@)),
            Err(_) => yaml_string_entries(text@) is None,
        },
{
    serde_yaml::from_str::<std::collections::BTreeMap<String, String>>(text)
        .map(|m| m.into_iter().collect())
        .map_err(|e| e.to_string())
}

/// Why the settings cannot be used.
#[derive(Debug)]
pub enum ConfigError {
    /// The settings text is not a YAML mapping of strings; the parser's words.
    Unreadable(String),
    /// A required value is missing or empty.
    Missing,
    /// A value that must be a number is not one, or does not fit.
    Invalid,
    /// The request rate is zero.
    Zero,
}

/// Whether entry `i` is the first whose key is `key`.
pub open spec fn is_first_key(entries: Seq<(Seq<char>, Seq<char>)>, key: Seq<char>, i: int) -> bool {
    &&& 0 <= i < entries.len()
    &&& entries[i].0 == key
    &&& forall|j: int| 0 <= j < i ==> entries[j].0 != key
}

/// The value of `key`: that of its first entry, or empty where it has none.
pub open spec fn config_value(entries: Seq<(Seq<char>, Seq<char>)>, key: Seq<char>) -> Seq<char> {
    if exists|i: int| is_first_key(entries, key, i) {
        entries[choose|i: int| is_first_key(entries, key, i)].1
    } else {
        Seq::empty()
    }
}

/// Settings, as key and value pairs.
pub struct Config {
    entries: Vec<(String, String)>,
}

impl View for Config {
    type V = Seq<(Seq<char>, Seq<char>)>;

    closed spec fn view(&self) -> Seq<(Seq<char>, Seq<char>)> {
        entries_of(self.entries@)
    }
}

impl Config {
    /// Settings with these entries.
    pub fn from_entries(entries: Vec<(String, String)>) -> (r: Config)
        ensures
            r@ == entries_of(entries@),
    {
        Config { entries }
    }

    /// Reads settings from a YAML text; fails exactly where the text is not
    /// a mapping from strings to strings.
    pub fn from_yaml(text: &str) -> (r: Result<Config, ConfigError>)
        ensures
            match r {
                Ok(c) => yaml_string_entries(text@) == Some(c@),
                Err(e) => yaml_string_entries(text@) is None && e is Unreadable,
            },
    {
        match parse_yaml_entries(text) {
            Ok(entries) => Ok(Config { entries }),
            Err(message) => Err(ConfigError::Unreadable(message)),
        }
    }

    /// The value of `key`, or an empty string where it is not set.
    pub fn get(&self, key: &str) -> (r: String)
        ensures
            r@ == config_value(self@, key@),
    {
        let ghost entries = self@;
        let target = String::from_str(key);
        let mut i: usize = 0;
        while i < self.entries.len()
            invariant
                i <= self.entries.len(),
                entries == self@,
                entries.len() == self.entries@.len(),
                target@ == key@,
                forall|j: int| 0 <= j < i ==> entries[j].0 != key@,
            decreases self.entries.len() - i,
        {
            if self.entries[i].0 == target {
                assert(is_first_key(entries, key@, i as int));
                let ghost k = choose|k: int| is_first_key(entries, key@, k);
                assert(k == i) by {
                    if k < i {
                        assert(entries[k].0 != key@);
                    } else if k > i {
                        assert(entries[i as int].0 != key@);
                    }
                }
                return self.entries[i].1.clone();
            }
            i = i + 1;
        }
        assert(!exists|k: int| is_first_key(entries, key@, k));
        String::new()
    }

    /// The number of requests admitted per second.
    pub fn rate_limit(&self) -> (r: Result<usize, ConfigError>)
        ensures
            r matches Ok(v) ==> v as int == rate_value(config_value(self@, REQ_PER_SEC_KEY@)),
            (r is Ok) == rate_is_valid(config_value(self@, REQ_PER_SEC_KEY@)),
            r matches Err(e) ==> rate_error(config_value(self@, REQ_PER_SEC_KEY@), e),
    {
        let value = self.get(REQ_PER_SEC_KEY);
        parse_rate_limit(value.as_str())
    }
}

pub open spec fn is_digit(c: char) -> bool {
    '0' <= c <= '9'
}

/// The digits of a number: the text without a leading `+`.
pub open spec fn unsigned_digits(s: Seq<char>) -> Seq<char> {
    if s.len() > 0 && s[0] == '+' {
        s.drop_first()
    } else {
        s
    }
}

/// Whether a text is a decimal number: an optional `+`, then digits.
pub open spec fn is_decimal(s: Seq<char>) -> bool {
    let d = unsigned_digits(s);
    d.len() > 0 && forall|i: int| 0 <= i < d.len() ==> is_digit(#[trigger] d[i])
}

/// The value of a string of digits.
pub open spec fn decimal_value(d: Seq<char>) -> int
    decreases d.len(),
{
    if d.len() == 0 {
        0
    } else {
        10 * decimal_value(d.drop_last()) + (d.last() as int - '0' as int)
    }
}

/// The number that a text of an optional `+` and digits stands for.
pub open spec fn rate_value(s: Seq<char>) -> int {
    decimal_value(unsigned_digits(s))
}

/// Whether a text is a usable request rate: a positive decimal number that
/// fits in a `usize`.
pub open spec fn rate_is_valid(s: Seq<char>) -> bool {
    is_decimal(s) && 0 < rate_value(s) <= usize::MAX
}

/// Whether `e` is the error that a request rate written `s` gives.
pub open spec fn rate_error(s: Seq<char>, e: ConfigError) -> bool {
    if s.len() == 0 {
        e is Missing
    } else if !is_decimal(s) || rate_value(s) > usize::MAX {
        e is Invalid
    } else if rate_value(s) == 0 {
        e is Zero
    } else {
        false
    }
}

proof fn lemma_decimal_prefix(d: Seq<char>, k: int)
    requires
        0 <= k <= d.len(),
        forall|i: int| 0 <= i < d.len() ==> is_digit(#[trigger] d[i]),
    ensures
        0 <= decimal_value(d.take(k)) <= decimal_value(d),
    decreases d.len(),
{
    if k < d.len() {
        let init = d.drop_last();
        assert(init.take(k) =~= d.take(k));
        assert forall|i: int| 0 <= i < init.len() implies is_digit(#[trigger] init[i]) by {
            assert(init[i] == d[i]);
        }
        lemma_decimal_prefix(init, k);
        lemma_decimal_prefix(init, init.len() as int);
        assert(init.take(init.len() as int) =~= init);
    } else {
        assert(d.take(k) =~= d);
        if d.len() > 0 {
            let init = d.drop_last();
            assert forall|i: int| 0 <= i < init.len() implies is_digit(#[trigger] init[i]) by {
                assert(init[i] == d[i]);
            }
            lemma_decimal_prefix(init, init.len() as int);
            assert(init.take(init.len() as int) =~= init);
        }
    }
}

/// Reads a request rate: a positive decimal number, with an optional
/// leading `+`, that fits in a `usize`. An empty text is a missing value.
pub fn parse_rate_limit(text: &str) -> (r: Result<usize, ConfigError>)
    ensures
        r matches Ok(v) ==> v as int == rate_value(text@),
        (r is Ok) == rate_is_valid(text@),
        r matches Err(e) ==> rate_error(text@, e),
{
    let n = text.unicode_len();
    if n == 0 {
        return Err(ConfigError::Missing);
    }
    let mut i: usize = 0;
    if text.get_char(0) == '+' {
        i = 1;
    }
    let start = i;
    let ghost d = unsigned_digits(text@);
    assert(d =~= text@.subrange(start as int, n as int));
    if start == n {
        return Err(ConfigError::Invalid);
    }
    let mut v: usize = 0;
    while i < n
        invariant
            start <= i <= n,
            n == text@.len(),
            d == text@.subrange(start as int, n as int),
            d == unsigned_digits(text@),
            v as int == decimal_value(d.take(i - start)),
            forall|j: int| 0 <= j < i - start ==> is_digit(#[trigger] d[j]),
        decreases n - i,
    {
        let c = text.get_char(i);
        assert(c == d[i - start]);
        if !('0' <= c && c <= '9') {
            assert(!is_digit(d[i - start]));
            return Err(ConfigError::Invalid);
        }
        let digit = (c as u32 - '0' as u32) as usize;
        assert(d.take(i - start + 1).drop_last() =~= d.take(i - start));
        let next = match v.checked_mul(10) {
            Some(m) => m.checked_add(digit),
            None => None,
        };
        match next {
            Some(s) => {
                v = s;
            },
            None => {
                proof {
                    if is_decimal(text@) {
                        lemma_decimal_prefix(d, i - start + 1);
                    }
                }
                return Err(ConfigError::Invalid);
            },
        }
        i = i + 1;
    }
    assert(d.take(i - start) =~= d);
    if v == 0 {
        Err(ConfigError::Zero)
    } else {
        Ok(v)
    }
}

} // verus!
