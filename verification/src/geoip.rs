//! Country matching for `GEOIP` rules: the `PRIVATE` pseudo-code, and lookups
//! in a MaxMind country database.

use vstd::prelude::*;
use maxminddb::Reader;
use crate::ip::{is_private_ip, private_spec, Ipv4Addr};
use crate::text::{ascii_upper, chars_eq, chars_eq_str, chars_of, to_ascii_upper, trim, trim_chars};

verus! {

/// An open MaxMind country database (`maxminddb::Reader` over the bytes of
/// the database file), opaque to proofs: what it holds is named by
/// `database_bytes`.
#[verifier::external_body]
#[derive(Debug)]
pub struct GeoDatabase {
    reader: Reader<Vec<u8>>,
}

/// The bytes an open database reads from (the buffer `maxminddb::Reader`
/// keeps).
pub uninterp spec fn database_bytes(db: GeoDatabase) -> Seq<u8>;

/// The ISO country codes a database record gives for an address.
#[derive(Debug, Clone)]
pub struct CountryCodes {
    /// Where the address is located.
    pub country: Option<String>,
    /// Where the address block is registered.
    pub registered: Option<String>,
    /// Whom the users of the address represent.
    pub represented: Option<String>,
}

/// `o` holds exactly the characters `code`.
pub open spec fn opt_is(o: Option<String>, code: Seq<char>) -> bool {
    match o {
        Some(s) => s@ == code,
        None => false,
    }
}

/// The three codes of a record, by their characters: located, registered,
/// represented.
pub type CodesModel = (Option<Seq<char>>, Option<Seq<char>>, Option<Seq<char>>);

/// An optional string, by its characters.
pub open spec fn opt_chars(o: Option<String>) -> Option<Seq<char>> {
    match o {
        Some(s) => Some(s@),
        None => None,
    }
}

/// The codes of a record, by their characters.
pub open spec fn codes_view(c: CountryCodes) -> CodesModel {
    (opt_chars(c.country), opt_chars(c.registered), opt_chars(c.represented))
}

/// One of the codes is `code` in uppercase.
pub open spec fn codes_model_match(c: CodesModel, code: Seq<char>) -> bool {
    let upper = ascii_upper(code);
    c.0 == Some(upper) || c.1 == Some(upper) || c.2 == Some(upper)
}

/// One of the codes is `code` in uppercase.
pub open spec fn codes_match(c: CountryCodes, code: Seq<char>) -> bool {
    codes_model_match(codes_view(c), code)
}

/// `code` is the pseudo-code `PRIVATE`, in any ASCII letter case.
pub open spec fn is_private_code(code: Seq<char>) -> bool {
    ascii_upper(code) == "PRIVATE"@
}

/// Whether `o` holds exactly the characters `code`.
fn opt_equals(o: &Option<String>, code: &[char]) -> (r: bool)
    ensures
        r == opt_is(*o, code@),
{
    match o {
        Some(s) => {
            let v = chars_of(s.as_str());
            chars_eq(&v, code)
        },
        None => false,
    }
}

impl CountryCodes {
    /// Whether one of the codes is `code`, compared in uppercase.
    pub fn matches_code(&self, code: &str) -> (r: bool)
        ensures
            r == codes_match(*self, code@),
    {
        let c = chars_of(code);
        let upper = to_ascii_upper(&c);
        opt_equals(&self.country, &upper) || opt_equals(&self.registered, &upper) || opt_equals(
            &self.represented,
            &upper,
        )
    }
}

/// The marker that opens the metadata section of a MaxMind database: the
/// bytes `AB CD EF` followed by the text "MaxMind.com".
pub open spec fn maxmind_marker() -> Seq<u8> {
    seq![0xABu8, 0xCDu8, 0xEFu8, 0x4Du8, 0x61u8, 0x78u8, 0x4Du8, 0x69u8, 0x6Eu8, 0x64u8, 0x2Eu8, 0x63u8, 0x6Fu8, 0x6Du8]
}

/// The metadata marker occurs somewhere in `bytes`.
pub open spec fn holds_marker(bytes: Seq<u8>) -> bool {
    exists|i: int|
        0 <= i && i + maxmind_marker().len() <= bytes.len() && #[trigger] bytes.subrange(
            i,
            i + maxmind_marker().len(),
        ) == maxmind_marker()
}

/// Whether `maxminddb::Reader::from_source` accepts `bytes` as a database.
pub uninterp spec fn maxmind_opens(bytes: Seq<u8>) -> bool;

/// Calls `maxminddb::Reader::from_source` on the bytes of a database; `None`
/// where the crate refuses them (named by `maxmind_opens`, a function of the
/// bytes alone). The reader keeps the bytes as its buffer. The crate looks for
/// the metadata marker (`find_metadata_start`) before anything else and
/// refuses bytes without it.
#[verifier::external_body]
fn open_database(bytes: Vec<u8>) -> (r: Option<GeoDatabase>)
    ensures
        r is Some <==> maxmind_opens(bytes@),
        r matches Some(d) ==> database_bytes(d) == bytes@,
        r is Some ==> holds_marker(bytes@),
{
    Reader::from_source(bytes).ok().map(|reader| GeoDatabase { reader })
}

/// The ISO codes that the `geoip2::Country` record of `ip` gives in the
/// database read from `db`, or `None` where the lookup fails or finds no
/// record that decodes.
pub uninterp spec fn country_codes(db: Seq<u8>, ip: u32) -> Option<CodesModel>;

/// Calls `maxminddb::Reader::lookup` for an IPv4 address and decodes the
/// `geoip2::Country` record it finds (`LookupResult::decode`), taking its
/// three ISO codes; `None` where the crate reports an error or the record is
/// absent. The answer depends on the database's bytes and the address alone,
/// and is named by `country_codes`.
#[verifier::external_body]
fn country_of(db: &GeoDatabase, ip: Ipv4Addr) -> (r: Option<CountryCodes>)
    ensures
        match r {
            Some(c) => country_codes(database_bytes(*db), ip.bits) == Some(codes_view(c)),
            None => country_codes(database_bytes(*db), ip.bits) is None,
        },
{
    let found = db.reader.lookup(ip.bits.to_be_bytes().into()).ok()?;
    match found.decode::<maxminddb::geoip2::Country>() {
        Ok(Some(c)) => Some(CountryCodes {
            country: c.country.iso_code.map(String::from),
            registered: c.registered_country.iso_code.map(String::from),
            represented: c.represented_country.iso_code.map(String::from),
        }),
        _ => None,
    }
}

/// Whether `ip` belongs to the country `code`, for a matcher whose database
/// is read from `db` (none where `db` is `None`): `PRIVATE`, in any ASCII
/// letter case, is decided by the address; without a database no other code
/// matches; with one, `code` must be one of the codes of the address's record.
pub open spec fn geo_answer(db: Option<Seq<u8>>, ip: Ipv4Addr, code: Seq<char>) -> bool {
    if is_private_code(code) {
        private_spec(ip)
    } else {
        match db {
            None => false,
            Some(bytes) => match country_codes(bytes, ip.bits) {
                Some(c) => codes_model_match(c, code),
                None => false,
            },
        }
    }
}

/// Matches addresses against country codes.
#[derive(Debug)]
pub struct GeoIpMatcher {
    reader: Option<GeoDatabase>,
}

impl GeoIpMatcher {
    /// A country database is loaded.
    pub closed spec fn has_database_spec(&self) -> bool {
        self.reader is Some
    }

    /// The bytes of the loaded database, if one is loaded.
    pub closed spec fn database(&self) -> Option<Seq<u8>> {
        match self.reader {
            Some(d) => Some(database_bytes(d)),
            None => None,
        }
    }

    /// A database is loaded exactly when its bytes are known.
    pub proof fn lemma_database_loaded(&self)
        ensures
            self.has_database_spec() <==> self.database() is Some,
    {
    }

    /// Whether a country database is loaded.
    pub fn has_database(&self) -> (b: bool)
        ensures
            b == self.has_database_spec(),
    {
        self.reader.is_some()
    }

    /// A matcher without a database: only `PRIVATE` can match.
    pub fn without_database() -> (m: GeoIpMatcher)
        ensures
            !m.has_database_spec(),
            m.database() is None,
    {
        GeoIpMatcher { reader: None }
    }

    /// A matcher that looks countries up in the database held in `bytes`, or
    /// one without a database where those bytes are not a database; bytes
    /// without the MaxMind metadata marker are never one.
    pub fn from_database_bytes(bytes: Vec<u8>) -> (m: GeoIpMatcher)
        ensures
            m.database() == (if maxmind_opens(bytes@) {
                Some(bytes@)
            } else {
                None
            }),
            m.has_database_spec() == maxmind_opens(bytes@),
            m.has_database_spec() ==> holds_marker(bytes@),
    {
        GeoIpMatcher { reader: open_database(bytes) }
    }

    /// The database path to load, if the configured path is present and not blank.
    pub fn database_path(config_path: Option<&str>) -> (p: Option<&str>)
        ensures
            p == (match config_path {
                Some(path) => if trim(path@).len() > 0 {
                    Some(path)
                } else {
                    None
                },
                None => None,
            }),
    {
        match config_path {
            Some(path) => {
                let c = chars_of(path);
                let t = trim_chars(&c);
                if t.len() > 0 {
                    Some(path)
                } else {
                    None
                }
            },
            None => None,
        }
    }

    /// Whether `ip` belongs to the country `code`. `PRIVATE` (in any letter case)
    /// matches the reserved, non-public ranges and consults no database; without
    /// a database no other code matches.
    pub fn matches(&self, ip: Ipv4Addr, code: &str) -> (b: bool)
        ensures
            b == geo_answer(self.database(), ip, code@),
    {
        let c = chars_of(code);
        let upper = to_ascii_upper(&c);
        if chars_eq_str(&upper, "PRIVATE") {
            return is_private_ip(ip);
        }
        let reader = match &self.reader {
            Some(r) => r,
            None => return false,
        };
        match country_of(reader, ip) {
            Some(codes) => codes.matches_code(code),
            None => false,
        }
    }
}

} // verus!
