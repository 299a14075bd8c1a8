//! Value encodings: a MIME type carried, for wire efficiency, as an integer
//! prefix into a fixed registry of well-known types plus a string suffix.
use vstd::prelude::*;

use http_types::Mime;

use crate::ZInt;
use crate::strfmt::{dec_string, spec_dec};
use crate::zerror::ZError;

verus! {

/// Number of entries in the registry of well-known MIME prefixes; index 0 is
/// the reserved "raw suffix" entry.
pub const MIME_REGISTRY_LEN: ZInt = 21;

/// The registry entry for one prefix index: the empty string for index 0 and
/// for indices outside the registry.
pub open spec fn spec_mime(prefix: int) -> Seq<char> {
    if prefix == 1 {
        "application/octet-stream"@
    } else if prefix == 2 {
        "application/custom"@
    } else if prefix == 3 {
        "text/plain"@
    } else if prefix == 4 {
        "application/properties"@
    } else if prefix == 5 {
        "application/json"@
    } else if prefix == 6 {
        "application/sql"@
    } else if prefix == 7 {
        "application/integer"@
    } else if prefix == 8 {
        "application/float"@
    } else if prefix == 9 {
        "application/xml"@
    } else if prefix == 10 {
        "application/xhtml+xml"@
    } else if prefix == 11 {
        "application/x-www-form-urlencoded"@
    } else if prefix == 12 {
        "text/json"@
    } else if prefix == 13 {
        "text/html"@
    } else if prefix == 14 {
        "text/xml"@
    } else if prefix == 15 {
        "text/css"@
    } else if prefix == 16 {
        "text/csv"@
    } else if prefix == 17 {
        "text/javascript"@
    } else if prefix == 18 {
        "image/jpeg"@
    } else if prefix == 19 {
        "image/png"@
    } else if prefix == 20 {
        "image/gif"@
    } else {
        ""@
    }
}

/// The registry entry for a prefix inside the registry.
pub fn mime_str(prefix: ZInt) -> (r: &'static str)
    requires
        1 <= prefix < MIME_REGISTRY_LEN,
    ensures
        r@ == spec_mime(prefix as int),
{
    if prefix == 1 {
        "application/octet-stream"
    } else if prefix == 2 {
        "application/custom"
    } else if prefix == 3 {
        "text/plain"
    } else if prefix == 4 {
        "application/properties"
    } else if prefix == 5 {
        "application/json"
    } else if prefix == 6 {
        "application/sql"
    } else if prefix == 7 {
        "application/integer"
    } else if prefix == 8 {
        "application/float"
    } else if prefix == 9 {
        "application/xml"
    } else if prefix == 10 {
        "application/xhtml+xml"
    } else if prefix == 11 {
        "application/x-www-form-urlencoded"
    } else if prefix == 12 {
        "text/json"
    } else if prefix == 13 {
        "text/html"
    } else if prefix == 14 {
        "text/xml"
    } else if prefix == 15 {
        "text/css"
    } else if prefix == 16 {
        "text/csv"
    } else if prefix == 17 {
        "text/javascript"
    } else if prefix == 18 {
        "image/jpeg"
    } else if prefix == 19 {
        "image/png"
    } else {
        "image/gif"
    }
}

/// A value encoding: an integer prefix into the MIME registry and a string
/// suffix. Prefix 0 means the suffix alone is the complete MIME string.
#[derive(Debug)]
pub struct Encoding {
    pub prefix: ZInt,
    pub suffix: String,
}

/// Whether a string is a prefix of another.
pub open spec fn spec_starts_with(s: Seq<char>, p: Seq<char>) -> bool {
    p.len() <= s.len() && s.take(p.len() as int) == p
}

/// Compares the leading characters of `s` against `p`.
pub fn str_starts_with(s: &str, p: &str) -> (r: bool)
    ensures
        r == spec_starts_with(s@, p@),
{
    let slen = s.unicode_len();
    let plen = p.unicode_len();
    if plen > slen {
        return false;
    }
    let mut i: usize = 0;
    while i < plen
        invariant
            slen == s@.len(),
            plen == p@.len(),
            plen <= slen,
            i <= plen,
            forall|k: int| 0 <= k < i ==> s@[k] == p@[k],
        decreases plen - i,
    {
        if s.get_char(i) != p.get_char(i) {
            proof {
                assert(s@.take(plen as int)[i as int] != p@[i as int]);
            }
            return false;
        }
        i += 1;
    }
    proof {
        assert(s@.take(plen as int) =~= p@);
    }
    true
}

/// The least registry index whose entry is a prefix of `s`, scanning from
/// `i`; 0 when none matches.
pub open spec fn spec_first_match_from(s: Seq<char>, i: int) -> int
    decreases MIME_REGISTRY_LEN as int - i,
{
    if i < 1 || i >= MIME_REGISTRY_LEN as int {
        0
    } else if spec_starts_with(s, spec_mime(i)) {
        i
    } else {
        spec_first_match_from(s, i + 1)
    }
}

impl Encoding {
    /// The string form: the registry entry for the prefix, then the suffix.
    pub open spec fn spec_string(&self) -> Seq<char> {
        if 0 < self.prefix < MIME_REGISTRY_LEN {
            spec_mime(self.prefix as int) + self.suffix@
        } else {
            self.suffix@
        }
    }

    /// Renders the encoding as its MIME string form.
    pub fn to_string(&self) -> (r: String)
        ensures
            r@ == self.spec_string(),
    {
        if 0 < self.prefix && self.prefix < MIME_REGISTRY_LEN {
            String::from_str(mime_str(self.prefix)).concat(self.suffix.as_str())
        } else {
            self.suffix.clone()
        }
    }

    /// Splits a MIME string into the least matching registry prefix and the
    /// remaining suffix; prefix 0 with the whole string when none matches.
    pub fn from_string(s: String) -> (r: Encoding)
        ensures
            r.prefix == spec_first_match_from(s@, 1),
            r.suffix@ == s@.skip(spec_mime(r.prefix as int).len() as int),
    {
        let slen = s.as_str().unicode_len();
        let mut i: ZInt = 1;
        while i < MIME_REGISTRY_LEN
            invariant
                1 <= i <= MIME_REGISTRY_LEN,
                slen == s@.len(),
                spec_first_match_from(s@, 1) == spec_first_match_from(s@, i as int),
                forall|j: int| 1 <= j < i ==> !spec_starts_with(s@, spec_mime(j)),
            decreases MIME_REGISTRY_LEN - i,
        {
            let m = mime_str(i);
            if str_starts_with(s.as_str(), m) {
                let mlen = m.unicode_len();
                let suffix = String::from_str(s.as_str().substring_char(mlen, slen));
                proof {
                    assert(s@.subrange(mlen as int, slen as int) =~= s@.skip(mlen as int));
                }
                return Encoding { prefix: i, suffix };
            }
            i += 1;
        }
        proof {
            reveal_strlit("");
            assert(s@.skip(spec_mime(0).len() as int) =~= s@);
        }
        Encoding { prefix: 0, suffix: s }
    }

    /// An encoding from a bare registry prefix, with an empty suffix.
    pub fn from_prefix(prefix: ZInt) -> (r: Encoding)
        ensures
            r.prefix == prefix,
            r.suffix@ == Seq::<char>::empty(),
    {
        Encoding { prefix, suffix: String::new() }
    }

    /// Replaces the suffix of this encoding.
    pub fn with_suffix(self, suffix: String) -> (r: Encoding)
        ensures
            r.prefix == self.prefix,
            r.suffix@ == suffix@,
    {
        Encoding { prefix: self.prefix, suffix }
    }

    /// Whether the string form of this encoding starts with the string form
    /// of the given one.
    pub fn starts_with(&self, encoding: &Encoding) -> (r: bool)
        ensures
            r == ((self.prefix == encoding.prefix && spec_starts_with(
                self.suffix@,
                encoding.suffix@,
            )) || spec_starts_with(self.spec_string(), encoding.spec_string())),
    {
        (self.prefix == encoding.prefix && str_starts_with(
            self.suffix.as_str(),
            encoding.suffix.as_str(),
        )) || str_starts_with(self.to_string().as_str(), encoding.to_string().as_str())
    }

    /// Converts the encoding to a parsed MIME type. Fails on a prefix
    /// outside the registry and on a string form that is no MIME type.
    pub fn to_mime(&self) -> (r: Result<Mime, ZError>)
        ensures
            self.prefix < MIME_REGISTRY_LEN ==> ((r is Ok) == spec_mime_parses(
                self.spec_string(),
            )),
            self.prefix >= MIME_REGISTRY_LEN ==> r is Err,
    {
        if self.prefix == 0 {
            match mime_from_str(self.suffix.as_str()) {
                Ok(m) => Ok(m),
                Err(descr) => Err(ZError::Other(descr)),
            }
        } else if self.prefix < MIME_REGISTRY_LEN {
            let form = String::from_str(mime_str(self.prefix)).concat(self.suffix.as_str());
            match mime_from_str(form.as_str()) {
                Ok(m) => Ok(m),
                Err(descr) => Err(ZError::Other(descr)),
            }
        } else {
            let mut descr = String::from_str("unknown encoding prefix ");
            descr.append(dec_string(self.prefix).as_str());
            Err(ZError::Other(descr))
        }
    }
}

impl Clone for Encoding {
    fn clone(&self) -> (r: Self)
        ensures
            r.prefix == self.prefix,
            r.suffix@ == self.suffix@,
    {
        Encoding { prefix: self.prefix, suffix: self.suffix.clone() }
    }
}

impl PartialEq for Encoding {
    fn eq(&self, other: &Encoding) -> (r: bool) {
        self.prefix == other.prefix && self.suffix == other.suffix
    }
}

impl vstd::std_specs::cmp::PartialEqSpecImpl for Encoding {
    open spec fn obeys_eq_spec() -> bool {
        true
    }

    open spec fn eq_spec(&self, other: &Encoding) -> bool {
        self.prefix == other.prefix && self.suffix@ == other.suffix@
    }
}

impl Default for Encoding {
    /// The empty encoding: prefix 0 with an empty suffix.
    fn default() -> (r: Encoding)
        ensures
            r.prefix == 0,
            r.suffix@ == Seq::<char>::empty(),
    {
        Encoding { prefix: 0, suffix: String::new() }
    }
}

#[verifier::external_type_specification]
#[verifier::external_body]
pub struct ExMime(Mime);

/// Whether a string parses as a MIME type under the WHATWG algorithm; this
/// depends on the characters of the string alone.
pub uninterp spec fn spec_mime_parses(s: Seq<char>) -> bool;

/// Relies on `http_types::Mime::from_str`, the WHATWG MIME parsing
/// algorithm: success is a function of the input string.
#[verifier::external_body]
fn mime_from_str(s: &str) -> (r: Result<Mime, String>)
    ensures
        (r is Ok) == spec_mime_parses(s@),
{
    match <Mime as core::str::FromStr>::from_str(s) {
        Ok(m) => Ok(m),
        Err(e) => Err(e.to_string()),
    }
}

} // verus!
