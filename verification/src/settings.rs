//! The settings of the responder, from the values of its environment variables.
use vstd::prelude::*;
use vstd::string::StringExecFns;

use crate::conformance::Entry;
use crate::text::{
    bytes_eq, chars_of, concat2, concat3, decimal, decimal_string, digits_value, is_digit,
    is_white, str_eq, string_of, white,
};

verus! {

/// The address to listen on: a port alone stands for that port of every
/// interface.
pub open spec fn bind_text(listen: Seq<char>) -> Seq<char> {
    if listen.len() > 0 && listen[0] == ':' {
        "0.0.0.0:"@ + listen.skip(1)
    } else {
        listen
    }
}

/// Gives the address to listen on.
pub fn bind_addr(listen: &str) -> (r: String)
    ensures
        r@ == bind_text(listen@),
{
    let chars = chars_of(listen);
    if chars.len() > 0 && chars[0] == ':' {
        let port = string_of(&chars, 1, chars.len());
        assert(chars@.subrange(1, chars@.len() as int) =~= listen@.skip(1));
        concat2("0.0.0.0:", port.as_str())
    } else {
        listen.to_owned()
    }
}

/// The text of a value that is set.
pub open spec fn set_text(value: Option<String>) -> Option<Seq<char>> {
    match value {
        Some(v) => if v@.len() > 0 {
            Some(v@)
        } else {
            None
        },
        None => None,
    }
}

/// A value that is set, else the fallback. An empty value is not set.
pub open spec fn text_of(value: Option<String>, fallback: Seq<char>) -> Seq<char> {
    match set_text(value) {
        Some(v) => v,
        None => fallback,
    }
}

/// Gives a value that is set, else the fallback.
pub fn env_str(value: &Option<String>, fallback: &str) -> (r: String)
    ensures
        r@ == text_of(*value, fallback@),
{
    match value {
        Some(v) => if v.as_str().is_empty() {
            fallback.to_owned()
        } else {
            v.clone()
        },
        None => fallback.to_owned(),
    }
}

/// A truth value, where the text is one.
pub open spec fn truth_of(text: Seq<char>) -> Option<bool> {
    if text == "true"@ {
        Some(true)
    } else if text == "false"@ {
        Some(false)
    } else {
        None
    }
}

/// A truth value that is set, else the fallback.
pub open spec fn flag_of(value: Option<String>, fallback: bool) -> bool {
    match set_text(value) {
        Some(v) => match truth_of(v) {
            Some(b) => b,
            None => fallback,
        },
        None => fallback,
    }
}

/// Gives a truth value that is set, else the fallback.
pub fn env_bool(value: &Option<String>, fallback: bool) -> (r: bool)
    ensures
        r == flag_of(*value, fallback),
{
    proof {
        reveal_strlit("true");
        reveal_strlit("false");
        assert("true"@.len() != "false"@.len());
    }
    match value {
        Some(v) => if str_eq(v.as_str(), "true") {
            true
        } else if str_eq(v.as_str(), "false") {
            false
        } else {
            fallback
        },
        None => fallback,
    }
}

/// The digits of a number, after a sign that may precede them.
pub open spec fn unsigned_digits(text: Seq<char>) -> Seq<char> {
    if text.len() > 0 && text[0] == '+' {
        text.skip(1)
    } else {
        text
    }
}

/// A number of sixty-four bits, where the text is one.
pub open spec fn number_of(text: Seq<char>) -> Option<nat> {
    match digits_value(unsigned_digits(text)) {
        Some(n) => if n <= u64::MAX {
            Some(n)
        } else {
            None
        },
        None => None,
    }
}

proof fn digits_value_grows(digits: Seq<char>, k: int)
    requires
        0 < k <= digits.len(),
    ensures
        digits_value(digits.take(k)) is None ==> digits_value(digits) is None,
        digits_value(digits.take(k)) matches Some(n) ==> (digits_value(digits) matches Some(m)
            ==> n <= m),
    decreases digits.len() - k,
{
    if k < digits.len() {
        digits_value_grows(digits, k + 1);
        assert(digits.take(k + 1).drop_last() =~= digits.take(k));
    } else {
        assert(digits.take(k) =~= digits);
    }
}

/// Reads a number of sixty-four bits in decimal notation.
pub fn parse_number(text: &str) -> (r: Option<u64>)
    ensures
        match r {
            Some(n) => number_of(text@) == Some(n as nat),
            None => number_of(text@) is None,
        },
{
    let chars = chars_of(text);
    let ghost digits = unsigned_digits(text@);
    let start: usize = if chars.len() > 0 && chars[0] == '+' {
        1
    } else {
        0
    };
    assert(digits =~= chars@.skip(start as int));
    if start == chars.len() {
        return None;
    }
    let mut n: u64 = 0;
    let mut i: usize = start;
    while i < chars.len()
        invariant
            start <= i <= chars@.len(),
            chars@ == text@,
            digits == unsigned_digits(text@),
            digits == chars@.skip(start as int),
            i == start ==> n == 0,
            i > start ==> digits_value(digits.take(i - start)) == Some(n as nat),
        decreases chars.len() - i,
    {
        let c = chars[i];
        let ghost k = i - start;
        proof {
            assert(digits.take(k + 1).last() == c);
            assert(digits.take(k + 1).drop_last() =~= digits.take(k));
            digits_value_grows(digits, k + 1);
        }
        if !(c >= '0' && c <= '9') {
            return None;
        }
        let low: u64 = (c as u32 - 48u32) as u64;
        if n > (u64::MAX - low) / 10 {
            proof {
                assert(n * 10 + low > u64::MAX);
                assert(digits_value(digits.take(k + 1)) == Some((n * 10 + low) as nat));
            }
            return None;
        }
        n = n * 10 + low;
        i += 1;
    }
    assert(digits.take(digits.len() as int) =~= digits);
    Some(n)
}

/// A number that is set, else the fallback.
pub open spec fn count_of(value: Option<String>, fallback: u64) -> int {
    match set_text(value) {
        Some(v) => match number_of(v) {
            Some(n) => n as int,
            None => fallback as int,
        },
        None => fallback as int,
    }
}

/// Gives a number that is set, else the fallback.
pub fn env_u64(value: &Option<String>, fallback: u64) -> (r: u64)
    ensures
        r == count_of(*value, fallback),
{
    match value {
        Some(v) => match parse_number(v.as_str()) {
            Some(n) => n,
            None => fallback,
        },
        None => fallback,
    }
}

/// A unit of time.
#[derive(Debug, Clone, Copy, PartialEq, Eq, Structural)]
pub enum TimeUnit {
    Nanoseconds,
    Microseconds,
    Milliseconds,
    Seconds,
    Minutes,
    Hours,
}

/// The unit with a name, where there is one.
pub open spec fn unit_of(name: Seq<char>) -> Option<TimeUnit> {
    if name == "ns"@ {
        Some(TimeUnit::Nanoseconds)
    } else if name == "us"@ || name == "µs"@ {
        Some(TimeUnit::Microseconds)
    } else if name == "ms"@ {
        Some(TimeUnit::Milliseconds)
    } else if name == "s"@ {
        Some(TimeUnit::Seconds)
    } else if name == "m"@ {
        Some(TimeUnit::Minutes)
    } else if name == "h"@ {
        Some(TimeUnit::Hours)
    } else {
        None
    }
}

/// The text without white space at its ends.
pub open spec fn trimmed(s: Seq<char>) -> Seq<char>
    decreases s.len(),
{
    if s.len() == 0 {
        s
    } else if white(s[0]) {
        trimmed(s.drop_first())
    } else if white(s.last()) {
        trimmed(s.drop_last())
    } else {
        s
    }
}

/// How many digits and points a text begins with.
pub open spec fn number_length(s: Seq<char>) -> nat
    decreases s.len(),
{
    if s.len() == 0 || !(is_digit(s[0]) || s[0] == '.') {
        0
    } else {
        1 + number_length(s.drop_first())
    }
}

/// The number of a span of time, as it is written, and its unit.
pub open spec fn span_parts(text: Seq<char>) -> Option<(Seq<char>, TimeUnit)> {
    let s = trimmed(text);
    let n = number_length(s);
    if n == s.len() {
        None
    } else {
        match unit_of(s.skip(n as int)) {
            Some(unit) => Some((s.take(n as int), unit)),
            None => None,
        }
    }
}

proof fn number_length_bound(s: Seq<char>)
    ensures
        number_length(s) <= s.len(),
    decreases s.len(),
{
    if s.len() > 0 {
        number_length_bound(s.drop_first());
    }
}

fn read_unit(name: &str) -> (r: Option<TimeUnit>)
    ensures
        r == unit_of(name@),
{
    if str_eq(name, "ns") {
        Some(TimeUnit::Nanoseconds)
    } else if str_eq(name, "us") || str_eq(name, "µs") {
        Some(TimeUnit::Microseconds)
    } else if str_eq(name, "ms") {
        Some(TimeUnit::Milliseconds)
    } else if str_eq(name, "s") {
        Some(TimeUnit::Seconds)
    } else if str_eq(name, "m") {
        Some(TimeUnit::Minutes)
    } else if str_eq(name, "h") {
        Some(TimeUnit::Hours)
    } else {
        None
    }
}

/// Parts a span of time such as "5m", "30s" or "24h" into its number and its
/// unit.
pub fn oe_config_duration(text: &str) -> (r: Option<(String, TimeUnit)>)
    ensures
        match r {
            Some((number, unit)) => span_parts(text@) == Some((number@, unit)),
            None => span_parts(text@) is None,
        },
{
    let chars = chars_of(text);
    let mut from: usize = 0;
    let mut to: usize = chars.len();
    assert(chars@.subrange(0, to as int) =~= text@);
    while from < to && is_white(chars[from])
        invariant
            from <= to == chars@.len(),
            trimmed(chars@.subrange(from as int, to as int)) == trimmed(text@),
        decreases to - from,
    {
        assert(chars@.subrange(from as int, to as int).drop_first() =~= chars@.subrange(
            from + 1,
            to as int,
        ));
        from += 1;
    }
    while from < to && is_white(chars[to - 1])
        invariant
            from <= to <= chars@.len(),
            from < to ==> !white(chars@[from as int]),
            trimmed(chars@.subrange(from as int, to as int)) == trimmed(text@),
        decreases to - from,
    {
        assert(chars@.subrange(from as int, to as int).drop_last() =~= chars@.subrange(
            from as int,
            to - 1,
        ));
        to -= 1;
    }
    let ghost s = chars@.subrange(from as int, to as int);
    assert(s == trimmed(text@));
    let mut i: usize = from;
    assert(s.skip(0) =~= s);
    while i < to && ((chars[i] >= '0' && chars[i] <= '9') || chars[i] == '.')
        invariant
            from <= i <= to <= chars@.len(),
            s == chars@.subrange(from as int, to as int),
            number_length(s) == (i - from) + number_length(s.skip(i - from)),
        decreases to - i,
    {
        assert(s.skip(i - from)[0] == chars@[i as int]);
        assert(s.skip(i - from).drop_first() =~= s.skip(i - from + 1));
        i += 1;
    }
    proof {
        number_length_bound(s);
        if i < to {
            assert(s.skip(i - from)[0] == chars@[i as int]);
        }
    }
    assert(number_length(s) == i - from);
    if i == to {
        return None;
    }
    let number = string_of(&chars, from, i);
    let name = string_of(&chars, i, to);
    assert(number@ =~= s.take(i - from));
    assert(name@ =~= s.skip(i - from));
    match read_unit(name.as_str()) {
        Some(unit) => Some((number, unit)),
        None => None,
    }
}

/// The values of the environment variables, as they were found; the spans of
/// time in nanoseconds, where they could be read.
#[derive(Debug)]
pub struct Environment {
    pub key_bits: Option<String>,
    pub pin: Option<String>,
    pub pki_internal_url: Option<String>,
    pub listen: Option<String>,
    pub max_request_bytes: Option<String>,
    pub pkcs11_module: Option<String>,
    pub token_label: Option<String>,
    pub key_label: Option<String>,
    pub cert_file: Option<String>,
    pub chain_file: Option<String>,
    pub enroll_endpoint: Option<String>,
    pub enroll_ca_file: Option<String>,
    pub enroll_insecure: Option<String>,
    pub enroll_timeout: Option<u128>,
    pub enroll_hmac_key: Option<String>,
    pub enroll_profile: Option<String>,
    pub subject_cn: Option<String>,
    pub pki_insecure: Option<String>,
    pub pki_ca_file: Option<String>,
    pub crl_refresh: Option<u128>,
}

/// The settings of the responder.
#[derive(Debug)]
pub struct Config {
    pub listen: String,
    pub max_request_bytes: u64,
    pub pkcs11_module: String,
    pub token_label: String,
    pub key_label: String,
    pub key_bits: u64,
    pub pin: String,
    pub cert_file: String,
    pub chain_file: String,
    pub enroll_endpoint: String,
    pub enroll_ca_file: String,
    pub enroll_insecure: bool,
    /// In nanoseconds.
    pub enroll_timeout: u128,
    pub enroll_hmac_key: String,
    pub enroll_profile: String,
    pub subject_cn: String,
    pub pki_internal_url: String,
    pub pki_insecure: bool,
    pub pki_ca_file: String,
    /// In nanoseconds.
    pub crl_refresh: u128,
}

/// The shortest RSA key, in bits (ETSI TS 119 312).
pub const MIN_KEY_BITS: u64 = 3072;

/// Five minutes, in nanoseconds.
pub const DEFAULT_SPAN: u128 = 300_000_000_000;

/// A span that could be read, else the fallback.
pub open spec fn span_of(value: Option<u128>, fallback: u128) -> u128 {
    match value {
        Some(v) => v,
        None => fallback,
    }
}

fn env_duration(value: &Option<u128>, fallback: u128) -> (r: u128)
    ensures
        r == span_of(*value, fallback),
{
    match value {
        Some(v) => *v,
        None => fallback,
    }
}

/// The settings are those of the environment, with the usual value for each
/// variable that is not set.
pub open spec fn loaded(c: Config, e: Environment) -> bool {
    &&& c.listen@ == text_of(e.listen, ":8319"@)
    &&& c.max_request_bytes == count_of(e.max_request_bytes, 16384)
    &&& c.pkcs11_module@ == text_of(e.pkcs11_module, "/usr/lib/softhsm/libsofthsm2.so"@)
    &&& c.token_label@ == text_of(e.token_label, "open-eidas-ocsp"@)
    &&& c.key_label@ == text_of(e.key_label, "ocsp-signing-key"@)
    &&& c.key_bits == count_of(e.key_bits, MIN_KEY_BITS)
    &&& c.pin@ == text_of(e.pin, ""@)
    &&& c.cert_file@ == text_of(e.cert_file, "/var/lib/open-eidas/ocsp.pem"@)
    &&& c.chain_file@ == text_of(e.chain_file, "/var/lib/open-eidas/chain.pem"@)
    &&& c.enroll_endpoint@ == text_of(e.enroll_endpoint, ""@)
    &&& c.enroll_ca_file@ == text_of(e.enroll_ca_file, ""@)
    &&& c.enroll_insecure == flag_of(e.enroll_insecure, false)
    &&& c.enroll_timeout == span_of(e.enroll_timeout, DEFAULT_SPAN)
    &&& c.enroll_hmac_key@ == text_of(e.enroll_hmac_key, ""@)
    &&& c.enroll_profile@ == text_of(e.enroll_profile, "ocsp_responder"@)
    &&& c.subject_cn@ == text_of(e.subject_cn, "Open eIDAS OCSP Responder 1"@)
    &&& c.pki_internal_url@ == text_of(e.pki_internal_url, ""@)
    &&& c.pki_insecure == flag_of(e.pki_insecure, false)
    &&& c.pki_ca_file@ == text_of(e.pki_ca_file, ""@)
    &&& c.crl_refresh == span_of(e.crl_refresh, DEFAULT_SPAN)
}

/// What is said of a key that is too short.
pub open spec fn short_key_text(bits: nat) -> Seq<char> {
    "OPENEIDAS_KEY_BITS="@ + decimal(bits)
        + ": ETSI TS 119 312 impose au moins 3072 bits pour RSA"@
}

impl Config {
    /// The settings from the environment. The key must be long enough, and the
    /// PIN and the address of the authority must be set.
    pub fn load(e: &Environment) -> (r: Result<Config, String>)
        ensures
            if count_of(e.key_bits, MIN_KEY_BITS) < MIN_KEY_BITS {
                r matches Err(text) && text@ == short_key_text(
                    count_of(e.key_bits, MIN_KEY_BITS) as nat,
                )
            } else if set_text(e.pin) is None {
                r matches Err(text) && text@
                    == "OPENEIDAS_PIN est obligatoire (code PIN du token PKCS#11)"@
            } else if set_text(e.pki_internal_url) is None {
                r matches Err(text) && text@
                    == "OPENEIDAS_PKI_INTERNAL_URL est obligatoire (URL, interne au déploiement, à laquelle interroger la CRL)"@
            } else {
                r matches Ok(c) && loaded(c, *e)
            },
    {
        let key_bits = env_u64(&e.key_bits, MIN_KEY_BITS);
        if key_bits < MIN_KEY_BITS {
            return Err(
                concat3(
                    "OPENEIDAS_KEY_BITS=",
                    decimal_string(key_bits as u128).as_str(),
                    ": ETSI TS 119 312 impose au moins 3072 bits pour RSA",
                ),
            );
        }
        proof {
            reveal_strlit("");
        }
        let pin = env_str(&e.pin, "");
        if pin.as_str().is_empty() {
            return Err("OPENEIDAS_PIN est obligatoire (code PIN du token PKCS#11)".to_owned());
        }
        let pki_internal_url = env_str(&e.pki_internal_url, "");
        if pki_internal_url.as_str().is_empty() {
            return Err(
                "OPENEIDAS_PKI_INTERNAL_URL est obligatoire (URL, interne au déploiement, à laquelle interroger la CRL)".to_owned(),
            );
        }
        Ok(
            Config {
                listen: env_str(&e.listen, ":8319"),
                max_request_bytes: env_u64(&e.max_request_bytes, 16384),
                pkcs11_module: env_str(&e.pkcs11_module, "/usr/lib/softhsm/libsofthsm2.so"),
                token_label: env_str(&e.token_label, "open-eidas-ocsp"),
                key_label: env_str(&e.key_label, "ocsp-signing-key"),
                key_bits,
                pin,
                cert_file: env_str(&e.cert_file, "/var/lib/open-eidas/ocsp.pem"),
                chain_file: env_str(&e.chain_file, "/var/lib/open-eidas/chain.pem"),
                enroll_endpoint: env_str(&e.enroll_endpoint, ""),
                enroll_ca_file: env_str(&e.enroll_ca_file, ""),
                enroll_insecure: env_bool(&e.enroll_insecure, false),
                enroll_timeout: env_duration(&e.enroll_timeout, DEFAULT_SPAN),
                enroll_hmac_key: env_str(&e.enroll_hmac_key, ""),
                enroll_profile: env_str(&e.enroll_profile, "ocsp_responder"),
                subject_cn: env_str(&e.subject_cn, "Open eIDAS OCSP Responder 1"),
                pki_internal_url,
                pki_insecure: env_bool(&e.pki_insecure, false),
                pki_ca_file: env_str(&e.pki_ca_file, ""),
                crl_refresh: env_duration(&e.crl_refresh, DEFAULT_SPAN),
            },
        )
    }

    /// How to trust the authority when the list is fetched: an anchor from a
    /// file goes before any tolerance.
    pub fn crl_trust(&self) -> (r: CrlTrust)
        ensures
            r == (if self.pki_ca_file@.len() > 0 {
                CrlTrust::Anchor
            } else if self.pki_insecure {
                CrlTrust::Anything
            } else {
                CrlTrust::System
            }),
    {
        if !self.pki_ca_file.as_str().is_empty() {
            CrlTrust::Anchor
        } else if self.pki_insecure {
            CrlTrust::Anything
        } else {
            CrlTrust::System
        }
    }

    /// The file with the anchor for enrolment, where one is given.
    pub fn enroll_anchor(&self) -> (r: Option<String>)
        ensures
            match r {
                Some(path) => path@ == self.enroll_ca_file@ && path@.len() > 0,
                None => self.enroll_ca_file@.len() == 0,
            },
    {
        if self.enroll_ca_file.as_str().is_empty() {
            None
        } else {
            Some(self.enroll_ca_file.clone())
        }
    }
}

/// Whom to trust when the list is fetched.
#[derive(Debug, Clone, Copy, PartialEq, Eq, Structural)]
pub enum CrlTrust {
    /// The certificate in the file that is given.
    Anchor,
    /// Whoever answers: for demonstrations only.
    Anything,
    /// What the system trusts.
    System,
}

/// Whether the certificate in place is for the key of the token, so that there
/// is nothing to enrol.
pub fn already_enrolled(certificate_key: Option<&[u8]>, token_key: Option<&[u8]>) -> (r: bool)
    ensures
        r == match (certificate_key, token_key) {
            (Some(a), Some(b)) => a@ == b@,
            _ => false,
        },
{
    match (certificate_key, token_key) {
        (Some(a), Some(b)) => bytes_eq(a, b),
        _ => false,
    }
}

/// The line that lists an entry of the conformance matrix.
pub fn entry_line(e: &Entry) -> (r: String)
    ensures
        r@ == e.requirement.citation() + " — "@ + e.requirement.title@ + " : "@ + e.status.word(),
{
    let mut r = e.requirement.to_string();
    r.append(" — ");
    r.append(e.requirement.title);
    r.append(" : ");
    r.append(e.status.label());
    r
}

} // verus!
