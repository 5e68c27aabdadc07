//! What the settings promise: a variable that is set is taken at its word, and
//! one that is not has its usual value.
use vstd::prelude::*;

use crate::settings::{
    bind_text, count_of, flag_of, loaded, number_of, short_key_text, span_of, span_parts, text_of,
    trimmed, unit_of, Config, Environment, TimeUnit,
};
use crate::text::{decimal, digits_value, is_digit, signed_decimal, white, without_trailing};

verus! {

/// A port alone is that port of every interface; any other address stays.
pub proof fn port_alone_is_every_interface(listen: Seq<char>, port: Seq<char>)
    ensures
        bind_text(seq![':'] + port) == "0.0.0.0:"@ + port,
        listen.len() == 0 || listen[0] != ':' ==> bind_text(listen) == listen,
{
    assert((seq![':'] + port).skip(1) =~= port);
}

/// A text that is set is taken as it is; one that is missing or empty is not
/// set.
pub proof fn set_text_is_taken(value: Option<String>, fallback: Seq<char>)
    ensures
        value matches Some(v) ==> {
            &&& v@.len() > 0 ==> text_of(value, fallback) == v@
            &&& v@.len() == 0 ==> text_of(value, fallback) == fallback
        },
        value is None ==> text_of(value, fallback) == fallback,
{
}

/// `true` and `false` are truth values, and no other text is.
pub proof fn truth_is_spelled_out(value: Option<String>, fallback: bool)
    ensures
        value matches Some(v) ==> {
            &&& v@ == "true"@ ==> flag_of(value, fallback)
            &&& v@ == "false"@ ==> !flag_of(value, fallback)
            &&& v@ != "true"@ && v@ != "false"@ ==> flag_of(value, fallback) == fallback
        },
        value is None ==> flag_of(value, fallback) == fallback,
{
    reveal_strlit("true");
    reveal_strlit("false");
    assert("true"@.len() == 4 && "false"@.len() == 5);
}

/// A number that is set is taken, where it fits in sixty-four bits; what is no
/// number is not set.
pub proof fn set_number_is_taken(value: Option<String>, fallback: u64, n: nat)
    ensures
        value is None ==> count_of(value, fallback) == fallback,
        value matches Some(v) ==> {
            &&& v@ == decimal(n) && n <= u64::MAX ==> count_of(value, fallback) == n
            &&& v@ == decimal(n) && n > u64::MAX ==> count_of(value, fallback) == fallback
            &&& number_of(v@) is None ==> count_of(value, fallback) == fallback
        },
{
    decimal_is_a_number(n);
}

/// Decimal notation is read back, with or without a sign before it.
pub proof fn decimal_is_a_number(n: nat)
    ensures
        n <= u64::MAX ==> number_of(decimal(n)) == Some(n),
        n <= u64::MAX ==> number_of(seq!['+'] + decimal(n)) == Some(n),
        n > u64::MAX ==> number_of(decimal(n)) is None,
        decimal(n).len() > 0,
        digits_value(decimal(n)) == Some(n),
{
    digits_are_read_back(n);
    assert((seq!['+'] + decimal(n)).skip(1) =~= decimal(n));
}

proof fn digits_are_read_back(n: nat)
    ensures
        decimal(n).len() > 0,
        decimal(n)[0] != '+',
        digits_value(decimal(n)) == Some(n),
    decreases n,
{
    if n >= 10 {
        digits_are_read_back(n / 10);
        assert(decimal(n).drop_last() =~= decimal(n / 10));
        assert(decimal(n)[0] == decimal(n / 10)[0]);
    }
}

/// Each digit counts ten times as much as the one after it, and what is no digit
/// makes no number.
pub proof fn digits_count_tenfold(s: Seq<char>, c: char)
    ensures
        '0' <= c <= '9' ==> digits_value(seq![c]) == Some((c as int - '0' as int) as nat),
        '0' <= c <= '9' && s.len() > 0 ==> digits_value(s.push(c)) == match digits_value(s) {
            Some(n) => Some((10 * n + (c as int - '0' as int)) as nat),
            None => None,
        },
        !('0' <= c <= '9') ==> digits_value(s.push(c)) is None,
        digits_value(seq![]) is None,
{
    assert(s.push(c).drop_last() =~= s);
}

/// Decimal notation has one digit for each power of ten, and a minus sign before
/// a negative number.
pub proof fn decimal_has_a_digit_for_each_power(n: nat, d: nat)
    requires
        d < 10,
    ensures
        decimal(d) == seq!["0123456789"@[d as int]],
        n > 0 ==> decimal(10 * n + d) == decimal(n).push("0123456789"@[d as int]),
        signed_decimal(n as int) == decimal(n),
        n > 0 ==> signed_decimal(-(n as int)) == seq!['-'] + decimal(n),
{
    reveal_strlit("0123456789");
    reveal_strlit("-");
    assert("-"@ =~= seq!['-']);
    assert(d == 0 || d == 1 || d == 2 || d == 3 || d == 4 || d == 5 || d == 6 || d == 7 || d == 8
        || d == 9);
    if n > 0 {
        assert((10 * n + d) / 10 == n);
        assert((10 * n + d) % 10 == d);
    }
}

/// The units of time have these names, and no other text is one.
pub proof fn units_have_names(name: Seq<char>)
    ensures
        unit_of("ns"@) == Some(TimeUnit::Nanoseconds),
        unit_of("us"@) == Some(TimeUnit::Microseconds),
        unit_of("µs"@) == Some(TimeUnit::Microseconds),
        unit_of("ms"@) == Some(TimeUnit::Milliseconds),
        unit_of("s"@) == Some(TimeUnit::Seconds),
        unit_of("m"@) == Some(TimeUnit::Minutes),
        unit_of("h"@) == Some(TimeUnit::Hours),
        name != "ns"@ && name != "us"@ && name != "µs"@ && name != "ms"@ && name != "s"@ && name
            != "m"@ && name != "h"@ ==> unit_of(name) is None,
{
    reveal_strlit("ns");
    reveal_strlit("us");
    reveal_strlit("µs");
    reveal_strlit("ms");
    reveal_strlit("s");
    reveal_strlit("m");
    reveal_strlit("h");
    assert("ns"@[0] == 'n' && "us"@[0] == 'u' && "µs"@[0] == 'µ' && "ms"@[0] == 'm');
    assert("s"@[0] == 's' && "m"@[0] == 'm' && "h"@[0] == 'h');
    assert("ns"@.len() == 2 && "us"@.len() == 2 && "µs"@.len() == 2 && "ms"@.len() == 2);
    assert("s"@.len() == 1 && "m"@.len() == 1 && "h"@.len() == 1);
}

/// A span of time is a number and a unit: the digits and points that it begins
/// with, and the name that follows them.
pub proof fn span_is_number_and_unit(number: Seq<char>, name: Seq<char>)
    requires
        forall|i: int| 0 <= i < number.len() ==> is_digit(number[i]) || number[i] == '.',
        name.len() > 0,
        !is_digit(name[0]) && name[0] != '.',
        forall|i: int| 0 <= i < name.len() ==> !white(name[i]),
    ensures
        span_parts(number + name) == match unit_of(name) {
            Some(unit) => Some((number, unit)),
            None => None,
        },
        span_parts(number) is None,
{
    let s = number + name;
    assert(s.last() == name.last());
    assert(!white(s[0])) by {
        if number.len() > 0 {
            assert(is_digit(number[0]) || number[0] == '.');
        }
    }
    assert(trimmed(s) == s);
    number_ends(s, number.len() as int);
    assert(s.take(number.len() as int) =~= number);
    assert(s.skip(number.len() as int) =~= name);
    if number.len() > 0 {
        assert(is_digit(number[0]) || number[0] == '.');
        assert(is_digit(number.last()) || number.last() == '.') by {
            assert(number.last() == number[number.len() - 1]);
        }
    }
    assert(trimmed(number) == number);
    number_ends(number, number.len() as int);
}

proof fn number_ends(s: Seq<char>, n: int)
    requires
        0 <= n <= s.len(),
        forall|i: int| 0 <= i < n ==> is_digit(s[i]) || s[i] == '.',
        n < s.len() ==> !is_digit(s[n]) && s[n] != '.',
    ensures
        crate::settings::number_length(s) == n,
    decreases n,
{
    if n > 0 {
        assert(is_digit(s[0]) || s[0] == '.');
        let rest = s.drop_first();
        assert forall|i: int| 0 <= i < n - 1 implies is_digit(rest[i]) || rest[i] == '.' by {
            assert(is_digit(s[i + 1]) || s[i + 1] == '.');
        }
        number_ends(rest, n - 1);
    }
}

/// White space around a span does not matter.
pub proof fn white_space_around_is_dropped(s: Seq<char>, c: char)
    requires
        white(c),
    ensures
        trimmed(seq![c] + s) == trimmed(s),
        span_parts(seq![c] + s) == span_parts(s),
{
    assert((seq![c] + s).drop_first() =~= s);
}

/// A span that could be read is taken, else the usual one.
pub proof fn set_span_is_taken(value: Option<u128>, fallback: u128)
    ensures
        value matches Some(v) ==> span_of(value, fallback) == v,
        value is None ==> span_of(value, fallback) == fallback,
{
}

/// Every setting comes from its own variable, and has its own usual value.
pub proof fn settings_come_from_their_variables(c: Config, e: Environment)
    requires
        loaded(c, e),
    ensures
        c.listen@ == text_of(e.listen, ":8319"@),
        c.pkcs11_module@ == text_of(e.pkcs11_module, "/usr/lib/softhsm/libsofthsm2.so"@),
        c.token_label@ == text_of(e.token_label, "open-eidas-ocsp"@),
        c.key_label@ == text_of(e.key_label, "ocsp-signing-key"@),
        c.pin@ == text_of(e.pin, ""@),
        c.cert_file@ == text_of(e.cert_file, "/var/lib/open-eidas/ocsp.pem"@),
        c.chain_file@ == text_of(e.chain_file, "/var/lib/open-eidas/chain.pem"@),
        c.enroll_endpoint@ == text_of(e.enroll_endpoint, ""@),
        c.enroll_ca_file@ == text_of(e.enroll_ca_file, ""@),
        c.enroll_hmac_key@ == text_of(e.enroll_hmac_key, ""@),
        c.enroll_profile@ == text_of(e.enroll_profile, "ocsp_responder"@),
        c.subject_cn@ == text_of(e.subject_cn, "Open eIDAS OCSP Responder 1"@),
        c.pki_internal_url@ == text_of(e.pki_internal_url, ""@),
        c.pki_ca_file@ == text_of(e.pki_ca_file, ""@),
        c.max_request_bytes == count_of(e.max_request_bytes, 16384),
        c.key_bits == count_of(e.key_bits, 3072),
        c.enroll_insecure == flag_of(e.enroll_insecure, false),
        c.pki_insecure == flag_of(e.pki_insecure, false),
        c.enroll_timeout == span_of(e.enroll_timeout, 300_000_000_000),
        c.crl_refresh == span_of(e.crl_refresh, 300_000_000_000),
{
}

/// A key that is too short is told with its length.
pub proof fn short_key_is_told(bits: nat)
    ensures
        short_key_text(bits) == "OPENEIDAS_KEY_BITS="@ + decimal(bits)
            + ": ETSI TS 119 312 impose au moins 3072 bits pour RSA"@,
{
}

/// What is dropped at the end of a text is one character, as often as it occurs
/// there, and nothing else.
pub proof fn trailing_characters_are_dropped(s: Seq<char>, c: char)
    ensures
        without_trailing(s.push(c), c) == without_trailing(s, c),
        s.len() == 0 || s.last() != c ==> without_trailing(s, c) == s,
{
    assert(s.push(c).drop_last() =~= s);
}

/// White space at the end of a span does not matter either.
pub proof fn white_space_after_is_dropped(s: Seq<char>, c: char)
    requires
        white(c),
    ensures
        trimmed(s.push(c)) == trimmed(s),
        span_parts(s.push(c)) == span_parts(s),
    decreases s.len(),
{
    if s.len() == 0 {
        assert(s.push(c).drop_first() =~= s);
    } else if white(s[0]) {
        white_space_after_is_dropped(s.drop_first(), c);
        assert(s.push(c).drop_first() =~= s.drop_first().push(c));
    } else {
        assert(s.push(c).drop_last() =~= s);
    }
}

/// What is left has no white space at either end.
pub proof fn nothing_white_is_left(s: Seq<char>)
    ensures
        trimmed(s).len() > 0 ==> !white(trimmed(s)[0]) && !white(trimmed(s).last()),
    decreases s.len(),
{
    if s.len() > 0 {
        if white(s[0]) {
            nothing_white_is_left(s.drop_first());
        } else if white(s.last()) {
            nothing_white_is_left(s.drop_last());
        }
    }
}

} // verus!
