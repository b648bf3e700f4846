//! Reading a user's search text as a place: a zip code, a latitude and longitude pair, or a
//! city name.
use vstd::prelude::*;
use weather_util_rust::latitude::Latitude;
use weather_util_rust::longitude::Longitude;

verus! {

#[verifier::external_type_specification]
#[verifier::external_body]
pub struct ExLatitude(Latitude);

#[verifier::external_type_specification]
#[verifier::external_body]
pub struct ExLongitude(Longitude);

/// The place that a search text stands for.
#[derive(Debug, PartialEq)]
pub enum StructuredLocation {
    Zip(u64),
    LatLon(Latitude, Longitude),
    CityName(String),
}

pub open spec fn is_digit(c: char) -> bool {
    '0' <= c && c <= '9'
}

pub open spec fn digit_value(c: char) -> nat {
    (c as u32 - '0' as u32) as nat
}

pub open spec fn all_digits(s: Seq<char>) -> bool {
    forall|i: int| 0 <= i < s.len() ==> is_digit(#[trigger] s[i])
}

/// The number that a string of decimal digits denotes.
pub open spec fn decimal_value(s: Seq<char>) -> nat
    decreases s.len(),
{
    if s.len() == 0 {
        0
    } else {
        decimal_value(s.drop_last()) * 10 + digit_value(s.last())
    }
}

/// The text without one leading `+`.
pub open spec fn unsigned_part(s: Seq<char>) -> Seq<char> {
    if s.len() > 0 && s[0] == '+' {
        s.drop_first()
    } else {
        s
    }
}

/// The text is a non-negative integer that fits in a `u64`: an optional `+` and at least
/// one decimal digit, nothing else.
pub open spec fn is_u64_text(s: Seq<char>) -> bool {
    let d = unsigned_part(s);
    d.len() > 0 && all_digits(d) && decimal_value(d) <= u64::MAX
}


/// The text without one leading `+` or `-`.
pub open spec fn unsigned_float_part(s: Seq<char>) -> Seq<char> {
    if s.len() > 0 && (s[0] == '+' || s[0] == '-') {
        s.drop_first()
    } else {
        s
    }
}

/// `c` is the lower case ASCII letter `l`, or its upper case form.
pub open spec fn letter_is(c: char, l: char) -> bool {
    c == l || c as u32 + 32 == l as u32
}

/// `s` spells the lower case word `w`, letter by letter in either case.
pub open spec fn spells(s: Seq<char>, w: Seq<char>) -> bool {
    s.len() == w.len() && forall|i: int| 0 <= i < s.len() ==> letter_is(#[trigger] s[i], w[i])
}

/// Digits with at most one `.` among them, and at least one digit.
pub open spec fn is_mantissa(m: Seq<char>) -> bool {
    ||| m.len() > 0 && all_digits(m)
    ||| exists|d: int|
        0 <= d < m.len() && #[trigger] m[d] == '.' && m.len() > 1 && all_digits(m.subrange(0, d))
            && all_digits(m.subrange(d + 1, m.len() as int))
}

/// What may follow the `e` of an exponent: an optional sign and at least one digit.
pub open spec fn is_exponent(x: Seq<char>) -> bool {
    let y = unsigned_float_part(x);
    y.len() > 0 && all_digits(y)
}

/// The syntax that std's `f64` parser accepts: an optional sign, then `inf`, `infinity`,
/// `nan` or a decimal number with an optional exponent, letters in either case, no spaces.
pub open spec fn float_syntax(s: Seq<char>) -> bool {
    let b = unsigned_float_part(s);
    ||| spells(b, seq!['i', 'n', 'f'])
    ||| spells(b, seq!['i', 'n', 'f', 'i', 'n', 'i', 't', 'y'])
    ||| spells(b, seq!['n', 'a', 'n'])
    ||| is_mantissa(b)
    ||| exists|k: int|
        0 <= k < b.len() && letter_is(#[trigger] b[k], 'e') && is_mantissa(b.subrange(0, k))
            && is_exponent(b.subrange(k + 1, b.len() as int))
}

/// Index `i` holds the first comma of `s`.
pub open spec fn is_first_comma(s: Seq<char>, i: int) -> bool {
    &&& 0 <= i < s.len()
    &&& s[i] == ','
    &&& forall|j: int| 0 <= j < i ==> s[j] != ','
}

/// The text holds a comma, and the parts before and after the first one are both numbers
/// in float syntax.
pub open spec fn is_lat_lon_text(s: Seq<char>) -> bool {
    exists|i: int|
        is_first_comma(s, i) && float_syntax(s.subrange(0, i)) && float_syntax(
            s.subrange(i + 1, s.len() as int),
        )
}

/// `loc` is what the search text `s` reads as: a zip code where `s` is an unsigned integer,
/// else a latitude and longitude where `s` is two numbers around its first comma, else the
/// city named by the whole of `s`.
pub open spec fn parses_to(s: Seq<char>, loc: StructuredLocation) -> bool {
    if is_u64_text(s) {
        loc == StructuredLocation::Zip(decimal_value(unsigned_part(s)) as u64)
    } else if is_lat_lon_text(s) {
        loc is LatLon
    } else {
        loc matches StructuredLocation::CityName(name) && name@ == s
    }
}

/// Relies on `<Latitude as FromStr>::from_str` of weather_util_rust, which reads the text
/// with std's `f64` parser and takes every value it gives.
#[verifier::external_body]
fn read_latitude(text: &str) -> (r: Option<Latitude>)
    ensures
        r is Some <==> float_syntax(text@),
{
    text.parse::<Latitude>().ok()
}

/// Relies on `<Longitude as FromStr>::from_str` of weather_util_rust, which reads the text
/// with std's `f64` parser and takes every value it gives.
#[verifier::external_body]
fn read_longitude(text: &str) -> (r: Option<Longitude>)
    ensures
        r is Some <==> float_syntax(text@),
{
    text.parse::<Longitude>().ok()
}

/// The index of the first comma of the text, if it has one.
pub fn first_comma(text: &str) -> (r: Option<usize>)
    ensures
        r is Some ==> is_first_comma(text@, r->0 as int),
        r is None ==> !text@.contains(','),
{
    let n: usize = text.unicode_len();
    let mut i: usize = 0;
    while i < n
        invariant
            i <= n,
            n == text@.len(),
            forall|j: int| 0 <= j < i ==> text@[j] != ',',
        decreases n - i,
    {
        if text.get_char(i) == ',' {
            return Some(i);
        }
        i = i + 1;
    }
    None
}

/// Reads a search text as a place. Never fails: text that is neither a zip code nor a
/// latitude and longitude pair is a city name, comma and all.
pub fn parse(search: &str) -> (r: StructuredLocation)
    ensures
        parses_to(search@, r),
{
    if let Some(zip) = parse_zip(search) {
        return StructuredLocation::Zip(zip);
    }
    if let Some(i) = first_comma(search) {
        let n: usize = search.unicode_len();
        let left = search.substring_char(0, i);
        let right = search.substring_char(i + 1, n);
        let lat = read_latitude(left);
        let lon = read_longitude(right);
        if let (Some(lat), Some(lon)) = (lat, lon) {
            return StructuredLocation::LatLon(lat, lon);
        }
        assert(!is_lat_lon_text(search@)) by {
            if is_lat_lon_text(search@) {
                let k = choose|k: int|
                    is_first_comma(search@, k) && float_syntax(search@.subrange(0, k))
                        && float_syntax(search@.subrange(k + 1, search@.len() as int));
                assert(k == i as int);
            }
        }
    }
    StructuredLocation::CityName(search.to_owned())
}

proof fn lemma_decimal_value_grows(s: Seq<char>, k: int)
    requires
        0 <= k <= s.len(),
    ensures
        decimal_value(s.subrange(0, k)) <= decimal_value(s),
    decreases s.len() - k,
{
    if k < s.len() {
        lemma_decimal_value_grows(s, k + 1);
        assert(s.subrange(0, k + 1).drop_last() =~= s.subrange(0, k));
    } else {
        assert(s.subrange(0, k) =~= s);
    }
}

/// Reads the text as a zip code: a non-negative decimal integer that fits in a `u64`, with
/// an optional leading `+`, as std's integer parser reads it.
pub fn parse_zip(text: &str) -> (r: Option<u64>)
    ensures
        r is Some <==> is_u64_text(text@),
        r is Some ==> r->0 == decimal_value(unsigned_part(text@)),
{
    let n: usize = text.unicode_len();
    let mut start: usize = 0;
    if n > 0 && text.get_char(0) == '+' {
        start = 1;
    }
    let ghost d = unsigned_part(text@);
    assert(d =~= text@.subrange(start as int, n as int));
    if start == n {
        return None;
    }
    let mut value: u64 = 0;
    let mut i: usize = start;
    while i < n
        invariant
            start <= i <= n,
            n == text@.len(),
            d == unsigned_part(text@),
            d == text@.subrange(start as int, n as int),
            all_digits(d.subrange(0, i - start)),
            value == decimal_value(d.subrange(0, i - start)),
        decreases n - i,
    {
        let c = text.get_char(i);
        assert(d[i - start] == c);
        if !('0' <= c && c <= '9') {
            assert(!is_digit(d[i - start]));
            return None;
        }
        let digit: u64 = (c as u32 - '0' as u32) as u64;
        let ghost next = d.subrange(0, i - start + 1);
        assert(next.drop_last() =~= d.subrange(0, i - start));
        assert(decimal_value(next) == value * 10 + digit);
        if value > (u64::MAX - digit) / 10 {
            assert(value * 10 + digit > u64::MAX) by (nonlinear_arith)
                requires
                    value > (u64::MAX - digit) / 10,
                    digit <= 9,
            ;
            proof {
                lemma_decimal_value_grows(d, i - start + 1);
            }
            assert(decimal_value(d) > u64::MAX);
            return None;
        }
        assert(value * 10 + digit <= u64::MAX) by (nonlinear_arith)
            requires
                value <= (u64::MAX - digit) / 10,
                digit <= 9,
        ;
        value = value * 10 + digit;
        i = i + 1;
        assert(all_digits(d.subrange(0, i - start)));
    }
    assert(d.subrange(0, n - start) =~= d);
    Some(value)
}

} // verus!
