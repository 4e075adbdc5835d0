use vstd::prelude::*;
use crate::message::{
    append_header, ascii_lower, find_header, first_value, lower, remove_headers, without_name, eq_ignore_case,
    other_name, HeaderView, HttpResponse,
};
use vstd::utf8::encode_utf8;

verus! {

/// `warning`, the header name in lower case.
pub open spec fn warning_name() -> Seq<u8> {
    seq![119u8, 97, 114, 110, 105, 110, 103]
}

/// `cache-control`, the header name in lower case.
pub open spec fn cache_control_name() -> Seq<u8> {
    seq![99u8, 97, 99, 104, 101, 45, 99, 111, 110, 116, 114, 111, 108]
}

/// The `must-revalidate` directive.
pub open spec fn must_revalidate_token() -> Seq<u8> {
    seq![109u8, 117, 115, 116, 45, 114, 101, 118, 97, 108, 105, 100, 97, 116, 101]
}

pub fn warning_name_bytes() -> (r: Vec<u8>)
    ensures
        r@ == warning_name(),
{
    let r = vec![119u8, 97, 114, 110, 105, 110, 103];
    assert(r@ =~= warning_name());
    r
}

pub fn cache_control_name_bytes() -> (r: Vec<u8>)
    ensures
        r@ == cache_control_name(),
{
    let r = vec![99u8, 97, 99, 104, 101, 45, 99, 111, 110, 116, 114, 111, 108];
    assert(r@ =~= cache_control_name());
    r
}

fn must_revalidate_bytes() -> (r: Vec<u8>)
    ensures
        r@ == must_revalidate_token(),
{
    let r = vec![109u8, 117, 115, 116, 45, 114, 101, 118, 97, 108, 105, 100, 97, 116, 101];
    assert(r@ =~= must_revalidate_token());
    r
}

/// ASCII whitespace, which is all the whitespace an ASCII header value can hold.
pub open spec fn is_ws(b: u8) -> bool {
    b == 32 || (9 <= b <= 13)
}

/// First position at or after `i` that holds no whitespace (or the end).
pub open spec fn skip_ws(s: Seq<u8>, i: int) -> int
    decreases s.len() - i,
{
    if i < 0 || i >= s.len() {
        i
    } else if is_ws(s[i]) {
        skip_ws(s, i + 1)
    } else {
        i
    }
}

/// First position at or after `i` that holds whitespace (or the end).
pub open spec fn token_end(s: Seq<u8>, i: int) -> int
    decreases s.len() - i,
{
    if i < 0 || i >= s.len() {
        i
    } else if is_ws(s[i]) {
        i
    } else {
        token_end(s, i + 1)
    }
}

/// The second whitespace-separated token of `s`, if it has two.
pub open spec fn second_token(s: Seq<u8>) -> Option<Seq<u8>> {
    let a = skip_ws(s, 0);
    let b = token_end(s, a);
    let c = skip_ws(s, b);
    if c < s.len() {
        Some(s.subrange(c, token_end(s, c)))
    } else {
        None
    }
}

pub open spec fn is_digit(b: u8) -> bool {
    48 <= b <= 57
}

pub open spec fn all_digits(s: Seq<u8>) -> bool {
    forall|i: int| 0 <= i < s.len() ==> #[trigger] is_digit(s[i])
}

/// The number that a string of decimal digits writes.
pub open spec fn dec_value(s: Seq<u8>) -> nat
    decreases s.len(),
{
    if s.len() == 0 {
        0
    } else {
        dec_value(s.drop_last()) * 10 + (s.last() - 48) as nat
    }
}

/// The digits of an unsigned decimal literal, after an optional leading `+`.
pub open spec fn unsigned_digits(t: Seq<u8>) -> Seq<u8> {
    if t.len() > 0 && t[0] == 43 {
        t.subrange(1, t.len() as int)
    } else {
        t
    }
}

/// An unsigned decimal number as `usize` reads it: an optional `+`, then at least one digit,
/// and a value that fits.
pub open spec fn parse_usize(t: Seq<u8>) -> Option<usize> {
    let d = unsigned_digits(t);
    if d.len() > 0 && all_digits(d) && dec_value(d) <= usize::MAX {
        Some(dec_value(d) as usize)
    } else {
        None
    }
}

/// The first whitespace-separated token of `s`, if it has one.
pub open spec fn first_token(s: Seq<u8>) -> Option<Seq<u8>> {
    let a = skip_ws(s, 0);
    if a < s.len() {
        Some(s.subrange(a, token_end(s, a)))
    } else {
        None
    }
}

/// Exactly three decimal digits: a warn-code.
pub open spec fn is_code_token(t: Seq<u8>) -> bool {
    t.len() == 3 && all_digits(t)
}

/// The token of a `Warning` value that holds its code: the first token where it is three
/// digits, as RFC 7234 writes it (`warn-code SP warn-agent ...`); otherwise the second token,
/// for values that put the agent first.
pub open spec fn code_token(s: Seq<u8>) -> Option<Seq<u8>> {
    match first_token(s) {
        Some(t) => if is_code_token(t) {
            Some(t)
        } else {
            second_token(s)
        },
        None => None,
    }
}

/// The code of the first `Warning` header, read as a number.
pub open spec fn warning_code(hs: Seq<HeaderView>) -> Option<usize> {
    match first_value(hs, warning_name()) {
        Some(v) => match code_token(v) {
            Some(t) => parse_usize(t),
            None => None,
        },
        None => None,
    }
}

/// `pat` (lower case) occurs in `s` at `i` once `s` is folded to lower case.
pub open spec fn occurs_folded_at(s: Seq<u8>, pat: Seq<u8>, i: int) -> bool {
    0 <= i && i + pat.len() <= s.len() && forall|k: int|
        0 <= k < pat.len() ==> #[trigger] lower(s[i + k]) == pat[k]
}

pub open spec fn contains_folded(s: Seq<u8>, pat: Seq<u8>) -> bool {
    exists|i: int| #[trigger] occurs_folded_at(s, pat, i)
}

/// The first `Cache-Control` header holds `must-revalidate`, in any case.
pub open spec fn requires_revalidation(hs: Seq<HeaderView>) -> bool {
    match first_value(hs, cache_control_name()) {
        Some(v) => contains_folded(v, must_revalidate_token()),
        None => false,
    }
}

fn skip_whitespace(s: &[u8], i: usize) -> (r: usize)
    requires
        i <= s@.len(),
    ensures
        r == skip_ws(s@, i as int),
        i <= r <= s@.len(),
{
    let mut j = i;
    while j < s.len() && (s[j] == 32 || (9 <= s[j] && s[j] <= 13))
        invariant
            i <= j <= s@.len(),
            skip_ws(s@, j as int) == skip_ws(s@, i as int),
        decreases s@.len() - j,
    {
        j = j + 1;
    }
    j
}

fn find_token_end(s: &[u8], i: usize) -> (r: usize)
    requires
        i <= s@.len(),
    ensures
        r == token_end(s@, i as int),
        i <= r <= s@.len(),
{
    let mut j = i;
    while j < s.len() && !(s[j] == 32 || (9 <= s[j] && s[j] <= 13))
        invariant
            i <= j <= s@.len(),
            token_end(s@, j as int) == token_end(s@, i as int),
        decreases s@.len() - j,
    {
        j = j + 1;
    }
    j
}

proof fn lemma_dec_value_prefix(s: Seq<u8>, k: int)
    requires
        0 <= k <= s.len(),
        all_digits(s),
    ensures
        dec_value(s.subrange(0, k)) <= dec_value(s),
    decreases s.len() - k,
{
    if k < s.len() {
        lemma_dec_value_prefix(s, k + 1);
        let p = s.subrange(0, k + 1);
        assert(p.drop_last() =~= s.subrange(0, k));
        assert(is_digit(s[k]));
    } else {
        assert(s.subrange(0, k) =~= s);
    }
}

/// Reads an unsigned decimal number as `usize::from_str` does.
pub fn parse_decimal(t: &[u8]) -> (r: Option<usize>)
    ensures
        r == parse_usize(t@),
{
    let start: usize = if t.len() > 0 && t[0] == 43 { 1 } else { 0 };
    let ghost d = unsigned_digits(t@);
    assert(d =~= t@.subrange(start as int, t@.len() as int));
    if start >= t.len() {
        return None;
    }
    let mut acc: usize = 0;
    let mut i: usize = start;
    while i < t.len()
        invariant
            start <= i <= t@.len(),
            start < t@.len(),
            d == t@.subrange(start as int, t@.len() as int),
            d == unsigned_digits(t@),
            forall|k: int| 0 <= k < i - start ==> #[trigger] is_digit(d[k]),
            acc as nat == dec_value(d.subrange(0, i - start)),
        decreases t@.len() - i,
    {
        let c = t[i];
        if c < 48 || c > 57 {
            assert(!is_digit(d[i - start]));
            return None;
        }
        let ghost p = d.subrange(0, i - start + 1);
        assert(p.drop_last() =~= d.subrange(0, i - start));
        assert(p.last() == c);
        let m = acc.checked_mul(10);
        if m.is_none() {
            proof {
                lemma_first_non_digit_or_big(d, i - start);
            }
            return None;
        }
        let s = m.unwrap().checked_add((c - 48) as usize);
        if s.is_none() {
            proof {
                lemma_first_non_digit_or_big(d, i - start);
            }
            return None;
        }
        acc = s.unwrap();
        i = i + 1;
    }
    assert(d.subrange(0, d.len() as int) =~= d);
    Some(acc)
}

proof fn lemma_first_non_digit_or_big(d: Seq<u8>, k: int)
    requires
        0 <= k < d.len(),
        is_digit(d[k]),
        dec_value(d.subrange(0, k)) * 10 + (d[k] - 48) as nat > usize::MAX,
    ensures
        !(all_digits(d) && dec_value(d) <= usize::MAX),
{
    if all_digits(d) {
        let p = d.subrange(0, k + 1);
        assert(p.drop_last() =~= d.subrange(0, k));
        lemma_dec_value_prefix(d, k + 1);
    }
}

fn is_digit_byte(b: u8) -> (r: bool)
    ensures
        r == is_digit(b),
{
    48 <= b && b <= 57
}

/// The code of a response's first `Warning` header, if it has one that reads as a number.
pub fn get_warning_code(res: &HttpResponse) -> (r: Option<usize>)
    ensures
        r == warning_code(res@.headers),
{
    let name = warning_name_bytes();
    match find_header(&res.headers, name.as_slice()) {
        None => None,
        Some(i) => {
            let v = res.headers[i].value.as_slice();
            let a = skip_whitespace(v, 0);
            if a >= v.len() {
                return None;
            }
            let b = find_token_end(v, a);
            if b - a == 3 && is_digit_byte(v[a]) && is_digit_byte(v[a + 1]) && is_digit_byte(v[a + 2]) {
                let first = vstd::slice::slice_subrange(v, a, b);
                assert(first@ =~= seq![v@[a as int], v@[a + 1], v@[a + 2]]);
                return parse_decimal(first);
            }
            let ghost first = v@.subrange(a as int, b as int);
            assert(!is_code_token(first)) by {
                if first.len() == 3 {
                    assert(first[0] == v@[a as int] && first[1] == v@[a + 1] && first[2] == v@[a + 2]);
                }
            }
            let c = skip_whitespace(v, b);
            if c < v.len() {
                let e = find_token_end(v, c);
                let tok = vstd::slice::slice_subrange(v, c, e);
                parse_decimal(tok)
            } else {
                None
            }
        },
    }
}

fn occurs_at(s: &[u8], pat: &[u8], i: usize) -> (r: bool)
    requires
        i + pat@.len() <= s@.len(),
    ensures
        r == occurs_folded_at(s@, pat@, i as int),
{
    let n = s.len();
    let mut k: usize = 0;
    while k < pat.len()
        invariant
            n == s@.len(),
            i + pat@.len() <= s@.len(),
            k <= pat@.len(),
            forall|j: int| 0 <= j < k ==> #[trigger] lower(s@[i + j]) == pat@[j],
        decreases pat@.len() - k,
    {
        if ascii_lower(s[i + k]) != pat[k] {
            return false;
        }
        k = k + 1;
    }
    true
}

/// Whether `pat` occurs in `s` once `s` is folded to lower case.
pub fn contains_ignore_case(s: &[u8], pat: &[u8]) -> (r: bool)
    ensures
        r == contains_folded(s@, pat@),
{
    if pat.len() > s.len() {
        assert forall|i: int| !occurs_folded_at(s@, pat@, i) by {}
        return false;
    }
    let last = s.len() - pat.len();
    let mut i: usize = 0;
    while i <= last
        invariant
            last + pat@.len() == s@.len(),
            forall|j: int| 0 <= j < i ==> !#[trigger] occurs_folded_at(s@, pat@, j),
        decreases last + 1 - i,
    {
        if occurs_at(s, pat, i) {
            return true;
        }
        if i == last {
            assert forall|j: int| !#[trigger] occurs_folded_at(s@, pat@, j) by {
                if 0 <= j < i {
                } else {
                }
            }
            return false;
        }
        i = i + 1;
    }
    false
}

/// Whether the response's `Cache-Control` header holds `must-revalidate`, in any case.
pub fn must_revalidate(res: &HttpResponse) -> (r: bool)
    ensures
        r == requires_revalidation(res@.headers),
{
    let name = cache_control_name_bytes();
    match find_header(&res.headers, name.as_slice()) {
        None => false,
        Some(i) => {
            let token = must_revalidate_bytes();
            contains_ignore_case(res.headers[i].value.as_slice(), token.as_slice())
        },
    }
}

/// A `Warning` code of the 1xx class, which a cache drops before it hands out a stored response.
pub open spec fn is_informational(code: Option<usize>) -> bool {
    match code {
        Some(c) => 100 <= c < 200,
        None => false,
    }
}

/// The headers of a stored response once a 1xx `Warning` is dropped.
pub open spec fn stripped_headers(hs: Seq<HeaderView>) -> Seq<HeaderView> {
    if is_informational(warning_code(hs)) {
        without_name(hs, warning_name())
    } else {
        hs
    }
}

pub open spec fn no_header_named(hs: Seq<HeaderView>, name: Seq<u8>) -> bool {
    forall|i: int| 0 <= i < hs.len() ==> !eq_ignore_case(#[trigger] hs[i].0, name)
}

pub proof fn lemma_without_name_has_none(hs: Seq<HeaderView>, name: Seq<u8>)
    ensures
        no_header_named(without_name(hs, name), name),
{
    let f = without_name(hs, name);
    assert forall|i: int| 0 <= i < f.len() implies !eq_ignore_case(#[trigger] f[i].0, name) by {
        hs.lemma_filter_pred(other_name(name), i);
    }
}

/// Drops the whole `Warning` header when the first one carries a 1xx code; 2xx warnings stay.
pub fn strip_informational_warnings(res: &mut HttpResponse)
    ensures
        final(res)@.status == old(res)@.status,
        final(res)@.body == old(res)@.body,
        final(res)@.headers == stripped_headers(old(res)@.headers),
        is_informational(warning_code(old(res)@.headers)) ==> no_header_named(
            final(res)@.headers,
            warning_name(),
        ),
{
    let code = get_warning_code(res);
    let drop = match code {
        Some(c) => 100 <= c && c < 200,
        None => false,
    };
    if drop {
        let name = warning_name_bytes();
        remove_headers(&mut res.headers, name.as_slice());
        proof {
            lemma_without_name_has_none(old(res)@.headers, warning_name());
        }
    }
}

/// The warn-date limit: `httpdate` formats moments before the year 9999 only.
pub const HTTP_DATE_LIMIT: u64 = 253402300800;

pub uninterp spec fn host_of(url: Seq<char>) -> Option<Seq<char>>;

pub uninterp spec fn http_date_of(secs: u64) -> Seq<u8>;

/// Relies on `http_types::Url::parse` (the `url` crate) and `Url::host_str`: the host of an
/// absolute URL, and `None` where the text does not parse or names no host.
#[verifier::external_body]
fn url_host(url: &str) -> (r: Option<String>)
    ensures
        match r {
            Some(h) => host_of(url@) == Some(h@),
            None => host_of(url@) is None,
        },
{
    http_types::Url::parse(url).ok().and_then(|u| u.host_str().map(|h| h.to_string()))
}

/// Relies on `httpdate::fmt_http_date`: the IMF-fixdate of a moment given as seconds since the
/// Unix epoch, 29 bytes long. It panics from the year 9999 on.
#[verifier::external_body]
fn fmt_http_date(secs: u64) -> (r: Vec<u8>)
    requires
        secs < HTTP_DATE_LIMIT,
    ensures
        r@ == http_date_of(secs),
        r@.len() == 29,
{
    httpdate::fmt_http_date(std::time::UNIX_EPOCH + std::time::Duration::from_secs(secs)).into_bytes()
}

/// A lower-case hexadecimal digit.
pub open spec fn hex_digit(d: u8) -> u8 {
    if d < 10 {
        (48 + d) as u8
    } else {
        (87 + d) as u8
    }
}

/// How one byte of warning text stands inside a quoted-string: `"` and `\` take a backslash;
/// a byte that a quoted-string cannot carry (a control byte, DEL, or a byte past ASCII) is
/// written as `\xHH`; every other byte stands for itself.
pub open spec fn escape_byte(b: u8) -> Seq<u8> {
    if b == 34 || b == 92 {
        seq![92u8, b]
    } else if b < 32 || b >= 127 {
        seq![92u8, 120u8, hex_digit(b / 16), hex_digit(b % 16)]
    } else {
        seq![b]
    }
}

/// `s` with each byte escaped as `escape_byte` says.
pub open spec fn escaped(s: Seq<u8>) -> Seq<u8>
    decreases s.len(),
{
    if s.len() == 0 {
        s
    } else {
        escaped(s.drop_last()) + escape_byte(s.last())
    }
}

fn push_hex_digit(out: &mut Vec<u8>, d: u8)
    requires
        d < 16,
    ensures
        final(out)@ == old(out)@.push(hex_digit(d)),
{
    if d < 10 {
        out.push(48 + d);
    } else {
        out.push(87 + d);
    }
}

/// A quoted-string: `s` escaped, between double quotes.
pub open spec fn quoted(s: Seq<u8>) -> Seq<u8> {
    seq![34u8] + escaped(s) + seq![34u8]
}

/// The three decimal digits of a warn-code.
pub open spec fn code_digits(code: u16) -> Seq<u8> {
    seq![(48 + code / 100) as u8, (48 + (code / 10) % 10) as u8, (48 + code % 10) as u8]
}

/// `warn-agent SP warn-code SP warn-text SP warn-date`, with the date in double quotes.
pub open spec fn warning_value(host: Seq<u8>, code: u16, text: Seq<u8>, date: Seq<u8>) -> Seq<u8> {
    host + seq![32u8] + code_digits(code) + seq![32u8] + quoted(text) + seq![32u8] + quoted(date)
}

/// Why a `Warning` value could not be built.
#[derive(PartialEq, Eq, Structural, Debug, Clone, Copy)]
pub enum CacheError {
    /// The request URI names no host, so the warning has no agent.
    MalformedWarningValue,
}

pub open spec fn built_warning(url: Seq<char>, code: u16, text: Seq<u8>, secs: u64) -> Result<
    Seq<u8>,
    CacheError,
> {
    match host_of(url) {
        Some(h) => Ok(warning_value(encode_utf8(h), code, text, http_date_of(secs))),
        None => Err(CacheError::MalformedWarningValue),
    }
}

fn push_quoted(out: &mut Vec<u8>, s: &[u8])
    ensures
        final(out)@ == old(out)@ + quoted(s@),
{
    out.push(34);
    let ghost start = out@;
    let mut i: usize = 0;
    while i < s.len()
        invariant
            i <= s@.len(),
            out@ == start + escaped(s@.subrange(0, i as int)),
            start == old(out)@.push(34),
        decreases s@.len() - i,
    {
        let ghost p = s@.subrange(0, i as int + 1);
        assert(p.drop_last() =~= s@.subrange(0, i as int));
        assert(p.last() == s@[i as int]);
        let b = s[i];
        if b == 34 || b == 92 {
            out.push(92);
            out.push(b);
        } else if b < 32 || b >= 127 {
            out.push(92);
            out.push(120);
            push_hex_digit(out, b / 16);
            push_hex_digit(out, b % 16);
        } else {
            out.push(b);
        }
        i = i + 1;
        assert(out@ =~= start + escaped(s@.subrange(0, i as int)));
    }
    assert(s@.subrange(0, s@.len() as int) =~= s@);
    out.push(34);
    assert(out@ =~= old(out)@ + quoted(s@));
}

fn push_all(out: &mut Vec<u8>, s: &[u8])
    ensures
        final(out)@ == old(out)@ + s@,
{
    let mut i: usize = 0;
    while i < s.len()
        invariant
            i <= s@.len(),
            out@ == old(out)@ + s@.subrange(0, i as int),
        decreases s@.len() - i,
    {
        out.push(s[i]);
        i = i + 1;
        assert(out@ =~= old(out)@ + s@.subrange(0, i as int));
    }
    assert(s@.subrange(0, s@.len() as int) =~= s@);
}

/// Builds a `Warning` value for a response to a request for `url`, dated `now_secs`.
pub fn build_warning(url: &str, code: u16, text: &[u8], now_secs: u64) -> (r: Result<
    Vec<u8>,
    CacheError,
>)
    requires
        100 <= code <= 999,
        now_secs < HTTP_DATE_LIMIT,
    ensures
        match r {
            Ok(v) => built_warning(url@, code, text@, now_secs) == Ok::<Seq<u8>, CacheError>(v@),
            Err(e) => built_warning(url@, code, text@, now_secs) == Err::<Seq<u8>, CacheError>(e),
        },
{
    let host = match url_host(url) {
        Some(h) => h,
        None => {
            return Err(CacheError::MalformedWarningValue);
        },
    };
    let date = fmt_http_date(now_secs);
    let mut out: Vec<u8> = Vec::new();
    push_all(&mut out, host.as_str().as_bytes());
    out.push(32);
    out.push((48 + code / 100) as u8);
    out.push((48 + (code / 10) % 10) as u8);
    out.push((48 + code % 10) as u8);
    out.push(32);
    push_quoted(&mut out, text);
    out.push(32);
    push_quoted(&mut out, date.as_slice());
    assert(out@ =~= warning_value(encode_utf8(host@), code, text@, date@));
    Ok(out)
}

/// Adds a `Warning` header built as `build_warning` does; where that fails the response is
/// left as it was.
pub fn append_warning(res: &mut HttpResponse, url: &str, code: u16, text: &[u8], now_secs: u64) -> (r:
    Result<(), CacheError>)
    requires
        100 <= code <= 999,
        now_secs < HTTP_DATE_LIMIT,
    ensures
        final(res)@.status == old(res)@.status,
        final(res)@.body == old(res)@.body,
        match built_warning(url@, code, text@, now_secs) {
            Ok(v) => r is Ok && final(res)@.headers == old(res)@.headers.push((warning_name(), v)),
            Err(e) => r == Err::<(), CacheError>(e) && final(res)@.headers == old(res)@.headers,
        },
{
    match build_warning(url, code, text, now_secs) {
        Ok(v) => {
            let name = warning_name_bytes();
            append_header(&mut res.headers, name.as_slice(), v.as_slice());
            Ok(())
        },
        Err(e) => Err(e),
    }
}

} // verus!
