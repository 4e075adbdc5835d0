use vstd::prelude::*;
use crate::engine::{
    cacheable_request, disconnected_text, lookup_for, miscellaneous_text, revalidation_failed_text,
    revalidation_for, store_action_for, stripped, CacheMode, LookupView, RevalidationView,
    StoreAction,
};
use crate::message::{is_get_or_head, lower, RequestView, ResponseView};
use crate::warning::{
    code_digits, contains_folded, host_of, http_date_of, is_informational,
    is_ws, no_header_named, occurs_folded_at, parse_usize, requires_revalidation,
    code_token, is_code_token, skip_ws, token_end, warning_code, warning_name, warning_value, dec_value,
    all_digits, unsigned_digits, lemma_without_name_has_none, must_revalidate_token,
};
use vstd::utf8::encode_utf8;

verus! {

/// A request whose method is neither `GET` nor `HEAD` never reads the store, and whatever the
/// origin answers, the entry under its key is deleted.
pub proof fn lemma_other_methods_invalidate(req: RequestView, mode: CacheMode, status: u16)
    requires
        !is_get_or_head(req.method),
    ensures
        !cacheable_request(req, mode),
        store_action_for(mode, req, status) == StoreAction::Delete,
{
}

/// A stored response whose first `Warning` carries a 1xx code comes out of a store read with no
/// `Warning` header at all.
pub proof fn lemma_informational_warning_dropped(res: ResponseView)
    requires
        is_informational(warning_code(res.headers)),
    ensures
        no_header_named(stripped(res).headers, warning_name()),
{
    lemma_without_name_has_none(res.headers, warning_name());
}

/// With only cached responses allowed and nothing stored, the call fails as not cached and
/// nothing is fetched.
pub proof fn lemma_only_if_cached_miss(req: RequestView, fresh: bool, secs: u64)
    ensures
        lookup_for(CacheMode::OnlyIfCached, req, None, fresh, secs) == LookupView::NotCached,
{
}

/// A host is a non-empty run of bytes without whitespace, and not a bare three-digit number.
pub open spec fn plain_host(h: Seq<u8>) -> bool {
    h.len() > 0 && (forall|i: int| 0 <= i < h.len() ==> !is_ws(#[trigger] h[i])) && !is_code_token(h)
}

proof fn lemma_token_end_run(s: Seq<u8>, i: int, j: int)
    requires
        0 <= i <= j <= s.len(),
        forall|k: int| i <= k < j ==> !is_ws(#[trigger] s[k]),
        j == s.len() || is_ws(s[j]),
    ensures
        token_end(s, i) == j,
    decreases j - i,
{
    if i < j {
        lemma_token_end_run(s, i + 1, j);
    }
}

proof fn lemma_dec_value_three(a: u8, b: u8, c: u8)
    ensures
        dec_value(seq![a, b, c]) == (((a - 48) as nat * 10 + (b - 48) as nat) * 10 + (c
            - 48) as nat),
{
    let s = seq![a, b, c];
    assert(s.drop_last() =~= seq![a, b]);
    assert(seq![a, b].drop_last() =~= seq![a]);
    assert(seq![a].drop_last() =~= Seq::<u8>::empty());
    assert(dec_value(Seq::<u8>::empty()) == 0);
    assert(dec_value(seq![a]) == (a - 48) as nat);
    assert(dec_value(seq![a, b]) == dec_value(seq![a]) * 10 + (b - 48) as nat);
    assert(dec_value(s) == dec_value(seq![a, b]) * 10 + (c - 48) as nat);
}

/// The code of a built `Warning` value reads back as the code it was built with.
pub proof fn lemma_warning_code_round_trip(host: Seq<u8>, code: u16, text: Seq<u8>, date: Seq<u8>)
    requires
        plain_host(host),
        100 <= code <= 999,
    ensures
        code_token(warning_value(host, code, text, date)) == Some(code_digits(code)),
        parse_usize(code_digits(code)) == Some(code as usize),
{
    let s = warning_value(host, code, text, date);
    let n = host.len() as int;
    let cd = code_digits(code);
    assert(s[0] == host[0]);
    assert forall|k: int| 0 <= k < n implies !is_ws(#[trigger] s[k]) by {
        assert(s[k] == host[k]);
    }
    assert(s[n] == 32);
    lemma_token_end_run(s, 0, n);
    assert(s.subrange(0, n) =~= host);
    assert(s[n + 1] == cd[0]);
    assert(s[n + 2] == cd[1]);
    assert(s[n + 3] == cd[2]);
    assert(s[n + 4] == 32);
    assert(skip_ws(s, n + 1) == n + 1);
    assert(skip_ws(s, n) == n + 1);
    lemma_token_end_run(s, n + 1, n + 4);
    assert(s.subrange(n + 1, n + 4) =~= cd);
    assert(unsigned_digits(cd) == cd);
    assert(all_digits(cd));
    lemma_dec_value_three(cd[0], cd[1], cd[2]);
    assert(cd =~= seq![cd[0], cd[1], cd[2]]);
    assert(((code / 100) * 10 + (code / 10) % 10) * 10 + code % 10 == code) by (nonlinear_arith)
        requires
            100 <= code <= 999,
    ;
}

/// Serving a stale entry without asking the origin adds exactly one `Warning`, with code 112,
/// after the stored headers, and fetches nothing.
pub proof fn lemma_force_cache_adds_disconnected_warning(
    req: RequestView,
    res: ResponseView,
    secs: u64,
)
    requires
        host_of(req.url) is Some,
        plain_host(encode_utf8(host_of(req.url)->0)),
    ensures
        ({
            let v = warning_value(
                encode_utf8(host_of(req.url)->0),
                112,
                disconnected_text(),
                http_date_of(secs),
            );
            &&& lookup_for(CacheMode::ForceCache, req, Some(res), false, secs) == LookupView::Serve(
                ResponseView { headers: stripped(res).headers.push((warning_name(), v)), ..stripped(res) },
            )
            &&& warning_code(seq![(warning_name(), v)]) == Some(112usize)
        }),
{
    let v = warning_value(
        encode_utf8(host_of(req.url)->0),
        112,
        disconnected_text(),
        http_date_of(secs),
    );
    lemma_warning_code_round_trip(encode_utf8(host_of(req.url)->0), 112, disconnected_text(), http_date_of(secs));
    let hs = seq![(warning_name(), v)];
    assert(crate::message::eq_ignore_case(hs[0].0, warning_name()));
}

/// A 304 answer to a revalidation is stored with the new headers over the stored body, which
/// is kept byte for byte.
pub proof fn lemma_not_modified_keeps_body(
    req: RequestView,
    cached: ResponseView,
    new: ResponseView,
    secs: u64,
)
    requires
        new.status == 304,
    ensures
        revalidation_for(req, cached, Ok(new), secs) == RevalidationView::Store(
            ResponseView { status: 304, headers: new.headers, body: cached.body },
        ),
{
}

/// When the origin cannot be reached and the stored response does not demand revalidation,
/// it is served with two more warnings, 111 and then 199, and no error.
pub proof fn lemma_unreachable_origin_serves_stale(
    req: RequestView,
    cached: ResponseView,
    err: Seq<u8>,
    secs: u64,
)
    requires
        !requires_revalidation(cached.headers),
        host_of(req.url) is Some,
    ensures
        ({
            let h = encode_utf8(host_of(req.url)->0);
            let d = http_date_of(secs);
            revalidation_for(req, cached, Err(err), secs) == RevalidationView::Serve(
                ResponseView {
                    headers: cached.headers.push(
                        (warning_name(), warning_value(h, 111, revalidation_failed_text(), d)),
                    ).push(
                        (warning_name(), warning_value(h, 199, miscellaneous_text() + err, d)),
                    ),
                    ..cached
                },
            )
        }),
{
}

/// When the origin cannot be reached and the stored response demands revalidation, the call
/// fails and the store is left as it was.
pub proof fn lemma_unreachable_origin_must_revalidate(
    req: RequestView,
    cached: ResponseView,
    err: Seq<u8>,
    secs: u64,
)
    requires
        requires_revalidation(cached.headers),
    ensures
        revalidation_for(req, cached, Err(err), secs) == RevalidationView::Fail,
{
}

/// Whether a value holds `must-revalidate` does not depend on the case of its letters.
pub proof fn lemma_must_revalidate_ignores_case(a: Seq<u8>, b: Seq<u8>)
    requires
        crate::message::eq_ignore_case(a, b),
    ensures
        contains_folded(a, must_revalidate_token()) == contains_folded(b, must_revalidate_token()),
{
    let p = must_revalidate_token();
    if contains_folded(a, p) {
        let i = choose|i: int| occurs_folded_at(a, p, i);
        assert forall|k: int| 0 <= k < p.len() implies #[trigger] lower(b[i + k]) == p[k] by {
            assert(lower(a[i + k]) == lower(b[i + k]));
        }
        assert(occurs_folded_at(b, p, i));
    }
    if contains_folded(b, p) {
        let i = choose|i: int| occurs_folded_at(b, p, i);
        assert forall|k: int| 0 <= k < p.len() implies #[trigger] lower(a[i + k]) == p[k] by {
            assert(lower(a[i + k]) == lower(b[i + k]));
        }
        assert(occurs_folded_at(a, p, i));
    }
}

/// `must-revalidate` is found wherever it stands in a value, in any case.
pub proof fn lemma_must_revalidate_anywhere(before: Seq<u8>, word: Seq<u8>, after: Seq<u8>)
    requires
        crate::message::eq_ignore_case(word, must_revalidate_token()),
    ensures
        contains_folded(before + word + after, must_revalidate_token()),
{
    let p = must_revalidate_token();
    let s = before + word + after;
    let i = before.len() as int;
    assert forall|k: int| 0 <= k < p.len() implies #[trigger] lower(s[i + k]) == p[k] by {
        assert(s[i + k] == word[k]);
        assert(lower(p[k]) == p[k]);
    }
    assert(occurs_folded_at(s, p, i));
}

/// A `Warning` value written in RFC 7234 order, code first, reads back as that code, whatever
/// follows it.
pub proof fn lemma_warning_code_leading(code: u16, rest: Seq<u8>)
    requires
        100 <= code <= 999,
    ensures
        warning_code(seq![(warning_name(), code_digits(code) + seq![32u8] + rest)]) == Some(
            code as usize,
        ),
{
    let s = code_digits(code) + seq![32u8] + rest;
    let cd = code_digits(code);
    assert(s[0] == cd[0] && s[1] == cd[1] && s[2] == cd[2] && s[3] == 32);
    lemma_token_end_run(s, 0, 3);
    assert(s.subrange(0, 3) =~= cd);
    assert(all_digits(cd));
    assert(unsigned_digits(cd) == cd);
    lemma_dec_value_three(cd[0], cd[1], cd[2]);
    assert(cd =~= seq![cd[0], cd[1], cd[2]]);
    assert(((code / 100) * 10 + (code / 10) % 10) * 10 + code % 10 == code) by (nonlinear_arith)
        requires
            100 <= code <= 999,
    ;
    let hs = seq![(warning_name(), s)];
    assert(crate::message::eq_ignore_case(hs[0].0, warning_name()));
}

} // verus!
