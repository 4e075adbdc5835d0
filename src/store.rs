use vstd::prelude::*;
use vstd::string::StringExecFns;
use vstd::utf8::encode_utf8;
use crate::message::{
    copy_bytes, copy_headers, headers_view, method_name, Header, HttpRequest, HttpResponse,
    ResponseView,
};

verus! {

/// `u` up to its first `#`: the URI without its fragment.
pub open spec fn without_fragment(u: Seq<u8>) -> Seq<u8>
    decreases u.len(),
{
    if u.len() == 0 {
        u
    } else if u[0] == 35 {
        Seq::empty()
    } else {
        seq![u[0]] + without_fragment(u.drop_first())
    }
}

/// The key of a request in the store: `method:uri`, the fragment left out.
pub open spec fn cache_key(req: crate::message::RequestView) -> Seq<u8> {
    method_name(req.method) + seq![58u8] + without_fragment(encode_utf8(req.url))
}

/// The store key of a request; two requests with the same method and URI share it.
pub fn req_key(req: &HttpRequest) -> (r: Vec<u8>)
    ensures
        r@ == cache_key(req@),
{
    let mut key = req.method.name();
    key.push(58);
    let ghost start = key@;
    let u = req.url.as_str().as_bytes();
    let mut i: usize = 0;
    while i < u.len() && u[i] != 35
        invariant
            i <= u@.len(),
            u@ == encode_utf8(req.url@),
            forall|j: int| 0 <= j < i ==> u@[j] != 35,
            key@ == start + u@.subrange(0, i as int),
        decreases u@.len() - i,
    {
        key.push(u[i]);
        i = i + 1;
        assert(key@ =~= start + u@.subrange(0, i as int));
    }
    proof {
        lemma_without_fragment(u@, i as int);
    }
    key
}

proof fn lemma_without_fragment(u: Seq<u8>, i: int)
    requires
        0 <= i <= u.len(),
        forall|j: int| 0 <= j < i ==> u[j] != 35,
        i == u.len() || u[i] == 35,
    ensures
        without_fragment(u) == u.subrange(0, i),
    decreases u.len(),
{
    if u.len() == 0 {
    } else if i == 0 {
        assert(u.subrange(0, 0) =~= Seq::<u8>::empty());
    } else {
        let t = u.drop_first();
        assert forall|j: int| 0 <= j < i - 1 implies t[j] != 35 by {
            assert(t[j] == u[j + 1]);
        }
        lemma_without_fragment(t, i - 1);
        assert(seq![u[0]] + t.subrange(0, i - 1) =~= u.subrange(0, i));
    }
}

/// A response as the store keeps it: status, every header in order, and body.
pub struct StoredResponse {
    pub status: u16,
    pub headers: Vec<Header>,
    pub body: Vec<u8>,
}

impl View for StoredResponse {
    type V = ResponseView;

    open spec fn view(&self) -> ResponseView {
        ResponseView { status: self.status, headers: headers_view(self.headers@), body: self.body@ }
    }
}

/// Turns a response into the form the store keeps.
pub fn to_store(res: &HttpResponse) -> (r: StoredResponse)
    ensures
        r@ == res@,
{
    StoredResponse {
        status: res.status,
        headers: copy_headers(&res.headers),
        body: copy_bytes(res.body.as_slice()),
    }
}

/// The response that a stored entry stands for.
pub fn from_store(store: &StoredResponse) -> (r: HttpResponse)
    ensures
        r@ == store@,
{
    HttpResponse {
        status: store.status,
        headers: copy_headers(&store.headers),
        body: copy_bytes(store.body.as_slice()),
    }
}

/// Storing a response and reading it back gives the same status, the same headers in the same
/// order (repeated names included), and the same body, empty or not.
pub proof fn lemma_store_round_trip(res: ResponseView, stored: ResponseView, back: ResponseView)
    requires
        stored == res,
        back == stored,
    ensures
        back.status == res.status,
        back.headers == res.headers,
        back.body == res.body,
{
}

/// A store of responses in a directory on disk, keyed by `req_key`.
pub struct CACacheManager {
    pub path: String,
}

impl Default for CACacheManager {
    fn default() -> (r: Self)
        ensures
            r.path@ == "./surf-cacache"@,
    {
        CACacheManager { path: String::from_str("./surf-cacache") }
    }
}

impl CACacheManager {
    /// A store kept in the directory `path`.
    pub fn new(path: String) -> (r: Self)
        ensures
            r.path@ == path@,
    {
        CACacheManager { path }
    }
}

} // verus!
