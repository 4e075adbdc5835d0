use vstd::prelude::*;

verus! {

/// A header line as the model sees it: name and value bytes.
pub type HeaderView = (Seq<u8>, Seq<u8>);

/// ASCII lower-casing of one byte; other bytes are left as they are.
pub open spec fn lower(b: u8) -> u8 {
    if 65 <= b <= 90 {
        (b + 32) as u8
    } else {
        b
    }
}

/// Two byte strings that are equal once ASCII letters are folded to lower case.
pub open spec fn eq_ignore_case(a: Seq<u8>, b: Seq<u8>) -> bool {
    a.len() == b.len() && forall|i: int| 0 <= i < a.len() ==> #[trigger] lower(a[i]) == lower(b[i])
}

/// The value of the first header whose name matches `name`, ignoring ASCII case.
pub open spec fn first_value(hs: Seq<HeaderView>, name: Seq<u8>) -> Option<Seq<u8>>
    decreases hs.len(),
{
    if hs.len() == 0 {
        None
    } else if eq_ignore_case(hs[0].0, name) {
        Some(hs[0].1)
    } else {
        first_value(hs.drop_first(), name)
    }
}

/// The headers left once every header called `name` is taken out.
pub open spec fn without_name(hs: Seq<HeaderView>, name: Seq<u8>) -> Seq<HeaderView> {
    hs.filter(other_name(name))
}

pub open spec fn other_name(name: Seq<u8>) -> spec_fn(HeaderView) -> bool {
    |h: HeaderView| !eq_ignore_case(h.0, name)
}

/// One header of a request or a response. Several headers may share a name.
pub struct Header {
    pub name: Vec<u8>,
    pub value: Vec<u8>,
}

impl View for Header {
    type V = HeaderView;

    open spec fn view(&self) -> HeaderView {
        (self.name@, self.value@)
    }
}

pub open spec fn headers_view(hs: Seq<Header>) -> Seq<HeaderView> {
    hs.map_values(|h: Header| h@)
}

/// A request method; the ones without a variant of their own are kept by name.
pub enum Method {
    Get,
    Head,
    Post,
    Put,
    Delete,
    Connect,
    Options,
    Trace,
    Patch,
    Other(Vec<u8>),
}

/// A method as the model sees it.
pub enum MethodView {
    Get,
    Head,
    Post,
    Put,
    Delete,
    Connect,
    Options,
    Trace,
    Patch,
    Other(Seq<u8>),
}

impl View for Method {
    type V = MethodView;

    open spec fn view(&self) -> MethodView {
        match self {
            Method::Get => MethodView::Get,
            Method::Head => MethodView::Head,
            Method::Post => MethodView::Post,
            Method::Put => MethodView::Put,
            Method::Delete => MethodView::Delete,
            Method::Connect => MethodView::Connect,
            Method::Options => MethodView::Options,
            Method::Trace => MethodView::Trace,
            Method::Patch => MethodView::Patch,
            Method::Other(b) => MethodView::Other(b@),
        }
    }
}

/// The name of a method as it stands in a request line.
pub open spec fn method_name(m: MethodView) -> Seq<u8> {
    match m {
        MethodView::Get => seq![71u8, 69, 84],
        MethodView::Head => seq![72u8, 69, 65, 68],
        MethodView::Post => seq![80u8, 79, 83, 84],
        MethodView::Put => seq![80u8, 85, 84],
        MethodView::Delete => seq![68u8, 69, 76, 69, 84, 69],
        MethodView::Connect => seq![67u8, 79, 78, 78, 69, 67, 84],
        MethodView::Options => seq![79u8, 80, 84, 73, 79, 78, 83],
        MethodView::Trace => seq![84u8, 82, 65, 67, 69],
        MethodView::Patch => seq![80u8, 65, 84, 67, 72],
        MethodView::Other(b) => b,
    }
}

/// `GET` and `HEAD`, the methods whose responses a cache may keep.
pub open spec fn is_get_or_head(m: MethodView) -> bool {
    m is Get || m is Head
}

impl Method {
    pub fn name(&self) -> (r: Vec<u8>)
        ensures
            r@ == method_name(self@),
    {
        let r = match self {
            Method::Get => vec![71u8, 69, 84],
            Method::Head => vec![72u8, 69, 65, 68],
            Method::Post => vec![80u8, 79, 83, 84],
            Method::Put => vec![80u8, 85, 84],
            Method::Delete => vec![68u8, 69, 76, 69, 84, 69],
            Method::Connect => vec![67u8, 79, 78, 78, 69, 67, 84],
            Method::Options => vec![79u8, 80, 84, 73, 79, 78, 83],
            Method::Trace => vec![84u8, 82, 65, 67, 69],
            Method::Patch => vec![80u8, 65, 84, 67, 72],
            Method::Other(b) => copy_bytes(b.as_slice()),
        };
        assert(r@ =~= method_name(self@));
        r
    }

    pub fn is_get_or_head(&self) -> (r: bool)
        ensures
            r == is_get_or_head(self@),
    {
        match self {
            Method::Get => true,
            Method::Head => true,
            _ => false,
        }
    }

    pub fn duplicate(&self) -> (r: Method)
        ensures
            r@ == self@,
    {
        match self {
            Method::Get => Method::Get,
            Method::Head => Method::Head,
            Method::Post => Method::Post,
            Method::Put => Method::Put,
            Method::Delete => Method::Delete,
            Method::Connect => Method::Connect,
            Method::Options => Method::Options,
            Method::Trace => Method::Trace,
            Method::Patch => Method::Patch,
            Method::Other(b) => {
                let c = copy_bytes(b.as_slice());
                assert(c@ == b@);
                Method::Other(c)
            },
        }
    }
}

/// A request: method, absolute target URI and headers in the order given.
pub struct HttpRequest {
    pub method: Method,
    pub url: String,
    pub headers: Vec<Header>,
}

/// A fully buffered response.
pub struct HttpResponse {
    pub status: u16,
    pub headers: Vec<Header>,
    pub body: Vec<u8>,
}

pub struct RequestView {
    pub method: MethodView,
    pub url: Seq<char>,
    pub headers: Seq<HeaderView>,
}

pub struct ResponseView {
    pub status: u16,
    pub headers: Seq<HeaderView>,
    pub body: Seq<u8>,
}

impl View for HttpRequest {
    type V = RequestView;

    open spec fn view(&self) -> RequestView {
        RequestView { method: self.method@, url: self.url@, headers: headers_view(self.headers@) }
    }
}

impl View for HttpResponse {
    type V = ResponseView;

    open spec fn view(&self) -> ResponseView {
        ResponseView { status: self.status, headers: headers_view(self.headers@), body: self.body@ }
    }
}

pub fn copy_bytes(b: &[u8]) -> (r: Vec<u8>)
    ensures
        r@ == b@,
{
    let mut r: Vec<u8> = Vec::new();
    let mut i: usize = 0;
    while i < b.len()
        invariant
            i <= b@.len(),
            r@ == b@.subrange(0, i as int),
        decreases b@.len() - i,
    {
        r.push(b[i]);
        i = i + 1;
        assert(r@ =~= b@.subrange(0, i as int));
    }
    assert(r@ =~= b@);
    r
}

impl Header {
    pub fn new(name: &[u8], value: &[u8]) -> (r: Header)
        ensures
            r@ == (name@, value@),
    {
        Header { name: copy_bytes(name), value: copy_bytes(value) }
    }

    pub fn duplicate(&self) -> (r: Header)
        ensures
            r@ == self@,
    {
        Header { name: copy_bytes(self.name.as_slice()), value: copy_bytes(self.value.as_slice()) }
    }
}

pub fn copy_headers(hs: &Vec<Header>) -> (r: Vec<Header>)
    ensures
        headers_view(r@) == headers_view(hs@),
{
    let mut r: Vec<Header> = Vec::new();
    let mut i: usize = 0;
    while i < hs.len()
        invariant
            i <= hs@.len(),
            r@.len() == i,
            forall|j: int| 0 <= j < i ==> #[trigger] r@[j]@ == hs@[j]@,
        decreases hs@.len() - i,
    {
        r.push(hs[i].duplicate());
        i = i + 1;
    }
    assert(headers_view(r@) =~= headers_view(hs@));
    r
}

pub fn bytes_eq_ignore_case(a: &[u8], b: &[u8]) -> (r: bool)
    ensures
        r == eq_ignore_case(a@, b@),
{
    if a.len() != b.len() {
        return false;
    }
    let mut i: usize = 0;
    while i < a.len()
        invariant
            a@.len() == b@.len(),
            i <= a@.len(),
            forall|j: int| 0 <= j < i ==> #[trigger] lower(a@[j]) == lower(b@[j]),
        decreases a@.len() - i,
    {
        if ascii_lower(a[i]) != ascii_lower(b[i]) {
            return false;
        }
        i = i + 1;
    }
    true
}

pub fn ascii_lower(b: u8) -> (r: u8)
    ensures
        r == lower(b),
{
    if 65 <= b && b <= 90 {
        b + 32
    } else {
        b
    }
}

proof fn lemma_first_value_step(hs: Seq<HeaderView>, i: int, name: Seq<u8>)
    requires
        0 <= i < hs.len(),
        !eq_ignore_case(hs[i].0, name),
    ensures
        first_value(hs.subrange(i, hs.len() as int), name) == first_value(
            hs.subrange(i + 1, hs.len() as int),
            name,
        ),
{
    assert(hs.subrange(i, hs.len() as int).drop_first() =~= hs.subrange(i + 1, hs.len() as int));
}

/// Position of the first header called `name` (ASCII case ignored).
pub fn find_header(hs: &Vec<Header>, name: &[u8]) -> (r: Option<usize>)
    ensures
        match r {
            Some(i) => i < hs@.len() && eq_ignore_case(hs@[i as int].name@, name@) && first_value(
                headers_view(hs@),
                name@,
            ) == Some(hs@[i as int].value@),
            None => first_value(headers_view(hs@), name@) is None,
        },
{
    let ghost v = headers_view(hs@);
    let mut i: usize = 0;
    assert(v.subrange(0, v.len() as int) =~= v);
    while i < hs.len()
        invariant
            i <= hs@.len(),
            v == headers_view(hs@),
            first_value(v, name@) == first_value(v.subrange(i as int, v.len() as int), name@),
        decreases hs@.len() - i,
    {
        if bytes_eq_ignore_case(hs[i].name.as_slice(), name) {
            assert(v.subrange(i as int, v.len() as int)[0] == v[i as int]);
            return Some(i);
        }
        proof {
            lemma_first_value_step(v, i as int, name@);
        }
        i = i + 1;
    }
    None
}

/// Takes out every header called `name` (ASCII case ignored), keeping the order of the rest.
pub fn remove_headers(hs: &mut Vec<Header>, name: &[u8])
    ensures
        headers_view(final(hs)@) == without_name(headers_view(old(hs)@), name@),
{
    let ghost v = headers_view(old(hs)@);
    let mut kept: Vec<Header> = Vec::new();
    let mut i: usize = 0;
    while i < hs.len()
        invariant
            i <= hs@.len(),
            hs@ == old(hs)@,
            v == headers_view(hs@),
            headers_view(kept@) == v.subrange(0, i as int).filter(other_name(name@)),
        decreases hs@.len() - i,
    {
        proof {
            reveal(Seq::filter);
        }
        let ghost p = v.subrange(0, i as int + 1);
        assert(p.drop_last() =~= v.subrange(0, i as int));
        assert(p.last() == hs@[i as int]@);
        if !bytes_eq_ignore_case(hs[i].name.as_slice(), name) {
            let h = hs[i].duplicate();
            let ghost before = kept@;
            kept.push(h);
            assert(kept@ == before.push(h));
            assert(headers_view(kept@) =~= headers_view(before).push(h@));
        }
        i = i + 1;
    }
    assert(v.subrange(0, v.len() as int) =~= v);
    *hs = kept;
}

/// Adds one header after all the others.
pub fn append_header(hs: &mut Vec<Header>, name: &[u8], value: &[u8])
    ensures
        headers_view(final(hs)@) == headers_view(old(hs)@).push((name@, value@)),
{
    hs.push(Header::new(name, value));
    assert(headers_view(hs@) =~= headers_view(old(hs)@).push((name@, value@)));
}

} // verus!
