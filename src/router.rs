use vstd::prelude::*;

verus! {

// ---------------------------------
// ----------- Text helpers --------
// ---------------------------------

/// Whether two strings hold the same characters.
pub fn same_text(a: &str, b: &str) -> (r: bool)
    ensures
        r == (a@ == b@),
{
    let n = a.unicode_len();
    if n != b.unicode_len() {
        return false;
    }
    let mut i: usize = 0;
    while i < n
        invariant
            n == a@.len(),
            n == b@.len(),
            0 <= i <= n,
            forall|j: int| 0 <= j < i ==> a@[j] == b@[j],
        decreases n - i,
    {
        if a.get_char(i) != b.get_char(i) {
            return false;
        }
        i = i + 1;
    }
    assert(a@ =~= b@);
    true
}

/// The position of the first `?` at or after `i`, or the length when there is none.
pub open spec fn query_from(s: Seq<char>, i: int) -> int
    decreases s.len() - i,
{
    if i < 0 || i >= s.len() {
        s.len() as int
    } else if s[i] == '?' {
        i
    } else {
        query_from(s, i + 1)
    }
}

/// The part of a URL before its query string.
pub open spec fn path_of(url: Seq<char>) -> Seq<char> {
    url.subrange(0, query_from(url, 0))
}

proof fn lemma_query_from_bounds(s: Seq<char>, i: int)
    requires
        0 <= i <= s.len(),
    ensures
        i <= query_from(s, i) <= s.len(),
    decreases s.len() - i,
{
    if i < s.len() && s[i] != '?' {
        lemma_query_from_bounds(s, i + 1);
    }
}

/// The part of `url` before the first `?`.
pub fn strip_query(url: &str) -> (r: &str)
    ensures
        r@ == path_of(url@),
{
    let n = url.unicode_len();
    let mut i: usize = 0;
    while i < n && url.get_char(i) != '?'
        invariant
            n == url@.len(),
            0 <= i <= n,
            query_from(url@, i as int) == query_from(url@, 0),
        decreases n - i,
    {
        i = i + 1;
    }
    url.substring_char(0, i)
}

/// The pieces of `s` between `/` separators, scanning from `i` with the
/// current piece begun at `start`.
pub open spec fn split_from(s: Seq<char>, start: int, i: int) -> Seq<Seq<char>>
    decreases s.len() - i,
{
    if i < start || start < 0 || i >= s.len() {
        seq![s.subrange(start, s.len() as int)]
    } else if s[i] == '/' {
        seq![s.subrange(start, i)] + split_from(s, i + 1, i + 1)
    } else {
        split_from(s, start, i + 1)
    }
}

/// The pieces of `s` between `/` separators (as `str::split('/')` yields them).
pub open spec fn split_slash(s: Seq<char>) -> Seq<Seq<char>> {
    split_from(s, 0, 0)
}

pub open spec fn texts_view(v: Seq<&str>) -> Seq<Seq<char>> {
    v.map_values(|x: &str| x@)
}

/// Splits `path` at every `/`.
pub fn split_path(path: &str) -> (r: Vec<&str>)
    ensures
        texts_view(r@) == split_slash(path@),
{
    let n = path.unicode_len();
    let mut parts: Vec<&str> = Vec::new();
    let mut start: usize = 0;
    let mut i: usize = 0;
    while i < n
        invariant
            n == path@.len(),
            0 <= start <= i <= n,
            texts_view(parts@) + split_from(path@, start as int, i as int) == split_slash(path@),
        decreases n - i,
    {
        if path.get_char(i) == '/' {
            let piece = path.substring_char(start, i);
            let ghost before = parts@;
            parts.push(piece);
            assert(texts_view(parts@) =~= texts_view(before) + seq![piece@]);
            assert(texts_view(parts@) + split_from(path@, (i + 1) as int, (i + 1) as int)
                =~= texts_view(before) + split_from(path@, start as int, i as int));
            start = i + 1;
        }
        i = i + 1;
    }
    let piece = path.substring_char(start, n);
    let ghost before = parts@;
    parts.push(piece);
    assert(texts_view(parts@) =~= texts_view(before) + seq![piece@]);
    assert(texts_view(parts@) =~= split_slash(path@));
    parts
}

/// What percent-decoding a URL segment gives (bytes `%XX` become the byte
/// `XX`, then the bytes are read as UTF-8, invalid sequences replaced).
pub uninterp spec fn percent_decoded(s: Seq<char>) -> Seq<char>;

/// Relies on `percent_encoding::percent_decode` (re-exported by rouille) and
/// `PercentDecode::decode_utf8_lossy`: the decoded text depends on the
/// segment alone.
#[verifier::external_body]
fn decode_segment(s: &str) -> (r: String)
    ensures
        r@ == percent_decoded(s@),
{
    rouille::percent_encoding::percent_decode(s.as_bytes()).decode_utf8_lossy().into_owned()
}

// ---------------------------------
// ----------- Numbers -------------
// ---------------------------------

pub open spec fn is_digit(c: char) -> bool {
    '0' <= c && c <= '9'
}

pub open spec fn digit_value(c: char) -> nat {
    (c as u32 - '0' as u32) as nat
}

/// The value of a string of decimal digits.
pub open spec fn digits_value(d: Seq<char>) -> nat
    decreases d.len(),
{
    if d.len() == 0 {
        0
    } else {
        digits_value(d.drop_last()) * 10 + digit_value(d.last())
    }
}

/// The digits of a decimal literal: what follows an optional leading `+`.
pub open spec fn unsigned_digits(s: Seq<char>) -> Seq<char> {
    if s.len() > 0 && s[0] == '+' {
        s.drop_first()
    } else {
        s
    }
}

/// How `u64::from_str` reads `s`: an optional `+`, then one or more decimal
/// digits whose value fits in 64 bits; anything else is refused.
pub open spec fn decimal_u64(s: Seq<char>) -> Option<u64> {
    let d = unsigned_digits(s);
    if d.len() > 0 && (forall|i: int| 0 <= i < d.len() ==> is_digit(#[trigger] d[i]))
        && digits_value(d) <= u64::MAX {
        Some(digits_value(d) as u64)
    } else {
        None
    }
}

/// Reads `s` as an unsigned 64-bit decimal number.
pub fn parse_u64(s: &str) -> (r: Option<u64>)
    ensures
        r == decimal_u64(s@),
{
    let n = s.unicode_len();
    let mut first: usize = 0;
    if n > 0 && s.get_char(0) == '+' {
        first = 1;
    }
    let d = s.substring_char(first, n);
    assert(d@ =~= unsigned_digits(s@));
    let m = n - first;
    if m == 0 {
        return None;
    }
    let mut value: u64 = 0;
    let mut too_big = false;
    let mut i: usize = 0;
    while i < m
        invariant
            m == d@.len(),
            d@ == unsigned_digits(s@),
            0 <= i <= m,
            forall|j: int| 0 <= j < i ==> is_digit(#[trigger] d@[j]),
            !too_big ==> value == digits_value(d@.subrange(0, i as int)),
            too_big ==> digits_value(d@.subrange(0, i as int)) > u64::MAX,
        decreases m - i,
    {
        let c = d.get_char(i);
        if c < '0' || c > '9' {
            assert(!is_digit(d@[i as int]));
            return None;
        }
        let ghost prefix = d@.subrange(0, i as int);
        assert(d@.subrange(0, i + 1).drop_last() =~= prefix);
        let digit = (c as u32 - '0' as u32) as u64;
        if !too_big {
            if value > (u64::MAX - digit) / 10 {
                too_big = true;
                assert(value * 10 + digit > u64::MAX) by (nonlinear_arith)
                    requires
                        value > (u64::MAX - digit) / 10,
                        digit <= 9,
                ;
            } else {
                assert(value * 10 + digit <= u64::MAX) by (nonlinear_arith)
                    requires
                        value <= (u64::MAX - digit) / 10,
                        digit <= 9,
                ;
                value = value * 10 + digit;
            }
        } else {
            assert(digits_value(prefix) * 10 + digit_value(c) >= digits_value(prefix))
                by (nonlinear_arith);
        }
        i = i + 1;
    }
    assert(d@.subrange(0, m as int) =~= d@);
    if too_big {
        None
    } else {
        Some(value)
    }
}

// ---------------------------------
// ----------- Routes --------------
// ---------------------------------

/// The handler that a request is dispatched to.
pub enum Route {
    /// `GET /`
    Index,
    /// `GET /api/orgs`
    Orgs,
    /// `GET /api/user/{id}`
    User(u64),
    /// `GET /api/exists/org/{name}`
    OrgExists(String),
    /// `GET /api/exists/user/{email}`
    UserExists(String),
    /// `GET /api/exists/linode/{name}`
    LinodeExists(String),
    /// `POST /api/create/org`
    CreateOrg,
    /// `POST /api/create/user`
    CreateUser,
    /// `POST /api/create/linode`
    CreateLinode,
    /// `GET /favicon.ico`
    Favicon,
    /// `GET /robots.txt`
    Robots,
    /// No pattern matched: static assets, else "not found".
    Fallback,
}

pub enum RouteView {
    Index,
    Orgs,
    User(u64),
    OrgExists(Seq<char>),
    UserExists(Seq<char>),
    LinodeExists(Seq<char>),
    CreateOrg,
    CreateUser,
    CreateLinode,
    Favicon,
    Robots,
    Fallback,
}

impl View for Route {
    type V = RouteView;

    open spec fn view(&self) -> RouteView {
        match self {
            Route::Index => RouteView::Index,
            Route::Orgs => RouteView::Orgs,
            Route::User(id) => RouteView::User(*id),
            Route::OrgExists(s) => RouteView::OrgExists(s@),
            Route::UserExists(s) => RouteView::UserExists(s@),
            Route::LinodeExists(s) => RouteView::LinodeExists(s@),
            Route::CreateOrg => RouteView::CreateOrg,
            Route::CreateUser => RouteView::CreateUser,
            Route::CreateLinode => RouteView::CreateLinode,
            Route::Favicon => RouteView::Favicon,
            Route::Robots => RouteView::Robots,
            Route::Fallback => RouteView::Fallback,
        }
    }
}

/// Whether decoded segments `segs` match `pattern` up to a final capture:
/// one more segment than the pattern, the first ones equal to it.
pub open spec fn matches_prefix(segs: Seq<Seq<char>>, pattern: Seq<Seq<char>>) -> bool {
    segs.len() == pattern.len() + 1 && segs.subrange(0, pattern.len() as int) == pattern
}

pub open spec fn user_pattern() -> Seq<Seq<char>> {
    seq![""@, "api"@, "user"@]
}

pub open spec fn exists_pattern(kind: Seq<char>) -> Seq<Seq<char>> {
    seq![""@, "api"@, "exists"@, kind]
}

/// The route of a request, from its method, its path (the URL before `?`) and
/// the percent-decoded `/`-separated segments of that path. Patterns are tried
/// in a fixed order; literal patterns compare the raw path, capture patterns
/// the decoded segments, and a numeric capture must parse.
pub open spec fn route_of(method: Seq<char>, path: Seq<char>, segs: Seq<Seq<char>>) -> RouteView {
    let get = method == "GET"@;
    let post = method == "POST"@;
    if get && path == "/"@ {
        RouteView::Index
    } else if get && path == "/api/orgs"@ {
        RouteView::Orgs
    } else if get && matches_prefix(segs, user_pattern()) && decimal_u64(segs.last()) is Some {
        RouteView::User(decimal_u64(segs.last())->0)
    } else if get && matches_prefix(segs, exists_pattern("org"@)) {
        RouteView::OrgExists(segs.last())
    } else if get && matches_prefix(segs, exists_pattern("user"@)) {
        RouteView::UserExists(segs.last())
    } else if get && matches_prefix(segs, exists_pattern("linode"@)) {
        RouteView::LinodeExists(segs.last())
    } else if post && path == "/api/create/org"@ {
        RouteView::CreateOrg
    } else if post && path == "/api/create/user"@ {
        RouteView::CreateUser
    } else if post && path == "/api/create/linode"@ {
        RouteView::CreateLinode
    } else if get && path == "/favicon.ico"@ {
        RouteView::Favicon
    } else if get && path == "/robots.txt"@ {
        RouteView::Robots
    } else {
        RouteView::Fallback
    }
}

pub open spec fn strings_view(v: Seq<String>) -> Seq<Seq<char>> {
    v.map_values(|x: String| x@)
}

/// Whether segment `i` of `segs` reads `lit`.
fn segment_is(segs: &Vec<String>, i: usize, lit: &str) -> (r: bool)
    requires
        i < segs@.len(),
    ensures
        r == (segs@[i as int]@ == lit@),
{
    same_text(segs[i].as_str(), lit)
}

/// Whether `segs` matches `pattern` (the literal segments `lits`) up to a final capture.
fn segments_match(segs: &Vec<String>, lits: &Vec<&str>) -> (r: bool)
    ensures
        r == matches_prefix(strings_view(segs@), texts_view(lits@)),
{
    if segs.len() == 0 || segs.len() - 1 != lits.len() {
        return false;
    }
    let n = lits.len();
    let mut i: usize = 0;
    while i < n
        invariant
            n == lits@.len(),
            segs@.len() == n + 1,
            0 <= i <= n,
            forall|j: int| 0 <= j < i ==> segs@[j]@ == lits@[j]@,
        decreases n - i,
    {
        if !segment_is(segs, i, lits[i]) {
            assert(strings_view(segs@).subrange(0, n as int)[i as int] != texts_view(lits@)[i as int]);
            return false;
        }
        i = i + 1;
    }
    assert(strings_view(segs@).subrange(0, n as int) =~= texts_view(lits@));
    true
}

/// The last segment of `segs`, which must not be empty.
fn last_segment(segs: &Vec<String>) -> (r: String)
    requires
        segs@.len() > 0,
    ensures
        r@ == strings_view(segs@).last(),
{
    segs[segs.len() - 1].clone()
}

/// Dispatches a request given its method, its path, and the decoded segments
/// of that path.
pub fn route_segments(method: &str, path: &str, segs: &Vec<String>) -> (r: Route)
    ensures
        r@ == route_of(method@, path@, strings_view(segs@)),
{
    let get = same_text(method, "GET");
    let post = same_text(method, "POST");
    let user_pat: Vec<&str> = vec!["", "api", "user"];
    let org_pat: Vec<&str> = vec!["", "api", "exists", "org"];
    let email_pat: Vec<&str> = vec!["", "api", "exists", "user"];
    let linode_pat: Vec<&str> = vec!["", "api", "exists", "linode"];
    assert(texts_view(user_pat@) =~= user_pattern());
    assert(texts_view(org_pat@) =~= exists_pattern("org"@));
    assert(texts_view(email_pat@) =~= exists_pattern("user"@));
    assert(texts_view(linode_pat@) =~= exists_pattern("linode"@));
    if get && same_text(path, "/") {
        return Route::Index;
    }
    if get && same_text(path, "/api/orgs") {
        return Route::Orgs;
    }
    if get && segments_match(segs, &user_pat) {
        match parse_u64(segs[segs.len() - 1].as_str()) {
            Some(id) => {
                return Route::User(id);
            },
            None => {},
        }
    }
    if get && segments_match(segs, &org_pat) {
        return Route::OrgExists(last_segment(segs));
    }
    if get && segments_match(segs, &email_pat) {
        return Route::UserExists(last_segment(segs));
    }
    if get && segments_match(segs, &linode_pat) {
        return Route::LinodeExists(last_segment(segs));
    }
    if post && same_text(path, "/api/create/org") {
        return Route::CreateOrg;
    }
    if post && same_text(path, "/api/create/user") {
        return Route::CreateUser;
    }
    if post && same_text(path, "/api/create/linode") {
        return Route::CreateLinode;
    }
    if get && same_text(path, "/favicon.ico") {
        return Route::Favicon;
    }
    if get && same_text(path, "/robots.txt") {
        return Route::Robots;
    }
    Route::Fallback
}

/// The decoded segments of `path`.
pub open spec fn decoded_segments(path: Seq<char>) -> Seq<Seq<char>> {
    split_slash(path).map_values(|seg: Seq<char>| percent_decoded(seg))
}

/// Dispatches a request given its method and raw URL.
pub fn route_request(method: &str, raw_url: &str) -> (r: Route)
    ensures
        r@ == route_of(method@, path_of(raw_url@), decoded_segments(path_of(raw_url@))),
{
    let path = strip_query(raw_url);
    let parts = split_path(path);
    let mut segs: Vec<String> = Vec::new();
    let mut i: usize = 0;
    while i < parts.len()
        invariant
            0 <= i <= parts@.len(),
            segs@.len() == i,
            forall|j: int| 0 <= j < i ==> (#[trigger] segs@[j])@ == percent_decoded(parts@[j]@),
        decreases parts.len() - i,
    {
        segs.push(decode_segment(parts[i]));
        i = i + 1;
    }
    assert(strings_view(segs@) =~= decoded_segments(path@));
    route_segments(method, path, &segs)
}

} // verus!
