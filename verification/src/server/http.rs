//! Which answer a request gets.

use crate::text;
use vstd::prelude::*;

verus! {

/// The method of a request.
#[derive(Clone, Copy, Debug, PartialEq, Eq, Structural)]
pub enum Method {
    Get,
    Options,
    Other,
}

/// What a request asks for.
#[derive(Debug)]
pub enum Route {
    /// A preflight, answered without a body.
    Preflight,
    /// Only reading is served.
    MethodNotAllowed,
    Nearest,
    Picture,
    Meta,
    /// One flight, by address.
    Flight(String),
    NotFound,
}

/// The part of an address before its query.
pub open spec fn path_of(url: Seq<char>) -> Seq<char>
    decreases url.len(),
{
    if url.len() == 0 || url[0] == '?' {
        Seq::empty()
    } else {
        seq![url[0]] + path_of(url.drop_first())
    }
}

/// Whether `s` begins with `prefix`.
pub open spec fn begins_with(s: Seq<char>, prefix: Seq<char>) -> bool {
    s.len() >= prefix.len() && s.take(prefix.len() as int) == prefix
}

/// The part of an address before its query.
pub fn path(url: &str) -> (r: String)
    ensures
        r@ == path_of(url@),
{
    let v = text::chars_of(url);
    let mut i: usize = 0;
    assert(v@.skip(0) =~= v@);
    while i < v.len() && v[i] != '?'
        invariant
            i <= v.len(),
            v@ == url@,
            path_of(url@) == v@.take(i as int) + path_of(v@.skip(i as int)),
        decreases v.len() - i,
    {
        proof {
            let rest = v@.skip(i as int);
            assert(rest.drop_first() =~= v@.skip(i + 1));
            assert(v@.take(i as int) + (seq![rest[0]] + path_of(rest.drop_first())) =~= v@.take(
                i + 1,
            ) + path_of(v@.skip(i + 1)));
        }
        i = i + 1;
    }
    assert(path_of(url@) =~= v@.subrange(0, i as int));
    text::text_of(&v, 0, i)
}

/// `s` without `prefix` in front, where it has it.
pub fn strip_prefix(s: &str, prefix: &str) -> (r: Option<String>)
    ensures
        r is Some <==> begins_with(s@, prefix@),
        r is Some ==> r->0@ == s@.skip(prefix@.len() as int),
{
    let v = text::chars_of(s);
    let p = text::chars_of(prefix);
    if v.len() < p.len() {
        return None;
    }
    let mut i: usize = 0;
    while i < p.len()
        invariant
            i <= p.len() <= v.len(),
            v@ == s@,
            p@ == prefix@,
            forall|k: int| 0 <= k < i ==> #[trigger] v@[k] == p@[k],
        decreases p.len() - i,
    {
        if v[i] != p[i] {
            assert(s@.take(prefix@.len() as int)[i as int] != prefix@[i as int]);
            return None;
        }
        i = i + 1;
    }
    assert(s@.take(prefix@.len() as int) =~= prefix@);
    assert(s@.skip(prefix@.len() as int) =~= v@.subrange(p.len() as int, v.len() as int));
    Some(text::text_of(&v, p.len(), v.len()))
}

/// What a request asks for, by its method and address; the query does not count.
pub fn route(method: Method, url: &str) -> (r: Route)
    ensures
        r is Preflight <==> method == Method::Options,
        r is MethodNotAllowed <==> method == Method::Other,
        r is Nearest <==> method == Method::Get && path_of(url@) == "/nearest"@,
        r is Picture <==> method == Method::Get && path_of(url@) == "/picture"@,
        r is Meta <==> method == Method::Get && path_of(url@) == "/meta"@,
        r is Flight <==> method == Method::Get && begins_with(path_of(url@), "/flight/"@),
        r is Flight ==> r->Flight_0@ == path_of(url@).skip("/flight/"@.len() as int),
{
    proof {
        reveal_strlit("/nearest");
        reveal_strlit("/picture");
        reveal_strlit("/meta");
        reveal_strlit("/flight/");
        assert("/nearest"@[1] == 'n' && "/picture"@[1] == 'p' && "/meta"@[1] == 'm' && "/flight/"@[1]
            == 'f');
        let p = path_of(url@);
        assert(begins_with(p, "/flight/"@) ==> p[1] == 'f') by {
            if begins_with(p, "/flight/"@) {
                assert(p[1] == p.take(8)[1]);
            }
        }
    }
    if method == Method::Options {
        return Route::Preflight;
    }
    if method != Method::Get {
        return Route::MethodNotAllowed;
    }
    let p = path(url);
    if text::same(p.as_str(), "/nearest") {
        Route::Nearest
    } else if text::same(p.as_str(), "/picture") {
        Route::Picture
    } else if text::same(p.as_str(), "/meta") {
        Route::Meta
    } else {
        match strip_prefix(p.as_str(), "/flight/") {
            Some(hex) => Route::Flight(hex),
            None => Route::NotFound,
        }
    }
}

/// The status of the answer, and the error it carries in place of what was asked for;
/// `found` says whether the flight that was asked for is held.
pub fn status_of(route: &Route, found: bool) -> (r: (u16, Option<String>))
    ensures
        r.0 == (match *route {
            Route::Preflight => 204u16,
            Route::MethodNotAllowed => 405u16,
            Route::NotFound => 404u16,
            Route::Flight(_) => if found {
                200u16
            } else {
                404u16
            },
            _ => 200u16,
        }),
        text::opt(r.1) == (match *route {
            Route::MethodNotAllowed => Some("method not allowed"@),
            Route::NotFound => Some("not found"@),
            Route::Flight(_) => if found {
                None
            } else {
                Some("flight not in the area"@)
            },
            _ => None,
        }),
{
    match route {
        Route::Preflight => (204, None),
        Route::MethodNotAllowed => (405, Some("method not allowed".to_owned())),
        Route::NotFound => (404, Some("not found".to_owned())),
        Route::Flight(_) => if found {
            (200, None)
        } else {
            (404, Some("flight not in the area".to_owned()))
        },
        _ => (200, None),
    }
}

/// A JSON object with one text under one key, as `serde_json` writes it.
pub uninterp spec fn json_object(key: Seq<char>, value: Seq<char>) -> Seq<char>;

/// `serde_json::Value`'s `Display` on an object with one text under one key: its compact form.
/// How characters are escaped is left unsaid; the result depends on the two texts alone.
#[verifier::external_body]
fn object_text(key: &str, value: &str) -> (r: String)
    ensures
        r@ == json_object(key@, value@),
{
    let mut object = serde_json::Map::new();
    object.insert(key.to_owned(), serde_json::Value::String(value.to_owned()));
    serde_json::Value::Object(object).to_string()
}

/// The body of an answer that carries an error in place of what was asked for.
pub fn error_body(message: &str) -> (r: String)
    ensures
        r@ == json_object("error"@, message@),
{
    object_text("error", message)
}

/// The texts of headers.
pub open spec fn headers_text(headers: Seq<(String, String)>) -> Seq<(Seq<char>, Seq<char>)> {
    Seq::new(headers.len(), |i: int| (headers[i].0@, headers[i].1@))
}

/// The headers of an answer: the type of its body where it has one, and the allowed origin
/// where one is configured, with what a preflight adds.
pub open spec fn headers_of(preflight: bool, cors: Option<Seq<char>>) -> Seq<
    (Seq<char>, Seq<char>),
> {
    let body = if preflight {
        Seq::empty()
    } else {
        seq![("Content-Type"@, "application/json; charset=utf-8"@)]
    };
    let origin = match cors {
        Some(o) => seq![("Access-Control-Allow-Origin"@, o)],
        None => Seq::empty(),
    };
    let methods = if preflight && cors is Some {
        seq![
            ("Access-Control-Allow-Methods"@, "GET, OPTIONS"@),
            ("Access-Control-Allow-Headers"@, "*"@),
        ]
    } else {
        Seq::empty()
    };
    body + origin + methods
}

/// The headers of an answer.
pub fn headers(preflight: bool, cors: &Option<String>) -> (r: Vec<(String, String)>)
    ensures
        headers_text(r@) == headers_of(preflight, text::opt(*cors)),
{
    let mut h: Vec<(String, String)> = Vec::new();
    if !preflight {
        h.push(("Content-Type".to_owned(), "application/json; charset=utf-8".to_owned()));
    }
    match cors {
        Some(o) => {
            h.push(("Access-Control-Allow-Origin".to_owned(), o.clone()));
            if preflight {
                h.push(("Access-Control-Allow-Methods".to_owned(), "GET, OPTIONS".to_owned()));
                h.push(("Access-Control-Allow-Headers".to_owned(), "*".to_owned()));
            }
        },
        None => {},
    }
    assert(headers_text(h@) =~= headers_of(preflight, text::opt(*cors)));
    h
}

/// Without a configured origin no answer names one: a page of another origin cannot read it.
pub proof fn law_no_origin_no_cors_header(preflight: bool, i: int)
    requires
        0 <= i < headers_of(preflight, None).len(),
    ensures
        headers_of(preflight, None)[i].0 != "Access-Control-Allow-Origin"@,
{
    reveal_strlit("Access-Control-Allow-Origin");
    reveal_strlit("Content-Type");
    assert(headers_of(preflight, None)[i].0 == "Content-Type"@);
    assert("Content-Type"@[0] != "Access-Control-Allow-Origin"@[0]);
}

/// The path ends at the query: it holds no question mark, what follows it begins with one or is
/// nothing, and the two make the address.
pub proof fn law_path_ends_at_the_query(url: Seq<char>)
    ensures
        path_of(url).len() <= url.len(),
        path_of(url) == url.take(path_of(url).len() as int),
        forall|i: int| 0 <= i < path_of(url).len() ==> #[trigger] path_of(url)[i] != '?',
        path_of(url).len() < url.len() ==> url[path_of(url).len() as int] == '?',
    decreases url.len(),
{
    if url.len() == 0 || url[0] == '?' {
        assert(path_of(url) =~= url.take(0));
    } else {
        let rest = url.drop_first();
        law_path_ends_at_the_query(rest);
        let p = path_of(url);
        assert(p =~= url.take(p.len() as int)) by {
            assert forall|i: int| 0 <= i < p.len() implies p[i] == url[i] by {
                if i > 0 {
                    assert(path_of(rest)[i - 1] == rest.take(path_of(rest).len() as int)[i - 1]);
                }
            }
        }
        assert forall|i: int| 0 <= i < p.len() implies #[trigger] p[i] != '?' by {
            if i > 0 {
                assert(p[i] == path_of(rest)[i - 1]);
            }
        }
        if p.len() < url.len() {
            assert(url[p.len() as int] == rest[path_of(rest).len() as int]);
        }
    }
}

/// A text begins with another exactly where it is that one and something behind it.
pub proof fn law_beginning_with_a_prefix(s: Seq<char>, prefix: Seq<char>, rest: Seq<char>)
    ensures
        begins_with(prefix + rest, prefix),
        (prefix + rest).skip(prefix.len() as int) == rest,
        begins_with(s, prefix) ==> s == prefix + s.skip(prefix.len() as int),
{
    assert((prefix + rest).take(prefix.len() as int) =~= prefix);
    assert((prefix + rest).skip(prefix.len() as int) =~= rest);
    if begins_with(s, prefix) {
        assert(s =~= s.take(prefix.len() as int) + s.skip(prefix.len() as int));
    }
}

/// An answer with a body says that it is JSON, a preflight has none; a configured origin goes
/// out with every answer, and what a page may do goes out with a preflight.
pub proof fn law_headers_say_what_the_answer_is(origin: Seq<char>)
    ensures
        headers_of(false, None) == seq![("Content-Type"@, "application/json; charset=utf-8"@)],
        headers_of(true, None).len() == 0,
        headers_of(false, Some(origin)) == seq![
            ("Content-Type"@, "application/json; charset=utf-8"@),
            ("Access-Control-Allow-Origin"@, origin),
        ],
        headers_of(true, Some(origin)) == seq![
            ("Access-Control-Allow-Origin"@, origin),
            ("Access-Control-Allow-Methods"@, "GET, OPTIONS"@),
            ("Access-Control-Allow-Headers"@, "*"@),
        ],
{
    assert(headers_of(false, None) =~= seq![
        ("Content-Type"@, "application/json; charset=utf-8"@),
    ]);
    assert(headers_of(false, Some(origin)) =~= seq![
        ("Content-Type"@, "application/json; charset=utf-8"@),
        ("Access-Control-Allow-Origin"@, origin),
    ]);
    assert(headers_of(true, Some(origin)) =~= seq![
        ("Access-Control-Allow-Origin"@, origin),
        ("Access-Control-Allow-Methods"@, "GET, OPTIONS"@),
        ("Access-Control-Allow-Headers"@, "*"@),
    ]);
}

/// A header shows its name and then its value, in their order.
pub proof fn law_headers_show_name_and_value(headers: Seq<(String, String)>, i: int)
    requires
        0 <= i < headers.len(),
    ensures
        headers_text(headers).len() == headers.len(),
        headers_text(headers)[i].0 == headers[i].0@,
        headers_text(headers)[i].1 == headers[i].1@,
{
}

} // verus!
