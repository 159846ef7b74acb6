//! The JSON bodies sent to the API. The framing is written here; each string
//! value is encoded by `serde_json`.

use crate::credentials::string_views;
use vstd::prelude::*;

verus! {

/// The lowercase hexadecimal digit for `n < 16`.
pub open spec fn hex_digit(n: u32) -> char {
    seq!['0', '1', '2', '3', '4', '5', '6', '7', '8', '9', 'a', 'b', 'c', 'd', 'e', 'f'][n as int]
}

/// How one character is written inside a JSON string: quote and backslash
/// behind a backslash, the five common control characters by their short
/// escapes, the other control characters below 0x20 as `\u00` and two hex
/// digits, and every other character as it is.
pub open spec fn escape_char(c: char) -> Seq<char> {
    let u = c as u32;
    if c == '"' {
        seq!['\\', '"']
    } else if c == '\\' {
        seq!['\\', '\\']
    } else if u == 0x08 {
        seq!['\\', 'b']
    } else if u == 0x0c {
        seq!['\\', 'f']
    } else if c == '\n' {
        seq!['\\', 'n']
    } else if c == '\r' {
        seq!['\\', 'r']
    } else if c == '\t' {
        seq!['\\', 't']
    } else if u < 0x20 {
        seq!['\\', 'u', '0', '0', hex_digit(u / 16), hex_digit(u % 16)]
    } else {
        seq![c]
    }
}

/// The characters of `s`, each escaped.
pub open spec fn escaped(s: Seq<char>) -> Seq<char>
    decreases s.len(),
{
    if s.len() == 0 {
        Seq::empty()
    } else {
        escaped(s.drop_last()) + escape_char(s.last())
    }
}

/// The JSON string literal for `s`: its escaped characters between quotes.
pub open spec fn json_quoted(s: Seq<char>) -> Seq<char> {
    seq!['"'] + escaped(s) + seq!['"']
}

/// Relies on `serde_json::to_string` on a `str`: it writes the escaped
/// string between quotes into a `Vec<u8>`, which cannot fail.
#[verifier::external_body]
fn quote(s: &str) -> (r: Result<String, serde_json::Error>)
    ensures
        r is Ok,
        r is Ok ==> r->Ok_0@ == json_quoted(s@),
{
    serde_json::to_string(s)
}

/// The entries of `items`, each quoted, with commas between them.
pub open spec fn quoted_list(items: Seq<Seq<char>>) -> Seq<char>
    decreases items.len(),
{
    if items.len() == 0 {
        Seq::empty()
    } else if items.len() == 1 {
        json_quoted(items[0])
    } else {
        quoted_list(items.drop_last()) + ","@ + json_quoted(items.last())
    }
}

/// The body of a registration request: an empty object when no allow-list
/// is given, else an object whose one member `allowfrom` is the list.
pub open spec fn registration_json(allow_from: Option<Seq<Seq<char>>>) -> Seq<char> {
    match allow_from {
        None => "{}"@,
        Some(items) => "{\"allowfrom\":["@ + quoted_list(items) + "]}"@,
    }
}

/// The body of an update request: the subdomain and the TXT value.
pub open spec fn update_json(subdomain: Seq<char>, txt: Seq<char>) -> Seq<char> {
    "{\"subdomain\":"@ + json_quoted(subdomain) + ",\"txt\":"@ + json_quoted(txt) + "}"@
}

/// Encodes `s` as a JSON string literal.
fn quoted(s: &str) -> (r: String)
    ensures
        r@ == json_quoted(s@),
{
    match quote(s) {
        Ok(q) => q,
        Err(_) => String::new(),
    }
}

/// Writes the body of a registration request; `None` leaves the allow-list
/// out, so that the server applies its default.
pub fn registration_body(allow_from: Option<&[String]>) -> (r: String)
    ensures
        r@ == registration_json(
            match allow_from {
                Some(items) => Some(string_views(items@)),
                None => None,
            },
        ),
{
    match allow_from {
        None => String::from_str("{}"),
        Some(items) => {
            let mut out = String::from_str("{\"allowfrom\":[");
            let ghost head = out@;
            let mut i: usize = 0;
            proof {
                assert(string_views(items@.subrange(0, 0)) =~= Seq::<Seq<char>>::empty());
                assert(out@ =~= head + quoted_list(string_views(items@.subrange(0, 0))));
            }
            while i < items.len()
                invariant
                    i <= items@.len(),
                    head == "{\"allowfrom\":["@,
                    out@ == head + quoted_list(string_views(items@.subrange(0, i as int))),
                decreases items@.len() - i,
            {
                let ghost before = out@;
                let ghost views = string_views(items@.subrange(0, i + 1));
                proof {
                    assert(views.drop_last() =~= string_views(items@.subrange(0, i as int)));
                    assert(views.last() == items@[i as int]@);
                }
                if i > 0 {
                    out.append(",");
                }
                let q = quoted(items[i].as_str());
                out.append(q.as_str());
                proof {
                    if i == 0 {
                        assert(views.len() == 1);
                        assert(quoted_list(views) == json_quoted(views[0]));
                        assert(out@ =~= head + quoted_list(views));
                    } else {
                        assert(out@ =~= head + quoted_list(views));
                    }
                }
                i = i + 1;
            }
            proof {
                assert(items@.subrange(0, items@.len() as int) =~= items@);
            }
            out.append("]}");
            proof {
                assert(out@ =~= "{\"allowfrom\":["@ + quoted_list(string_views(items@))
                    + "]}"@);
            }
            out
        },
    }
}

/// Writes the body of an update request.
pub fn update_body(subdomain: &str, txt: &str) -> (r: String)
    ensures
        r@ == update_json(subdomain@, txt@),
{
    let mut out = String::from_str("{\"subdomain\":");
    let a = quoted(subdomain);
    out.append(a.as_str());
    out.append(",\"txt\":");
    let b = quoted(txt);
    out.append(b.as_str());
    out.append("}");
    proof {
        assert(out@ =~= update_json(subdomain@, txt@));
    }
    out
}

} // verus!
