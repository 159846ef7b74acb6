//! Credentials issued by an acme-dns server, and the rules for rebuilding
//! them from named configuration values.

use crate::error::Error;
use vstd::prelude::*;

verus! {

/// Names the username of the credentials.
pub const USERNAME_VAR: &'static str = "ACME_DNS_USERNAME";

/// Names the password of the credentials.
pub const PASSWORD_VAR: &'static str = "ACME_DNS_PASSWORD";

/// Names the subdomain of the credentials.
pub const SUBDOMAIN_VAR: &'static str = "ACME_DNS_SUBDOMAIN";

/// Names the full domain of the credentials.
pub const FULLDOMAIN_VAR: &'static str = "ACME_DNS_FULLDOMAIN";

/// Names the optional comma-separated allow-list of the credentials.
pub const ALLOWFROM_VAR: &'static str = "ACME_DNS_ALLOWFROM";

/// Credentials returned by registration and required for updates.
#[derive(Debug, Clone)]
pub struct Credentials {
    pub username: String,
    pub password: String,
    pub subdomain: String,
    pub fulldomain: String,
    /// CIDR ranges allowed to update the record; may be empty.
    pub allowfrom: Vec<String>,
}

/// Whether `r` is the failure that reports the variable `name` as unset.
pub open spec fn is_missing(r: Result<Credentials, Error>, name: &str) -> bool {
    r matches Err(Error::MissingEnv(n)) && n@ == name@
}

/// Whether a required variable has a usable value: set, and not empty.
pub open spec fn is_given(v: Option<String>) -> bool {
    v is Some && v->0@.len() > 0
}

/// Whether the four required fields are non-empty, as they are in every
/// credentials value that the server issues.
pub open spec fn required_fields_filled(c: Credentials) -> bool {
    &&& c.username@.len() > 0
    &&& c.password@.len() > 0
    &&& c.subdomain@.len() > 0
    &&& c.fulldomain@.len() > 0
}

/// The value of the required variable `name`, or the error that reports it
/// missing when it is unset or empty.
fn required(v: Option<String>, name: &'static str) -> (r: Result<String, Error>)
    ensures
        is_given(v) ==> r is Ok && r->Ok_0 == v->0,
        !is_given(v) ==> (r matches Err(Error::MissingEnv(n)) && n@ == name@),
{
    match v {
        Some(s) => {
            if s.as_str().is_empty() {
                Err(Error::MissingEnv(name))
            } else {
                Ok(s)
            }
        },
        None => Err(Error::MissingEnv(name)),
    }
}

impl Credentials {
    /// Builds credentials from the values of the named configuration
    /// variables, `None` standing for one that is unset. The four required
    /// ones are checked in the order username, password, subdomain, full
    /// domain, and the first one that is unset or empty is reported; an
    /// unset allow-list is an empty one.
    pub fn from_env_values(
        username: Option<String>,
        password: Option<String>,
        subdomain: Option<String>,
        fulldomain: Option<String>,
        allowfrom: Option<String>,
    ) -> (r: Result<Credentials, Error>)
        ensures
            !is_given(username) ==> is_missing(r, USERNAME_VAR),
            is_given(username) && !is_given(password) ==> is_missing(r, PASSWORD_VAR),
            is_given(username) && is_given(password) && !is_given(subdomain) ==> is_missing(
                r,
                SUBDOMAIN_VAR,
            ),
            is_given(username) && is_given(password) && is_given(subdomain) && !is_given(
                fulldomain,
            ) ==> is_missing(r, FULLDOMAIN_VAR),
            r is Ok <==> (is_given(username) && is_given(password) && is_given(subdomain)
                && is_given(fulldomain)),
            r is Ok ==> {
                let c = r->Ok_0;
                &&& c.username == username->0
                &&& c.password == password->0
                &&& c.subdomain == subdomain->0
                &&& c.fulldomain == fulldomain->0
                &&& required_fields_filled(c)
                &&& string_views(c.allowfrom@) == match allowfrom {
                    Some(text) => allow_list(text@),
                    None => Seq::empty(),
                }
            },
    {
        let username = required(username, USERNAME_VAR)?;
        let password = required(password, PASSWORD_VAR)?;
        let subdomain = required(subdomain, SUBDOMAIN_VAR)?;
        let fulldomain = required(fulldomain, FULLDOMAIN_VAR)?;
        let allowfrom = match allowfrom {
            Some(text) => parse_allow_list(text.as_str()),
            None => {
                let empty: Vec<String> = Vec::new();
                proof {
                    assert(string_views(empty@) =~= Seq::<Seq<char>>::empty());
                }
                empty
            },
        };
        Ok(Credentials { username, password, subdomain, fulldomain, allowfrom })
    }
}

/// Whether `c` carries the Unicode `White_Space` property, the set that
/// `char::is_whitespace` tests.
pub open spec fn is_space(c: char) -> bool {
    let u = c as u32;
    (0x09 <= u && u <= 0x0d) || u == 0x20 || u == 0x85 || u == 0xa0 || u == 0x1680 || (0x2000
        <= u && u <= 0x200a) || u == 0x2028 || u == 0x2029 || u == 0x202f || u == 0x205f || u
        == 0x3000
}

/// `s` without its leading whitespace.
pub open spec fn trim_start(s: Seq<char>) -> Seq<char>
    decreases s.len(),
{
    if s.len() > 0 && is_space(s[0]) {
        trim_start(s.drop_first())
    } else {
        s
    }
}

/// `s` without its trailing whitespace.
pub open spec fn trim_end(s: Seq<char>) -> Seq<char>
    decreases s.len(),
{
    if s.len() > 0 && is_space(s.last()) {
        trim_end(s.drop_last())
    } else {
        s
    }
}

/// `s` without surrounding whitespace.
pub open spec fn trim(s: Seq<char>) -> Seq<char> {
    trim_end(trim_start(s))
}

/// The pieces of `s` between commas, in order; `n` commas give `n + 1`
/// pieces, some of which may be empty.
pub open spec fn split_commas(s: Seq<char>) -> Seq<Seq<char>>
    decreases s.len(),
{
    if s.len() == 0 {
        seq![Seq::<char>::empty()]
    } else {
        let prev = split_commas(s.drop_last());
        if s.last() == ',' {
            prev.push(Seq::<char>::empty())
        } else {
            prev.update(prev.len() - 1, prev.last().push(s.last()))
        }
    }
}

/// The allow-list written as `s`: the comma-separated pieces, each trimmed,
/// the empty ones left out, in their order.
pub open spec fn allow_list(s: Seq<char>) -> Seq<Seq<char>> {
    non_empty(trim_each(split_commas(s)))
}

/// Each piece trimmed.
pub open spec fn trim_each(pieces: Seq<Seq<char>>) -> Seq<Seq<char>> {
    pieces.map_values(|p: Seq<char>| trim(p))
}

/// The non-empty entries of `entries`, in order.
pub open spec fn non_empty(entries: Seq<Seq<char>>) -> Seq<Seq<char>> {
    entries.filter(|t: Seq<char>| t.len() > 0)
}

/// The character sequences held by a sequence of strings.
pub open spec fn string_views(v: Seq<String>) -> Seq<Seq<char>> {
    v.map_values(|s: String| s@)
}

proof fn lemma_push_piece(pieces: Seq<Seq<char>>, p: Seq<char>)
    ensures
        non_empty(trim_each(pieces.push(p))) == if trim(p).len() > 0 {
            non_empty(trim_each(pieces)).push(trim(p))
        } else {
            non_empty(trim_each(pieces))
        },
{
    assert(trim_each(pieces.push(p)) =~= trim_each(pieces).push(trim(p)));
    reveal(Seq::filter);
    assert(trim_each(pieces).push(trim(p)).drop_last() =~= trim_each(pieces));
}

proof fn lemma_split_nonempty(s: Seq<char>)
    ensures
        split_commas(s).len() >= 1,
    decreases s.len(),
{
    if s.len() > 0 {
        lemma_split_nonempty(s.drop_last());
    }
}

proof fn lemma_split_no_commas(s: Seq<char>)
    ensures
        forall|j: int, i: int|
            0 <= j < split_commas(s).len() && 0 <= i < split_commas(s)[j].len() ==> #[trigger] split_commas(s)[j][i] != ',',
    decreases s.len(),
{
    if s.len() > 0 {
        lemma_split_no_commas(s.drop_last());
        lemma_split_nonempty(s.drop_last());
        let prev = split_commas(s.drop_last());
        if s.last() != ',' {
            assert forall|j: int, i: int|
                0 <= j < split_commas(s).len() && 0 <= i < split_commas(s)[j].len() implies #[trigger] split_commas(s)[j][i] != ',' by {
                if j < prev.len() - 1 {
                    assert(split_commas(s)[j] == prev[j]);
                } else {
                    assert(split_commas(s)[j] == prev.last().push(s.last()));
                    if i < prev.last().len() {
                        assert(prev.last() == prev[prev.len() - 1]);
                    }
                }
            }
        } else {
            assert forall|j: int, i: int|
                0 <= j < split_commas(s).len() && 0 <= i < split_commas(s)[j].len() implies #[trigger] split_commas(s)[j][i] != ',' by {
                if j < prev.len() {
                    assert(split_commas(s)[j] == prev[j]);
                }
            }
        }
    }
}

proof fn lemma_trim_start(s: Seq<char>)
    ensures
        trim_start(s).len() <= s.len(),
        trim_start(s) =~= s.subrange(s.len() - trim_start(s).len(), s.len() as int),
        trim_start(s).len() > 0 ==> !is_space(trim_start(s)[0]),
    decreases s.len(),
{
    if s.len() > 0 && is_space(s[0]) {
        lemma_trim_start(s.drop_first());
    }
}

proof fn lemma_trim_end(s: Seq<char>)
    ensures
        trim_end(s).len() <= s.len(),
        trim_end(s) =~= s.subrange(0, trim_end(s).len() as int),
        trim_end(s).len() > 0 ==> !is_space(trim_end(s).last()),
    decreases s.len(),
{
    if s.len() > 0 && is_space(s.last()) {
        lemma_trim_end(s.drop_last());
    }
}

/// Every entry of an allow-list read from text is non-empty, holds no comma,
/// and neither starts nor ends with whitespace.
pub proof fn allow_list_entries_are_clean(s: Seq<char>)
    ensures
        forall|k: int| 0 <= k < allow_list(s).len() ==> is_clean_entry(#[trigger] allow_list(s)[k]),
{
    let pieces = split_commas(s);
    let trimmed = trim_each(pieces);
    let pred = |t: Seq<char>| t.len() > 0;
    lemma_split_no_commas(s);
    assert forall|k: int| 0 <= k < allow_list(s).len() implies {
        let e = #[trigger] allow_list(s)[k];
        &&& e.len() > 0
        &&& forall|i: int| 0 <= i < e.len() ==> e[i] != ','
        &&& !is_space(e[0])
        &&& !is_space(e.last())
    } by {
        let e = allow_list(s)[k];
        assert(allow_list(s) == trimmed.filter(pred));
        trimmed.lemma_filter_pred(pred, k);
        assert(trimmed.filter(pred).contains(e));
        trimmed.lemma_filter_contains_rev(pred, e);
        let j = choose|j: int| 0 <= j < trimmed.len() && trimmed[j] == e;
        let p = pieces[j];
        assert(e == trim(p));
        lemma_trim_start(p);
        let t = trim_start(p);
        lemma_trim_end(t);
        assert(e == trim_end(t));
        assert forall|i: int| 0 <= i < e.len() implies e[i] != ',' by {
            assert(e[i] == t[i]);
            assert(t[i] == p[p.len() - t.len() + i]);
            assert(split_commas(s)[j][p.len() - t.len() + i] != ',');
        }
        assert(e[0] == t[0]);
    }
}

/// Whether `e` can stand as an entry of an allow-list as read from text:
/// non-empty, without commas, and without surrounding whitespace.
pub open spec fn is_clean_entry(e: Seq<char>) -> bool {
    &&& e.len() > 0
    &&& forall|i: int| 0 <= i < e.len() ==> e[i] != ','
    &&& !is_space(e[0])
    &&& !is_space(e.last())
}

/// The entries of `es` written with commas between them.
pub open spec fn comma_join(es: Seq<Seq<char>>) -> Seq<char>
    decreases es.len(),
{
    if es.len() == 0 {
        Seq::empty()
    } else if es.len() == 1 {
        es[0]
    } else {
        comma_join(es.drop_last()) + seq![','] + es.last()
    }
}

proof fn lemma_split_append(a: Seq<char>, b: Seq<char>)
    requires
        forall|i: int| 0 <= i < b.len() ==> b[i] != ',',
    ensures
        split_commas(a + b) == split_commas(a).update(
            split_commas(a).len() - 1,
            split_commas(a).last() + b,
        ),
    decreases b.len(),
{
    lemma_split_nonempty(a);
    if b.len() == 0 {
        assert(a + b =~= a);
        assert(split_commas(a).last() + b =~= split_commas(a).last());
        assert(split_commas(a).update(split_commas(a).len() - 1, split_commas(a).last())
            =~= split_commas(a));
    } else {
        let b0 = b.drop_last();
        assert((a + b).drop_last() =~= a + b0);
        assert((a + b).last() == b.last());
        lemma_split_append(a, b0);
        assert((split_commas(a).last() + b0).push(b.last()) =~= split_commas(a).last() + b);
        assert(split_commas(a + b) =~= split_commas(a).update(
            split_commas(a).len() - 1,
            split_commas(a).last() + b,
        ));
    }
}

proof fn lemma_split_join(es: Seq<Seq<char>>)
    requires
        es.len() >= 1,
        forall|k: int| 0 <= k < es.len() ==> is_clean_entry(#[trigger] es[k]),
    ensures
        split_commas(comma_join(es)) == es,
    decreases es.len(),
{
    if es.len() == 1 {
        let e = es[0];
        lemma_split_append(Seq::empty(), e);
        assert(Seq::<char>::empty() + e =~= e);
        assert(split_commas(Seq::<char>::empty()) == seq![Seq::<char>::empty()]);
        assert(Seq::<char>::empty() + e =~= e);
        assert(split_commas(e) =~= es);
    } else {
        let init = es.drop_last();
        let a = comma_join(init) + seq![','];
        lemma_split_join(init);
        assert(a.drop_last() =~= comma_join(init));
        lemma_split_append(a, es.last());
        assert(Seq::<char>::empty() + es.last() =~= es.last());
        assert(split_commas(comma_join(es)) =~= es);
    }
}

proof fn lemma_filter_keeps_non_empty(es: Seq<Seq<char>>)
    requires
        forall|k: int| 0 <= k < es.len() ==> (#[trigger] es[k]).len() > 0,
    ensures
        non_empty(es) == es,
    decreases es.len(),
{
    reveal(Seq::filter);
    if es.len() > 0 {
        lemma_filter_keeps_non_empty(es.drop_last());
        assert(es.drop_last().push(es.last()) =~= es);
    }
}

/// Reading back the comma-join of clean entries gives the entries.
pub proof fn allow_list_of_comma_join(es: Seq<Seq<char>>)
    requires
        forall|k: int| 0 <= k < es.len() ==> is_clean_entry(#[trigger] es[k]),
    ensures
        allow_list(comma_join(es)) == es,
{
    if es.len() == 0 {
        let none = Seq::<char>::empty();
        reveal(Seq::filter);
        assert(comma_join(es) == none);
        assert(split_commas(none) == seq![none]);
        assert(trim(none) == none);
        assert(trim_each(seq![none]) =~= seq![none]);
        let single = seq![none];
        assert(single.drop_last() =~= Seq::<Seq<char>>::empty());
        assert(single.drop_last().filter(|t: Seq<char>| t.len() > 0) =~= Seq::<Seq<char>>::empty());
        assert(non_empty(single) =~= Seq::<Seq<char>>::empty());
        assert(allow_list(comma_join(es)) =~= es);
    } else {
        lemma_split_join(es);
        assert forall|k: int| 0 <= k < es.len() implies trim(#[trigger] es[k]) == es[k] by {
            assert(trim_start(es[k]) == es[k]);
            assert(trim_end(es[k]) == es[k]);
        }
        assert(trim_each(es) =~= es);
        lemma_filter_keeps_non_empty(es);
    }
}

fn is_space_char(c: char) -> (r: bool)
    ensures
        r == is_space(c),
{
    let u = c as u32;
    (0x09 <= u && u <= 0x0d) || u == 0x20 || u == 0x85 || u == 0xa0 || u == 0x1680 || (0x2000
        <= u && u <= 0x200a) || u == 0x2028 || u == 0x2029 || u == 0x202f || u == 0x205f || u
        == 0x3000
}

/// The characters of `text` from `from` to `to`, without surrounding
/// whitespace.
fn trimmed_piece(text: &str, from: usize, to: usize) -> (r: String)
    requires
        from <= to <= text@.len(),
    ensures
        r@ == trim(text@.subrange(from as int, to as int)),
{
    let ghost s = text@;
    let mut a: usize = from;
    while a < to && is_space_char(text.get_char(a))
        invariant
            from <= a <= to <= s.len(),
            s == text@,
            trim_start(s.subrange(from as int, to as int)) == trim_start(
                s.subrange(a as int, to as int),
            ),
        decreases to - a,
    {
        assert(s.subrange(a as int, to as int).drop_first() =~= s.subrange(
            a + 1,
            to as int,
        ));
        a = a + 1;
    }
    assert(trim_start(s.subrange(a as int, to as int)) == s.subrange(a as int, to as int));
    let mut b: usize = to;
    while b > a && is_space_char(text.get_char(b - 1))
        invariant
            from <= a <= b <= to <= s.len(),
            s == text@,
            trim_end(s.subrange(a as int, to as int)) == trim_end(s.subrange(a as int, b as int)),
        decreases b - a,
    {
        assert(s.subrange(a as int, b as int).drop_last() =~= s.subrange(a as int, b - 1));
        b = b - 1;
    }
    assert(trim_end(s.subrange(a as int, b as int)) == s.subrange(a as int, b as int));
    String::from_str(text.substring_char(a, b))
}

/// Reads an allow-list written as comma-separated entries: each entry is
/// trimmed of surrounding whitespace, empty entries are dropped, and the
/// order is kept.
pub fn parse_allow_list(text: &str) -> (r: Vec<String>)
    ensures
        string_views(r@) == allow_list(text@),
{
    let ghost s = text@;
    let n = text.unicode_len();
    let mut out: Vec<String> = Vec::new();
    let mut start: usize = 0;
    let mut i: usize = 0;
    let ghost mut done: Seq<Seq<char>> = Seq::empty();
    proof {
        assert(s.subrange(0, 0) =~= Seq::<char>::empty());
        assert(split_commas(s.subrange(0, 0)) =~= done.push(s.subrange(0, 0)));
        reveal(Seq::filter);
        assert(trim_each(done) =~= Seq::<Seq<char>>::empty());
        assert(string_views(out@) =~= non_empty(trim_each(done)));
    }
    while i < n
        invariant
            n == s.len(),
            s == text@,
            start <= i <= n,
            split_commas(s.subrange(0, i as int)) == done.push(s.subrange(start as int, i as int)),
            string_views(out@) == non_empty(trim_each(done)),
        decreases n - i,
    {
        let c = text.get_char(i);
        proof {
            assert(s.subrange(0, i + 1).drop_last() =~= s.subrange(0, i as int));
            assert(s.subrange(0, i + 1).last() == c);
        }
        if c == ',' {
            let piece = trimmed_piece(text, start, i);
            proof {
                lemma_push_piece(done, s.subrange(start as int, i as int));
            }
            if piece.unicode_len() > 0 {
                out.push(piece);
            }
            proof {
                let cur = s.subrange(start as int, i as int);
                assert(string_views(out@) =~= non_empty(trim_each(done.push(cur))));
                done = done.push(cur);
                assert(s.subrange(i + 1, i + 1) =~= Seq::<char>::empty());
                assert(split_commas(s.subrange(0, i + 1)) =~= done.push(
                    s.subrange(i + 1, i + 1),
                ));
            }
            start = i + 1;
        } else {
            proof {
                let prev = split_commas(s.subrange(0, i as int));
                assert(prev.len() - 1 == done.len());
                assert(s.subrange(start as int, i as int).push(c) =~= s.subrange(
                    start as int,
                    i + 1,
                ));
                assert(split_commas(s.subrange(0, i + 1)) =~= done.push(
                    s.subrange(start as int, i + 1),
                ));
            }
        }
        i = i + 1;
    }
    let last = trimmed_piece(text, start, n);
    proof {
        let cur = s.subrange(start as int, n as int);
        assert(s.subrange(0, n as int) =~= s);
        lemma_push_piece(done, cur);
    }
    if last.unicode_len() > 0 {
        out.push(last);
    }
    proof {
        let cur = s.subrange(start as int, n as int);
        assert(string_views(out@) =~= non_empty(trim_each(done.push(cur))));
    }
    out
}

} // verus!
