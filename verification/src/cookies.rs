//! The cookie model: a cookie is the name/value pair that the jar persists,
//! and a jar is a sequence of such pairs with pairwise-distinct names. An
//! upsert replaces the cookie of the same name in place, or appends a new
//! one at the end; serialization joins `name=value` pairs with `"; "` in
//! jar iteration order.

use crate::errors::HarnessError;
use crate::wire::push_str;
use crate::wire::str_eq;
use vstd::prelude::*;

verus! {

/// One cookie, reduced to what the jar persists: its name and its value.
/// Attributes of a parsed `Set-Cookie` header are not kept.
#[derive(Debug)]
pub struct Cookie {
    pub name: String,
    pub value: String,
}

impl View for Cookie {
    type V = (Seq<char>, Seq<char>);

    open spec fn view(&self) -> (Seq<char>, Seq<char>) {
        (self.name@, self.value@)
    }
}

impl Clone for Cookie {
    fn clone(&self) -> (r: Self)
        ensures
            r@ == self@,
    {
        Cookie { name: self.name.clone(), value: self.value.clone() }
    }
}

impl Cookie {
    pub fn new(name: String, value: String) -> (r: Cookie)
        ensures
            r@ == (name@, value@),
    {
        Cookie { name, value }
    }
}

/// Whether some pair in `jar` carries `name`.
pub open spec fn jar_has_name(jar: Seq<(Seq<char>, Seq<char>)>, name: Seq<char>) -> bool {
    exists|i: int| 0 <= i < jar.len() && (#[trigger] jar[i]).0 == name
}

/// The index of the pair carrying `name`; meaningful only under `jar_wf`,
/// which makes it unique.
pub open spec fn jar_name_index(jar: Seq<(Seq<char>, Seq<char>)>, name: Seq<char>) -> int {
    choose|i: int| 0 <= i < jar.len() && (#[trigger] jar[i]).0 == name
}

/// A well-formed jar holds pairwise-distinct names: it is a mapping from
/// cookie name to current value.
pub open spec fn jar_wf(jar: Seq<(Seq<char>, Seq<char>)>) -> bool {
    forall|i: int, j: int|
        0 <= i < jar.len() && 0 <= j < jar.len() && i != j ==> (#[trigger] jar[i]).0 != (
        #[trigger] jar[j]).0
}

/// Upserting a pair: a pair with the same name is replaced in place; a new
/// name is appended at the end.
pub open spec fn jar_upsert(
    jar: Seq<(Seq<char>, Seq<char>)>,
    c: (Seq<char>, Seq<char>),
) -> Seq<(Seq<char>, Seq<char>)> {
    if jar_has_name(jar, c.0) {
        jar.update(jar_name_index(jar, c.0), c)
    } else {
        jar.push(c)
    }
}

/// The value currently stored under `name`, if any.
pub open spec fn jar_lookup(jar: Seq<(Seq<char>, Seq<char>)>, name: Seq<char>) -> Option<
    Seq<char>,
> {
    if jar_has_name(jar, name) {
        Some(jar[jar_name_index(jar, name)].1)
    } else {
        None
    }
}

/// An upsert keeps the jar well formed, stores exactly the given value under
/// the given name, and leaves every other name's value untouched.
pub proof fn lemma_upsert(jar: Seq<(Seq<char>, Seq<char>)>, c: (Seq<char>, Seq<char>))
    requires
        jar_wf(jar),
    ensures
        jar_wf(jar_upsert(jar, c)),
        jar_lookup(jar_upsert(jar, c), c.0) == Some(c.1),
        forall|n: Seq<char>| n != c.0 ==> #[trigger] jar_lookup(jar_upsert(jar, c), n)
            == jar_lookup(jar, n),
{
    let jar2 = jar_upsert(jar, c);
    if jar_has_name(jar, c.0) {
        let k = jar_name_index(jar, c.0);
        assert(0 <= k < jar.len() && jar[k].0 == c.0);
        assert(forall|i: int| 0 <= i < jar2.len() ==> (#[trigger] jar2[i]).0 == jar[i].0);
        assert(jar_wf(jar2));
        assert(jar2[k].0 == c.0);
        let k2 = jar_name_index(jar2, c.0);
        assert(0 <= k2 < jar2.len() && jar2[k2].0 == c.0);
        assert(k2 == k);
        assert(jar_lookup(jar2, c.0) == Some(c.1));
        assert forall|n: Seq<char>| n != c.0 implies #[trigger] jar_lookup(jar2, n) == jar_lookup(
            jar,
            n,
        ) by {
            if jar_has_name(jar, n) {
                let m = jar_name_index(jar, n);
                assert(0 <= m < jar.len() && jar[m].0 == n);
                assert(m != k);
                assert(jar2[m].0 == n);
                assert(jar_has_name(jar2, n));
                let m2 = jar_name_index(jar2, n);
                assert(0 <= m2 < jar2.len() && jar2[m2].0 == n);
                assert(m2 == m);
            } else {
                if jar_has_name(jar2, n) {
                    let m2 = jar_name_index(jar2, n);
                    assert(0 <= m2 < jar2.len() && jar2[m2].0 == n);
                    assert(jar[m2].0 == n);
                    assert(false);
                }
            }
        }
    } else {
        assert(jar2 == jar.push(c));
        assert(jar2.len() == jar.len() + 1);
        assert forall|i: int, j: int|
            0 <= i < jar2.len() && 0 <= j < jar2.len() && i != j implies (#[trigger] jar2[i]).0 != (
        #[trigger] jar2[j]).0 by {
            if i < jar.len() && j < jar.len() {
                assert(jar2[i] == jar[i] && jar2[j] == jar[j]);
            } else if i == jar.len() {
                assert(jar2[j] == jar[j]);
                assert(jar2[i].0 == c.0);
            } else {
                assert(jar2[i] == jar[i]);
                assert(jar2[j].0 == c.0);
            }
        }
        assert(jar2[jar.len() as int].0 == c.0);
        assert(jar_has_name(jar2, c.0));
        let k2 = jar_name_index(jar2, c.0);
        assert(0 <= k2 < jar2.len() && jar2[k2].0 == c.0);
        if k2 < jar.len() {
            assert(jar[k2].0 == c.0);
            assert(false);
        }
        assert(jar_lookup(jar2, c.0) == Some(c.1));
        assert forall|n: Seq<char>| n != c.0 implies #[trigger] jar_lookup(jar2, n) == jar_lookup(
            jar,
            n,
        ) by {
            if jar_has_name(jar, n) {
                let m = jar_name_index(jar, n);
                assert(0 <= m < jar.len() && jar[m].0 == n);
                assert(jar2[m].0 == n);
                let m2 = jar_name_index(jar2, n);
                assert(0 <= m2 < jar2.len() && jar2[m2].0 == n);
                if m2 == jar.len() {
                    assert(jar2[m2].0 == c.0);
                    assert(false);
                }
                assert(m2 == m);
            } else {
                if jar_has_name(jar2, n) {
                    let m2 = jar_name_index(jar2, n);
                    assert(0 <= m2 < jar2.len() && jar2[m2].0 == n);
                    if m2 < jar.len() {
                        assert(jar[m2].0 == n);
                        assert(false);
                    }
                    assert(jar2[m2].0 == c.0);
                    assert(false);
                }
            }
        }
    }
}

/// The serialized form of one pair: `name=value`.
pub open spec fn pair_text(c: (Seq<char>, Seq<char>)) -> Seq<char> {
    c.0 + seq!['='] + c.1
}

/// The serialized form of a whole jar, in jar iteration order:
/// `name=value` pairs joined by `"; "`.
pub open spec fn cookie_header_text(jar: Seq<(Seq<char>, Seq<char>)>) -> Seq<char>
    decreases jar.len(),
{
    if jar.len() == 0 {
        Seq::empty()
    } else if jar.len() == 1 {
        pair_text(jar[0])
    } else {
        cookie_header_text(jar.drop_last()) + seq![';', ' '] + pair_text(jar.last())
    }
}

/// What a `Set-Cookie` header value parses to, if it is a valid cookie
/// encoding: the cookie's name and value. Given a name because the cookie
/// grammar is the parser's business; see `parse_set_cookie`.
pub uninterp spec fn parsed_cookie(s: Seq<char>) -> Option<(Seq<char>, Seq<char>)>;

/// Parses one `Set-Cookie`-style header value.
///
/// Relies on `cookie::Cookie::parse`: whether a string is a valid cookie
/// encoding, and the name and value it carries, depend on the string alone.
#[verifier::external_body]
fn parse_set_cookie(s: &str) -> (r: Result<Cookie, cookie::ParseError>)
    ensures
        r is Ok <==> parsed_cookie(s@) is Some,
        r matches Ok(c) ==> Some(c@) == parsed_cookie(s@),
{
    match cookie::Cookie::parse(s) {
        Ok(c) => Ok(Cookie { name: c.name().to_string(), value: c.value().to_string() }),
        Err(e) => Err(e),
    }
}

#[verifier::external_type_specification]
#[verifier::external_body]
pub struct ExParseError(cookie::ParseError);

/// The jar after merging a list of `Set-Cookie` header values, one upsert
/// per header, stopping at the first header that does not parse. Upserts
/// made before the stop remain: there is no rollback.
pub open spec fn jar_after_merge(
    jar: Seq<(Seq<char>, Seq<char>)>,
    hs: Seq<Seq<char>>,
) -> Seq<(Seq<char>, Seq<char>)>
    decreases hs.len(),
{
    if hs.len() == 0 {
        jar
    } else {
        match parsed_cookie(hs[0]) {
            Some(c) => jar_after_merge(jar_upsert(jar, c), hs.drop_first()),
            None => jar,
        }
    }
}

/// The first header value of `hs` that does not parse, if any. Independent
/// of any jar: whether a merge fails depends on the headers alone.
pub open spec fn merge_failure(hs: Seq<Seq<char>>) -> Option<Seq<char>>
    decreases hs.len(),
{
    if hs.len() == 0 {
        None
    } else {
        match parsed_cookie(hs[0]) {
            Some(_) => merge_failure(hs.drop_first()),
            None => Some(hs[0]),
        }
    }
}

/// The views of a sequence of strings.
pub open spec fn str_views(ss: Seq<String>) -> Seq<Seq<char>> {
    ss.map_values(|s: String| s@)
}

/// A persistent cookie store: a mapping from cookie name to current value,
/// kept as a sequence of pairs with pairwise-distinct names.
#[derive(Debug)]
pub struct CookieJar {
    cookies: Vec<Cookie>,
}

impl View for CookieJar {
    type V = Seq<(Seq<char>, Seq<char>)>;

    closed spec fn view(&self) -> Seq<(Seq<char>, Seq<char>)> {
        self.cookies@.map_values(|c: Cookie| c@)
    }
}

impl Clone for CookieJar {
    fn clone(&self) -> (r: Self)
        ensures
            r@ == self@,
    {
        let mut cookies: Vec<Cookie> = Vec::new();
        let mut i: usize = 0;
        while i < self.cookies.len()
            invariant
                0 <= i <= self.cookies.len(),
                cookies@.len() == i,
                forall|j: int| 0 <= j < i ==> (#[trigger] cookies@[j])@ == self.cookies@[j]@,
            decreases self.cookies.len() - i,
        {
            cookies.push(self.cookies[i].clone());
            i += 1;
        }
        let r = CookieJar { cookies };
        proof {
            assert(r@ =~= self@);
        }
        r
    }
}

impl CookieJar {
    /// A jar is well formed when its names are pairwise distinct.
    pub open spec fn wf(&self) -> bool {
        jar_wf(self@)
    }

    /// An empty jar.
    pub fn new() -> (r: CookieJar)
        ensures
            r@ == Seq::<(Seq<char>, Seq<char>)>::empty(),
            r.wf(),
    {
        let r = CookieJar { cookies: Vec::new() };
        proof {
            assert(r@ =~= Seq::<(Seq<char>, Seq<char>)>::empty());
        }
        r
    }

    /// How many cookies the jar holds.
    pub fn len(&self) -> (r: usize)
        ensures
            r == self@.len(),
    {
        self.cookies.len()
    }

    /// The cookie at position `i`, in jar iteration order.
    pub fn get(&self, i: usize) -> (r: &Cookie)
        requires
            i < self@.len(),
        ensures
            r@ == self@[i as int],
    {
        &self.cookies[i]
    }

    /// The position of the cookie named `name`, if one is stored.
    fn position_of(&self, name: &str) -> (r: Option<usize>)
        ensures
            match r {
                Some(i) => i < self@.len() && self@[i as int].0 == name@,
                None => !jar_has_name(self@, name@),
            },
    {
        let mut i: usize = 0;
        let n = self.cookies.len();
        while i < n
            invariant
                0 <= i <= n,
                n == self@.len(),
                n == self.cookies@.len(),
                forall|j: int| 0 <= j < i ==> (#[trigger] self@[j]).0 != name@,
            decreases n - i,
        {
            if str_eq(self.cookies[i].name.as_str(), name) {
                assert(self@[i as int].0 == name@);
                return Some(i);
            }
            i += 1;
        }
        assert(!jar_has_name(self@, name@));
        None
    }

    /// The value stored under `name`, if any.
    pub fn lookup(&self, name: &str) -> (r: Option<&String>)
        requires
            self.wf(),
        ensures
            match r {
                Some(v) => jar_lookup(self@, name@) == Some(v@),
                None => jar_lookup(self@, name@) is None,
            },
    {
        match self.position_of(name) {
            Some(i) => {
                proof {
                    let k = jar_name_index(self@, name@);
                    assert(0 <= k < self@.len() && self@[k].0 == name@);
                    assert(k == i);
                }
                Some(&self.cookies[i].value)
            },
            None => None,
        }
    }

    /// Upserts `cookie`: the cookie of the same name is replaced in place,
    /// a new name is appended at the end.
    pub fn add(&mut self, cookie: Cookie)
        requires
            old(self).wf(),
        ensures
            final(self)@ == jar_upsert(old(self)@, cookie@),
            final(self).wf(),
    {
        proof {
            lemma_upsert(self@, cookie@);
        }
        match self.position_of(cookie.name.as_str()) {
            Some(i) => {
                proof {
                    let k = jar_name_index(self@, cookie@.0);
                    assert(0 <= k < self@.len() && self@[k].0 == cookie@.0);
                    assert(k == i);
                }
                let ghost prev = self@;
                self.cookies.remove(i);
                proof {
                    assert(self@ =~= prev.remove(i as int));
                }
                let ghost removed = self@;
                self.cookies.insert(i, cookie);
                proof {
                    assert(self@ =~= removed.insert(i as int, cookie@));
                    assert(self@ =~= jar_upsert(prev, cookie@));
                }
            },
            None => {
                let ghost prev = self@;
                self.cookies.push(cookie);
                proof {
                    assert(self@ =~= prev.push(cookie@));
                }
            },
        }
    }

    /// Empties the jar.
    pub fn clear(&mut self)
        ensures
            final(self)@ == Seq::<(Seq<char>, Seq<char>)>::empty(),
            final(self).wf(),
    {
        self.cookies = Vec::new();
        proof {
            assert(self@ =~= Seq::<(Seq<char>, Seq<char>)>::empty());
        }
    }

    /// Merges every `Set-Cookie` header value of `headers` into the jar, one
    /// upsert per header, stopping at the first value that is not a valid
    /// cookie encoding. Cookies merged before the stop remain merged: there
    /// is no rollback.
    pub fn merge_set_cookie_headers(&mut self, headers: &Vec<String>) -> (r: Result<
        (),
        HarnessError,
    >)
        requires
            old(self).wf(),
        ensures
            final(self)@ == jar_after_merge(old(self)@, str_views(headers@)),
            final(self).wf(),
            match r {
                Ok(()) => merge_failure(str_views(headers@)) is None,
                Err(e) => {
                    &&& merge_failure(str_views(headers@)) matches Some(h)
                    &&& e matches HarnessError::CookieParseError { header } && header@ == h
                },
            },
    {
        let ghost hs = str_views(headers@);
        let mut i: usize = 0;
        let n = headers.len();
        proof {
            assert(hs.skip(0) =~= hs);
        }
        while i < n
            invariant
                0 <= i <= n,
                n == headers@.len(),
                hs == str_views(headers@),
                hs.len() == n,
                self.wf(),
                jar_after_merge(old(self)@, hs) == jar_after_merge(self@, hs.skip(i as int)),
                merge_failure(hs) == merge_failure(hs.skip(i as int)),
            decreases n - i,
        {
            let ghost rest = hs.skip(i as int);
            proof {
                assert(rest.len() == n - i);
                assert(rest[0] == hs[i as int]);
                assert(hs[i as int] == headers@[i as int]@);
                assert(rest.drop_first() =~= hs.skip(i as int + 1));
            }
            match parse_set_cookie(headers[i].as_str()) {
                Ok(c) => {
                    proof {
                        assert(parsed_cookie(rest[0]) == Some(c@));
                    }
                    self.add(c);
                },
                Err(_) => {
                    proof {
                        assert(parsed_cookie(rest[0]) is None);
                        assert(jar_after_merge(self@, rest) == self@);
                        assert(merge_failure(rest) == Some(rest[0]));
                    }
                    return Err(HarnessError::CookieParseError { header: headers[i].clone() });
                },
            }
            i += 1;
        }
        proof {
            assert(hs.skip(n as int) =~= Seq::<Seq<char>>::empty());
            assert(jar_after_merge(self@, hs.skip(n as int)) == self@);
            assert(merge_failure(hs.skip(n as int)) is None);
        }
        Ok(())
    }

    /// Serializes the jar into the standard `Cookie` header form:
    /// `name=value` pairs joined by `"; "`, in jar iteration order.
    pub fn cookie_header(&self) -> (r: String)
        ensures
            r@ == cookie_header_text(self@),
    {
        let mut out = String::new();
        let mut i: usize = 0;
        let n = self.cookies.len();
        proof {
            assert(self@.take(0) =~= Seq::<(Seq<char>, Seq<char>)>::empty());
        }
        while i < n
            invariant
                0 <= i <= n,
                n == self@.len(),
                n == self.cookies@.len(),
                out@ == cookie_header_text(self@.take(i as int)),
            decreases n - i,
        {
            if i > 0 {
                push_str(&mut out, "; ");
            }
            push_str(&mut out, self.cookies[i].name.as_str());
            push_str(&mut out, "=");
            push_str(&mut out, self.cookies[i].value.as_str());
            proof {
                reveal_strlit("; ");
                reveal_strlit("=");
                let taken = self@.take(i as int + 1);
                assert(taken.drop_last() =~= self@.take(i as int));
                assert(taken.last() == self@[i as int]);
                assert(self@[i as int] == self.cookies@[i as int]@);
                if i == 0 {
                    assert(out@ =~= pair_text(self@[0]));
                    assert(out@ == cookie_header_text(taken));
                } else {
                    assert(out@ =~= cookie_header_text(self@.take(i as int)) + seq![';', ' ']
                        + pair_text(self@[i as int]));
                    assert(out@ == cookie_header_text(taken));
                }
            }
            i += 1;
        }
        proof {
            assert(self@.take(n as int) =~= self@);
        }
        out
    }
}

} // verus!
