//! The session state that outlives single requests: the instance's base URL,
//! the credential, and the CSRF token that the server last handed out.

use vstd::prelude::*;
use vstd::string::StringExecFns;
use pgp::SignedSecretKey;

verus! {

/// A header or cookie as a pair of name and value.
pub open spec fn pair_view(p: (String, String)) -> (Seq<char>, Seq<char>) {
    (p.0@, p.1@)
}

/// The views of a sequence of name/value pairs.
pub open spec fn pairs_view(pairs: Seq<(String, String)>) -> Seq<(Seq<char>, Seq<char>)> {
    pairs.map_values(|p: (String, String)| pair_view(p))
}

/// The name of the cookie that carries the CSRF token.
pub open spec fn csrf_cookie_name() -> Seq<char> {
    "csrfToken"@
}

/// The name of the request header that mirrors the CSRF token.
pub open spec fn csrf_header_name() -> Seq<char> {
    "X-CSRF-Token"@
}

/// The header that every request carries.
pub open spec fn content_type_header() -> (Seq<char>, Seq<char>) {
    ("Content-Type"@, "application/json"@)
}

/// The CSRF token after a response set `cookies`: the value of the last cookie
/// named `csrfToken`, or `token` where there is none.
pub open spec fn csrf_after(token: Option<Seq<char>>, cookies: Seq<(Seq<char>, Seq<char>)>) -> Option<Seq<char>>
    decreases cookies.len(),
{
    if cookies.len() == 0 {
        token
    } else if cookies.last().0 == csrf_cookie_name() {
        Some(cookies.last().1)
    } else {
        csrf_after(token, cookies.drop_last())
    }
}

/// The headers of an outgoing request: the content type, and the CSRF token
/// where the session holds one.
pub open spec fn outgoing_headers(token: Option<Seq<char>>) -> Seq<(Seq<char>, Seq<char>)> {
    match token {
        Some(t) => seq![content_type_header(), (csrf_header_name(), t)],
        None => seq![content_type_header()],
    }
}

/// A session with a Passbolt instance.
pub struct Session {
    url: String,
    private_key: SignedSecretKey,
    private_key_pw: String,
    csrf_token: Option<String>,
}

impl Session {
    /// The base URL of the instance.
    pub closed spec fn url_view(&self) -> Seq<char> {
        self.url@
    }

    /// The passphrase of the private key.
    pub closed spec fn passphrase_view(&self) -> Seq<char> {
        self.private_key_pw@
    }

    /// The private key.
    pub closed spec fn key_view(&self) -> SignedSecretKey {
        self.private_key
    }

    /// The CSRF token that the session holds.
    pub closed spec fn csrf_view(&self) -> Option<Seq<char>> {
        match self.csrf_token {
            Some(t) => Some(t@),
            None => None,
        }
    }

    /// Creates a session for the instance at `url`, with no CSRF token yet.
    pub fn new(url: String, private_key: SignedSecretKey, private_key_pw: String) -> (r: Session)
        ensures
            r.url_view() == url@,
            r.key_view() == private_key,
            r.passphrase_view() == private_key_pw@,
            r.csrf_view() is None,
    {
        Session { url, private_key, private_key_pw, csrf_token: None }
    }

    /// Returns a reference to the private key.
    pub fn private_key(&self) -> (r: &SignedSecretKey)
        ensures
            *r == self.key_view(),
    {
        &self.private_key
    }

    /// Returns a reference to the private key's passphrase.
    pub fn private_key_pw(&self) -> (r: &String)
        ensures
            r@ == self.passphrase_view(),
    {
        &self.private_key_pw
    }

    /// Returns the CSRF token that the session holds.
    pub fn csrf_token(&self) -> (r: Option<String>)
        ensures
            r is None <==> self.csrf_view() is None,
            r is Some ==> self.csrf_view() == Some(r->0@),
    {
        self.csrf_token.clone()
    }

    /// The complete URL of an endpoint: the base URL followed by `path`.
    pub fn url_for(&self, path: &str) -> (r: String)
        ensures
            r@ == self.url_view() + path@,
    {
        self.url.clone().concat(path)
    }

    /// Takes the CSRF token from the cookies that a response set: the last one
    /// named `csrfToken` wins; without one the token is kept.
    pub fn save_csrf_token(&mut self, cookies: &Vec<(String, String)>)
        ensures
            final(self).csrf_view() == csrf_after(old(self).csrf_view(), pairs_view(cookies@)),
            final(self).url_view() == old(self).url_view(),
            final(self).key_view() == old(self).key_view(),
            final(self).passphrase_view() == old(self).passphrase_view(),
    {
        let name = String::from_str("csrfToken");
        let mut i: usize = 0;
        while i < cookies.len()
            invariant
                name@ == csrf_cookie_name(),
                i <= cookies@.len(),
                self.csrf_view() == csrf_after(old(self).csrf_view(), pairs_view(cookies@.subrange(0, i as int))),
                self.url_view() == old(self).url_view(),
                self.key_view() == old(self).key_view(),
                self.passphrase_view() == old(self).passphrase_view(),
            decreases cookies.len() - i,
        {
            proof {
                let next = cookies@.subrange(0, i + 1);
                assert(pairs_view(next).drop_last() =~= pairs_view(cookies@.subrange(0, i as int)));
                assert(pairs_view(next).last() == pair_view(cookies@[i as int]));
            }
            if cookies[i].0 == name {
                self.csrf_token = Some(cookies[i].1.clone());
            }
            i = i + 1;
        }
        assert(cookies@.subrange(0, cookies@.len() as int) =~= cookies@);
    }

    /// The headers that the next request carries.
    pub fn headers(&self) -> (r: Vec<(String, String)>)
        ensures
            pairs_view(r@) == outgoing_headers(self.csrf_view()),
    {
        let mut r: Vec<(String, String)> = Vec::new();
        r.push((String::from_str("Content-Type"), String::from_str("application/json")));
        match &self.csrf_token {
            Some(t) => {
                r.push((String::from_str("X-CSRF-Token"), t.clone()));
            },
            None => {},
        }
        assert(pairs_view(r@) =~= outgoing_headers(self.csrf_view()));
        r
    }
}

/// After a response whose cookies set `csrfToken` (the last such cookie at
/// index `i`), the next outgoing request carries `X-CSRF-Token` with that
/// cookie's value, whatever token the session held before.
pub proof fn lemma_csrf_token_mirrored(token: Option<Seq<char>>, cookies: Seq<(Seq<char>, Seq<char>)>, i: int)
    requires
        0 <= i < cookies.len(),
        cookies[i].0 == csrf_cookie_name(),
        forall|j: int| i < j < cookies.len() ==> cookies[j].0 != csrf_cookie_name(),
    ensures
        csrf_after(token, cookies) == Some(cookies[i].1),
        outgoing_headers(csrf_after(token, cookies)).contains((csrf_header_name(), cookies[i].1)),
    decreases cookies.len(),
{
    if i < cookies.len() - 1 {
        let init = cookies.drop_last();
        assert(cookies.last() == cookies[cookies.len() - 1]);
        lemma_csrf_token_mirrored(token, init, i);
    }
    let h = outgoing_headers(csrf_after(token, cookies));
    assert(h[1] == (csrf_header_name(), cookies[i].1));
}

} // verus!
