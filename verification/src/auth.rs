//! The credential check against an htpasswd file.  The file's content is
//! handed in as text; the hash verification itself is the outside
//! checker's, and everything around it — line structure, the guard that
//! keeps entries the checker cannot digest away from it, and the
//! username lookup — is verified here.

use vstd::prelude::*;
use vstd::string::*;
use vstd::utf8::is_ascii_chars;
use crate::models::{AuthUser, DomainError};

verus! {

/// Whether the credential file `content` accepts the pair
/// `username`/`password`.  The answer depends on the three strings
/// alone.
pub uninterp spec fn htpasswd_accepts(
    content: Seq<char>,
    username: Seq<char>,
    password: Seq<char>,
) -> bool;

/// `[a, b)` is one line of `s`: delimited by newlines (or the text's
/// ends) and itself free of newlines.
pub open spec fn line_span(s: Seq<char>, a: int, b: int) -> bool {
    &&& 0 <= a <= b <= s.len()
    &&& (a == 0 || s[a - 1] == '\n')
    &&& (b == s.len() || s[b] == '\n')
    &&& forall|q: int| a <= q < b ==> s[q] != '\n'
}

/// `c` is the first colon of the line `[a, b)`.
pub open spec fn first_colon_at(s: Seq<char>, a: int, b: int, c: int) -> bool {
    &&& a <= c < b
    &&& s[c] == ':'
    &&& forall|q: int| a <= q < c ==> s[q] != ':'
}

/// The hash part `[h, b)` of an entry can be handed to the outside
/// checker: it is not a bcrypt entry (whose malformed forms make the
/// checker panic), and an `$apr1$` entry is long enough for the salt
/// and digest the checker slices out of it at fixed offsets.
pub open spec fn hash_span_ok(s: Seq<char>, h: int, b: int) -> bool {
    &&& !(h + 2 <= b && s[h] == '$' && s[h + 1] == '2')
    &&& (h + 6 <= b && s.subrange(h, h + 6) == "$apr1$"@) ==> b - h >= 15
}

/// Content the outside checker digests without panicking: ASCII
/// throughout (it slices by bytes), and every entry's hash part in a
/// shape it handles.
pub open spec fn content_checkable(s: Seq<char>) -> bool {
    &&& is_ascii_chars(s)
    &&& forall|a: int, b: int, c: int|
        #![trigger line_span(s, a, b), first_colon_at(s, a, b, c)]
        line_span(s, a, b) && first_colon_at(s, a, b, c) ==> hash_span_ok(s, c + 1, b)
}

/// Some line of `s` starts with `u` followed by a colon.
pub open spec fn content_knows(s: Seq<char>, u: Seq<char>) -> bool {
    exists|a: int, b: int|
        #![trigger line_span(s, a, b)]
        line_span(s, a, b) && a + u.len() < b && s.subrange(a, a + u.len() as int) == u && s[a
            + u.len() as int] == ':'
}

/// The end of the line starting at `a`: the next newline, or the text's
/// end.
fn find_line_end(content: &str, a: usize) -> (b: usize)
    requires
        a <= content@.len(),
    ensures
        a <= b <= content@.len(),
        b == content@.len() || content@[b as int] == '\n',
        forall|q: int| a <= q < b ==> content@[q] != '\n',
{
    let len = content.unicode_len();
    let mut b: usize = a;
    while b < len
        invariant
            a <= b <= len,
            len == content@.len(),
            forall|q: int| a <= q < b ==> content@[q] != '\n',
        decreases len - b,
    {
        if content.get_char(b) == '\n' {
            return b;
        }
        b = b + 1;
    }
    b
}

/// The first colon of the line `[a, b)`, if any.
fn find_first_colon(content: &str, a: usize, b: usize) -> (r: Option<usize>)
    requires
        a <= b <= content@.len(),
    ensures
        r matches Some(c) ==> first_colon_at(content@, a as int, b as int, c as int) && a <= c < b,
        r is None ==> forall|q: int| a <= q < b ==> content@[q] != ':',
{
    let mut c: usize = a;
    while c < b
        invariant
            a <= c <= b <= content@.len(),
            forall|q: int| a <= q < c ==> content@[q] != ':',
        decreases b - c,
    {
        if content.get_char(c) == ':' {
            return Some(c);
        }
        c = c + 1;
    }
    None
}

/// Whether the hash part `[h, b)` is in a shape the outside checker
/// handles.
fn hash_span_checkable(content: &str, h: usize, b: usize) -> (r: bool)
    requires
        h <= b <= content@.len(),
    ensures
        r == hash_span_ok(content@, h as int, b as int),
{
    let ghost s = content@;
    if b - h >= 2 && content.get_char(h) == '$' {
        if content.get_char(h + 1) == '2' {
            return false;
        }
    }
    proof {
        assert(!(h + 2 <= b && s[h as int] == '$' && s[h + 1] == '2'));
    }
    if b - h >= 6 {
        let is_apr = content.get_char(h) == '$' && content.get_char(h + 1) == 'a'
            && content.get_char(h + 2) == 'p' && content.get_char(h + 3) == 'r' && content.get_char(
            h + 4,
        ) == '1' && content.get_char(h + 5) == '$';
        proof {
            reveal_strlit("$apr1$");
            if is_apr {
                assert(s.subrange(h as int, h + 6) =~= "$apr1$"@);
            } else {
                if s.subrange(h as int, h + 6) == "$apr1$"@ {
                    assert(s[h as int] == "$apr1$"@[0] && s[h + 1] == "$apr1$"@[1] && s[h + 2]
                        == "$apr1$"@[2] && s[h + 3] == "$apr1$"@[3] && s[h + 4] == "$apr1$"@[4] && s[h
                        + 5] == "$apr1$"@[5]) by {
                        assert forall|q: int| 0 <= q < 6 implies #[trigger] s.subrange(
                            h as int,
                            h + 6,
                        )[q] == s[h + q] by {}
                    }
                    assert(false);
                }
            }
        }
        if is_apr && b - h < 15 {
            return false;
        }
    }
    true
}

/// Decides [`content_checkable`], line by line.
pub fn content_is_checkable(content: &str) -> (r: bool)
    ensures
        r == content_checkable(content@),
{
    let ghost s = content@;
    if !content.is_ascii() {
        return false;
    }
    let len = content.unicode_len();
    let mut a: usize = 0;
    loop
        invariant
            a <= len,
            len == s.len(),
            s == content@,
            is_ascii_chars(s),
            a == 0 || s[a - 1] == '\n',
            forall|x: int, y: int, c: int|
                #![trigger line_span(s, x, y), first_colon_at(s, x, y, c)]
                line_span(s, x, y) && y < a && first_colon_at(s, x, y, c) ==> hash_span_ok(
                    s,
                    c + 1,
                    y,
                ),
        ensures
            content_checkable(s) == true,
        decreases len - a,
    {
        let b = find_line_end(content, a);
        let ghost ai = a as int;
        let ghost bi = b as int;
        proof {
            assert(line_span(s, ai, bi));
        }
        match find_first_colon(content, a, b) {
            Some(c) => {
                if !hash_span_checkable(content, c + 1, b) {
                    proof {
                        assert(line_span(s, ai, bi) && first_colon_at(s, ai, bi, c as int)
                            && !hash_span_ok(s, c + 1, bi));
                    }
                    return false;
                }
            },
            None => {
            },
        }
        proof {
            assert forall|x: int, y: int, cc: int|
                line_span(s, x, y) && y < bi + 1 && first_colon_at(s, x, y, cc) implies hash_span_ok(
                s,
                cc + 1,
                y,
            ) by {
                if y >= ai {
                    lemma_span_is_unique(s, ai, bi, x, y);
                }
            }
        }
        if b >= len {
            proof {
                assert forall|x: int, y: int, c: int|
                    line_span(s, x, y) && first_colon_at(s, x, y, c) implies hash_span_ok(
                    s,
                    c + 1,
                    y,
                ) by {
                    assert(y <= s.len() < bi + 1);
                }
            }
            break ;
        }
        a = b + 1;
    }
    true
}

/// Two line spans that overlap at their right ends are the same span:
/// any span ending inside `[a, b]` and at or after `a` is `[a, b)`
/// itself.
proof fn lemma_span_is_unique(s: Seq<char>, a: int, b: int, x: int, y: int)
    requires
        line_span(s, a, b),
        line_span(s, x, y),
        a <= y <= b,
    ensures
        x == a && y == b,
{
    if y < b {
        assert(s[y] == '\n');
    }
    if x < a {
        assert(s[a - 1] == '\n');
        assert(x <= a - 1 < y);
    }
    if x > a {
        assert(s[x - 1] == '\n');
        assert(a <= x - 1 < b);
    }
}

/// Whether the line `[a, b)` starts with `username` followed by a
/// colon.
fn line_starts_with_user(content: &str, a: usize, b: usize, username: &str) -> (r: bool)
    requires
        a <= b <= content@.len(),
    ensures
        r == (a + username@.len() < b && content@.subrange(a as int, a + username@.len() as int)
            == username@ && content@[a + username@.len() as int] == ':'),
{
    let ghost s = content@;
    let ghost u = username@;
    let ulen = username.unicode_len();
    if b - a <= ulen {
        return false;
    }
    let mut q: usize = 0;
    while q < ulen
        invariant
            q <= ulen,
            ulen == u.len(),
            a + ulen < b <= s.len(),
            s == content@,
            u == username@,
            forall|p: int| 0 <= p < q ==> s[a + p] == u[p],
        decreases ulen - q,
    {
        if content.get_char(a + q) != username.get_char(q) {
            proof {
                if s.subrange(a as int, a + u.len() as int) == u {
                    assert(s.subrange(a as int, a + u.len() as int)[q as int] == u[q as int]);
                }
            }
            return false;
        }
        q = q + 1;
    }
    proof {
        assert(s.subrange(a as int, a + u.len() as int) =~= u);
    }
    if content.get_char(a + ulen) == ':' {
        true
    } else {
        false
    }
}

/// Decides [`content_knows`], line by line.
fn content_has_user(content: &str, username: &str) -> (r: bool)
    ensures
        r == content_knows(content@, username@),
{
    let ghost s = content@;
    let ghost u = username@;
    let len = content.unicode_len();
    let mut a: usize = 0;
    loop
        invariant
            a <= len,
            len == s.len(),
            s == content@,
            u == username@,
            a == 0 || s[a - 1] == '\n',
            forall|x: int, y: int|
                #![trigger line_span(s, x, y)]
                line_span(s, x, y) && y < a ==> !(x + u.len() < y && s.subrange(
                    x,
                    x + u.len() as int,
                ) == u && s[x + u.len() as int] == ':'),
        ensures
            content_knows(s, u) == false,
        decreases len - a,
    {
        let b = find_line_end(content, a);
        let ghost ai = a as int;
        let ghost bi = b as int;
        proof {
            assert(line_span(s, ai, bi));
        }
        if line_starts_with_user(content, a, b, username) {
            return true;
        }
        proof {
            assert forall|x: int, y: int|
                line_span(s, x, y) && y < bi + 1 implies !(x + u.len() < y && s.subrange(
                x,
                x + u.len() as int,
            ) == u && s[x + u.len() as int] == ':') by {
                if y >= ai {
                    lemma_span_is_unique(s, ai, bi, x, y);
                }
            }
        }
        if b >= len {
            proof {
                if content_knows(s, u) {
                    let (x, y): (int, int) = choose|x: int, y: int|
                        line_span(s, x, y) && x + u.len() < y && s.subrange(x, x + u.len() as int)
                            == u && s[x + u.len() as int] == ':';
                    assert(y <= s.len() < bi + 1);
                }
            }
            break ;
        }
        a = b + 1;
    }
    false
}

/// Relies on `htpasswd_verify::Htpasswd::from` and `Htpasswd::check`:
/// whether the credential file accepts the pair.  The answer is a
/// function of the three strings alone.  `from` slices an `$apr1$`
/// entry's hash at fixed byte offsets and `check` unwraps the bcrypt
/// parser's result, so content that could make either panic is kept out
/// by `requires`.
#[verifier::external_body]
fn htpasswd_check(content: &str, username: &str, password: &str) -> (r: bool)
    requires
        content_checkable(content@),
    ensures
        r == htpasswd_accepts(content@, username@, password@),
{
    htpasswd_verify::Htpasswd::from(content).check(username, password)
}

/// A source of credential decisions.
pub trait AuthRepository {
    /// Which username/password pairs this repository accepts.
    spec fn accepts(&self, username: Seq<char>, password: Seq<char>) -> bool;

    /// Which usernames this repository has an entry for.
    spec fn knows(&self, username: Seq<char>) -> bool;

    /// Checks the pair; an accepted pair comes back as an authenticated
    /// user under the asked-for name, anything else is the
    /// authentication failure.
    fn authenticate(&self, username: &str, password: &str) -> (r: Result<AuthUser, DomainError>)
        ensures
            r matches Ok(us) ==> self.accepts(username@, password@) && us.username@ == username@
                && us.is_authenticated,
            r matches Err(e) ==> !self.accepts(username@, password@) && e
                == DomainError::AuthenticationFailed,
    ;

    /// Looks the username up without checking a password.
    fn find_by_username(&self, username: &str) -> (r: Result<Option<AuthUser>, DomainError>)
        ensures
            r is Ok,
            r matches Ok(o) ==> ((o is Some <==> self.knows(username@)) && (o matches Some(us)
                ==> us.username@ == username@ && us.is_authenticated)),
    ;
}

/// The credential repository backed by htpasswd file content.
pub struct HtpasswdAuthRepository {
    htpasswd_content: String,
}

impl HtpasswdAuthRepository {
    /// The stored file content.
    pub closed spec fn content(&self) -> Seq<char> {
        self.htpasswd_content@
    }

    pub fn new(htpasswd_content: String) -> (r: Self)
        ensures
            r.content() == htpasswd_content@,
    {
        Self { htpasswd_content }
    }
}

impl AuthRepository for HtpasswdAuthRepository {
    /// Accepted are the pairs the outside checker accepts, on content it
    /// can digest.
    open spec fn accepts(&self, username: Seq<char>, password: Seq<char>) -> bool {
        content_checkable(self.content()) && htpasswd_accepts(self.content(), username, password)
    }

    /// Known are the usernames that open a line of the file.
    open spec fn knows(&self, username: Seq<char>) -> bool {
        content_knows(self.content(), username)
    }

    fn authenticate(&self, username: &str, password: &str) -> (r: Result<AuthUser, DomainError>) {
        if !content_is_checkable(self.htpasswd_content.as_str()) {
            return Err(DomainError::AuthenticationFailed);
        }
        if htpasswd_check(self.htpasswd_content.as_str(), username, password) {
            Ok(AuthUser::new(username.to_owned()))
        } else {
            Err(DomainError::AuthenticationFailed)
        }
    }

    fn find_by_username(&self, username: &str) -> (r: Result<Option<AuthUser>, DomainError>) {
        if content_has_user(self.htpasswd_content.as_str(), username) {
            Ok(Some(AuthUser::new(username.to_owned())))
        } else {
            Ok(None)
        }
    }
}

} // verus!
