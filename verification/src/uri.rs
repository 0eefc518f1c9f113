use vstd::prelude::*;
use vstd::string::*;

use crate::error::StoreError;

verus! {

/// A parsed URI of the shape `scheme://authority/path`, held as plain
/// character data. Only the first `scheme://authority` pair of the text
/// is meaningful: everything after the authority, a nested
/// `scheme://host` included, is path — up to the first `'?'` or `'#'`,
/// since a query or fragment is not part of the path component. This
/// library reads neither.
#[derive(Debug)]
pub struct Uri {
    pub scheme: String,
    pub authority: String,
    pub path: String,
}

/// The first position holding `':'` or `'/'`, or the length when none does.
pub open spec fn first_stop(s: Seq<char>) -> int
    decreases s.len(),
{
    if s.len() == 0 {
        0
    } else if s[0] == ':' || s[0] == '/' {
        0
    } else {
        1 + first_stop(s.skip(1))
    }
}

/// The first position ending an authority — `'/'`, `'?'` or `'#'` — or
/// the length when none does.
pub open spec fn first_delim(s: Seq<char>) -> int
    decreases s.len(),
{
    if s.len() == 0 {
        0
    } else if s[0] == '/' || s[0] == '?' || s[0] == '#' {
        0
    } else {
        1 + first_delim(s.skip(1))
    }
}

/// The first position starting a query or fragment — `'?'` or `'#'` —
/// or the length when none does.
pub open spec fn first_break(s: Seq<char>) -> int
    decreases s.len(),
{
    if s.len() == 0 {
        0
    } else if s[0] == '?' || s[0] == '#' {
        0
    } else {
        1 + first_break(s.skip(1))
    }
}

pub proof fn lemma_first_stop(s: Seq<char>)
    ensures
        0 <= first_stop(s) <= s.len(),
        forall|j: int| 0 <= j < first_stop(s) ==> s[j] != ':' && s[j] != '/',
        first_stop(s) < s.len() ==> (s[first_stop(s)] == ':' || s[first_stop(s)] == '/'),
    decreases s.len(),
{
    if s.len() > 0 && !(s[0] == ':' || s[0] == '/') {
        lemma_first_stop(s.skip(1));
        assert forall|j: int| 0 <= j < first_stop(s) implies s[j] != ':' && s[j] != '/' by {
            if j > 0 {
                assert(s.skip(1)[j - 1] == s[j]);
            }
        }
        if first_stop(s) < s.len() {
            assert(s.skip(1)[first_stop(s.skip(1))] == s[first_stop(s)]);
        }
    }
}

pub proof fn lemma_first_delim(s: Seq<char>)
    ensures
        0 <= first_delim(s) <= s.len(),
        forall|j: int| 0 <= j < first_delim(s) ==> s[j] != '/' && s[j] != '?' && s[j] != '#',
        first_delim(s) < s.len() ==> (s[first_delim(s)] == '/' || s[first_delim(s)] == '?'
            || s[first_delim(s)] == '#'),
    decreases s.len(),
{
    if s.len() > 0 && !(s[0] == '/' || s[0] == '?' || s[0] == '#') {
        lemma_first_delim(s.skip(1));
        assert forall|j: int| 0 <= j < first_delim(s) implies s[j] != '/' && s[j] != '?' && s[j]
            != '#' by {
            if j > 0 {
                assert(s.skip(1)[j - 1] == s[j]);
            }
        }
        if first_delim(s) < s.len() {
            assert(s.skip(1)[first_delim(s.skip(1))] == s[first_delim(s)]);
        }
    }
}

pub proof fn lemma_first_break(s: Seq<char>)
    ensures
        0 <= first_break(s) <= s.len(),
        forall|j: int| 0 <= j < first_break(s) ==> s[j] != '?' && s[j] != '#',
        first_break(s) < s.len() ==> (s[first_break(s)] == '?' || s[first_break(s)] == '#'),
    decreases s.len(),
{
    if s.len() > 0 && !(s[0] == '?' || s[0] == '#') {
        lemma_first_break(s.skip(1));
        assert forall|j: int| 0 <= j < first_break(s) implies s[j] != '?' && s[j] != '#' by {
            if j > 0 {
                assert(s.skip(1)[j - 1] == s[j]);
            }
        }
        if first_break(s) < s.len() {
            assert(s.skip(1)[first_break(s.skip(1))] == s[first_break(s)]);
        }
    }
}

/// The text is of the accepted shape: a nonempty scheme, then `"://"`.
pub open spec fn valid_uri(s: Seq<char>) -> bool {
    let k = first_stop(s);
    0 < k && k + 2 < s.len() && s[k] == ':' && s[k + 1] == '/' && s[k + 2] == '/'
}

/// The scheme: what stands before the first `"://"`.
pub open spec fn scheme_of(s: Seq<char>) -> Seq<char> {
    s.take(first_stop(s))
}

/// The authority: what stands between `"://"` and the next `'/'`,
/// `'?'` or `'#'`.
pub open spec fn authority_of(s: Seq<char>) -> Seq<char> {
    let rest = s.skip(first_stop(s) + 3);
    rest.take(first_delim(rest))
}

/// The path component: what follows the authority, `'/'` included, up
/// to the first `'?'` or `'#'` — a query or fragment is not path.
pub open spec fn path_of(s: Seq<char>) -> Seq<char> {
    let rest = s.skip(first_stop(s) + 3);
    let after = rest.skip(first_delim(rest));
    after.take(first_break(after))
}

/// The backend's cluster address derived from a URI: `scheme://authority`.
pub open spec fn cluster_address(scheme: Seq<char>, authority: Seq<char>) -> Seq<char> {
    scheme + "://"@ + authority
}

/// The message reported for a URI not of the accepted shape.
pub open spec fn invalid_uri_message(raw: Seq<char>) -> Seq<char> {
    "invalid URI '"@ + raw + "': expected scheme://authority/path"@
}

impl Uri {
    /// The parts are consistent with having been read from one URI text.
    pub open spec fn wf(&self) -> bool {
        &&& self.scheme@.len() > 0
        &&& forall|j: int|
            0 <= j < self.scheme@.len() ==> self.scheme@[j] != ':' && self.scheme@[j] != '/'
        &&& forall|j: int|
            0 <= j < self.authority@.len() ==> self.authority@[j] != '/' && self.authority@[j]
                != '?' && self.authority@[j] != '#'
        &&& forall|j: int|
            0 <= j < self.path@.len() ==> self.path@[j] != '?' && self.path@[j] != '#'
        &&& (self.path@.len() == 0 || self.path@[0] == '/')
    }

    /// Reads a URI of the shape `scheme://authority/path`. The scheme is
    /// everything before the first `':'`; the authority ends at the next
    /// `'/'`, `'?'` or `'#'`; the path, kept verbatim, runs from there
    /// to the first `'?'` or `'#'`; any query or fragment is left out.
    /// A text of any other shape is an `InvalidInput` error.
    pub fn parse(s: &str) -> (r: Result<Uri, StoreError>)
        ensures
            r is Ok <==> valid_uri(s@),
            r matches Ok(u) ==> {
                &&& u.scheme@ == scheme_of(s@)
                &&& u.authority@ == authority_of(s@)
                &&& u.path@ == path_of(s@)
                &&& u.wf()
            },
            r matches Err(e) ==> e is InvalidInput && e.text() == invalid_uri_message(s@),
    {
        let n = s.unicode_len();
        let mut k: usize = 0;
        while k < n && s.get_char(k) != ':' && s.get_char(k) != '/'
            invariant
                n == s@.len(),
                0 <= k <= n,
                forall|j: int| 0 <= j < k ==> s@[j] != ':' && s@[j] != '/',
            decreases n - k,
        {
            k = k + 1;
        }
        proof {
            lemma_first_stop(s@);
            assert(k == first_stop(s@));
        }
        if k == 0 || n - k < 3 || s.get_char(k) != ':' || s.get_char(k + 1) != '/' || s.get_char(
            k + 2,
        ) != '/' {
            let message = String::from_str("invalid URI '").concat(s).concat(
                "': expected scheme://authority/path",
            );
            return Err(StoreError::InvalidInput { message });
        }
        let ghost rest = s@.skip(k + 3);
        let mut e: usize = k + 3;
        while e < n && s.get_char(e) != '/' && s.get_char(e) != '?' && s.get_char(e) != '#'
            invariant
                n == s@.len(),
                rest == s@.skip(k + 3),
                k + 3 <= e <= n,
                forall|j: int| k + 3 <= j < e ==> s@[j] != '/' && s@[j] != '?' && s@[j] != '#',
            decreases n - e,
        {
            e = e + 1;
        }
        proof {
            lemma_first_delim(rest);
            assert forall|j: int| 0 <= j < rest.len() implies rest[j] == s@[j + k + 3] by {}
            let t = e - k - 3;
            let fd = first_delim(rest);
            if t < fd {
                assert(rest[t] == s@[e as int]);
                assert(false);
            }
            if fd < t {
                assert(rest[fd] == s@[fd + k + 3]);
                assert(false);
            }
            assert(e - k - 3 == first_delim(rest));
        }
        let ghost after = s@.skip(e as int);
        let mut q: usize = e;
        while q < n && s.get_char(q) != '?' && s.get_char(q) != '#'
            invariant
                n == s@.len(),
                after == s@.skip(e as int),
                e <= q <= n,
                forall|j: int| e <= j < q ==> s@[j] != '?' && s@[j] != '#',
            decreases n - q,
        {
            q = q + 1;
        }
        proof {
            lemma_first_break(after);
            assert forall|j: int| 0 <= j < after.len() implies after[j] == s@[j + e] by {}
            let t = q - e;
            let fb = first_break(after);
            if t < fb {
                assert(after[t] == s@[q as int]);
                assert(false);
            }
            if fb < t {
                assert(after[fb] == s@[fb + e]);
                assert(false);
            }
            assert(q - e == first_break(after));
            assert(rest.skip(first_delim(rest)) =~= after);
        }
        let scheme = s.substring_char(0, k).to_owned();
        let authority = s.substring_char(k + 3, e).to_owned();
        let path = s.substring_char(e, q).to_owned();
        let u = Uri { scheme, authority, path };
        proof {
            assert(u.scheme@ =~= scheme_of(s@));
            assert(u.authority@ =~= authority_of(s@));
            assert(u.path@ =~= path_of(s@));
        }
        Ok(u)
    }

    /// The authority string injected into the backend options:
    /// `scheme://authority`.
    pub fn authority_string(&self) -> (r: String)
        ensures
            r@ == cluster_address(self.scheme@, self.authority@),
    {
        self.scheme.clone().concat("://").concat(self.authority.as_str())
    }
}

} // verus!
