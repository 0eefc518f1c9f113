use vstd::prelude::*;
use vstd::string::*;

use crate::error::StoreError;

verus! {

/// A canonical absolute path inside the backend namespace: it begins
/// with `'/'`, holds no empty segment, no trailing `'/'` (except for
/// the root path `"/"` itself) and no `"."` or `".."` segment, and
/// carries no scheme or authority. Percent escapes are kept as
/// written; a path whose escapes are malformed, or that would step
/// through a relative segment, is rejected when it is parsed.
#[derive(Debug)]
pub struct ObjectPath {
    raw: String,
}

/// No two `'/'` stand next to each other.
pub open spec fn no_double_slash(s: Seq<char>) -> bool {
    forall|i: int| 0 <= i < s.len() - 1 ==> !((#[trigger] s[i]) == '/' && s[i + 1] == '/')
}

/// The canonical-path invariant.
pub open spec fn is_canonical(s: Seq<char>) -> bool {
    &&& s.len() > 0
    &&& s[0] == '/'
    &&& (s.len() == 1 || s.last() != '/')
    &&& no_double_slash(s)
}

/// The characters a left-to-right canonicalization emits: runs of `'/'`
/// collapse, each kept segment is preceded by one `'/'`, and a trailing
/// `'/'` is dropped. `in_seg` records whether the previous character
/// belonged to a kept segment.
pub open spec fn canon_chars(s: Seq<char>, in_seg: bool) -> Seq<char>
    decreases s.len(),
{
    if s.len() == 0 {
        Seq::empty()
    } else if s[0] == '/' {
        canon_chars(s.skip(1), false)
    } else if in_seg {
        seq![s[0]] + canon_chars(s.skip(1), true)
    } else {
        seq!['/', s[0]] + canon_chars(s.skip(1), true)
    }
}

/// The canonical form of an arbitrary path text: its nonempty segments,
/// each preceded by one `'/'`; the root path when there is no segment.
pub open spec fn canonical(s: Seq<char>) -> Seq<char> {
    if canon_chars(s, false).len() == 0 {
        seq!['/']
    } else {
        canon_chars(s, false)
    }
}

/// A hexadecimal digit.
pub open spec fn is_hex_digit(c: char) -> bool {
    ||| 48 <= c as int <= 57
    ||| 65 <= c as int <= 70
    ||| 97 <= c as int <= 102
}

/// Every `'%'` is followed by two hexadecimal digits.
pub open spec fn escapes_ok(s: Seq<char>) -> bool {
    forall|i: int|
        0 <= i < s.len() && (#[trigger] s[i]) == '%' ==> i + 2 < s.len() && is_hex_digit(s[i + 1])
            && is_hex_digit(s[i + 2])
}

/// The message reported for a path whose percent escapes are malformed.
pub open spec fn invalid_path_message(raw: Seq<char>) -> Seq<char> {
    "invalid path '"@ + raw + "': bad percent escape"@
}

/// The message reported for a path that holds a `"."` or `".."` segment.
pub open spec fn dot_segment_message(raw: Seq<char>) -> Seq<char> {
    "invalid path '"@ + raw + "': relative segment"@
}

/// The `'/'` at this position opens a `"."` or `".."` segment.
pub open spec fn dot_segment_at(s: Seq<char>, i: int) -> bool {
    &&& s[i] == '/'
    &&& i + 1 < s.len() && s[i + 1] == '.'
    &&& (i + 2 == s.len() || s[i + 2] == '/' || (s[i + 2] == '.' && (i + 3 == s.len() || s[i + 3]
        == '/')))
}

/// Some segment of the text is `"."` or `".."`. In a canonical path
/// every segment is opened by a `'/'`, the leading one included.
pub open spec fn has_dot_segment(s: Seq<char>) -> bool {
    exists|i: int| 0 <= i < s.len() && #[trigger] dot_segment_at(s, i)
}

/// An acceptable path text: its percent escapes are well formed, and
/// its canonical form holds no `"."` or `".."` segment, which could
/// name a location outside the intended namespace.
pub open spec fn path_ok(s: Seq<char>) -> bool {
    escapes_ok(s) && !has_dot_segment(canonical(s))
}

/// The message a rejected path text is reported with.
pub open spec fn path_reject_message(raw: Seq<char>) -> Seq<char> {
    if !escapes_ok(raw) {
        invalid_path_message(raw)
    } else {
        dot_segment_message(raw)
    }
}

/// What canonicalization emits is free of empty segments and of a
/// trailing separator, and starts with `'/'` when it started outside a
/// segment.
proof fn lemma_canon_chars_shape(s: Seq<char>, in_seg: bool)
    ensures
        no_double_slash(canon_chars(s, in_seg)),
        canon_chars(s, in_seg).len() > 0 ==> canon_chars(s, in_seg).last() != '/',
        !in_seg && canon_chars(s, in_seg).len() > 0 ==> canon_chars(s, in_seg)[0] == '/',
    decreases s.len(),
{
    if s.len() == 0 {
    } else if s[0] == '/' {
        lemma_canon_chars_shape(s.skip(1), false);
    } else {
        lemma_canon_chars_shape(s.skip(1), true);
        let r = canon_chars(s.skip(1), true);
        if in_seg {
            let w = seq![s[0]] + r;
            assert forall|i: int| 0 <= i < w.len() - 1 implies !((#[trigger] w[i]) == '/' && w[i + 1] == '/') by {
                if i >= 1 {
                    assert(w[i] == r[i - 1] && w[i + 1] == r[i]);
                }
            }
            assert(w.len() > 1 ==> w.last() == r.last());
        } else {
            let w = seq!['/', s[0]] + r;
            assert forall|i: int| 0 <= i < w.len() - 1 implies !((#[trigger] w[i]) == '/' && w[i + 1] == '/') by {
                if i >= 2 {
                    assert(w[i] == r[i - 2] && w[i + 1] == r[i - 1]);
                }
            }
            assert(w.len() > 2 ==> w.last() == r.last());
        }
    }
}

/// The canonical form of any text satisfies the canonical-path
/// invariant: it is absolute, with no empty segment and no trailing
/// separator.
pub proof fn lemma_canonical_is_canonical(s: Seq<char>)
    ensures
        is_canonical(canonical(s)),
{
    lemma_canon_chars_shape(s, false);
}

/// Canonicalization leaves a text that is already in a segment alone,
/// provided it has no empty segment and no trailing separator.
proof fn lemma_canon_chars_id(t: Seq<char>)
    requires
        no_double_slash(t),
        t.len() == 0 || t.last() != '/',
    ensures
        canon_chars(t, true) == t,
    decreases t.len(),
{
    if t.len() == 0 {
    } else if t[0] != '/' {
        assert(no_double_slash(t.skip(1))) by {
            assert(forall|i: int|
                0 <= i < t.skip(1).len() - 1
                    ==> (#[trigger] t.skip(1)[i]) == t[i + 1] && t.skip(1)[i + 1] == t[i + 2]);
        }
        lemma_canon_chars_id(t.skip(1));
        assert(seq![t[0]] + t.skip(1) =~= t);
    } else {
        assert(t.len() >= 2);
        assert(t[1] != '/');
        let u = t.skip(1);
        assert(u[0] == t[1]);
        assert(no_double_slash(u.skip(1))) by {
            assert(forall|i: int|
                0 <= i < u.skip(1).len() - 1
                    ==> (#[trigger] u.skip(1)[i]) == t[i + 2] && u.skip(1)[i + 1] == t[i + 3]);
        }
        assert(u.skip(1) =~= t.skip(2));
        lemma_canon_chars_id(t.skip(2));
        assert(canon_chars(t, true) == canon_chars(u, false));
        assert(canon_chars(u, false) == seq!['/', u[0]] + canon_chars(u.skip(1), true));
        assert(seq!['/', t[1]] + t.skip(2) =~= t);
    }
}

/// Round trip: a path already in canonical form comes out of
/// canonicalization verbatim.
pub proof fn lemma_canonical_fixpoint(s: Seq<char>)
    requires
        is_canonical(s),
    ensures
        canonical(s) == s,
{
    if s.len() == 1 {
        assert(canon_chars(s, false) == canon_chars(s.skip(1), false));
        assert(s.skip(1) =~= Seq::<char>::empty());
        assert(canonical(s) =~= seq!['/']);
        assert(s =~= seq!['/']);
    } else {
        let u = s.skip(1);
        assert(u[0] == s[1]);
        assert(s[1] != '/');
        assert(canon_chars(s, false) == canon_chars(u, false));
        assert(canon_chars(u, false) == seq!['/', u[0]] + canon_chars(u.skip(1), true));
        assert(no_double_slash(u.skip(1))) by {
            assert(forall|i: int|
                0 <= i < u.skip(1).len() - 1
                    ==> (#[trigger] u.skip(1)[i]) == s[i + 2] && u.skip(1)[i + 1] == s[i + 3]);
        }
        assert(u.skip(1) =~= s.skip(2));
        assert(s.skip(2).len() == 0 || s.skip(2).last() != '/');
        lemma_canon_chars_id(s.skip(2));
        assert(seq!['/', s[1]] + s.skip(2) =~= s);
    }
}

/// Relies on `String::push`: appends exactly the one given character.
#[verifier::external_body]
fn push_char(s: &mut String, c: char)
    ensures
        final(s)@ == old(s)@ + seq![c],
{
    s.push(c);
}

fn is_hex_digit_char(c: char) -> (r: bool)
    ensures
        r == is_hex_digit(c),
{
    let u = c as u32;
    (48 <= u && u <= 57) || (65 <= u && u <= 70) || (97 <= u && u <= 102)
}

impl ObjectPath {
    /// The path's characters.
    pub closed spec fn view(&self) -> Seq<char> {
        self.raw@
    }

    /// Every path this library hands out is canonical and free of
    /// relative segments.
    pub open spec fn wf(&self) -> bool {
        is_canonical(self@) && !has_dot_segment(self@)
    }

    /// Parses an arbitrary path text into its canonical form: nonempty
    /// segments are kept in order, each preceded by one `'/'`; empty
    /// segments disappear; no text ends in `'/'` except the root path.
    /// A malformed percent escape, or a `"."` or `".."` segment, is an
    /// `InvalidInput` error naming the offending text.
    pub fn parse(raw: &str) -> (r: Result<ObjectPath, StoreError>)
        ensures
            r is Ok <==> path_ok(raw@),
            r matches Ok(p) ==> p@ == canonical(raw@) && p.wf(),
            r matches Err(e) ==> e is InvalidInput && e.text() == path_reject_message(raw@),
    {
        let n = raw.unicode_len();
        let mut i: usize = 0;
        while i < n
            invariant
                n == raw@.len(),
                0 <= i <= n,
                forall|j: int|
                    0 <= j < i && (#[trigger] raw@[j]) == '%' ==> j + 2 < n && is_hex_digit(
                        raw@[j + 1],
                    ) && is_hex_digit(raw@[j + 2]),
            decreases n - i,
        {
            if raw.get_char(i) == '%' {
                if n - i < 3 || !is_hex_digit_char(raw.get_char(i + 1)) || !is_hex_digit_char(
                    raw.get_char(i + 2),
                ) {
                    let message = String::from_str("invalid path '").concat(raw).concat(
                        "': bad percent escape",
                    );
                    return Err(StoreError::InvalidInput { message });
                }
            }
            i = i + 1;
        }
        let mut out = String::new();
        let mut in_seg = false;
        let mut j: usize = 0;
        proof {
            assert(raw@.skip(0) =~= raw@);
            assert(out@ + canon_chars(raw@, false) =~= canon_chars(raw@, false));
        }
        while j < n
            invariant
                n == raw@.len(),
                0 <= j <= n,
                out@ + canon_chars(raw@.skip(j as int), in_seg) == canon_chars(raw@, false),
            decreases n - j,
        {
            let ghost pre = raw@.skip(j as int);
            proof {
                assert(pre[0] == raw@[j as int]);
                assert(pre.skip(1) =~= raw@.skip(j + 1));
            }
            let c = raw.get_char(j);
            if c == '/' {
                in_seg = false;
            } else {
                if !in_seg {
                    push_char(&mut out, '/');
                }
                push_char(&mut out, c);
                in_seg = true;
                proof {
                    assert(out@ + canon_chars(raw@.skip(j + 1), true) =~= canon_chars(
                        raw@,
                        false,
                    ));
                }
            }
            j = j + 1;
        }
        proof {
            assert(raw@.skip(n as int) =~= Seq::<char>::empty());
            assert(out@ == canon_chars(raw@, false));
            lemma_canonical_is_canonical(raw@);
        }
        let m = out.as_str().unicode_len();
        let mut t: usize = 0;
        while t < m
            invariant
                m == out@.len(),
                0 <= t <= m,
                escapes_ok(raw@),
                out@ == canon_chars(raw@, false),
                forall|j: int| 0 <= j < t ==> !(#[trigger] dot_segment_at(out@, j)),
            decreases m - t,
        {
            if out.as_str().get_char(t) == '/' && t + 1 < m && out.as_str().get_char(t + 1)
                == '.' {
                let two_end = t + 2 == m;
                let reject: bool = if two_end {
                    true
                } else if out.as_str().get_char(t + 2) == '/' {
                    true
                } else if out.as_str().get_char(t + 2) == '.' && (t + 3 == m || out.as_str()
                    .get_char(t + 3) == '/') {
                    true
                } else {
                    false
                };
                if reject {
                    proof {
                        assert(dot_segment_at(out@, t as int));
                        assert(canonical(raw@) == out@);
                    }
                    let message = String::from_str("invalid path '").concat(raw).concat(
                        "': relative segment",
                    );
                    return Err(StoreError::InvalidInput { message });
                }
                proof {
                    assert(!dot_segment_at(out@, t as int));
                }
            }
            t = t + 1;
        }
        proof {
            assert(!has_dot_segment(out@));
        }
        if out.as_str().unicode_len() == 0 {
            let root = String::from_str("/");
            proof {
                reveal_strlit("/");
                assert(root@ =~= seq!['/']);
                assert(!has_dot_segment(root@)) by {
                    assert(forall|i: int|
                        0 <= i < root@.len() ==> !(#[trigger] dot_segment_at(root@, i)));
                }
            }
            return Ok(ObjectPath { raw: root });
        }
        proof {
            assert(canonical(raw@) == out@);
        }
        Ok(ObjectPath { raw: out })
    }

    /// The canonical text of the path.
    pub fn as_str(&self) -> (r: &str)
        ensures
            r@ == self@,
    {
        self.raw.as_str()
    }
}

impl PartialEq for ObjectPath {
    fn eq(&self, other: &ObjectPath) -> (r: bool) {
        self.raw == other.raw
    }
}

impl vstd::std_specs::cmp::PartialEqSpecImpl for ObjectPath {
    open spec fn obeys_eq_spec() -> bool {
        true
    }

    open spec fn eq_spec(&self, other: &ObjectPath) -> bool {
        self@ == other@
    }
}

} // verus!
