use vstd::map::*;
use vstd::prelude::*;
use vstd::string::*;

use crate::error::StoreError;

verus! {

/// The option key that configures how often a read is retried.
pub open spec fn retry_count_key() -> Seq<char> {
    "download_retry_count"@
}

/// A decimal digit.
pub open spec fn is_dec_digit(c: char) -> bool {
    48 <= c as int <= 57
}

/// Every character of the sequence is a decimal digit, and there is one.
pub open spec fn all_digits(s: Seq<char>) -> bool {
    s.len() > 0 && digits_only(s)
}

/// Every character of the sequence is a decimal digit.
pub open spec fn digits_only(s: Seq<char>) -> bool {
    forall|i: int| 0 <= i < s.len() ==> is_dec_digit(s[i])
}

/// The number a sequence of decimal digits denotes.
pub open spec fn dec_val(s: Seq<char>) -> int
    decreases s.len(),
{
    if s.len() == 0 {
        0
    } else {
        dec_val(s.drop_last()) * 10 + (s.last() as int - 48)
    }
}

proof fn lemma_dec_val_nonneg(s: Seq<char>)
    requires
        digits_only(s),
    ensures
        dec_val(s) >= 0,
    decreases s.len(),
{
    if s.len() > 0 {
        assert(digits_only(s.drop_last()));
        lemma_dec_val_nonneg(s.drop_last());
    }
}

proof fn lemma_dec_val_prefix(s: Seq<char>, i: int)
    requires
        digits_only(s),
        0 <= i <= s.len(),
    ensures
        dec_val(s.take(i)) <= dec_val(s),
    decreases s.len(),
{
    if i == s.len() {
        assert(s.take(i) =~= s);
    } else {
        assert(digits_only(s.drop_last()));
        assert(s.take(i) =~= s.drop_last().take(i));
        lemma_dec_val_prefix(s.drop_last(), i);
        lemma_dec_val_nonneg(s.drop_last());
    }
}

/// Reads a non-negative decimal integer. Returns the value exactly when
/// the whole string is made of digits and the value fits in a `u64`.
pub fn parse_u64(s: &String) -> (r: Option<u64>)
    ensures
        match r {
            Some(v) => all_digits(s@) && v as int == dec_val(s@),
            None => !(all_digits(s@) && dec_val(s@) <= u64::MAX as int),
        },
{
    let n = s.as_str().unicode_len();
    if n == 0 {
        return None;
    }
    let mut acc: u64 = 0;
    let mut i: usize = 0;
    while i < n
        invariant
            n == s@.len(),
            0 <= i <= n,
            digits_only(s@.take(i as int)),
            acc as int == dec_val(s@.take(i as int)),
        decreases n - i,
    {
        let c = s.as_str().get_char(i);
        let u = c as u32;
        if u < 48 || u > 57 {
            assert(!is_dec_digit(s@[i as int]));
            return None;
        }
        let d = (u - 48) as u64;
        let next = match acc.checked_mul(10) {
            Some(x) => x.checked_add(d),
            None => None,
        };
        match next {
            Some(x) => {
                proof {
                    assert(s@.take(i + 1).drop_last() =~= s@.take(i as int));
                    assert(s@.take(i + 1).last() == s@[i as int]);
                }
                acc = x;
            },
            None => {
                proof {
                    assert(s@.take(i + 1).drop_last() =~= s@.take(i as int));
                    assert(s@.take(i + 1).last() == s@[i as int]);
                    if all_digits(s@) {
                        assert(dec_val(s@.take(i + 1)) > u64::MAX as int);
                        lemma_dec_val_prefix(s@, i + 1);
                    }
                }
                return None;
            },
        }
        i = i + 1;
    }
    proof {
        assert(s@.take(n as int) =~= s@);
    }
    Some(acc)
}

/// What the configured retry count denotes: the documented default when
/// the option is absent, its numeric value when it parses as a
/// non-negative integer that fits in a `u64`, and nothing otherwise.
pub open spec fn retry_count_spec(m: Map<Seq<char>, Seq<char>>) -> Option<int> {
    if !m.contains_key(retry_count_key()) {
        Some(DEFAULT_DOWNLOAD_RETRY_COUNT as int)
    } else if all_digits(m[retry_count_key()]) && dec_val(m[retry_count_key()]) <= u64::MAX as int {
        Some(dec_val(m[retry_count_key()]))
    } else {
        None
    }
}

/// The message reported for a retry count that does not parse.
pub open spec fn invalid_retry_message(raw: Seq<char>) -> Seq<char> {
    "invalid download_retry_count value '"@ + raw + "'"@
}

/// How many times a read is retried when no count is configured.
pub const DEFAULT_DOWNLOAD_RETRY_COUNT: u64 = 3;

/// The generic string-keyed configuration bag that callers hand to the
/// provider. Keys are unique; the bag is viewed as a map from key
/// characters to value characters, so insertion order never matters to
/// the contracts.
#[derive(Debug)]
pub struct StorageOptions {
    pairs: Vec<(String, String)>,
}

/// No two entries share a key.
pub open spec fn keys_unique(ps: Seq<(String, String)>) -> bool {
    forall|i: int, j: int|
        0 <= i < j < ps.len() ==> ps[i].0@ != ps[j].0@
}

/// The map an entry list denotes: later entries win.
pub open spec fn map_of(ps: Seq<(String, String)>) -> Map<Seq<char>, Seq<char>>
    decreases ps.len(),
{
    if ps.len() == 0 {
        Map::empty()
    } else {
        map_of(ps.drop_last()).insert(ps.last().0@, ps.last().1@)
    }
}

impl View for StorageOptions {
    type V = Map<Seq<char>, Seq<char>>;

    closed spec fn view(&self) -> Map<Seq<char>, Seq<char>> {
        map_of(self.pairs@)
    }
}

/// A key is in the denoted map exactly when some entry bears it.
pub proof fn lemma_map_of_contains(ps: Seq<(String, String)>, k: Seq<char>)
    ensures
        map_of(ps).contains_key(k) <==> exists|i: int| 0 <= i < ps.len() && ps[i].0@ == k,
    decreases ps.len(),
{
    if ps.len() > 0 {
        lemma_map_of_contains(ps.drop_last(), k);
        if ps.last().0@ == k {
            assert(ps[ps.len() - 1].0@ == k);
        } else {
            if map_of(ps).contains_key(k) {
                let i = choose|i: int| 0 <= i < ps.drop_last().len() && ps.drop_last()[i].0@ == k;
                assert(ps[i].0@ == k);
            }
            if exists|i: int| 0 <= i < ps.len() && ps[i].0@ == k {
                let i = choose|i: int| 0 <= i < ps.len() && ps[i].0@ == k;
                assert(ps.drop_last()[i].0@ == k);
            }
        }
    }
}

/// With unique keys, the denoted map sends each entry's key to its value.
pub proof fn lemma_map_of_lookup(ps: Seq<(String, String)>, i: int)
    requires
        keys_unique(ps),
        0 <= i < ps.len(),
    ensures
        map_of(ps).contains_key(ps[i].0@),
        map_of(ps)[ps[i].0@] == ps[i].1@,
    decreases ps.len(),
{
    if i == ps.len() - 1 {
    } else {
        assert(keys_unique(ps.drop_last())) by {
            assert(forall|x: int, y: int|
                0 <= x < y < ps.drop_last().len() ==> ps.drop_last()[x].0@ == ps[x].0@
                    && ps.drop_last()[y].0@ == ps[y].0@);
        }
        lemma_map_of_lookup(ps.drop_last(), i);
        assert(ps[i].0@ != ps.last().0@);
    }
}

/// Removing the entry that bears a key removes that key from the map.
proof fn lemma_map_of_remove(ps: Seq<(String, String)>, i: int)
    requires
        keys_unique(ps),
        0 <= i < ps.len(),
    ensures
        map_of(ps.remove(i)) == map_of(ps).remove(ps[i].0@),
    decreases ps.len(),
{
    let k = ps[i].0@;
    if i == ps.len() - 1 {
        assert(ps.remove(i) =~= ps.drop_last());
        lemma_map_of_contains(ps.drop_last(), k);
        assert(forall|j: int| 0 <= j < ps.drop_last().len() ==> ps.drop_last()[j].0@ == ps[j].0@);
        assert(!map_of(ps.drop_last()).contains_key(k));
        assert_maps_equal!(map_of(ps.drop_last()).insert(k, ps[i].1@).remove(k),
            map_of(ps.drop_last()));
    } else {
        assert(keys_unique(ps.drop_last())) by {
            assert(forall|x: int, y: int|
                0 <= x < y < ps.drop_last().len() ==> ps.drop_last()[x].0@ == ps[x].0@
                    && ps.drop_last()[y].0@ == ps[y].0@);
        }
        lemma_map_of_remove(ps.drop_last(), i);
        assert(ps.remove(i).drop_last() =~= ps.drop_last().remove(i));
        assert(ps.remove(i).last() == ps.last());
        assert(k != ps.last().0@);
        assert_maps_equal!(map_of(ps.drop_last()).remove(k).insert(ps.last().0@, ps.last().1@),
            map_of(ps.drop_last()).insert(ps.last().0@, ps.last().1@).remove(k));
    }
}

impl StorageOptions {
    /// All well-formed bags keep their keys unique.
    pub closed spec fn wf(&self) -> bool {
        keys_unique(self.pairs@)
    }

    /// An empty configuration bag.
    pub fn new() -> (r: Self)
        ensures
            r.wf(),
            r@ == Map::<Seq<char>, Seq<char>>::empty(),
    {
        StorageOptions { pairs: Vec::new() }
    }

    /// The entries as key/value pairs, for handing to the backend.
    pub fn entries(&self) -> (r: &Vec<(String, String)>)
        ensures
            keys_unique(r@) == self.wf(),
            map_of(r@) == self@,
    {
        &self.pairs
    }

    /// Looks a key up.
    pub fn get(&self, key: &String) -> (r: Option<&String>)
        requires
            self.wf(),
        ensures
            match r {
                Some(v) => self@.contains_key(key@) && v@ == self@[key@],
                None => !self@.contains_key(key@),
            },
    {
        let n = self.pairs.len();
        let mut i: usize = 0;
        while i < n
            invariant
                n == self.pairs@.len(),
                0 <= i <= n,
                self.wf(),
                forall|j: int| 0 <= j < i ==> self.pairs@[j].0@ != key@,
            decreases n - i,
        {
            let p = &self.pairs[i];
            if p.0 == *key {
                proof {
                    lemma_map_of_lookup(self.pairs@, i as int);
                }
                return Some(&p.1);
            }
            i = i + 1;
        }
        proof {
            lemma_map_of_contains(self.pairs@, key@);
        }
        None
    }

    /// Binds a key to a value, replacing any earlier binding of that key.
    pub fn insert(&mut self, key: String, value: String)
        requires
            old(self).wf(),
        ensures
            final(self).wf(),
            final(self)@ == old(self)@.insert(key@, value@),
    {
        self.remove(&key);
        let ghost removed = self.pairs@;
        self.pairs.push((key, value));
        proof {
            assert(self.pairs@.drop_last() =~= removed);
            lemma_map_of_contains(removed, key@);
            assert(forall|j: int| #![trigger self.pairs@[j]]
                0 <= j < removed.len() ==> self.pairs@[j] == removed[j]);
            assert(keys_unique(self.pairs@));
            assert_maps_equal!(map_of(removed).insert(key@, value@),
                old(self)@.remove(key@).insert(key@, value@));
            assert_maps_equal!(old(self)@.remove(key@).insert(key@, value@),
                old(self)@.insert(key@, value@));
        }
    }

    /// Drops a key's binding, if there is one.
    pub fn remove(&mut self, key: &String)
        requires
            old(self).wf(),
        ensures
            final(self).wf(),
            final(self)@ == old(self)@.remove(key@),
    {
        let n = self.pairs.len();
        let mut i: usize = 0;
        while i < n
            invariant
                n == self.pairs@.len(),
                0 <= i <= n,
                self.pairs@ == old(self).pairs@,
                self.wf(),
                forall|j: int| 0 <= j < i ==> self.pairs@[j].0@ != key@,
            decreases n - i,
        {
            let p = &self.pairs[i];
            if p.0 == *key {
                proof {
                    lemma_map_of_remove(self.pairs@, i as int);
                }
                self.pairs.remove(i);
                proof {
                    let ps = old(self).pairs@;
                    assert(keys_unique(ps.remove(i as int))) by {
                        assert(forall|x: int| 0 <= x < ps.remove(i as int).len()
                            ==> ps.remove(i as int)[x] == (if x < i { ps[x] } else { ps[x + 1] }));
                    }
                }
                return;
            }
            i = i + 1;
        }
        proof {
            lemma_map_of_contains(self.pairs@, key@);
            assert_maps_equal!(old(self)@.remove(key@), old(self)@);
        }
    }

    /// The retry count the bag configures for reads: the documented
    /// default when absent, the parsed value when numeric, and an
    /// `InvalidInput` error naming the offending value otherwise.
    pub fn download_retry_count(&self) -> (r: Result<u64, StoreError>)
        requires
            self.wf(),
        ensures
            match retry_count_spec(self@) {
                Some(v) => r matches Ok(c) && c as int == v,
                None => r matches Err(e) && e is InvalidInput && e.text()
                    == invalid_retry_message(self@[retry_count_key()]),
            },
    {
        let key = String::from_str("download_retry_count");
        match self.get(&key) {
            None => Ok(DEFAULT_DOWNLOAD_RETRY_COUNT),
            Some(raw) => match parse_u64(raw) {
                Some(v) => Ok(v),
                None => {
                    let message = String::from_str("invalid download_retry_count value '").concat(
                        raw.as_str(),
                    ).concat("'");
                    Err(StoreError::InvalidInput { message })
                },
            },
        }
    }

    /// A value-equal copy of the bag.
    pub fn duplicate(&self) -> (r: Self)
        requires
            self.wf(),
        ensures
            r.wf(),
            r@ == self@,
    {
        let n = self.pairs.len();
        let mut out: Vec<(String, String)> = Vec::new();
        let mut i: usize = 0;
        while i < n
            invariant
                n == self.pairs@.len(),
                0 <= i <= n,
                out@.len() == i,
                forall|j: int| 0 <= j < i ==> out@[j] == self.pairs@[j],
            decreases n - i,
        {
            let p = &self.pairs[i];
            out.push((p.0.clone(), p.1.clone()));
            i = i + 1;
        }
        proof {
            assert(out@ =~= self.pairs@);
        }
        StorageOptions { pairs: out }
    }
}

} // verus!
