use vstd::prelude::*;
use vstd::string::*;

verus! {

/// Character-exact comparison of two strings.
pub fn str_eq(a: &str, b: &str) -> (r: bool)
    ensures
        r == (a@ == b@),
{
    let n = a.unicode_len();
    if n != b.unicode_len() {
        return false;
    }
    let mut i: usize = 0;
    while i < n
        invariant
            n == a@.len(),
            n == b@.len(),
            0 <= i <= n,
            forall|j: int| 0 <= j < i ==> a@[j] == b@[j],
        decreases n - i,
    {
        if a.get_char(i) != b.get_char(i) {
            return false;
        }
        i = i + 1;
    }
    assert(a@ =~= b@);
    true
}

/// The characters of a string.
pub fn chars_of(s: &str) -> (v: Vec<char>)
    ensures
        v@ == s@,
{
    let n = s.unicode_len();
    let mut v: Vec<char> = Vec::new();
    let mut i: usize = 0;
    while i < n
        invariant
            n == s@.len(),
            0 <= i <= n,
            v@ == s@.take(i as int),
        decreases n - i,
    {
        let c = s.get_char(i);
        v.push(c);
        i = i + 1;
        assert(v@ =~= s@.take(i as int));
    }
    assert(s@.take(n as int) =~= s@);
    v
}

/// A string made of `a` followed by `b`.
pub fn join2(a: &str, b: &str) -> (s: String)
    ensures
        s@ == a@ + b@,
{
    String::from_str(a).concat(b)
}

/// A string made of `a`, `b` and `c` in turn.
pub fn join3(a: &str, b: &str, c: &str) -> (s: String)
    ensures
        s@ == a@ + b@ + c@,
{
    String::from_str(a).concat(b).concat(c)
}

/// An owned copy of a string.
pub fn copy_str(s: &str) -> (r: String)
    ensures
        r@ == s@,
{
    String::from_str(s)
}

/// An owned copy of an optional string.
pub fn copy_opt_str(s: &Option<String>) -> (r: Option<String>)
    ensures
        r.deep_view() == s.deep_view(),
{
    match s {
        Some(x) => Some(String::from_str(x.as_str())),
        None => None,
    }
}


/// The entries of a table, with their keys as characters.
pub open spec fn keyed<T>(s: Seq<(String, T)>) -> Seq<(Seq<char>, T)> {
    s.map_values(|e: (String, T)| (e.0@, e.1))
}

/// The value of the first entry with key `key`.
pub open spec fn assoc<T>(s: Seq<(Seq<char>, T)>, key: Seq<char>) -> Option<T>
    decreases s.len(),
{
    if s.len() == 0 {
        None
    } else if s[0].0 == key {
        Some(s[0].1)
    } else {
        assoc(s.drop_first(), key)
    }
}

/// The value of the first entry of `table` with key `key`.
pub fn lookup<'a, T>(table: &'a Vec<(String, T)>, key: &str) -> (r: Option<&'a T>)
    ensures
        match r {
            Some(v) => assoc(keyed(table@), key@) == Some(*v),
            None => assoc(keyed(table@), key@) is None,
        },
{
    let ghost ks = keyed(table@);
    let mut i: usize = 0;
    assert(ks.skip(0) =~= ks);
    while i < table.len()
        invariant
            ks == keyed(table@),
            ks.len() == table@.len(),
            0 <= i <= ks.len(),
            assoc(ks, key@) == assoc(ks.skip(i as int), key@),
        decreases table.len() - i,
    {
        let ghost rest = ks.skip(i as int);
        assert(rest.len() > 0);
        assert(rest[0] == ks[i as int]);
        assert(ks[i as int] == (table@[i as int].0@, table@[i as int].1));
        if str_eq(table[i].0.as_str(), key) {
            return Some(&table[i].1);
        }
        assert(rest.drop_first() =~= ks.skip(i + 1));
        i = i + 1;
    }
    None
}

/// No two entries of a table share a key.
pub open spec fn unique_keys<T>(s: Seq<(Seq<char>, T)>) -> bool {
    forall|i: int, j: int| 0 <= i < j < s.len() ==> s[i].0 != s[j].0
}

/// The value of the last entry with key `key`: what a map holds after the
/// entries were inserted into it in order.
pub open spec fn last_assoc<T>(s: Seq<(Seq<char>, T)>, key: Seq<char>) -> Option<T>
    decreases s.len(),
{
    if s.len() == 0 {
        None
    } else if s.last().0 == key {
        Some(s.last().1)
    } else {
        last_assoc(s.drop_last(), key)
    }
}

proof fn lemma_assoc_update_other<T>(s: Seq<(Seq<char>, T)>, i: int, x: (Seq<char>, T), k: Seq<char>)
    requires
        0 <= i < s.len(),
        s[i].0 != k,
        x.0 != k,
    ensures
        assoc(s.update(i, x), k) == assoc(s, k),
    decreases s.len(),
{
    if i == 0 {
        assert(s.update(i, x).drop_first() =~= s.drop_first());
    } else {
        assert(s.update(i, x).drop_first() =~= s.drop_first().update(i - 1, x));
        lemma_assoc_update_other(s.drop_first(), i - 1, x, k);
    }
}

proof fn lemma_assoc_at<T>(s: Seq<(Seq<char>, T)>, i: int, k: Seq<char>)
    requires
        0 <= i < s.len(),
        s[i].0 == k,
        forall|j: int| 0 <= j < i ==> s[j].0 != k,
    ensures
        assoc(s, k) == Some(s[i].1),
    decreases i,
{
    if i > 0 {
        assert forall|j: int| 0 <= j < i - 1 implies s.drop_first()[j].0 != k by {
            assert(s.drop_first()[j] == s[j + 1]);
        }
        lemma_assoc_at(s.drop_first(), i - 1, k);
    }
}

proof fn lemma_assoc_push_other<T>(s: Seq<(Seq<char>, T)>, x: (Seq<char>, T), k: Seq<char>)
    requires
        x.0 != k,
    ensures
        assoc(s.push(x), k) == assoc(s, k),
    decreases s.len(),
{
    if s.len() > 0 {
        assert(s.push(x).drop_first() =~= s.drop_first().push(x));
        lemma_assoc_push_other(s.drop_first(), x, k);
    } else {
        assert(s.push(x).drop_first() =~= s);
    }
}

/// Sets `key` to `val` in a table whose keys are unique: the entry with that key
/// is replaced, or a new entry is added at the end.
pub fn table_insert<T>(t: &mut Vec<(String, T)>, key: String, val: T)
    requires
        unique_keys(keyed(old(t)@)),
    ensures
        unique_keys(keyed(final(t)@)),
        forall|k: Seq<char>| #[trigger] assoc(keyed(final(t)@), k)
            == if k == key@ { Some(val) } else { assoc(keyed(old(t)@), k) },
{
    let ghost old_t = t@;
    let ghost ks = keyed(old_t);
    let mut i: usize = 0;
    while i < t.len()
        invariant
            t@ == old_t,
            old(t)@ == old_t,
            ks == keyed(old_t),
            ks.len() == old_t.len(),
            unique_keys(ks),
            i <= ks.len(),
            forall|j: int| 0 <= j < i ==> ks[j].0 != key@,
        decreases t.len() - i,
    {
        assert(ks[i as int] == (old_t[i as int].0@, old_t[i as int].1));
        if str_eq(t[i].0.as_str(), key.as_str()) {
            let ghost x = (key@, val);
            t.set(i, (key, val));
            proof {
                let ks2 = keyed(t@);
                assert(ks2 =~= ks.update(i as int, x));
                assert forall|k: Seq<char>| #[trigger] assoc(keyed(t@), k)
                    == if k == key@ { Some(val) } else { assoc(keyed(old_t), k) } by {
                    if k == x.0 {
                        lemma_assoc_at(ks2, i as int, k);
                    } else {
                        lemma_assoc_update_other(ks, i as int, x, k);
                    }
                }
            }
            return;
        }
        i = i + 1;
    }
    let ghost x = (key@, val);
    t.push((key, val));
    proof {
        let ks2 = keyed(t@);
        assert(ks2 =~= ks.push(x));
        assert forall|k: Seq<char>| #[trigger] assoc(ks2, k)
            == if k == x.0 { Some(x.1) } else { assoc(ks, k) } by {
            if k == x.0 {
                lemma_assoc_at(ks2, ks.len() as int, k);
            } else {
                lemma_assoc_push_other(ks, x, k);
            }
        }
    }
}

} // verus!
