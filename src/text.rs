use vstd::prelude::*;

verus! {

/// `key` occurs in `s` starting at position `k`.
pub open spec fn occurs_at(s: Seq<char>, key: Seq<char>, k: int) -> bool {
    0 <= k && k + key.len() <= s.len() && s.subrange(k, k + key.len()) == key
}

/// `key` is a (contiguous) substring of `s`.
pub open spec fn contains_seq(s: Seq<char>, key: Seq<char>) -> bool {
    exists|k: int| occurs_at(s, key, k)
}

/// The parts joined with `sep` between each two neighbours.
pub open spec fn join(parts: Seq<Seq<char>>, sep: Seq<char>) -> Seq<char>
    decreases parts.len(),
{
    if parts.len() == 0 {
        Seq::empty()
    } else if parts.len() == 1 {
        parts[0]
    } else {
        join(parts.drop_last(), sep) + sep + parts.last()
    }
}

/// The text of each string of a sequence.
pub open spec fn texts(v: Seq<String>) -> Seq<Seq<char>> {
    v.map_values(|s: String| s@)
}

/// The characters of a string, as a vector.
pub fn chars_of(s: &str) -> (r: Vec<char>)
    ensures
        r@ == s@,
{
    let n = s.unicode_len();
    let mut r: Vec<char> = Vec::new();
    let mut i: usize = 0;
    while i < n
        invariant
            n == s@.len(),
            i <= n,
            r@ == s@.subrange(0, i as int),
        decreases n - i,
    {
        r.push(s.get_char(i));
        i = i + 1;
    }
    assert(r@ =~= s@);
    r
}

/// Whether two strings hold the same characters.
pub fn same_text(a: &str, b: &str) -> (r: bool)
    ensures
        r == (a@ == b@),
{
    let n = a.unicode_len();
    if n != b.unicode_len() {
        return false;
    }
    let mut i: usize = 0;
    while i < n
        invariant
            n == a@.len(),
            n == b@.len(),
            i <= n,
            a@.subrange(0, i as int) == b@.subrange(0, i as int),
        decreases n - i,
    {
        if a.get_char(i) != b.get_char(i) {
            assert(a@[i as int] != b@[i as int]);
            return false;
        }
        assert(a@.subrange(0, i + 1) =~= a@.subrange(0, i as int).push(a@[i as int]));
        assert(b@.subrange(0, i + 1) =~= b@.subrange(0, i as int).push(b@[i as int]));
        i = i + 1;
    }
    assert(a@ =~= a@.subrange(0, n as int));
    assert(b@ =~= b@.subrange(0, n as int));
    true
}

/// Whether the character `c` occurs in `s`.
pub fn has_char(s: &str, c: char) -> (r: bool)
    ensures
        r == s@.contains(c),
{
    let n = s.unicode_len();
    let mut i: usize = 0;
    while i < n
        invariant
            n == s@.len(),
            i <= n,
            forall|j: int| 0 <= j < i ==> s@[j] != c,
        decreases n - i,
    {
        if s.get_char(i) == c {
            return true;
        }
        i = i + 1;
    }
    false
}

/// Whether `key` occurs in `s` at position `k`.
fn matches_at(s: &Vec<char>, key: &Vec<char>, k: usize) -> (r: bool)
    requires
        k + key@.len() <= s@.len(),
    ensures
        r == occurs_at(s@, key@, k as int),
{
    let m = key.len();
    let n = s.len();
    let mut j: usize = 0;
    while j < m
        invariant
            m == key@.len(),
            k + m <= s@.len(),
            n == s@.len(),
            j <= m,
            forall|t: int| 0 <= t < j ==> s@[k + t] == key@[t],
        decreases m - j,
    {
        if s[k + j] != key[j] {
            assert(s@.subrange(k as int, k + m)[j as int] != key@[j as int]);
            return false;
        }
        j = j + 1;
    }
    assert(s@.subrange(k as int, k + m) =~= key@);
    true
}

/// Whether `key` is a substring of `s`.
pub fn contains_chars(s: &Vec<char>, key: &Vec<char>) -> (r: bool)
    ensures
        r == contains_seq(s@, key@),
{
    if key.len() > s.len() {
        assert(forall|k: int| !occurs_at(s@, key@, k));
        return false;
    }
    let last = s.len() - key.len();
    let mut k: usize = 0;
    while k <= last
        invariant
            last == s@.len() - key@.len(),
            k <= last,
            forall|t: int| 0 <= t < k ==> !occurs_at(s@, key@, t),
        ensures
            forall|t: int| 0 <= t <= last ==> !occurs_at(s@, key@, t),
        decreases last - k,
    {
        if matches_at(s, key, k) {
            return true;
        }
        if k == last {
            break;
        }
        k = k + 1;
    }
    assert forall|t: int| !occurs_at(s@, key@, t) by {
        if 0 <= t && t <= last {
        }
    }
    false
}

/// Appends `part` to `out`, preceded by `sep` unless it is the first of the
/// `count` parts written so far.
fn push_part(
    out: &mut String,
    count: usize,
    sep: &str,
    part: &str,
    Ghost(parts): Ghost<Seq<Seq<char>>>,
)
    requires
        old(out)@ == join(parts, sep@),
        count == parts.len(),
    ensures
        final(out)@ == join(parts.push(part@), sep@),
{
    assert(parts.push(part@).drop_last() =~= parts);
    if count == 0 {
        out.append(part);
        assert(old(out)@ =~= Seq::<char>::empty());
        assert(final(out)@ =~= part@);
    } else {
        out.append(sep);
        out.append(part);
        assert(final(out)@ =~= old(out)@ + sep@ + part@);
    }
}

/// The parts joined with `sep`.
pub fn join_strings(parts: &Vec<String>, sep: &str) -> (r: String)
    ensures
        r@ == join(texts(parts@), sep@),
{
    let mut out = String::new();
    let mut i: usize = 0;
    while i < parts.len()
        invariant
            i <= parts@.len(),
            out@ == join(texts(parts@.subrange(0, i as int)), sep@),
        decreases parts@.len() - i,
    {
        proof {
            assert(texts(parts@.subrange(0, i + 1)) =~= texts(parts@.subrange(0, i as int)).push(
                parts@[i as int]@,
            ));
        }
        push_part(&mut out, i, sep, parts[i].as_str(), Ghost(texts(parts@.subrange(0, i as int))));
        i = i + 1;
    }
    assert(parts@.subrange(0, i as int) =~= parts@);
    out
}

} // verus!
