//! Character-level text helpers shared by the parsers and report builders.
//!
//! Everything here works on sequences of Unicode scalar values, which is how
//! the specifications view `str` and `String`.
use vstd::prelude::*;

verus! {

// ---------------------------------------------------------------------------
// Conversions between strings and character vectors
// ---------------------------------------------------------------------------

/// The characters of `s`, in order.
pub fn chars_of(s: &str) -> (out: Vec<char>)
    ensures
        out@ == s@,
{
    let mut out: Vec<char> = Vec::new();
    for c in it: s.chars()
        invariant
            out@ == it.seq().take(it.index() as int),
            it.seq() == s@,
    {
        out.push(c);
    }
    out
}

/// `String::push`: appends one character at the end.
#[verifier::external_body]
fn push_char(s: &mut String, c: char)
    ensures
        final(s)@ == old(s)@.push(c),
{
    s.push(c);
}

/// A string holding exactly the characters of `cs`.
pub fn string_of(cs: &[char]) -> (out: String)
    ensures
        out@ == cs@,
{
    let mut out = String::new();
    let mut i: usize = 0;
    while i < cs.len()
        invariant
            i <= cs@.len(),
            out@ == cs@.take(i as int),
        decreases cs@.len() - i,
    {
        push_char(&mut out, cs[i]);
        assert(cs@.take(i + 1) == cs@.take(i as int).push(cs@[i as int]));
        i += 1;
    }
    assert(cs@.take(cs@.len() as int) == cs@);
    out
}

/// A fresh string with the characters of `s`.
pub fn owned(s: &str) -> (out: String)
    ensures
        out@ == s@,
{
    let cs = chars_of(s);
    string_of(cs.as_slice())
}

/// A copy of `b`.
pub fn copy_bytes(b: &[u8]) -> (out: Vec<u8>)
    ensures
        out@ == b@,
{
    let mut out: Vec<u8> = Vec::new();
    let mut i: usize = 0;
    while i < b.len()
        invariant
            i <= b@.len(),
            out@ == b@.take(i as int),
        decreases b@.len() - i,
    {
        out.push(b[i]);
        assert(b@.take(i + 1) == b@.take(i as int).push(b@[i as int]));
        i += 1;
    }
    assert(b@.take(b@.len() as int) == b@);
    out
}

/// Appends every character of `src` to `dst`.
pub fn extend_chars(dst: &mut Vec<char>, src: &[char])
    ensures
        final(dst)@ == old(dst)@ + src@,
{
    let mut i: usize = 0;
    while i < src.len()
        invariant
            i <= src@.len(),
            dst@ == old(dst)@ + src@.take(i as int),
        decreases src@.len() - i,
    {
        dst.push(src[i]);
        assert(src@.take(i + 1) == src@.take(i as int).push(src@[i as int]));
        i += 1;
    }
    assert(src@.take(src@.len() as int) == src@);
}

/// Appends every character of the string `src` to `dst`.
pub fn extend_str(dst: &mut Vec<char>, src: &str)
    ensures
        final(dst)@ == old(dst)@ + src@,
{
    let cs = chars_of(src);
    extend_chars(dst, cs.as_slice());
}

/// A copy of `cs[from..to]`.
pub fn slice_chars(cs: &[char], from: usize, to: usize) -> (out: Vec<char>)
    requires
        from <= to <= cs@.len(),
    ensures
        out@ == cs@.subrange(from as int, to as int),
{
    let mut out: Vec<char> = Vec::new();
    let mut i = from;
    while i < to
        invariant
            from <= i <= to <= cs@.len(),
            out@ == cs@.subrange(from as int, i as int),
        decreases to - i,
    {
        out.push(cs[i]);
        assert(cs@.subrange(from as int, i + 1) == cs@.subrange(from as int, i as int).push(
            cs@[i as int],
        ));
        i += 1;
    }
    out
}

/// Character-wise equality of two sequences.
pub fn chars_eq(a: &[char], b: &[char]) -> (eq: bool)
    ensures
        eq == (a@ == b@),
{
    if a.len() != b.len() {
        return false;
    }
    let mut i: usize = 0;
    while i < a.len()
        invariant
            a@.len() == b@.len(),
            i <= a@.len(),
            forall|j: int| 0 <= j < i ==> a@[j] == b@[j],
        decreases a@.len() - i,
    {
        if a[i] != b[i] {
            return false;
        }
        i += 1;
    }
    assert(a@ =~= b@);
    true
}

/// Equality of a character sequence with the characters of a string.
pub fn chars_eq_str(a: &[char], s: &str) -> (eq: bool)
    ensures
        eq == (a@ == s@),
{
    let b = chars_of(s);
    chars_eq(a, b.as_slice())
}

/// Equality of two strings by their characters.
pub fn str_eq(a: &str, b: &str) -> (eq: bool)
    ensures
        eq == (a@ == b@),
{
    let x = chars_of(a);
    let y = chars_of(b);
    chars_eq(x.as_slice(), y.as_slice())
}

// ---------------------------------------------------------------------------
// Prefixes, suffixes and substrings
// ---------------------------------------------------------------------------

/// `s` begins with `p`.
pub open spec fn has_prefix(s: Seq<char>, p: Seq<char>) -> bool {
    p.len() <= s.len() && s.subrange(0, p.len() as int) == p
}

/// `s` ends with `p`.
pub open spec fn has_suffix(s: Seq<char>, p: Seq<char>) -> bool {
    p.len() <= s.len() && s.subrange(s.len() - p.len(), s.len() as int) == p
}

/// `p` occurs in `s` starting at index `i`.
pub open spec fn occurs_at(s: Seq<char>, p: Seq<char>, i: int) -> bool {
    0 <= i && i + p.len() <= s.len() && s.subrange(i, i + p.len()) == p
}

/// `p` occurs somewhere in `s`.
pub open spec fn contains_seq(s: Seq<char>, p: Seq<char>) -> bool {
    exists|i: int| occurs_at(s, p, i)
}

/// Whether `cs` starts with `p`.
pub fn starts_with(cs: &[char], p: &[char]) -> (b: bool)
    ensures
        b == has_prefix(cs@, p@),
{
    if p.len() > cs.len() {
        return false;
    }
    let mut i: usize = 0;
    while i < p.len()
        invariant
            p@.len() <= cs@.len(),
            i <= p@.len(),
            forall|j: int| 0 <= j < i ==> cs@[j] == p@[j],
        decreases p@.len() - i,
    {
        if cs[i] != p[i] {
            assert(cs@.subrange(0, p@.len() as int)[i as int] != p@[i as int]);
            return false;
        }
        i += 1;
    }
    assert(cs@.subrange(0, p@.len() as int) =~= p@);
    true
}

/// Whether `cs` starts with the characters of `p`.
pub fn starts_with_str(cs: &[char], p: &str) -> (b: bool)
    ensures
        b == has_prefix(cs@, p@),
{
    let pc = chars_of(p);
    starts_with(cs, pc.as_slice())
}

/// Whether `p` occurs in `cs` at index `at`.
pub fn matches_at(cs: &[char], p: &[char], at: usize) -> (b: bool)
    ensures
        b == occurs_at(cs@, p@, at as int),
{
    if at > cs.len() || p.len() > cs.len() - at {
        return false;
    }
    let n = cs.len();
    let mut i: usize = 0;
    while i < p.len()
        invariant
            n == cs@.len(),
            at + p@.len() <= cs@.len(),
            i <= p@.len(),
            forall|j: int| 0 <= j < i ==> cs@[at + j] == p@[j],
        decreases p@.len() - i,
    {
        assert(at + i < n);
        if cs[at + i] != p[i] {
            assert(cs@.subrange(at as int, at + p@.len())[i as int] != p@[i as int]);
            return false;
        }
        i += 1;
    }
    assert(cs@.subrange(at as int, at + p@.len()) =~= p@);
    true
}

/// Whether `cs` ends with `p`.
pub fn ends_with(cs: &[char], p: &[char]) -> (b: bool)
    ensures
        b == has_suffix(cs@, p@),
{
    if p.len() > cs.len() {
        return false;
    }
    matches_at(cs, p, cs.len() - p.len())
}

/// The index of the first occurrence of `p` in `cs`, if any.
pub fn find(cs: &[char], p: &[char]) -> (r: Option<usize>)
    ensures
        r matches Some(i) ==> occurs_at(cs@, p@, i as int) && forall|j: int|
            0 <= j < i ==> !occurs_at(cs@, p@, j),
        r is None ==> !contains_seq(cs@, p@),
{
    let mut i: usize = 0;
    while i < cs.len()
        invariant
            i <= cs@.len(),
            forall|j: int| 0 <= j < i ==> !occurs_at(cs@, p@, j),
        decreases cs@.len() - i,
    {
        if matches_at(cs, p, i) {
            return Some(i);
        }
        i += 1;
    }
    if matches_at(cs, p, i) {
        return Some(i);
    }
    assert(!contains_seq(cs@, p@)) by {
        if contains_seq(cs@, p@) {
            let j = choose|j: int| occurs_at(cs@, p@, j);
            assert(j <= cs@.len());
        }
    }
    None
}

/// Whether `p` occurs in `cs`.
pub fn contains(cs: &[char], p: &[char]) -> (b: bool)
    ensures
        b == contains_seq(cs@, p@),
{
    match find(cs, p) {
        Some(_) => true,
        None => false,
    }
}

/// A one-character prefix or suffix is a test of the first or last character.
pub proof fn lemma_one_char_affix(t: Seq<char>, c: char)
    ensures
        has_prefix(t, seq![c]) <==> (t.len() >= 1 && t[0] == c),
        has_suffix(t, seq![c]) <==> (t.len() >= 1 && t[t.len() - 1] == c),
{
    if t.len() >= 1 {
        assert(t.subrange(0, 1) =~= seq![t[0]]);
        assert(t.subrange(t.len() - 1, t.len() as int) =~= seq![t[t.len() - 1]]);
        if has_prefix(t, seq![c]) {
            assert(t.subrange(0, 1)[0] == c);
        }
        if has_suffix(t, seq![c]) {
            assert(t.subrange(t.len() - 1, t.len() as int)[0] == c);
        }
    }
}

/// Whether the characters of `p` occur in `cs`.
pub fn contains_str(cs: &[char], p: &str) -> (b: bool)
    ensures
        b == contains_seq(cs@, p@),
{
    let pc = chars_of(p);
    contains(cs, pc.as_slice())
}

/// The first index at which `c` occurs in `s`, from index `from` on.
pub open spec fn first_index_from(s: Seq<char>, c: char, from: int) -> int
    decreases s.len() - from,
{
    if from < 0 || from >= s.len() {
        -1
    } else if s[from] == c {
        from
    } else {
        first_index_from(s, c, from + 1)
    }
}

/// The index of the first `c` in `s`, or -1.
pub open spec fn first_index(s: Seq<char>, c: char) -> int {
    first_index_from(s, c, 0)
}

/// The index of the last `c` in `s`, or -1.
pub open spec fn last_index(s: Seq<char>, c: char) -> int
    decreases s.len(),
{
    if s.len() == 0 {
        -1
    } else if s.last() == c {
        s.len() - 1
    } else {
        last_index(s.drop_last(), c)
    }
}

/// Facts about `first_index_from`.
pub proof fn lemma_first_index_from(s: Seq<char>, c: char, from: int)
    requires
        0 <= from <= s.len(),
    ensures
        -1 <= first_index_from(s, c, from) < s.len(),
        first_index_from(s, c, from) == -1 ==> forall|j: int| from <= j < s.len() ==> s[j] != c,
        first_index_from(s, c, from) >= 0 ==> from <= first_index_from(s, c, from) && s[first_index_from(s, c, from)] == c
            && forall|j: int| from <= j < first_index_from(s, c, from) ==> s[j] != c,
    decreases s.len() - from,
{
    if from < s.len() && s[from] != c {
        lemma_first_index_from(s, c, from + 1);
    }
}

/// Facts about `first_index`.
pub proof fn lemma_first_index(s: Seq<char>, c: char)
    ensures
        -1 <= first_index(s, c) < s.len(),
        first_index(s, c) == -1 <==> !s.contains(c),
        first_index(s, c) >= 0 ==> s[first_index(s, c)] == c && forall|j: int|
            0 <= j < first_index(s, c) ==> s[j] != c,
{
    lemma_first_index_from(s, c, 0);
    if first_index(s, c) == -1 {
        if s.contains(c) {
            let k = choose|k: int| 0 <= k < s.len() && s[k] == c;
            assert(s[k] != c);
        }
    } else {
        assert(s[first_index(s, c)] == c);
    }
}

/// Facts about `last_index`.
pub proof fn lemma_last_index(s: Seq<char>, c: char)
    ensures
        -1 <= last_index(s, c) < s.len(),
        last_index(s, c) == -1 <==> !s.contains(c),
        last_index(s, c) >= 0 ==> s[last_index(s, c)] == c && forall|j: int|
            last_index(s, c) < j < s.len() ==> s[j] != c,
    decreases s.len(),
{
    if s.len() > 0 {
        if s.last() != c {
            let t = s.drop_last();
            lemma_last_index(t, c);
            assert(last_index(s, c) == last_index(t, c));
            if s.contains(c) {
                let k = choose|k: int| 0 <= k < s.len() && s[k] == c;
                assert(k != s.len() - 1);
                assert(t[k] == c);
            }
            if t.contains(c) {
                let k = choose|k: int| 0 <= k < t.len() && t[k] == c;
                assert(s[k] == c);
            }
            if last_index(s, c) >= 0 {
                assert forall|j: int| last_index(s, c) < j < s.len() implies s[j] != c by {
                    if j < s.len() - 1 {
                        assert(t[j] == s[j]);
                    }
                }
            }
        } else {
            assert(s[s.len() - 1] == c);
        }
    }
}

/// The index of the first `c` in `cs`.
pub fn find_char(cs: &[char], c: char) -> (r: Option<usize>)
    ensures
        r matches Some(i) ==> i as int == first_index(cs@, c),
        r is None ==> first_index(cs@, c) == -1,
{
    proof {
        lemma_first_index(cs@, c);
    }
    let mut i: usize = 0;
    while i < cs.len()
        invariant
            i <= cs@.len(),
            forall|j: int| 0 <= j < i ==> cs@[j] != c,
        decreases cs@.len() - i,
    {
        if cs[i] == c {
            proof {
                lemma_first_index_from(cs@, c, 0);
                if first_index(cs@, c) != i {
                    assert(first_index(cs@, c) < i || first_index(cs@, c) == -1);
                }
            }
            return Some(i);
        }
        i += 1;
    }
    proof {
        lemma_first_index_from(cs@, c, 0);
    }
    None
}

/// The index of the last `c` in `cs`.
pub fn rfind_char(cs: &[char], c: char) -> (r: Option<usize>)
    ensures
        r matches Some(i) ==> i as int == last_index(cs@, c),
        r is None ==> last_index(cs@, c) == -1,
{
    proof {
        lemma_last_index(cs@, c);
    }
    let mut i: usize = cs.len();
    while i > 0
        invariant
            i <= cs@.len(),
            forall|j: int| i <= j < cs@.len() ==> cs@[j] != c,
        decreases i,
    {
        if cs[i - 1] == c {
            proof {
                lemma_last_index(cs@, c);
                let l = last_index(cs@, c);
                assert(cs@.contains(c)) by {
                    assert(cs@[i - 1] == c);
                }
                assert(l >= 0);
                assert(cs@[l] == c);
                if l < i - 1 {
                    assert(cs@[i - 1] != c);
                }
            }
            return Some(i - 1);
        }
        i -= 1;
    }
    proof {
        if cs@.contains(c) {
            let k = choose|k: int| 0 <= k < cs@.len() && cs@[k] == c;
            assert(cs@[k] != c);
        }
    }
    None
}

/// The pieces of `s` between occurrences of `c` (`str::split` with a
/// character separator): one more piece than there are separators.
pub open spec fn split_spec(s: Seq<char>, c: char) -> Seq<Seq<char>>
    decreases s.len(),
{
    let i = first_index(s, c);
    if i < 0 || i >= s.len() {
        seq![s]
    } else {
        seq![s.subrange(0, i)].add(split_spec(s.subrange(i + 1, s.len() as int), c))
    }
}

/// The pieces of `cs` between occurrences of `c`.
pub fn split_char(cs: &[char], c: char) -> (out: Vec<Vec<char>>)
    ensures
        out@.len() == split_spec(cs@, c).len(),
        forall|i: int| 0 <= i < out@.len() ==> #[trigger] out@[i]@ == split_spec(cs@, c)[i],
{
    let mut out: Vec<Vec<char>> = Vec::new();
    let mut rest: Vec<char> = slice_chars(cs, 0, cs.len());
    let ghost mut done: Seq<Seq<char>> = Seq::empty();
    assert(cs@.subrange(0, cs@.len() as int) == cs@);
    loop
        invariant
            split_spec(cs@, c) == done + split_spec(rest@, c),
            out@.len() == done.len(),
            forall|i: int| 0 <= i < out@.len() ==> #[trigger] out@[i]@ == done[i],
        decreases rest@.len(),
    {
        proof {
            lemma_first_index(rest@, c);
        }
        let found = find_char(rest.as_slice(), c);
        match found {
            None => {
                proof {
                    done = done.push(rest@);
                }
                out.push(rest);
                assert(split_spec(cs@, c) == done);
                return out;
            },
            Some(i) => {
                let n = rest.len();
                assert(i < n);
                let piece = slice_chars(rest.as_slice(), 0, i);
                let tail = slice_chars(rest.as_slice(), i + 1, n);
                proof {
                    assert(split_spec(rest@, c) == seq![piece@].add(split_spec(tail@, c)));
                    assert(done + split_spec(rest@, c) == done.push(piece@) + split_spec(tail@, c));
                    done = done.push(piece@);
                }
                out.push(piece);
                rest = tail;
            },
        }
    }
}

/// `l` without one trailing carriage return.
pub open spec fn strip_cr(l: Seq<char>) -> Seq<char> {
    if l.len() > 0 && l.last() == '\r' {
        l.drop_last()
    } else {
        l
    }
}

/// What `str::lines` yields: the pieces between line feeds, each that was
/// ended by a line feed losing one trailing carriage return, and without an
/// empty piece after the last line feed.
pub open spec fn lines_spec(s: Seq<char>) -> Seq<Seq<char>> {
    let pieces = split_spec(s, '\n');
    let n = pieces.len();
    let ended = Seq::new((n - 1) as nat, |i: int| strip_cr(pieces[i]));
    if pieces[n - 1].len() == 0 {
        ended
    } else {
        ended.push(pieces[n - 1])
    }
}

/// The lines of `cs`, as `str::lines` yields them.
pub fn lines(cs: &[char]) -> (out: Vec<Vec<char>>)
    ensures
        out@.len() == lines_spec(cs@).len(),
        forall|i: int| 0 <= i < out@.len() ==> #[trigger] out@[i]@ == lines_spec(cs@)[i],
{
    let pieces = split_char(cs, '\n');
    let ghost sp = split_spec(cs@, '\n');
    assert(sp.len() >= 1);
    let n = pieces.len();
    let ghost ended = Seq::new((sp.len() - 1) as nat, |i: int| strip_cr(sp[i]));
    let mut out: Vec<Vec<char>> = Vec::new();
    let mut i: usize = 0;
    while i + 1 < n
        invariant
            n == pieces@.len(),
            n == sp.len(),
            n >= 1,
            i + 1 <= n,
            ended == Seq::new((sp.len() - 1) as nat, |i: int| strip_cr(sp[i])),
            forall|k: int| 0 <= k < n ==> #[trigger] pieces@[k]@ == sp[k],
            out@.len() == i,
            forall|k: int| 0 <= k < i ==> #[trigger] out@[k]@ == ended[k],
        decreases n - i,
    {
        let p = &pieces[i];
        let m = p.len();
        if m > 0 && p[m - 1] == '\r' {
            out.push(slice_chars(p.as_slice(), 0, m - 1));
        } else {
            out.push(slice_chars(p.as_slice(), 0, m));
        }
        assert(p@.subrange(0, m as int) == p@);
        i += 1;
    }
    if pieces[n - 1].len() > 0 {
        let last = &pieces[n - 1];
        out.push(slice_chars(last.as_slice(), 0, last.len()));
        assert(last@.subrange(0, last@.len() as int) == last@);
    }
    out
}

// ---------------------------------------------------------------------------
// UTF-8 lengths
// ---------------------------------------------------------------------------

/// The bytes of `c` in UTF-8 (`char::len_utf8`).
pub open spec fn char_utf8_len(c: char) -> nat {
    if (c as u32) < 0x80 {
        1
    } else if (c as u32) < 0x800 {
        2
    } else if (c as u32) < 0x10000 {
        3
    } else {
        4
    }
}

/// The bytes of `s` in UTF-8 (`str::len`).
pub open spec fn utf8_len(s: Seq<char>) -> nat
    decreases s.len(),
{
    if s.len() == 0 {
        0
    } else {
        utf8_len(s.drop_last()) + char_utf8_len(s.last())
    }
}

/// Whether `n` bytes into `s` is the boundary between two characters.
pub open spec fn is_boundary(s: Seq<char>, n: nat) -> bool {
    exists|k: int| 0 <= k <= s.len() && utf8_len(s.take(k)) == n
}

/// The characters of `s` in its first `n` bytes, when `n` is a boundary.
pub open spec fn byte_prefix(s: Seq<char>, n: nat) -> Seq<char> {
    s.take(choose|k: int| 0 <= k <= s.len() && utf8_len(s.take(k)) == n)
}

/// Longer prefixes have more bytes.
pub proof fn lemma_utf8_prefix_increasing(s: Seq<char>, a: int, b: int)
    requires
        0 <= a < b <= s.len(),
    ensures
        utf8_len(s.take(a)) < utf8_len(s.take(b)),
    decreases b - a,
{
    assert(s.take(b).drop_last() == s.take(b - 1));
    if a < b - 1 {
        lemma_utf8_prefix_increasing(s, a, b - 1);
    }
}

/// The bytes of `cs` in UTF-8.
pub fn utf8_len_of(cs: &[char]) -> (n: u128)
    ensures
        n == utf8_len(cs@),
{
    let mut n: u128 = 0;
    let mut i: usize = 0;
    while i < cs.len()
        invariant
            i <= cs@.len(),
            n == utf8_len(cs@.take(i as int)),
            n <= 4 * i,
        decreases cs@.len() - i,
    {
        let c = cs[i];
        proof {
            assert(cs@.take(i + 1).drop_last() == cs@.take(i as int));
            assert(cs@.take(i + 1).last() == c);
        }
        let u = c as u32;
        let w: u128 = if u < 0x80 {
            1
        } else if u < 0x800 {
            2
        } else if u < 0x10000 {
            3
        } else {
            4
        };
        n = n + w;
        i += 1;
    }
    assert(cs@.take(cs@.len() as int) == cs@);
    n
}

/// The characters of `cs` in its first `n` bytes.
pub fn take_bytes(cs: &[char], n: u128) -> (out: Vec<char>)
    requires
        is_boundary(cs@, n as nat),
    ensures
        out@ == byte_prefix(cs@, n as nat),
{
    let ghost k0 = choose|k: int| 0 <= k <= cs@.len() && utf8_len(cs@.take(k)) == n;
    let mut acc: u128 = 0;
    let mut i: usize = 0;
    while acc < n && i < cs.len()
        invariant
            i <= cs@.len(),
            acc == utf8_len(cs@.take(i as int)),
            0 <= k0 <= cs@.len(),
            utf8_len(cs@.take(k0)) == n,
            i <= k0,
            acc <= n,
        decreases cs@.len() - i,
    {
        let c = cs[i];
        proof {
            assert(cs@.take(i + 1).drop_last() == cs@.take(i as int));
            assert(cs@.take(i + 1).last() == c);
            if k0 == i {
                assert(false);
            }
        }
        let u = c as u32;
        let w: u128 = if u < 0x80 {
            1
        } else if u < 0x800 {
            2
        } else if u < 0x10000 {
            3
        } else {
            4
        };
        proof {
            if i + 1 < k0 {
                lemma_utf8_prefix_increasing(cs@, i + 1, k0);
            }
        }
        acc = acc + w;
        i += 1;
    }
    proof {
        if i < k0 {
            lemma_utf8_prefix_increasing(cs@, i as int, k0);
        }
        assert(i == k0);
    }
    slice_chars(cs, 0, i)
}

// ---------------------------------------------------------------------------
// Whitespace
// ---------------------------------------------------------------------------

/// Rust's `char::is_whitespace`: the Unicode `White_Space` property.
pub open spec fn is_white(c: char) -> bool {
    let u = c as u32;
    (0x9 <= u <= 0xd) || u == 0x20 || u == 0x85 || u == 0xa0 || u == 0x1680 || (0x2000 <= u
        <= 0x200a) || u == 0x2028 || u == 0x2029 || u == 0x202f || u == 0x205f || u == 0x3000
}

/// `s` with its leading whitespace removed.
pub open spec fn trim_start_spec(s: Seq<char>) -> Seq<char>
    decreases s.len(),
{
    if s.len() > 0 && is_white(s[0]) {
        trim_start_spec(s.drop_first())
    } else {
        s
    }
}

/// `s` with its trailing whitespace removed.
pub open spec fn trim_end_spec(s: Seq<char>) -> Seq<char>
    decreases s.len(),
{
    if s.len() > 0 && is_white(s.last()) {
        trim_end_spec(s.drop_last())
    } else {
        s
    }
}

/// `str::trim`: `s` without leading and trailing whitespace.
pub open spec fn trim_spec(s: Seq<char>) -> Seq<char> {
    trim_end_spec(trim_start_spec(s))
}

/// Whether `c` is whitespace.
pub fn char_is_white(c: char) -> (b: bool)
    ensures
        b == is_white(c),
{
    let u = c as u32;
    (0x9 <= u && u <= 0xd) || u == 0x20 || u == 0x85 || u == 0xa0 || u == 0x1680 || (0x2000 <= u
        && u <= 0x200a) || u == 0x2028 || u == 0x2029 || u == 0x202f || u == 0x205f || u == 0x3000
}

proof fn lemma_trim_start_skip(s: Seq<char>, i: int)
    requires
        0 <= i <= s.len(),
        forall|j: int| 0 <= j < i ==> is_white(s[j]),
    ensures
        trim_start_spec(s) == trim_start_spec(s.subrange(i, s.len() as int)),
    decreases i,
{
    if i > 0 {
        assert(s.drop_first().subrange(i - 1, s.drop_first().len() as int) =~= s.subrange(
            i,
            s.len() as int,
        ));
        lemma_trim_start_skip(s.drop_first(), i - 1);
    } else {
        assert(s.subrange(0, s.len() as int) =~= s);
    }
}

proof fn lemma_trim_end_cut(s: Seq<char>, i: int)
    requires
        0 <= i <= s.len(),
        forall|j: int| i <= j < s.len() ==> is_white(s[j]),
    ensures
        trim_end_spec(s) == trim_end_spec(s.subrange(0, i)),
    decreases s.len() - i,
{
    if i < s.len() {
        assert(s.drop_last().subrange(0, i) =~= s.subrange(0, i));
        lemma_trim_end_cut(s.drop_last(), i);
    } else {
        assert(s.subrange(0, s.len() as int) =~= s);
    }
}

/// `str::trim` on a character sequence.
pub fn trim(cs: &[char]) -> (out: Vec<char>)
    ensures
        out@ == trim_spec(cs@),
{
    let mut start: usize = 0;
    while start < cs.len() && char_is_white(cs[start])
        invariant
            start <= cs@.len(),
            forall|j: int| 0 <= j < start ==> is_white(cs@[j]),
        decreases cs@.len() - start,
    {
        start += 1;
    }
    proof {
        lemma_trim_start_skip(cs@, start as int);
    }
    let ghost rest = cs@.subrange(start as int, cs@.len() as int);
    assert(rest.len() == 0 || !is_white(rest[0]));
    assert(trim_start_spec(rest) == rest);
    let mut end: usize = cs.len();
    while end > start && char_is_white(cs[end - 1])
        invariant
            start <= end <= cs@.len(),
            forall|j: int| end <= j < cs@.len() ==> is_white(cs@[j]),
        decreases end,
    {
        end -= 1;
    }
    proof {
        let k = (end - start) as int;
        assert forall|j: int| k <= j < rest.len() implies is_white(rest[j]) by {
            assert(rest[j] == cs@[start + j]);
        }
        lemma_trim_end_cut(rest, k);
        let cut = rest.subrange(0, k);
        assert(cut =~= cs@.subrange(start as int, end as int));
        if cut.len() > 0 {
            assert(cut.last() == cs@[end - 1]);
        }
        assert(trim_end_spec(cut) == cut);
    }
    slice_chars(cs, start, end)
}

/// `str::trim` on a string.
pub fn trim_str(s: &str) -> (out: Vec<char>)
    ensures
        out@ == trim_spec(s@),
{
    let cs = chars_of(s);
    trim(cs.as_slice())
}

// ---------------------------------------------------------------------------
// Replacement
// ---------------------------------------------------------------------------

/// `str::replace` for a non-empty pattern: every non-overlapping occurrence of
/// `p`, scanning from the left, is replaced by `r`.
pub open spec fn replace_spec(s: Seq<char>, p: Seq<char>, r: Seq<char>) -> Seq<char>
    recommends
        p.len() > 0,
    decreases s.len(),
{
    if s.len() == 0 {
        Seq::empty()
    } else if p.len() > 0 && has_prefix(s, p) {
        r + replace_spec(s.subrange(p.len() as int, s.len() as int), p, r)
    } else {
        seq![s[0]] + replace_spec(s.drop_first(), p, r)
    }
}

/// Replacing a pattern that does not occur leaves the text as it is.
pub proof fn lemma_replace_absent(s: Seq<char>, p: Seq<char>, r: Seq<char>)
    requires
        p.len() > 0,
        !contains_seq(s, p),
    ensures
        replace_spec(s, p, r) == s,
    decreases s.len(),
{
    if s.len() > 0 {
        if has_prefix(s, p) {
            assert(occurs_at(s, p, 0));
        }
        let t = s.drop_first();
        if contains_seq(t, p) {
            let i = choose|i: int| occurs_at(t, p, i);
            assert(s.subrange(i + 1, i + 1 + p.len()) == t.subrange(i, i + p.len()));
            assert(occurs_at(s, p, i + 1));
        }
        lemma_replace_absent(t, p, r);
        assert(seq![s[0]] + t == s);
    }
}

/// Replaces every occurrence of `p` in `cs` by `r`, as `str::replace` does.
pub fn replace_all(cs: &[char], p: &[char], r: &[char]) -> (out: Vec<char>)
    requires
        p@.len() > 0,
    ensures
        out@ == replace_spec(cs@, p@, r@),
{
    let mut out: Vec<char> = Vec::new();
    let mut i: usize = 0;
    assert(cs@.subrange(0, cs@.len() as int) =~= cs@);
    assert(out@ + cs@ =~= cs@);
    while i < cs.len()
        invariant
            p@.len() > 0,
            i <= cs@.len(),
            out@ + replace_spec(cs@.subrange(i as int, cs@.len() as int), p@, r@) == replace_spec(
                cs@,
                p@,
                r@,
            ),
        decreases cs@.len() - i,
    {
        let ghost tail = cs@.subrange(i as int, cs@.len() as int);
        let ghost old_out = out@;
        if matches_at(cs, p, i) {
            assert(has_prefix(tail, p@)) by {
                assert(tail.subrange(0, p@.len() as int) =~= cs@.subrange(
                    i as int,
                    i + p@.len(),
                ));
            }
            assert(tail.subrange(p@.len() as int, tail.len() as int) =~= cs@.subrange(
                i + p@.len(),
                cs@.len() as int,
            ));
            extend_chars(&mut out, r);
            assert(out@ == old_out + r@);
            assert(old_out + r@ + replace_spec(
                cs@.subrange(i + p@.len(), cs@.len() as int),
                p@,
                r@,
            ) =~= old_out + (r@ + replace_spec(
                cs@.subrange(i + p@.len(), cs@.len() as int),
                p@,
                r@,
            )));
            i += p.len();
        } else {
            assert(!has_prefix(tail, p@)) by {
                if has_prefix(tail, p@) {
                    assert(tail.subrange(0, p@.len() as int) =~= cs@.subrange(
                        i as int,
                        i + p@.len(),
                    ));
                }
            }
            assert(tail.drop_first() =~= cs@.subrange(i + 1, cs@.len() as int));
            out.push(cs[i]);
            assert(old_out.push(cs@[i as int]) + replace_spec(
                cs@.subrange(i + 1, cs@.len() as int),
                p@,
                r@,
            ) =~= old_out + (seq![cs@[i as int]] + replace_spec(
                cs@.subrange(i + 1, cs@.len() as int),
                p@,
                r@,
            )));
            i += 1;
        }
    }
    assert(out@ + replace_spec(cs@.subrange(i as int, cs@.len() as int), p@, r@) =~= out@);
    out
}

// ---------------------------------------------------------------------------
// ASCII case
// ---------------------------------------------------------------------------

/// `char::to_ascii_lowercase`.
pub open spec fn ascii_lower(c: char) -> char {
    if 'A' <= c <= 'Z' {
        ((c as u32) + 32) as char
    } else {
        c
    }
}

/// `str::eq_ignore_ascii_case`.
pub open spec fn eq_ignore_ascii_case_spec(a: Seq<char>, b: Seq<char>) -> bool {
    a.len() == b.len() && forall|i: int| 0 <= i < a.len() ==> ascii_lower(a[i]) == ascii_lower(b[i])
}

/// The ASCII lowercase of `c`.
pub fn char_ascii_lower(c: char) -> (out: char)
    ensures
        out == ascii_lower(c),
{
    if 'A' <= c && c <= 'Z' {
        let u = (c as u32) + 32;
        assert(0x61 <= u <= 0x7a);
        char_from_ascii(u)
    } else {
        c
    }
}

/// The character with ASCII code `u`.
fn char_from_ascii(u: u32) -> (c: char)
    requires
        u < 128,
    ensures
        c == u as char,
{
    let b = u as u8;
    b as char
}

/// Whether `a` and `b` are equal ignoring ASCII case.
pub fn eq_ignore_ascii_case(a: &[char], b: &[char]) -> (eq: bool)
    ensures
        eq == eq_ignore_ascii_case_spec(a@, b@),
{
    if a.len() != b.len() {
        return false;
    }
    let mut i: usize = 0;
    while i < a.len()
        invariant
            a@.len() == b@.len(),
            i <= a@.len(),
            forall|j: int| 0 <= j < i ==> ascii_lower(a@[j]) == ascii_lower(b@[j]),
        decreases a@.len() - i,
    {
        if char_ascii_lower(a[i]) != char_ascii_lower(b[i]) {
            return false;
        }
        i += 1;
    }
    true
}

// ---------------------------------------------------------------------------
// Unicode case mappings (std)
// ---------------------------------------------------------------------------

/// What `str::to_lowercase` returns for a string with the characters `s`.
pub uninterp spec fn unicode_lowercase(s: Seq<char>) -> Seq<char>;

/// What `str::to_uppercase` returns for a string with the characters `s`.
pub uninterp spec fn unicode_uppercase(s: Seq<char>) -> Seq<char>;

/// What `char::is_lowercase` returns for `c`.
pub uninterp spec fn unicode_is_lowercase(c: char) -> bool;

/// Every character of `s` is ASCII.
pub open spec fn ascii_text(s: Seq<char>) -> bool {
    forall|i: int| 0 <= i < s.len() ==> (#[trigger] s[i] as u32) < 128
}

/// The ASCII uppercase of `c`.
pub open spec fn ascii_upper(c: char) -> char {
    if 'a' <= c <= 'z' {
        ((c as u32) - 32) as char
    } else {
        c
    }
}

/// The lowercase of `s`: on ASCII text the ASCII mapping, which std's
/// Unicode mapping is there; otherwise std's mapping.
pub open spec fn lower_text(s: Seq<char>) -> Seq<char> {
    if ascii_text(s) {
        s.map_values(|c: char| ascii_lower(c))
    } else {
        unicode_lowercase(s)
    }
}

/// The uppercase of `s`: on ASCII text the ASCII mapping, which std's
/// Unicode mapping is there; otherwise std's mapping.
pub open spec fn upper_text(s: Seq<char>) -> Seq<char> {
    if ascii_text(s) {
        s.map_values(|c: char| ascii_upper(c))
    } else {
        unicode_uppercase(s)
    }
}

/// Whether `c` is lowercase: for an ASCII character, whether it is one of
/// `a` to `z`; otherwise std's `Lowercase` property.
pub open spec fn lower_char(c: char) -> bool {
    if (c as u32) < 128 {
        'a' <= c <= 'z'
    } else {
        unicode_is_lowercase(c)
    }
}

/// Calls `str::to_lowercase`, std's full Unicode lowercase mapping; the
/// result is named `unicode_lowercase` of the input's characters. Trusted
/// besides: on ASCII text the mapping is the ASCII one (`A` to `Z` become
/// `a` to `z`, every other character stays), as the Unicode case tables
/// give for those characters.
#[verifier::external_body]
pub(crate) fn to_lowercase(s: &str) -> (out: String)
    ensures
        out@ == unicode_lowercase(s@),
        out@ == lower_text(s@),
{
    s.to_lowercase()
}

/// Calls `str::to_uppercase`, std's full Unicode uppercase mapping; the
/// result is named `unicode_uppercase` of the input's characters. Trusted
/// besides: on ASCII text the mapping is the ASCII one (`a` to `z` become
/// `A` to `Z`, every other character stays).
#[verifier::external_body]
pub(crate) fn to_uppercase(s: &str) -> (out: String)
    ensures
        out@ == unicode_uppercase(s@),
        out@ == upper_text(s@),
{
    s.to_uppercase()
}

/// Calls `char::is_lowercase` (the Unicode `Lowercase` property); the result
/// is named `unicode_is_lowercase`. Trusted besides: among ASCII characters
/// exactly `a` to `z` have the property.
#[verifier::external_body]
pub(crate) fn char_is_lowercase(c: char) -> (b: bool)
    ensures
        b == unicode_is_lowercase(c),
        b == lower_char(c),
{
    c.is_lowercase()
}

// ---------------------------------------------------------------------------
// Decimal numbers
// ---------------------------------------------------------------------------

/// The ASCII digit for `d < 10`.
pub open spec fn digit_char(d: nat) -> char {
    ((d + 48) as u32) as char
}

/// Whether `c` is an ASCII decimal digit.
pub open spec fn is_digit(c: char) -> bool {
    '0' <= c <= '9'
}

/// The value of the ASCII digit `c`.
pub open spec fn digit_value(c: char) -> nat {
    ((c as u32) - 48) as nat
}

/// The decimal representation of `n`, without sign or leading zeros.
pub open spec fn decimal(n: nat) -> Seq<char>
    decreases n,
{
    if n < 10 {
        seq![digit_char(n)]
    } else {
        decimal(n / 10).push(digit_char(n % 10))
    }
}

/// The value of a non-empty run of decimal digits.
pub open spec fn digits_value(s: Seq<char>) -> nat
    decreases s.len(),
{
    if s.len() == 0 {
        0
    } else {
        digits_value(s.drop_last()) * 10 + digit_value(s.last())
    }
}

/// Every character of `s` is a decimal digit.
pub open spec fn all_digits(s: Seq<char>) -> bool {
    forall|i: int| 0 <= i < s.len() ==> is_digit(#[trigger] s[i])
}

/// What Rust's `FromStr` for an unsigned integer type with largest value
/// `max` gives for `s`: an optional `+`, then one or more decimal digits,
/// and a value no larger than `max`.
pub open spec fn parse_unsigned_spec(s: Seq<char>, max: nat) -> Option<nat> {
    let d = if s.len() > 0 && s[0] == '+' {
        s.drop_first()
    } else {
        s
    };
    if d.len() == 0 || !all_digits(d) || digits_value(d) > max {
        None
    } else {
        Some(digits_value(d))
    }
}

fn digit_of(n: u64) -> (c: char)
    requires
        n < 10,
    ensures
        c == digit_char(n as nat),
{
    char_from_ascii((n as u32) + 48)
}

/// Appends the decimal representation of `n`.
pub fn push_decimal(out: &mut Vec<char>, n: u64)
    ensures
        final(out)@ == old(out)@ + decimal(n as nat),
    decreases n,
{
    if n >= 10 {
        push_decimal(out, n / 10);
    }
    out.push(digit_of(n % 10));
    proof {
        if n >= 10 {
            assert(old(out)@ + decimal((n / 10) as nat) + seq![digit_char((n % 10) as nat)]
                =~= old(out)@ + decimal(n as nat));
        } else {
            assert(old(out)@.push(digit_char(n as nat)) =~= old(out)@ + decimal(n as nat));
        }
    }
}

/// How many `.` there are in `m`.
pub open spec fn dot_count(m: Seq<char>) -> nat
    decreases m.len(),
{
    if m.len() == 0 {
        0
    } else {
        dot_count(m.drop_last()) + if m.last() == '.' { 1nat } else { 0nat }
    }
}

/// The digits of a decimal number with at most one point: `Digit+`,
/// `Digit+ '.' Digit*` or `Digit* '.' Digit+`.
pub open spec fn mantissa_ok(m: Seq<char>) -> bool {
    &&& forall|i: int| 0 <= i < m.len() ==> is_digit(#[trigger] m[i]) || m[i] == '.'
    &&& dot_count(m) <= 1
    &&& exists|i: int| 0 <= i < m.len() && is_digit(#[trigger] m[i])
}

/// An exponent after its `e`: an optional sign, then one or more digits.
pub open spec fn exponent_ok(x: Seq<char>) -> bool {
    let d = if x.len() > 0 && (x[0] == '+' || x[0] == '-') {
        x.drop_first()
    } else {
        x
    };
    d.len() > 0 && all_digits(d)
}

/// The first index from `from` on of an `e` or `E`, or -1.
pub open spec fn exp_index_from(s: Seq<char>, from: int) -> int
    decreases s.len() - from,
{
    if from < 0 || from >= s.len() {
        -1
    } else if s[from] == 'e' || s[from] == 'E' {
        from
    } else {
        exp_index_from(s, from + 1)
    }
}

/// A number without sign: a mantissa, then an optional exponent.
pub open spec fn number_ok(r: Seq<char>) -> bool {
    let k = exp_index_from(r, 0);
    if k < 0 {
        mantissa_ok(r)
    } else {
        mantissa_ok(r.take(k)) && exponent_ok(r.skip(k + 1))
    }
}

/// The texts that `f64::from_str` reads as a number, by the grammar of its
/// documentation: an optional sign, then `inf`, `infinity` or `nan` (in
/// any case) or a number with an optional exponent (`e` in any case).
pub open spec fn float_syntax(s: Seq<char>) -> bool {
    let r = if s.len() > 0 && (s[0] == '+' || s[0] == '-') {
        s.drop_first()
    } else {
        s
    };
    ||| eq_ignore_ascii_case_spec(r, "inf"@)
    ||| eq_ignore_ascii_case_spec(r, "infinity"@)
    ||| eq_ignore_ascii_case_spec(r, "nan"@)
    ||| number_ok(r)
}

/// Every character of `s` is whitespace.
pub open spec fn all_white(s: Seq<char>) -> bool {
    forall|i: int| 0 <= i < s.len() ==> is_white(#[trigger] s[i])
}

proof fn lemma_exp_index_from(s: Seq<char>, from: int)
    requires
        0 <= from,
    ensures
        exp_index_from(s, from) == -1 || (from <= exp_index_from(s, from) < s.len() && (s[exp_index_from(
            s,
            from,
        )] == 'e' || s[exp_index_from(s, from)] == 'E')),
    decreases s.len() - from,
{
    if from < s.len() && !(s[from] == 'e' || s[from] == 'E') {
        lemma_exp_index_from(s, from + 1);
    }
}

proof fn lemma_word_not_white(r: Seq<char>, w: Seq<char>)
    requires
        eq_ignore_ascii_case_spec(r, w),
        forall|i: int| 0 <= i < w.len() ==> 'a' <= #[trigger] w[i] <= 'z',
    ensures
        forall|i: int| 0 <= i < r.len() ==> (!is_white(#[trigger] r[i]) && r[i] != '='),
{
    assert forall|i: int| 0 <= i < r.len() implies (!is_white(#[trigger] r[i]) && r[i] != '=') by {
        assert(ascii_lower(r[i]) == ascii_lower(w[i]));
    }
}

/// A number as `f64::from_str` reads one is not empty and holds neither
/// whitespace nor `=`.
pub proof fn lemma_float_text_not_white(s: Seq<char>)
    requires
        float_syntax(s),
    ensures
        s.len() > 0,
        forall|i: int| 0 <= i < s.len() ==> (!is_white(#[trigger] s[i]) && s[i] != '='),
{
    reveal_strlit("inf");
    reveal_strlit("infinity");
    reveal_strlit("nan");
    let signed = s.len() > 0 && (s[0] == '+' || s[0] == '-');
    let r = if signed {
        s.drop_first()
    } else {
        s
    };
    assert(forall|i: int| 0 <= i < r.len() ==> (!is_white(#[trigger] r[i]) && r[i] != '=')) by {
        if eq_ignore_ascii_case_spec(r, "inf"@) {
            lemma_word_not_white(r, "inf"@);
        } else if eq_ignore_ascii_case_spec(r, "infinity"@) {
            lemma_word_not_white(r, "infinity"@);
        } else if eq_ignore_ascii_case_spec(r, "nan"@) {
            lemma_word_not_white(r, "nan"@);
        } else {
            lemma_exp_index_from(r, 0);
            let k = exp_index_from(r, 0);
            if k < 0 {
                assert(mantissa_ok(r));
            } else {
                let m = r.take(k);
                let x = r.skip(k + 1);
                assert(mantissa_ok(m));
                assert(exponent_ok(x));
                assert forall|i: int| 0 <= i < r.len() implies (!is_white(#[trigger] r[i]) && r[i] != '=') by {
                    if i < k {
                        assert(r[i] == m[i]);
                    } else if i > k {
                        assert(r[i] == x[i - k - 1]);
                        let d = if x.len() > 0 && (x[0] == '+' || x[0] == '-') {
                            x.drop_first()
                        } else {
                            x
                        };
                        if x.len() > 0 && (x[0] == '+' || x[0] == '-') && i - k - 1 > 0 {
                            assert(x[i - k - 1] == d[i - k - 2]);
                        } else if !(x.len() > 0 && (x[0] == '+' || x[0] == '-')) {
                            assert(x[i - k - 1] == d[i - k - 1]);
                        }
                    }
                }
            }
        }
    }
    assert(r.len() > 0) by {
        if !(eq_ignore_ascii_case_spec(r, "inf"@) || eq_ignore_ascii_case_spec(r, "infinity"@)
            || eq_ignore_ascii_case_spec(r, "nan"@)) {
            lemma_exp_index_from(r, 0);
            let k = exp_index_from(r, 0);
            if k < 0 {
                let j = choose|j: int| 0 <= j < r.len() && is_digit(#[trigger] r[j]);
            }
        }
    }
    assert forall|i: int| 0 <= i < s.len() implies (!is_white(#[trigger] s[i]) && s[i] != '=') by {
        if signed && i > 0 {
            assert(s[i] == r[i - 1]);
        }
    }
}

fn check_mantissa(m: &[char]) -> (b: bool)
    ensures
        b == mantissa_ok(m@),
{
    let mut all_ok = true;
    let mut digit = false;
    let mut dots: usize = 0;
    let mut i: usize = 0;
    while i < m.len()
        invariant
            i <= m@.len(),
            dots as nat == dot_count(m@.take(i as int)),
            dots <= i,
            all_ok == forall|j: int| 0 <= j < i ==> is_digit(#[trigger] m@[j]) || m@[j] == '.',
            digit == exists|j: int| 0 <= j < i && is_digit(#[trigger] m@[j]),
        decreases m@.len() - i,
    {
        let c = m[i];
        assert(m@.take(i + 1).drop_last() == m@.take(i as int));
        if c == '.' {
            dots = dots + 1;
        } else if '0' <= c && c <= '9' {
            digit = true;
        } else {
            all_ok = false;
        }
        i += 1;
    }
    assert(m@.take(m@.len() as int) == m@);
    all_ok && dots <= 1 && digit
}

fn check_exponent(x: &[char]) -> (b: bool)
    ensures
        b == exponent_ok(x@),
{
    let n = x.len();
    let start: usize = if n > 0 && (x[0] == '+' || x[0] == '-') {
        1
    } else {
        0
    };
    let d = slice_chars(x, start, n);
    assert(start == 1 ==> d@ == x@.drop_first());
    assert(start == 0 ==> d@ == x@);
    if d.len() == 0 {
        return false;
    }
    let mut i: usize = 0;
    while i < d.len()
        invariant
            i <= d@.len(),
            d@.len() > 0,
            d@ == (if x@.len() > 0 && (x@[0] == '+' || x@[0] == '-') {
                x@.drop_first()
            } else {
                x@
            }),
            forall|j: int| 0 <= j < i ==> is_digit(#[trigger] d@[j]),
        decreases d@.len() - i,
    {
        if !('0' <= d[i] && d[i] <= '9') {
            assert(!is_digit(d@[i as int]));
            assert(!all_digits(d@));
            return false;
        }
        i += 1;
    }
    true
}

/// Whether `f64::from_str` reads `cs` as a number (see `float_syntax`).
pub fn is_float_text(cs: &[char]) -> (b: bool)
    ensures
        b == float_syntax(cs@),
{
    let n = cs.len();
    let start: usize = if n > 0 && (cs[0] == '+' || cs[0] == '-') {
        1
    } else {
        0
    };
    let r = slice_chars(cs, start, n);
    assert(start == 1 ==> r@ == cs@.drop_first());
    assert(start == 0 ==> r@ == cs@);
    let inf = chars_of("inf");
    let infinity = chars_of("infinity");
    let nan = chars_of("nan");
    if eq_ignore_ascii_case(r.as_slice(), inf.as_slice()) || eq_ignore_ascii_case(
        r.as_slice(),
        infinity.as_slice(),
    ) || eq_ignore_ascii_case(r.as_slice(), nan.as_slice()) {
        return true;
    }
    let m = r.len();
    let mut k: usize = 0;
    while k < m && r[k] != 'e' && r[k] != 'E'
        invariant
            k <= m,
            m == r@.len(),
            exp_index_from(r@, 0) == exp_index_from(r@, k as int),
        decreases m - k,
    {
        k += 1;
    }
    if k == m {
        check_mantissa(r.as_slice())
    } else {
        let head = slice_chars(r.as_slice(), 0, k);
        let tail = slice_chars(r.as_slice(), k + 1, m);
        assert(head@ == r@.take(k as int));
        assert(tail@ == r@.skip(k + 1));
        check_mantissa(head.as_slice()) && check_exponent(tail.as_slice())
    }
}

/// `u64::to_string`.
pub fn decimal_string(n: u64) -> (s: String)
    ensures
        s@ == decimal(n as nat),
{
    let mut v: Vec<char> = Vec::new();
    push_decimal(&mut v, n);
    assert(v@ =~= decimal(n as nat));
    string_of(v.as_slice())
}

proof fn lemma_digits_value_monotone(s: Seq<char>, k: int)
    requires
        0 <= k <= s.len(),
        all_digits(s),
    ensures
        digits_value(s.subrange(0, k)) <= digits_value(s),
    decreases s.len() - k,
{
    if k < s.len() {
        lemma_digits_value_monotone(s.drop_last(), k);
        assert(s.drop_last().subrange(0, k) =~= s.subrange(0, k));
    } else {
        assert(s.subrange(0, k) =~= s);
    }
}

/// Parses `cs` as Rust's `FromStr` parses an unsigned integer whose largest
/// value is `max`.
pub fn parse_unsigned(cs: &[char], max: u64) -> (r: Option<u64>)
    ensures
        match parse_unsigned_spec(cs@, max as nat) {
            Some(v) => r == Some(v as u64),
            None => r is None,
        },
{
    let start: usize = if cs.len() > 0 && cs[0] == '+' {
        1
    } else {
        0
    };
    let ghost d = if cs@.len() > 0 && cs@[0] == '+' {
        cs@.drop_first()
    } else {
        cs@
    };
    assert(d =~= cs@.subrange(start as int, cs@.len() as int));
    if start == cs.len() {
        return None;
    }
    let mut acc: u64 = 0;
    let mut i = start;
    let mut overflow = false;
    while i < cs.len()
        invariant
            start <= i <= cs@.len(),
            d == (if cs@.len() > 0 && cs@[0] == '+' {
                cs@.drop_first()
            } else {
                cs@
            }),
            d =~= cs@.subrange(start as int, cs@.len() as int),
            forall|j: int| start <= j < i ==> is_digit(cs@[j]),
            !overflow ==> acc == digits_value(cs@.subrange(start as int, i as int)),
            !overflow ==> acc <= max,
            overflow ==> digits_value(cs@.subrange(start as int, i as int)) > max,
        decreases cs@.len() - i,
    {
        let c = cs[i];
        if !('0' <= c && c <= '9') {
            assert(!all_digits(d)) by {
                assert(d[i - start] == c);
            }
            assert(parse_unsigned_spec(cs@, max as nat) is None);
            return None;
        }
        let dv = (c as u32 - 48) as u64;
        let ghost prefix = cs@.subrange(start as int, i as int);
        let ghost next = cs@.subrange(start as int, i + 1);
        assert(next.drop_last() =~= prefix);
        assert(next.last() == c);
        if !overflow {
            if dv > max || acc > (max - dv) / 10 {
                overflow = true;
                assert(digits_value(next) > max) by (nonlinear_arith)
                    requires
                        digits_value(next) == acc * 10 + dv,
                        dv > max || acc > (max - dv) / 10,
                        dv < 10,
                {
                }
            } else {
                assert(acc * 10 + dv <= max) by (nonlinear_arith)
                    requires
                        acc <= (max - dv) / 10,
                        dv <= max,
                {
                }
                acc = acc * 10 + dv;
            }
        } else {
            assert(digits_value(next) >= digits_value(prefix)) by (nonlinear_arith)
                requires
                    digits_value(next) == digits_value(prefix) * 10 + digit_value(c),
            {
            }
        }
        i += 1;
    }
    assert(cs@.subrange(start as int, cs@.len() as int) =~= d);
    assert(all_digits(d)) by {
        assert forall|j: int| 0 <= j < d.len() implies is_digit(d[j]) by {
            assert(d[j] == cs@[start + j]);
        }
    }
    if overflow {
        None
    } else {
        Some(acc)
    }
}

/// `str::parse::<u16>`.
pub fn parse_u16(cs: &[char]) -> (r: Option<u16>)
    ensures
        match parse_unsigned_spec(cs@, u16::MAX as nat) {
            Some(v) => r == Some(v as u16),
            None => r is None,
        },
{
    match parse_unsigned(cs, 0xffff) {
        Some(v) => Some(v as u16),
        None => None,
    }
}

/// `str::parse::<u32>`.
pub fn parse_u32(cs: &[char]) -> (r: Option<u32>)
    ensures
        match parse_unsigned_spec(cs@, u32::MAX as nat) {
            Some(v) => r == Some(v as u32),
            None => r is None,
        },
{
    match parse_unsigned(cs, 0xffff_ffff) {
        Some(v) => Some(v as u32),
        None => None,
    }
}

} // verus!
