//! Character-level text operations: the pieces of `str` that the rest of
//! the library needs (trimming, searching, prefix and suffix tests,
//! splitting), stated over `Seq<char>` and implemented on `Vec<char>`.
use vstd::prelude::*;

verus! {

// ---------------------------------------------------------------------------
// Specifications
// ---------------------------------------------------------------------------

/// Unicode `White_Space`, the set that `char::is_whitespace` and `str::trim` use.
pub open spec fn is_space(c: char) -> bool {
    let u = c as u32;
    ||| 0x09 <= u <= 0x0D
    ||| u == 0x20
    ||| u == 0x85
    ||| u == 0xA0
    ||| u == 0x1680
    ||| 0x2000 <= u <= 0x200A
    ||| u == 0x2028
    ||| u == 0x2029
    ||| u == 0x202F
    ||| u == 0x205F
    ||| u == 0x3000
}

/// `s` without its leading whitespace.
pub open spec fn trim_start(s: Seq<char>) -> Seq<char>
    decreases s.len(),
{
    if s.len() > 0 && is_space(s[0]) {
        trim_start(s.drop_first())
    } else {
        s
    }
}

/// `s` without its trailing whitespace.
pub open spec fn trim_end(s: Seq<char>) -> Seq<char>
    decreases s.len(),
{
    if s.len() > 0 && is_space(s.last()) {
        trim_end(s.drop_last())
    } else {
        s
    }
}

/// `s` without leading and trailing whitespace (what `str::trim` returns).
pub open spec fn trim(s: Seq<char>) -> Seq<char> {
    trim_end(trim_start(s))
}

/// `p` occurs in `s` at position `i`.
pub open spec fn occurs_at(s: Seq<char>, p: Seq<char>, i: int) -> bool {
    0 <= i && i + p.len() <= s.len() && s.subrange(i, i + p.len()) == p
}

/// The first position, not before `i`, at which `p` occurs in `s`.
pub open spec fn find_from(s: Seq<char>, p: Seq<char>, i: nat) -> Option<nat>
    decreases s.len() + 1 - i,
{
    if i + p.len() > s.len() {
        None
    } else if s.subrange(i as int, (i + p.len()) as int) == p {
        Some(i)
    } else {
        find_from(s, p, i + 1)
    }
}

/// The first position at which `p` occurs in `s` (what `str::find` returns,
/// counted in characters).
pub open spec fn find(s: Seq<char>, p: Seq<char>) -> Option<nat> {
    find_from(s, p, 0)
}

/// `p` occurs somewhere in `s` (what `str::contains` tests).
pub open spec fn contains_text(s: Seq<char>, p: Seq<char>) -> bool {
    exists|i: int| occurs_at(s, p, i)
}

/// `s` begins with `p`.
pub open spec fn starts_with(s: Seq<char>, p: Seq<char>) -> bool {
    p.len() <= s.len() && s.take(p.len() as int) == p
}

/// `s` ends with `p`.
pub open spec fn ends_with(s: Seq<char>, p: Seq<char>) -> bool {
    p.len() <= s.len() && s.skip(s.len() - p.len()) == p
}

/// The pieces of `s` between occurrences of `sep` (what `str::split` with a
/// `char` yields): every character extends the last piece, and every
/// separator starts a new, empty one.
pub open spec fn split(s: Seq<char>, sep: char) -> Seq<Seq<char>>
    decreases s.len(),
{
    if s.len() == 0 {
        seq![Seq::<char>::empty()]
    } else {
        let init = split(s.drop_last(), sep);
        if s.last() == sep {
            init.push(Seq::<char>::empty())
        } else {
            init.update(init.len() - 1, init.last().push(s.last()))
        }
    }
}

/// The pieces of `parts` put back together with `sep` between them.
pub open spec fn join(parts: Seq<Seq<char>>, sep: char) -> Seq<char>
    decreases parts.len(),
{
    if parts.len() == 0 {
        Seq::<char>::empty()
    } else if parts.len() == 1 {
        parts[0]
    } else {
        join(parts.drop_last(), sep).push(sep) + parts.last()
    }
}

// ---------------------------------------------------------------------------
// Lemmas
// ---------------------------------------------------------------------------

/// `split` always yields at least one piece.
pub proof fn lemma_split_len(s: Seq<char>, sep: char)
    ensures
        split(s, sep).len() >= 1,
    decreases s.len(),
{
    if s.len() > 0 {
        lemma_split_len(s.drop_last(), sep);
    }
}

/// No piece of `split(s, sep)` holds `sep`.
pub proof fn lemma_split_pieces(s: Seq<char>, sep: char)
    ensures
        forall|k: int| 0 <= k < split(s, sep).len() ==> !(#[trigger] split(s, sep)[k]).contains(sep),
    decreases s.len(),
{
    if s.len() > 0 {
        lemma_split_len(s.drop_last(), sep);
        lemma_split_pieces(s.drop_last(), sep);
        let init = split(s.drop_last(), sep);
        if s.last() != sep {
            let last = init.last();
            assert(!last.contains(sep));
            assert forall|k: int| 0 <= k < split(s, sep).len() implies !(#[trigger] split(
                s,
                sep,
            )[k]).contains(sep) by {
                if k == init.len() - 1 {
                    let piece = last.push(s.last());
                    if piece.contains(sep) {
                        let j = choose|j: int| 0 <= j < piece.len() && piece[j] == sep;
                        if j < last.len() {
                            assert(last[j] == sep);
                        }
                    }
                }
            }
        } else {
            assert forall|k: int| 0 <= k < split(s, sep).len() implies !(#[trigger] split(
                s,
                sep,
            )[k]).contains(sep) by {
                if k < init.len() {
                    assert(split(s, sep)[k] == init[k]);
                }
            }
        }
    }
}

/// Putting the pieces of `split(s, sep)` back together with `sep` gives `s`.
pub proof fn lemma_join_split(s: Seq<char>, sep: char)
    ensures
        join(split(s, sep), sep) == s,
    decreases s.len(),
{
    if s.len() == 0 {
    } else {
        let init = split(s.drop_last(), sep);
        lemma_split_len(s.drop_last(), sep);
        lemma_join_split(s.drop_last(), sep);
        if s.last() == sep {
            let parts = init.push(Seq::<char>::empty());
            assert(parts.drop_last() == init);
            assert(join(parts, sep) == join(init, sep).push(sep) + Seq::<char>::empty());
            assert(s == s.drop_last().push(s.last()));
        } else {
            let parts = init.update(init.len() - 1, init.last().push(s.last()));
            if init.len() == 1 {
                assert(join(init, sep) == init[0]);
                assert(s == s.drop_last().push(s.last()));
            } else {
                assert(parts.drop_last() == init.drop_last());
                assert(join(parts, sep) == join(init.drop_last(), sep).push(sep) + init.last().push(
                    s.last(),
                ));
                assert(join(init, sep) == join(init.drop_last(), sep).push(sep) + init.last());
                assert(s == s.drop_last().push(s.last()));
                assert(join(parts, sep) == join(init, sep).push(s.last()));
            }
        }
    }
}

/// `find_from` names a position where `p` occurs, not before `i`, and no
/// earlier one from `i` on; it names none only where `p` occurs nowhere from `i`.
pub proof fn lemma_find_from(s: Seq<char>, p: Seq<char>, i: nat)
    ensures
        match find_from(s, p, i) {
            Some(k) => i <= k && occurs_at(s, p, k as int) && forall|j: int|
                i <= j < k ==> !occurs_at(s, p, j),
            None => forall|j: int| i <= j ==> !occurs_at(s, p, j),
        },
    decreases s.len() + 1 - i,
{
    if i + p.len() > s.len() {
    } else if s.subrange(i as int, (i + p.len()) as int) == p {
    } else {
        lemma_find_from(s, p, i + 1);
    }
}

/// Where `p` occurs at `k` and nowhere before, `find` names `k`.
pub proof fn lemma_find_first(s: Seq<char>, p: Seq<char>, k: int)
    requires
        occurs_at(s, p, k),
        forall|j: int| 0 <= j < k ==> !occurs_at(s, p, j),
    ensures
        find(s, p) == Some(k as nat),
{
    lemma_find_from(s, p, 0);
    match find(s, p) {
        Some(m) => {
            if m < k {
                assert(!occurs_at(s, p, m as int));
            } else if m > k {
                assert(!occurs_at(s, p, k));
            }
        },
        None => {
            assert(!occurs_at(s, p, k));
        },
    }
}

/// Where `p` occurs nowhere in `s`, `find` names no position.
pub proof fn lemma_find_none(s: Seq<char>, p: Seq<char>)
    requires
        forall|j: int| 0 <= j ==> !occurs_at(s, p, j),
    ensures
        find(s, p) is None,
{
    lemma_find_from(s, p, 0);
    if let Some(m) = find(s, p) {
        assert(occurs_at(s, p, m as int));
    }
}

/// A sequence that neither begins nor ends with whitespace is its own trim.
pub proof fn lemma_trim_unchanged(s: Seq<char>)
    requires
        s.len() > 0,
        !is_space(s[0]),
        !is_space(s.last()),
    ensures
        trim(s) == s,
{
}

proof fn lemma_trim_start_shape(s: Seq<char>)
    ensures
        trim_start(s).len() == 0 || !is_space(trim_start(s)[0]),
    decreases s.len(),
{
    if s.len() > 0 && is_space(s[0]) {
        lemma_trim_start_shape(s.drop_first());
    }
}

proof fn lemma_trim_end_shape(s: Seq<char>)
    ensures
        trim_end(s).len() <= s.len(),
        trim_end(s) == s.take(trim_end(s).len() as int),
        trim_end(s).len() == 0 || !is_space(trim_end(s).last()),
    decreases s.len(),
{
    if s.len() > 0 && is_space(s.last()) {
        lemma_trim_end_shape(s.drop_last());
        let t = trim_end(s.drop_last());
        assert(s.drop_last().take(t.len() as int) == s.take(t.len() as int));
    } else {
        assert(s.take(s.len() as int) == s);
    }
}

/// Trimming twice is trimming once.
pub proof fn lemma_trim_idempotent(s: Seq<char>)
    ensures
        trim(trim(s)) == trim(s),
{
    let a = trim_start(s);
    let y = trim_end(a);
    lemma_trim_start_shape(s);
    lemma_trim_end_shape(a);
    if y.len() > 0 {
        assert(y[0] == a[0]);
    }
    assert(trim_start(y) == y);
    lemma_trim_end_shape(y);
    if y.len() > 0 {
        assert(!is_space(y.last()));
    }
    assert(trim_end(y) == y);
}

/// Without a separator in it, `s` splits into itself alone.
pub proof fn lemma_split_whole(s: Seq<char>, sep: char)
    requires
        !s.contains(sep),
    ensures
        split(s, sep) == seq![s],
    decreases s.len(),
{
    if s.len() > 0 {
        assert(!s.drop_last().contains(sep)) by {
            if s.drop_last().contains(sep) {
                let j = choose|j: int| 0 <= j < s.drop_last().len() && s.drop_last()[j] == sep;
                assert(s[j] == sep);
            }
        }
        lemma_split_whole(s.drop_last(), sep);
        assert(s.last() != sep) by {
            assert(s[s.len() - 1] == s.last());
        }
        assert(s.drop_last().push(s.last()) == s);
        assert(split(s, sep) =~= seq![s]);
    } else {
        assert(s =~= Seq::<char>::empty());
    }
}

/// Splitting at a separator: the pieces of `a`, then those of `b`.
pub proof fn lemma_split_concat(a: Seq<char>, b: Seq<char>, sep: char)
    ensures
        split(a.push(sep) + b, sep) == split(a, sep) + split(b, sep),
    decreases b.len(),
{
    let s = a.push(sep) + b;
    if b.len() == 0 {
        assert(s == a.push(sep));
        assert(s.drop_last() == a);
        assert(split(Seq::<char>::empty(), sep) == seq![Seq::<char>::empty()]);
        assert(split(a, sep).push(Seq::<char>::empty()) == split(a, sep) + seq![
            Seq::<char>::empty(),
        ]);
    } else {
        let b0 = b.drop_last();
        assert(s.drop_last() == a.push(sep) + b0);
        assert(s.last() == b.last());
        lemma_split_concat(a, b0, sep);
        lemma_split_len(b0, sep);
        lemma_split_len(a, sep);
        let pa = split(a, sep);
        let pb = split(b0, sep);
        if b.last() == sep {
            assert((pa + pb).push(Seq::<char>::empty()) == pa + pb.push(Seq::<char>::empty()));
        } else {
            let whole = pa + pb;
            assert(whole.last() == pb.last());
            assert(whole.update(whole.len() - 1, whole.last().push(b.last())) == pa + pb.update(
                pb.len() - 1,
                pb.last().push(b.last()),
            ));
        }
    }
}

// ---------------------------------------------------------------------------
// Implementations
// ---------------------------------------------------------------------------

/// `String::push`: appends `c` to the end of `s`.
#[verifier::external_body]
fn push_char(s: &mut String, c: char)
    ensures
        final(s)@ == old(s)@.push(c),
{
    s.push(c)
}

/// The characters of `s`, in order.
pub fn chars_of(s: &str) -> (r: Vec<char>)
    ensures
        r@ == s@,
{
    let mut r: Vec<char> = Vec::new();
    for c in it: s.chars()
        invariant
            it.seq() == s@,
            r@ == it.seq().take(it.index()),
    {
        r.push(c);
    }
    r
}

/// The string made of the characters of `v`.
pub fn string_of(v: &Vec<char>) -> (r: String)
    ensures
        r@ == v@,
{
    let mut r = String::new();
    let mut i: usize = 0;
    while i < v.len()
        invariant
            i <= v.len(),
            r@ == v@.take(i as int),
        decreases v.len() - i,
    {
        push_char(&mut r, v[i]);
        i = i + 1;
        assert(r@ == v@.take(i as int));
    }
    assert(v@.take(v.len() as int) == v@);
    r
}

/// The characters of `v` from `lo` up to, not including, `hi`.
pub fn slice(v: &Vec<char>, lo: usize, hi: usize) -> (r: Vec<char>)
    requires
        lo <= hi <= v.len(),
    ensures
        r@ == v@.subrange(lo as int, hi as int),
{
    let mut r: Vec<char> = Vec::new();
    let mut i: usize = lo;
    while i < hi
        invariant
            lo <= i <= hi <= v.len(),
            r@ == v@.subrange(lo as int, i as int),
        decreases hi - i,
    {
        r.push(v[i]);
        i = i + 1;
        assert(r@ == v@.subrange(lo as int, i as int));
    }
    r
}

/// Whether `c` is whitespace (`char::is_whitespace`).
pub fn is_space_char(c: char) -> (r: bool)
    ensures
        r == is_space(c),
{
    let u = c as u32;
    (0x09 <= u && u <= 0x0D) || u == 0x20 || u == 0x85 || u == 0xA0 || u == 0x1680 || (0x2000
        <= u && u <= 0x200A) || u == 0x2028 || u == 0x2029 || u == 0x202F || u == 0x205F || u
        == 0x3000
}

proof fn lemma_trim_start_skip(s: Seq<char>, i: int)
    requires
        0 <= i < s.len(),
        is_space(s[i]),
    ensures
        trim_start(s.skip(i)) == trim_start(s.skip(i + 1)),
{
    assert(s.skip(i).drop_first() == s.skip(i + 1));
}

proof fn lemma_trim_end_take(s: Seq<char>, j: int)
    requires
        0 < j <= s.len(),
        is_space(s[j - 1]),
    ensures
        trim_end(s.take(j)) == trim_end(s.take(j - 1)),
{
    assert(s.take(j).drop_last() == s.take(j - 1));
}

/// `v` without leading and trailing whitespace.
pub fn trim_chars(v: &Vec<char>) -> (r: Vec<char>)
    ensures
        r@ == trim(v@),
{
    let n = v.len();
    let mut i: usize = 0;
    assert(v@.skip(0) == v@);
    while i < n && is_space_char(v[i])
        invariant
            i <= n == v.len(),
            trim_start(v@) == trim_start(v@.skip(i as int)),
        decreases n - i,
    {
        proof {
            lemma_trim_start_skip(v@, i as int);
        }
        i = i + 1;
    }
    let ghost rest = v@.skip(i as int);
    assert(trim_start(v@) == rest);
    let mut j: usize = n;
    assert(rest.take((j - i) as int) == rest);
    while j > i && is_space_char(v[j - 1])
        invariant
            i <= j <= n == v.len(),
            rest == v@.skip(i as int),
            trim_end(rest) == trim_end(rest.take((j - i) as int)),
        decreases j - i,
    {
        proof {
            lemma_trim_end_take(rest, (j - i) as int);
        }
        j = j - 1;
    }
    assert(trim_end(rest.take((j - i) as int)) == rest.take((j - i) as int));
    assert(rest.take((j - i) as int) == v@.subrange(i as int, j as int));
    slice(v, i, j)
}

/// Whether `p` occurs in `v` at position `i`.
pub fn occurs_at_exec(v: &Vec<char>, p: &Vec<char>, i: usize) -> (r: bool)
    ensures
        r == occurs_at(v@, p@, i as int),
{
    if i > v.len() || p.len() > v.len() - i {
        return false;
    }
    let mut k: usize = 0;
    while k < p.len()
        invariant
            i + p.len() <= v.len(),
            k <= p.len(),
            forall|m: int| 0 <= m < k ==> v@[i + m] == p@[m],
        decreases p.len() - k,
    {
        if v[i + k] != p[k] {
            assert(v@.subrange(i as int, i + p.len())[k as int] != p@[k as int]);
            return false;
        }
        k = k + 1;
    }
    assert(v@.subrange(i as int, i + p.len()) == p@);
    true
}

/// The first position at which `p` occurs in `v`.
pub fn find_chars(v: &Vec<char>, p: &Vec<char>) -> (r: Option<usize>)
    ensures
        match r {
            Some(k) => find(v@, p@) == Some(k as nat),
            None => find(v@, p@) is None,
        },
{
    if p.len() > v.len() {
        return None;
    }
    let last = v.len() - p.len();
    let mut i: usize = 0;
    while i <= last
        invariant
            last + p.len() == v.len(),
            i <= last + 1,
            find_from(v@, p@, 0) == find_from(v@, p@, i as nat),
        decreases last + 1 - i,
    {
        if occurs_at_exec(v, p, i) {
            return Some(i);
        }
        assert(find_from(v@, p@, i as nat) == find_from(v@, p@, (i + 1) as nat));
        if i == last {
            assert(find_from(v@, p@, (i + 1) as nat) is None);
            return None;
        }
        i = i + 1;
    }
    None
}

/// Whether `v` begins with `p`.
pub fn starts_with_chars(v: &Vec<char>, p: &Vec<char>) -> (r: bool)
    ensures
        r == starts_with(v@, p@),
{
    let r = occurs_at_exec(v, p, 0);
    assert(r ==> v@.subrange(0, p@.len() as int) == v@.take(p@.len() as int));
    r
}

/// Whether `v` ends with `p`.
pub fn ends_with_chars(v: &Vec<char>, p: &Vec<char>) -> (r: bool)
    ensures
        r == ends_with(v@, p@),
{
    if p.len() > v.len() {
        return false;
    }
    let r = occurs_at_exec(v, p, v.len() - p.len());
    assert(v@.subrange(v.len() - p.len(), v.len() as int) == v@.skip(v.len() - p.len()));
    r
}

/// The pieces of `v` between occurrences of `sep`.
pub fn split_chars(v: &Vec<char>, sep: char) -> (r: Vec<String>)
    ensures
        r.deep_view() == split(v@, sep),
{
    let mut done: Vec<String> = Vec::new();
    let mut start: usize = 0;
    let mut i: usize = 0;
    assert(v@.take(0) == Seq::<char>::empty());
    while i < v.len()
        invariant
            start <= i <= v.len(),
            split(v@.take(i as int), sep) == done.deep_view().push(
                v@.subrange(start as int, i as int),
            ),
        decreases v.len() - i,
    {
        let ghost before = done.deep_view();
        assert(v@.take(i + 1).drop_last() == v@.take(i as int));
        assert(v@.take(i + 1).last() == v@[i as int]);
        if v[i] == sep {
            let piece = slice(v, start, i);
            let s = string_of(&piece);
            done.push(s);
            assert(done.deep_view() == before.push(v@.subrange(start as int, i as int)));
            start = i + 1;
        } else {
            assert(v@.subrange(start as int, i + 1) == v@.subrange(start as int, i as int).push(
                v@[i as int],
            ));
        }
        i = i + 1;
        assert(v@.subrange(i as int, i as int) == Seq::<char>::empty());
    }
    let ghost before = done.deep_view();
    let piece = slice(v, start, v.len());
    done.push(string_of(&piece));
    assert(done.deep_view() == before.push(v@.subrange(start as int, v.len() as int)));
    assert(v@.take(v.len() as int) == v@);
    done
}

/// `s` without leading and trailing whitespace (`str::trim`), as a `String`.
pub fn trim_str(s: &str) -> (r: String)
    ensures
        r@ == trim(s@),
{
    string_of(&trim_chars(&chars_of(s)))
}

/// Whether the two texts are the same.
pub fn same_text(a: &str, b: &str) -> (r: bool)
    ensures
        r == (a@ == b@),
{
    a.to_owned() == b.to_owned()
}

/// Whether `p` occurs somewhere in `s` (`str::contains`).
pub fn contains_str(s: &str, p: &str) -> (r: bool)
    ensures
        r == contains_text(s@, p@),
{
    let v = chars_of(s);
    let w = chars_of(p);
    let found = find_chars(&v, &w);
    proof {
        lemma_find_from(v@, w@, 0);
    }
    match found {
        Some(i) => {
            assert(occurs_at(v@, w@, i as int));
            true
        },
        None => {
            assert forall|i: int| !occurs_at(s@, p@, i) by {
                if i >= 0 {
                    assert(!occurs_at(v@, w@, i));
                }
            }
            false
        },
    }
}

} // verus!
