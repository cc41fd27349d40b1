use vstd::prelude::*;
use vstd::string::*;

verus! {

// ---------------------------------------------------------------------------
// Characters of a string
// ---------------------------------------------------------------------------

/// The characters of `s`, in order.
pub fn chars_of(s: &str) -> (v: Vec<char>)
    ensures
        v@ == s@,
{
    let n = s.unicode_len();
    let mut v: Vec<char> = Vec::new();
    let mut i: usize = 0;
    while i < n
        invariant
            n == s@.len(),
            i <= n,
            v@ == s@.take(i as int),
        decreases n - i,
    {
        let c = s.get_char(i);
        v.push(c);
        i = i + 1;
        assert(v@ =~= s@.take(i as int));
    }
    assert(s@.take(n as int) =~= s@);
    v
}

/// The owned string whose characters are `s[from..to]`.
pub fn substring(s: &str, from: usize, to: usize) -> (r: String)
    requires
        from <= to <= s@.len(),
    ensures
        r@ == s@.subrange(from as int, to as int),
{
    String::from_str(s.substring_char(from, to))
}

// ---------------------------------------------------------------------------
// Lexicographic order on character sequences
// ---------------------------------------------------------------------------

/// Lexicographic "strictly less than" on character sequences, characters
/// compared by code point; a proper prefix comes first.
pub open spec fn chars_lt(a: Seq<char>, b: Seq<char>) -> bool
    decreases a.len(),
{
    if a.len() == 0 {
        b.len() > 0
    } else if b.len() == 0 {
        false
    } else if a[0] != b[0] {
        a[0] < b[0]
    } else {
        chars_lt(a.drop_first(), b.drop_first())
    }
}

/// No sequence is less than itself.
pub proof fn lemma_chars_lt_irreflexive(a: Seq<char>)
    ensures
        !chars_lt(a, a),
    decreases a.len(),
{
    if a.len() > 0 {
        lemma_chars_lt_irreflexive(a.drop_first());
    }
}

/// The order is transitive.
pub proof fn lemma_chars_lt_transitive(a: Seq<char>, b: Seq<char>, c: Seq<char>)
    requires
        chars_lt(a, b),
        chars_lt(b, c),
    ensures
        chars_lt(a, c),
    decreases a.len(),
{
    if a.len() > 0 && b.len() > 0 && c.len() > 0 {
        if a[0] == b[0] && b[0] == c[0] {
            lemma_chars_lt_transitive(a.drop_first(), b.drop_first(), c.drop_first());
        }
    }
}

/// Any two distinct sequences are ordered one way or the other.
pub proof fn lemma_chars_lt_total(a: Seq<char>, b: Seq<char>)
    requires
        a != b,
    ensures
        chars_lt(a, b) || chars_lt(b, a),
    decreases a.len(),
{
    if a.len() > 0 && b.len() > 0 {
        if a[0] == b[0] {
            if a.drop_first() == b.drop_first() {
                assert(a =~= seq![a[0]] + a.drop_first());
                assert(b =~= seq![b[0]] + b.drop_first());
            }
            lemma_chars_lt_total(a.drop_first(), b.drop_first());
        }
    } else if a.len() == 0 && b.len() == 0 {
        assert(a =~= b);
    }
}

proof fn lemma_chars_lt_common_prefix(a: Seq<char>, b: Seq<char>, i: int)
    requires
        0 <= i <= a.len(),
        i <= b.len(),
        a.take(i) == b.take(i),
    ensures
        chars_lt(a, b) == chars_lt(a.skip(i), b.skip(i)),
    decreases i,
{
    if i == 0 {
        assert(a.skip(0) =~= a);
        assert(b.skip(0) =~= b);
    } else {
        assert(a[0] == b[0]) by {
            assert(a.take(i)[0] == a[0]);
            assert(b.take(i)[0] == b[0]);
        }
        assert(a.drop_first().take(i - 1) =~= a.take(i).drop_first());
        assert(b.drop_first().take(i - 1) =~= b.take(i).drop_first());
        lemma_chars_lt_common_prefix(a.drop_first(), b.drop_first(), i - 1);
        assert(a.drop_first().skip(i - 1) =~= a.skip(i));
        assert(b.drop_first().skip(i - 1) =~= b.skip(i));
    }
}

/// `chars_lt` is the lexicographic order of code points, the order of
/// `String`: past a common prefix of length `i`, the first differing
/// characters decide by their code points, and a proper prefix comes first.
pub proof fn lemma_chars_lt_lexicographic(a: Seq<char>, b: Seq<char>, i: int)
    requires
        0 <= i <= a.len(),
        i <= b.len(),
        a.take(i) == b.take(i),
    ensures
        i < a.len() && i < b.len() && a[i] != b[i] ==> (chars_lt(a, b) <==> a[i] < b[i]),
        i == a.len() && i < b.len() ==> chars_lt(a, b),
        i == b.len() ==> !chars_lt(a, b),
{
    lemma_chars_lt_common_prefix(a, b, i);
    if i < a.len() && i < b.len() {
        assert(a.skip(i)[0] == a[i]);
        assert(b.skip(i)[0] == b[i]);
    }
}

/// Compares two character sequences in the order of `chars_lt`.
pub fn chars_less(a: &Vec<char>, b: &Vec<char>) -> (r: bool)
    ensures
        r == chars_lt(a@, b@),
{
    let mut i: usize = 0;
    while i < a.len() && i < b.len() && a[i] == b[i]
        invariant
            i <= a@.len(),
            i <= b@.len(),
            a@.take(i as int) == b@.take(i as int),
        decreases a@.len() - i,
    {
        assert(a@.take(i + 1) =~= a@.take(i as int).push(a@[i as int]));
        assert(b@.take(i + 1) =~= b@.take(i as int).push(b@[i as int]));
        i = i + 1;
    }
    proof {
        lemma_chars_lt_common_prefix(a@, b@, i as int);
    }
    if i == a.len() {
        i < b.len()
    } else if i == b.len() {
        false
    } else {
        proof {
            assert(a@.skip(i as int)[0] == a@[i as int]);
            assert(b@.skip(i as int)[0] == b@[i as int]);
        }
        a[i] < b[i]
    }
}


// ---------------------------------------------------------------------------
// Searching for a separator
// ---------------------------------------------------------------------------

/// `sep` occurs in `s` starting at position `k`.
pub open spec fn occurs_at(s: Seq<char>, k: int, sep: Seq<char>) -> bool {
    0 <= k && k + sep.len() <= s.len() && s.subrange(k, k + sep.len()) == sep
}

/// The first position at which `sep` occurs in `s`, or `s.len()` when it
/// occurs nowhere.
pub open spec fn find_sep(s: Seq<char>, sep: Seq<char>) -> int
    decreases s.len(),
{
    if s.len() < sep.len() || s.len() == 0 {
        s.len() as int
    } else if s.take(sep.len() as int) == sep {
        0
    } else {
        1 + find_sep(s.drop_first(), sep)
    }
}

/// `find_sep` is the least position where `sep` occurs, and `s.len()` when
/// there is none.
pub proof fn lemma_find_sep(s: Seq<char>, sep: Seq<char>)
    requires
        sep.len() > 0,
    ensures
        0 <= find_sep(s, sep) <= s.len(),
        forall|k: int| 0 <= k < find_sep(s, sep) ==> !occurs_at(s, k, sep),
        find_sep(s, sep) < s.len() ==> occurs_at(s, find_sep(s, sep), sep),
    decreases s.len(),
{
    if s.len() < sep.len() || s.len() == 0 {
    } else if s.take(sep.len() as int) == sep {
        assert(s.subrange(0, sep.len() as int) =~= s.take(sep.len() as int));
    } else {
        let t = s.drop_first();
        lemma_find_sep(t, sep);
        assert(find_sep(s, sep) == 1 + find_sep(t, sep));
        assert(!occurs_at(s, 0, sep)) by {
            assert(s.subrange(0, sep.len() as int) =~= s.take(sep.len() as int));
        }
        assert forall|k: int| 0 <= k < find_sep(s, sep) implies !occurs_at(s, k, sep) by {
            if k > 0 && k + sep.len() <= s.len() {
                assert(s.subrange(k, k + sep.len()) =~= t.subrange(k - 1, k - 1 + sep.len()));
                assert(!occurs_at(t, k - 1, sep));
            }
        }
        if find_sep(s, sep) < s.len() {
            let k = find_sep(s, sep);
            assert(s.subrange(k, k + sep.len()) =~= t.subrange(k - 1, k - 1 + sep.len()));
        }
    }
}

/// The position characterised by `lemma_find_sep` is the only one.
pub proof fn lemma_find_sep_unique(s: Seq<char>, sep: Seq<char>, i: int)
    requires
        sep.len() > 0,
        0 <= i <= s.len(),
        forall|k: int| 0 <= k < i ==> !occurs_at(s, k, sep),
        i < s.len() ==> occurs_at(s, i, sep),
    ensures
        find_sep(s, sep) == i,
{
    lemma_find_sep(s, sep);
}

/// Whether `sep` occurs in `s` at position `k`.
pub fn occurs_at_exec(s: &Vec<char>, k: usize, sep: &Vec<char>) -> (r: bool)
    ensures
        r == occurs_at(s@, k as int, sep@),
{
    if sep.len() > s.len() || k > s.len() - sep.len() {
        return false;
    }
    let sl = s.len();
    let mut j: usize = 0;
    while j < sep.len()
        invariant
            sl == s@.len(),
            k + sep@.len() <= s@.len(),
            j <= sep@.len(),
            forall|m: int| 0 <= m < j ==> s@[k + m] == sep@[m],
        decreases sep@.len() - j,
    {
        assert(k + j < s@.len());
        if s[k + j] != sep[j] {
            proof {
                assert(s@.subrange(k as int, k + sep@.len())[j as int] == s@[k + j]);
            }
            return false;
        }
        j = j + 1;
    }
    assert(s@.subrange(k as int, k + sep@.len()) =~= sep@);
    true
}

// ---------------------------------------------------------------------------
// Splitting
// ---------------------------------------------------------------------------

/// The pieces of `s` between the non-overlapping occurrences of `sep`,
/// found from left to right (the behaviour of `str::split` with a string
/// separator).
pub open spec fn split(s: Seq<char>, sep: Seq<char>) -> Seq<Seq<char>>
    decreases s.len(),
{
    if sep.len() == 0 {
        seq![s]
    } else {
        let i = find_sep(s, sep);
        if 0 <= i < s.len() && i + sep.len() <= s.len() {
            seq![s.take(i)] + split(s.skip(i + sep.len()), sep)
        } else {
            seq![s]
        }
    }
}

/// `s` without one trailing carriage return.
pub open spec fn strip_cr(l: Seq<char>) -> Seq<char> {
    if l.len() > 0 && l.last() == '\r' {
        l.drop_last()
    } else {
        l
    }
}

/// The lines of `s` (the behaviour of `str::lines`): pieces ended by `\n`
/// or `\r\n`; the last line needs no ending, and an empty text has no lines.
pub open spec fn lines(s: Seq<char>) -> Seq<Seq<char>>
    decreases s.len(),
{
    if s.len() == 0 {
        seq![]
    } else {
        let i = find_sep(s, seq!['\n']);
        if 0 <= i < s.len() {
            seq![strip_cr(s.take(i))] + lines(s.skip(i + 1))
        } else {
            seq![s]
        }
    }
}

/// Splits `s` at every occurrence of `sep`, as `str::split` does.
pub fn split_str(s: &str, sep: &str) -> (pieces: Vec<String>)
    requires
        sep@.len() > 0,
    ensures
        pieces@.map_values(|p: String| p@) == split(s@, sep@),
{
    let cs = chars_of(s);
    let sp = chars_of(sep);
    let n = cs.len();
    let mut pieces: Vec<String> = Vec::new();
    let mut start: usize = 0;
    let mut k: usize = 0;
    assert(s@.skip(0) =~= s@);
    assert(pieces@.map_values(|p: String| p@) + split(s@, sep@) =~= split(s@, sep@));
    while k < n
        invariant
            cs@ == s@,
            sp@ == sep@,
            sep@.len() > 0,
            n == s@.len(),
            start <= k <= n,
            forall|m: int| 0 <= m < k - start ==> !occurs_at(s@.skip(start as int), m, sep@),
            pieces@.map_values(|p: String| p@) + split(s@.skip(start as int), sep@) == split(s@, sep@),
        decreases n - k,
    {
        let ghost rest = s@.skip(start as int);
        if occurs_at_exec(&cs, k, &sp) {
            proof {
                assert(s@.subrange(k as int, k + sep@.len()) =~= rest.subrange(k - start, k - start + sep@.len()));
                lemma_find_sep_unique(rest, sep@, k - start);
                assert(rest.take(k - start) =~= s@.subrange(start as int, k as int));
                assert(rest.skip(k - start + sep@.len()) =~= s@.skip(k + sep@.len()));
            }
            let piece = substring(s, start, k);
            let ghost old_pieces = pieces@.map_values(|p: String| p@);
            pieces.push(piece);
            proof {
                assert(pieces@.map_values(|p: String| p@) =~= old_pieces.push(piece@));
                assert(split(rest, sep@) == seq![rest.take(k - start)] + split(s@.skip(k + sep@.len()), sep@));
                assert(old_pieces.push(piece@) + split(s@.skip(k + sep@.len()), sep@)
                    =~= old_pieces + split(rest, sep@));
            }
            start = k + sp.len();
            k = start;
        } else {
            proof {
                assert(!occurs_at(rest, k - start, sep@)) by {
                    if k - start + sep@.len() <= rest.len() {
                        assert(s@.subrange(k as int, k + sep@.len()) =~= rest.subrange(k - start, k - start + sep@.len()));
                    }
                }
            }
            k = k + 1;
        }
    }
    let ghost rest = s@.skip(start as int);
    proof {
        lemma_find_sep_unique(rest, sep@, rest.len() as int);
        assert(rest =~= s@.subrange(start as int, n as int));
    }
    let piece = substring(s, start, n);
    let ghost old_pieces = pieces@.map_values(|p: String| p@);
    pieces.push(piece);
    assert(pieces@.map_values(|p: String| p@) =~= old_pieces.push(piece@));
    assert(old_pieces.push(piece@) =~= old_pieces + split(rest, sep@));
    pieces
}


/// Splits `s` into its lines, as `str::lines` does.
pub fn lines_of(s: &str) -> (ls: Vec<String>)
    ensures
        ls@.map_values(|l: String| l@) == lines(s@),
{
    let cs = chars_of(s);
    let n = cs.len();
    let ghost nl = seq!['\n'];
    let mut ls: Vec<String> = Vec::new();
    let mut start: usize = 0;
    let mut k: usize = 0;
    assert(s@.skip(0) =~= s@);
    assert(ls@.map_values(|l: String| l@) + lines(s@) =~= lines(s@));
    while k < n
        invariant
            cs@ == s@,
            nl == seq!['\n'],
            n == s@.len(),
            start <= k <= n,
            forall|m: int| 0 <= m < k - start ==> !occurs_at(s@.skip(start as int), m, nl),
            ls@.map_values(|l: String| l@) + lines(s@.skip(start as int)) == lines(s@),
        decreases n - k,
    {
        let ghost rest = s@.skip(start as int);
        assert(occurs_at(rest, k - start, nl) <==> cs@[k as int] == '\n') by {
            if k - start + 1 <= rest.len() {
                assert(rest.subrange(k - start, k - start + 1) =~= seq![cs@[k as int]]);
                if occurs_at(rest, k - start, nl) {
                    assert(rest.subrange(k - start, k - start + 1)[0] == nl[0]);
                }
            }
        }
        if cs[k] == '\n' {
            proof {
                lemma_find_sep_unique(rest, nl, k - start);
                assert(rest.take(k - start) =~= s@.subrange(start as int, k as int));
                assert(rest.skip(k - start + 1) =~= s@.skip(k + 1));
            }
            let line = if k > start && cs[k - 1] == '\r' {
                proof {
                    assert(s@.subrange(start as int, k as int).drop_last() =~= s@.subrange(start as int, k - 1));
                }
                substring(s, start, k - 1)
            } else {
                substring(s, start, k)
            };
            let ghost old_ls = ls@.map_values(|l: String| l@);
            ls.push(line);
            proof {
                assert(line@ == strip_cr(rest.take(k - start)));
                assert(ls@.map_values(|l: String| l@) =~= old_ls.push(line@));
                assert(lines(rest) == seq![strip_cr(rest.take(k - start))] + lines(s@.skip(k + 1)));
                assert(old_ls.push(line@) + lines(s@.skip(k + 1)) =~= old_ls + lines(rest));
            }
            start = k + 1;
            k = start;
        } else {
            k = k + 1;
        }
    }
    let ghost rest = s@.skip(start as int);
    proof {
        lemma_find_sep_unique(rest, nl, rest.len() as int);
        assert(rest =~= s@.subrange(start as int, n as int));
    }
    if start < n {
        let line = substring(s, start, n);
        let ghost old_ls = ls@.map_values(|l: String| l@);
        ls.push(line);
        assert(ls@.map_values(|l: String| l@) =~= old_ls.push(line@));
        assert(old_ls.push(line@) =~= old_ls + lines(rest));
    } else {
        assert(ls@.map_values(|l: String| l@) =~= ls@.map_values(|l: String| l@) + lines(rest));
    }
    ls
}

// ---------------------------------------------------------------------------
// Joining
// ---------------------------------------------------------------------------

/// The items with `sep` between each neighbouring pair (the behaviour of
/// `join` on a slice of strings).
pub open spec fn join(items: Seq<Seq<char>>, sep: Seq<char>) -> Seq<char>
    decreases items.len(),
{
    if items.len() == 0 {
        seq![]
    } else if items.len() == 1 {
        items[0]
    } else {
        join(items.drop_last(), sep) + sep + items.last()
    }
}

/// Joins `items[from..to]` with `sep`.
pub fn join_strings(items: &Vec<String>, from: usize, to: usize, sep: &str) -> (r: String)
    requires
        from <= to <= items@.len(),
    ensures
        r@ == join(items@.subrange(from as int, to as int).map_values(|s: String| s@), sep@),
{
    let ghost views = items@.map_values(|s: String| s@);
    let mut r = String::new();
    let mut i: usize = from;
    assert(views.subrange(from as int, from as int).len() == 0);
    assert(items@.subrange(from as int, from as int).map_values(|s: String| s@) =~= seq![]);
    while i < to
        invariant
            from <= i <= to <= items@.len(),
            views == items@.map_values(|s: String| s@),
            r@ == join(items@.subrange(from as int, i as int).map_values(|s: String| s@), sep@),
        decreases to - i,
    {
        let ghost prev = items@.subrange(from as int, i as int).map_values(|s: String| s@);
        let ghost next = items@.subrange(from as int, i + 1).map_values(|s: String| s@);
        assert(next.drop_last() =~= prev);
        assert(next.last() == items@[i as int]@);
        if i > from {
            r.append(sep);
        } else {
            assert(next =~= seq![items@[i as int]@]);
        }
        r.append(items[i].as_str());
        i = i + 1;
    }
    r
}

/// Joins string slices with `sep`.
pub fn join_strs(items: &[&str], sep: &str) -> (r: String)
    ensures
        r@ == join(items@.map_values(|s: &str| s@), sep@),
{
    let mut r = String::new();
    let mut i: usize = 0;
    assert(items@.take(0).map_values(|s: &str| s@) =~= seq![]);
    while i < items.len()
        invariant
            i <= items@.len(),
            r@ == join(items@.take(i as int).map_values(|s: &str| s@), sep@),
        decreases items@.len() - i,
    {
        let ghost prev = items@.take(i as int).map_values(|s: &str| s@);
        let ghost next = items@.take(i + 1).map_values(|s: &str| s@);
        assert(next.drop_last() =~= prev);
        assert(next.last() == items@[i as int]@);
        if i > 0 {
            r.append(sep);
        } else {
            assert(next =~= seq![items@[i as int]@]);
        }
        r.append(items[i]);
        i = i + 1;
    }
    assert(items@.take(items@.len() as int) =~= items@);
    r
}

} // verus!
