//! Line-oriented text utilities: splitting a buffer into lines at `'\n'`,
//! joining lines back with `'\n'`, equality and substring tests. These are
//! the primitives the configuration synchronizer is specified and proved
//! over; splitting and joining round-trip exactly, so rewriting a file from
//! its unchanged lines reproduces it byte for byte.

use vstd::prelude::*;
use vstd::string::StrSliceExecFns;

verus! {

/// The lines of `s`, split at `'\n'`. Every buffer has at least one line:
/// the empty buffer has one empty line, and a trailing `'\n'` yields a
/// final empty line, so that joining restores the original exactly.
pub open spec fn split_lines_spec(s: Seq<char>) -> Seq<Seq<char>>
    decreases s.len(),
{
    if s.len() == 0 {
        seq![Seq::<char>::empty()]
    } else if s[0] == '\n' {
        seq![Seq::<char>::empty()] + split_lines_spec(s.skip(1))
    } else {
        let rest = split_lines_spec(s.skip(1));
        seq![seq![s[0]] + rest[0]] + rest.skip(1)
    }
}

/// The lines `ls` joined with a single `'\n'` between consecutive lines.
pub open spec fn join_lines_spec(ls: Seq<Seq<char>>) -> Seq<char>
    decreases ls.len(),
{
    if ls.len() == 0 {
        Seq::<char>::empty()
    } else if ls.len() == 1 {
        ls[0]
    } else {
        ls[0] + seq!['\n'] + join_lines_spec(ls.skip(1))
    }
}

/// The views of a sequence of strings.
pub open spec fn line_views(v: Seq<String>) -> Seq<Seq<char>> {
    v.map_values(|x: String| x@)
}

/// Splitting always yields at least one line.
pub proof fn lemma_split_lines_nonempty(s: Seq<char>)
    ensures
        split_lines_spec(s).len() >= 1,
    decreases s.len(),
{
    if s.len() == 0 {
    } else if s[0] == '\n' {
        lemma_split_lines_nonempty(s.skip(1));
    } else {
        lemma_split_lines_nonempty(s.skip(1));
    }
}

/// Splitting a buffer into lines and joining them again restores the
/// buffer exactly.
pub proof fn lemma_join_split_roundtrip(s: Seq<char>)
    ensures
        join_lines_spec(split_lines_spec(s)) == s,
    decreases s.len(),
{
    if s.len() == 0 {
        assert(join_lines_spec(split_lines_spec(s)) =~= s);
    } else if s[0] == '\n' {
        let s1 = s.skip(1);
        lemma_join_split_roundtrip(s1);
        lemma_split_lines_nonempty(s1);
        let ls = seq![Seq::<char>::empty()] + split_lines_spec(s1);
        assert(ls.len() >= 2);
        assert(ls.skip(1) =~= split_lines_spec(s1));
        assert(ls[0] + seq!['\n'] + join_lines_spec(split_lines_spec(s1)) =~= s);
    } else {
        let s1 = s.skip(1);
        lemma_join_split_roundtrip(s1);
        lemma_split_lines_nonempty(s1);
        let rest = split_lines_spec(s1);
        let ls = seq![seq![s[0]] + rest[0]] + rest.skip(1);
        assert(split_lines_spec(s) == ls);
        if rest.len() == 1 {
            assert(join_lines_spec(rest) == rest[0]);
            assert(ls.len() == 1);
            assert(join_lines_spec(ls) == ls[0]);
            assert(ls[0] =~= seq![s[0]] + s1);
            assert(seq![s[0]] + s1 =~= s);
        } else {
            assert(ls.len() >= 2);
            assert(ls.skip(1) =~= rest.skip(1));
            assert(join_lines_spec(ls) == ls[0] + seq!['\n'] + join_lines_spec(rest.skip(1)));
            assert(join_lines_spec(rest) == rest[0] + seq!['\n'] + join_lines_spec(rest.skip(1)));
            assert(join_lines_spec(rest) == s1);
            assert(ls[0] + seq!['\n'] + join_lines_spec(rest.skip(1)) =~= seq![s[0]] + (rest[0]
                + seq!['\n'] + join_lines_spec(rest.skip(1))));
            assert(seq![s[0]] + s1 =~= s);
        }
    }
}

/// No line produced by splitting still holds a `'\n'`.
pub proof fn lemma_split_lines_no_newline(s: Seq<char>)
    ensures
        forall|i: int|
            0 <= i < split_lines_spec(s).len() ==> !(#[trigger] split_lines_spec(s)[i]).contains(
                '\n',
            ),
    decreases s.len(),
{
    if s.len() == 0 {
        assert forall|i: int| 0 <= i < split_lines_spec(s).len() implies !(
        #[trigger] split_lines_spec(s)[i]).contains('\n') by {
            assert(split_lines_spec(s)[i] =~= Seq::<char>::empty());
        }
    } else if s[0] == '\n' {
        lemma_split_lines_no_newline(s.skip(1));
        assert forall|i: int| 0 <= i < split_lines_spec(s).len() implies !(
        #[trigger] split_lines_spec(s)[i]).contains('\n') by {
            if i == 0 {
                assert(split_lines_spec(s)[0] =~= Seq::<char>::empty());
            } else {
                assert(split_lines_spec(s)[i] == split_lines_spec(s.skip(1))[i - 1]);
            }
        }
    } else {
        lemma_split_lines_no_newline(s.skip(1));
        lemma_split_lines_nonempty(s.skip(1));
        let rest = split_lines_spec(s.skip(1));
        assert forall|i: int| 0 <= i < split_lines_spec(s).len() implies !(
        #[trigger] split_lines_spec(s)[i]).contains('\n') by {
            if i == 0 {
                assert(split_lines_spec(s)[0] == seq![s[0]] + rest[0]);
                assert(!rest[0].contains('\n'));
                if (seq![s[0]] + rest[0]).contains('\n') {
                    let j = choose|j: int|
                        0 <= j < (seq![s[0]] + rest[0]).len() && (seq![s[0]] + rest[0])[j] == '\n';
                    if j == 0 {
                        assert(s[0] == '\n');
                    } else {
                        assert(rest[0][j - 1] == '\n');
                        assert(rest[0].contains('\n'));
                    }
                }
            } else {
                assert(split_lines_spec(s)[i] == rest.skip(1)[i - 1]);
                assert(rest.skip(1)[i - 1] == rest[i]);
            }
        }
    }
}

/// Splitting a buffer without any `'\n'` yields that buffer as its single
/// line.
pub proof fn lemma_split_single_line(l: Seq<char>)
    requires
        !l.contains('\n'),
    ensures
        split_lines_spec(l) == seq![l],
    decreases l.len(),
{
    if l.len() == 0 {
        assert(split_lines_spec(l) =~~= seq![l]);
    } else {
        assert(l[0] != '\n');
        assert(!l.skip(1).contains('\n')) by {
            if l.skip(1).contains('\n') {
                let j = choose|j: int| 0 <= j < l.skip(1).len() && l.skip(1)[j] == '\n';
                assert(l[j + 1] == '\n');
            }
        }
        lemma_split_single_line(l.skip(1));
        let rest = split_lines_spec(l.skip(1));
        assert(rest == seq![l.skip(1)]);
        assert(split_lines_spec(l) =~= seq![seq![l[0]] + l.skip(1)]);
        assert(seq![l[0]] + l.skip(1) =~= l);
        assert(split_lines_spec(l) =~~= seq![l]);
    }
}

/// Splitting `a + '\n' + rest`, for `a` without `'\n'`, yields `a` as the
/// first line and the split of `rest` after it.
pub proof fn lemma_split_prefix_line(a: Seq<char>, rest: Seq<char>)
    requires
        !a.contains('\n'),
    ensures
        split_lines_spec(a + seq!['\n'] + rest) == seq![a] + split_lines_spec(rest),
    decreases a.len(),
{
    let s = a + seq!['\n'] + rest;
    if a.len() == 0 {
        assert(s[0] == '\n');
        assert(s.skip(1) =~= rest);
        assert(split_lines_spec(s) == seq![Seq::<char>::empty()] + split_lines_spec(rest));
        assert(seq![Seq::<char>::empty()] =~~= seq![a]);
    } else {
        assert(s[0] == a[0]);
        assert(a[0] != '\n');
        assert(!a.skip(1).contains('\n')) by {
            if a.skip(1).contains('\n') {
                let j = choose|j: int| 0 <= j < a.skip(1).len() && a.skip(1)[j] == '\n';
                assert(a[j + 1] == '\n');
            }
        }
        lemma_split_prefix_line(a.skip(1), rest);
        lemma_split_lines_nonempty(rest);
        assert(s.skip(1) =~= a.skip(1) + seq!['\n'] + rest);
        let sub = split_lines_spec(s.skip(1));
        assert(sub == seq![a.skip(1)] + split_lines_spec(rest));
        assert(sub[0] == a.skip(1));
        assert(split_lines_spec(s) == seq![seq![s[0]] + sub[0]] + sub.skip(1));
        assert(seq![s[0]] + sub[0] =~= a);
        assert(sub.skip(1) =~= split_lines_spec(rest));
        assert(split_lines_spec(s) =~= seq![a] + split_lines_spec(rest));
    }
}

/// Joining lines that hold no `'\n'` and splitting the result restores the
/// lines exactly.
pub proof fn lemma_split_join_roundtrip(ls: Seq<Seq<char>>)
    requires
        ls.len() >= 1,
        forall|i: int| 0 <= i < ls.len() ==> !(#[trigger] ls[i]).contains('\n'),
    ensures
        split_lines_spec(join_lines_spec(ls)) == ls,
    decreases ls.len(),
{
    if ls.len() == 1 {
        lemma_split_single_line(ls[0]);
        assert(seq![ls[0]] =~= ls);
    } else {
        assert(join_lines_spec(ls) == ls[0] + seq!['\n'] + join_lines_spec(ls.skip(1)));
        assert(forall|i: int|
            0 <= i < ls.skip(1).len() ==> !(#[trigger] ls.skip(1)[i]).contains('\n')) by {
            assert(forall|i: int| 0 <= i < ls.skip(1).len() ==> ls.skip(1)[i] == ls[i + 1]);
        }
        lemma_split_join_roundtrip(ls.skip(1));
        lemma_split_prefix_line(ls[0], join_lines_spec(ls.skip(1)));
        assert(seq![ls[0]] + ls.skip(1) =~= ls);
    }
}

/// Splitting a concatenation: the last line of `a` merges with the first
/// line of `b`; every other line of either side is kept as it stands.
pub proof fn lemma_split_concat(a: Seq<char>, b: Seq<char>)
    ensures
        split_lines_spec(a + b) == split_lines_spec(a).drop_last() + seq![split_lines_spec(
            a,
        ).last() + split_lines_spec(b)[0]] + split_lines_spec(b).skip(1),
    decreases a.len(),
{
    let sa = split_lines_spec(a);
    let sb = split_lines_spec(b);
    lemma_split_lines_nonempty(a);
    lemma_split_lines_nonempty(b);
    if a.len() == 0 {
        assert(a + b =~= b);
        assert(sa =~~= seq![Seq::<char>::empty()]);
        assert(sa.drop_last() =~= Seq::<Seq<char>>::empty());
        assert(sa.last() + sb[0] =~= sb[0]);
        assert(sa.drop_last() + seq![sa.last() + sb[0]] + sb.skip(1) =~~= sb);
    } else if a[0] == '\n' {
        let a1 = a.skip(1);
        lemma_split_concat(a1, b);
        lemma_split_lines_nonempty(a1);
        let sa1 = split_lines_spec(a1);
        assert((a + b)[0] == '\n');
        assert((a + b).skip(1) =~= a1 + b);
        assert(split_lines_spec(a + b) == seq![Seq::<char>::empty()] + split_lines_spec(a1 + b));
        assert(sa == seq![Seq::<char>::empty()] + sa1);
        assert(sa.last() == sa1.last());
        assert(sa.drop_last() =~= seq![Seq::<char>::empty()] + sa1.drop_last());
        assert(seq![Seq::<char>::empty()] + (sa1.drop_last() + seq![sa1.last() + sb[0]]
            + sb.skip(1)) =~= (seq![Seq::<char>::empty()] + sa1.drop_last()) + seq![sa1.last()
            + sb[0]] + sb.skip(1));
    } else {
        let a1 = a.skip(1);
        lemma_split_concat(a1, b);
        lemma_split_lines_nonempty(a1);
        let sa1 = split_lines_spec(a1);
        let sab1 = split_lines_spec(a1 + b);
        assert((a + b)[0] == a[0]);
        assert((a + b).skip(1) =~= a1 + b);
        assert(split_lines_spec(a + b) == seq![seq![a[0]] + sab1[0]] + sab1.skip(1));
        assert(sa == seq![seq![a[0]] + sa1[0]] + sa1.skip(1));
        if sa1.len() == 1 {
            assert(sa =~~= seq![seq![a[0]] + sa1[0]]);
            assert(sa.drop_last() =~= Seq::<Seq<char>>::empty());
            assert(sab1 == sa1.drop_last() + seq![sa1.last() + sb[0]] + sb.skip(1));
            assert(sab1[0] == sa1[0] + sb[0]);
            assert(sab1.skip(1) =~= sb.skip(1));
            assert(seq![a[0]] + sab1[0] =~= (seq![a[0]] + sa1[0]) + sb[0]);
            assert(sa.last() == seq![a[0]] + sa1[0]);
            assert(split_lines_spec(a + b) =~~= sa.drop_last() + seq![sa.last() + sb[0]]
                + sb.skip(1));
        } else {
            assert(sa.len() == sa1.len());
            assert(sa.last() == sa1.last());
            assert(sab1[0] == sa1[0]);
            assert(seq![a[0]] + sab1[0] == sa[0]);
            assert(sab1.skip(1) =~= sa1.drop_last().skip(1) + seq![sa1.last() + sb[0]]
                + sb.skip(1));
            assert(sa.drop_last() =~= seq![sa[0]] + sa1.drop_last().skip(1));
            assert(split_lines_spec(a + b) =~~= sa.drop_last() + seq![sa.last() + sb[0]]
                + sb.skip(1));
        }
    }
}

/// The first line of `ls` extended on the left by `p`, the other lines
/// unchanged. Describes a split whose first line is still being read.
pub open spec fn prepend_first(p: Seq<char>, ls: Seq<Seq<char>>) -> Seq<Seq<char>>
    recommends
        ls.len() >= 1,
{
    seq![p + ls[0]] + ls.skip(1)
}

proof fn lemma_split_unfold(s: Seq<char>, i: int)
    requires
        0 <= i < s.len(),
    ensures
        s[i] == '\n' ==> split_lines_spec(s.skip(i)) == seq![Seq::<char>::empty()]
            + split_lines_spec(s.skip(i + 1)),
        s[i] != '\n' ==> split_lines_spec(s.skip(i)) == seq![seq![s[i]]
            + split_lines_spec(s.skip(i + 1))[0]] + split_lines_spec(s.skip(i + 1)).skip(1),
{
    assert(s.skip(i).len() > 0);
    assert(s.skip(i)[0] == s[i]);
    assert(s.skip(i).skip(1) =~= s.skip(i + 1));
}

/// Splits `s` into its lines at `'\n'`. The result matches
/// [`split_lines_spec`] exactly; in particular it is never empty.
pub fn split_lines(s: &str) -> (r: Vec<String>)
    ensures
        line_views(r@) == split_lines_spec(s@),
{
    let n = s.unicode_len();
    let mut r: Vec<String> = Vec::new();
    let mut start: usize = 0;
    let mut i: usize = 0;
    proof {
        lemma_split_lines_nonempty(s@);
        assert(s@.skip(0) =~= s@);
        assert(s@.subrange(0, 0) =~= Seq::<char>::empty());
        assert(prepend_first(Seq::<char>::empty(), split_lines_spec(s@)) =~= split_lines_spec(
            s@,
        )) by {
            lemma_split_lines_nonempty(s@);
        }
    }
    while i < n
        invariant
            n == s@.len(),
            0 <= start <= i <= n,
            split_lines_spec(s@.skip(i as int)).len() >= 1,
            split_lines_spec(s@) == line_views(r@) + prepend_first(
                s@.subrange(start as int, i as int),
                split_lines_spec(s@.skip(i as int)),
            ),
        decreases n - i,
    {
        proof {
            lemma_split_unfold(s@, i as int);
            lemma_split_lines_nonempty(s@.skip(i as int + 1));
        }
        let ghost part = s@.subrange(start as int, i as int);
        let ghost tail = split_lines_spec(s@.skip(i as int + 1));
        if s.get_char(i) == '\n' {
            let line = s.substring_char(start, i).to_owned();
            proof {
                let cur = split_lines_spec(s@.skip(i as int));
                assert(cur == seq![Seq::<char>::empty()] + tail);
                assert(cur[0] =~= Seq::<char>::empty());
                assert(cur.skip(1) =~= tail);
                assert(prepend_first(part, cur) =~= seq![part] + tail);
                assert(line_views(r@.push(line)) =~= line_views(r@) + seq![part]);
                assert(line_views(r@) + (seq![part] + tail) =~= (line_views(r@) + seq![part])
                    + tail);
                assert(s@.subrange(i as int + 1, i as int + 1) =~= Seq::<char>::empty());
                assert(prepend_first(Seq::<char>::empty(), tail) =~= tail);
            }
            r.push(line);
            start = i + 1;
        } else {
            proof {
                let cur = split_lines_spec(s@.skip(i as int));
                assert(cur[0] == seq![s@[i as int]] + tail[0]);
                assert(cur.skip(1) =~= tail.skip(1));
                assert(part + cur[0] =~= s@.subrange(start as int, i as int + 1) + tail[0]);
                assert(prepend_first(part, cur) =~= prepend_first(
                    s@.subrange(start as int, i as int + 1),
                    tail,
                ));
            }
        }
        i = i + 1;
    }
    let last = s.substring_char(start, n).to_owned();
    proof {
        let cur = split_lines_spec(s@.skip(n as int));
        assert(s@.skip(n as int) =~= Seq::<char>::empty());
        assert(cur =~= seq![Seq::<char>::empty()]);
        let part = s@.subrange(start as int, n as int);
        assert(prepend_first(part, cur) =~= seq![part]);
        assert(line_views(r@.push(last)) =~= line_views(r@) + seq![part]);
    }
    r.push(last);
    r
}

proof fn lemma_join_snoc(ls: Seq<Seq<char>>, l: Seq<char>)
    ensures
        ls.len() == 0 ==> join_lines_spec(ls.push(l)) == l,
        ls.len() >= 1 ==> join_lines_spec(ls.push(l)) == join_lines_spec(ls) + seq!['\n'] + l,
    decreases ls.len(),
{
    if ls.len() == 0 {
        assert(ls.push(l) =~= seq![l]);
    } else if ls.len() == 1 {
        assert(ls.push(l).len() == 2);
        assert(ls.push(l)[0] == ls[0]);
        assert(ls.push(l).skip(1) =~= seq![l]);
        assert(join_lines_spec(seq![l]) == l);
    } else {
        assert(ls.push(l).skip(1) =~= ls.skip(1).push(l));
        lemma_join_snoc(ls.skip(1), l);
        assert(ls.push(l)[0] == ls[0]);
        assert(ls[0] + seq!['\n'] + (join_lines_spec(ls.skip(1)) + seq!['\n'] + l) =~= (ls[0]
            + seq!['\n'] + join_lines_spec(ls.skip(1))) + seq!['\n'] + l);
    }
}

/// Joins lines with a single `'\n'` between consecutive lines, matching
/// [`join_lines_spec`] exactly.
pub fn join_lines(v: &Vec<String>) -> (r: String)
    ensures
        r@ == join_lines_spec(line_views(v@)),
{
    let mut r = String::new();
    let mut k: usize = 0;
    proof {
        assert(line_views(v@).take(0) =~= Seq::<Seq<char>>::empty());
    }
    while k < v.len()
        invariant
            0 <= k <= v@.len(),
            r@ == join_lines_spec(line_views(v@).take(k as int)),
        decreases v@.len() - k,
    {
        proof {
            let lv = line_views(v@);
            lemma_join_snoc(lv.take(k as int), lv[k as int]);
            assert(lv.take(k as int).push(lv[k as int]) =~= lv.take(k as int + 1));
            reveal_strlit("\n");
            assert("\n"@ =~= seq!['\n']);
        }
        if k > 0 {
            r.append("\n");
        }
        r.append(v[k].as_str());
        k = k + 1;
    }
    proof {
        assert(line_views(v@).take(v@.len() as int) =~= line_views(v@));
    }
    r
}

/// `needle` occurs as a contiguous run of characters inside `hay`.
pub open spec fn contains_seq(hay: Seq<char>, needle: Seq<char>) -> bool {
    exists|i: int|
        0 <= i && i + needle.len() <= hay.len() && #[trigger] hay.subrange(
            i,
            i + needle.len() as int,
        ) == needle
}

fn matches_at(hay: &str, needle: &str, i: usize) -> (r: bool)
    requires
        i + needle@.len() <= hay@.len(),
    ensures
        r == (hay@.subrange(i as int, i as int + needle@.len() as int) == needle@),
{
    let h = hay.unicode_len();
    let m = needle.unicode_len();
    let mut j: usize = 0;
    while j < m
        invariant
            h == hay@.len(),
            m == needle@.len(),
            i + m <= h,
            0 <= j <= m,
            forall|t: int| 0 <= t < j ==> hay@[i + t] == needle@[t],
        decreases m - j,
    {
        if hay.get_char(i + j) != needle.get_char(j) {
            assert(hay@.subrange(i as int, i as int + m as int)[j as int] != needle@[j as int]);
            return false;
        }
        j = j + 1;
    }
    assert(hay@.subrange(i as int, i as int + m as int) =~= needle@);
    true
}

/// Substring search, specified by [`contains_seq`].
pub fn contains_sub(hay: &str, needle: &str) -> (r: bool)
    ensures
        r == contains_seq(hay@, needle@),
{
    let h = hay.unicode_len();
    let m = needle.unicode_len();
    if m > h {
        assert(!contains_seq(hay@, needle@));
        return false;
    }
    if m == 0 {
        assert(hay@.subrange(0, 0 + needle@.len() as int) =~= needle@);
        return true;
    }
    let mut i: usize = 0;
    while i <= h - m
        invariant
            h == hay@.len(),
            m == needle@.len(),
            1 <= m <= h,
            0 <= i <= h - m + 1,
            forall|t: int|
                0 <= t < i ==> #[trigger] hay@.subrange(t, t + needle@.len() as int) != needle@,
        decreases h - m + 1 - i,
    {
        if matches_at(hay, needle, i) {
            assert(contains_seq(hay@, needle@));
            return true;
        }
        i = i + 1;
    }
    assert(!contains_seq(hay@, needle@));
    false
}

/// `prefix` is an initial run of `s`.
pub fn starts_with_sub(s: &str, prefix: &str) -> (r: bool)
    ensures
        r == (s@.len() >= prefix@.len() && s@.take(prefix@.len() as int) == prefix@),
{
    let n = s.unicode_len();
    let m = prefix.unicode_len();
    if m > n {
        return false;
    }
    let r = matches_at(s, prefix, 0);
    proof {
        assert(s@.subrange(0, 0 + prefix@.len() as int) == s@.take(prefix@.len() as int));
    }
    r
}

/// Character-for-character string equality, specified over the views.
pub fn str_eq(a: &str, b: &str) -> (r: bool)
    ensures
        r == (a@ == b@),
{
    let alen = a.unicode_len();
    let blen = b.unicode_len();
    if alen != blen {
        assert(a@ != b@);
        return false;
    }
    let mut j: usize = 0;
    while j < alen
        invariant
            alen == a@.len(),
            alen == b@.len(),
            0 <= j <= alen,
            forall|t: int| 0 <= t < j ==> a@[t] == b@[t],
        decreases alen - j,
    {
        if a.get_char(j) != b.get_char(j) {
            assert(a@ != b@);
            return false;
        }
        j = j + 1;
    }
    assert(a@ =~= b@);
    true
}

} // verus!

