//! Character-level helpers: ASCII case folding, substring search,
//! lexicographic ordering of names, and decimal rendering of counts.

use vstd::prelude::*;
use vstd::string::StrSliceExecFns;

verus! {

/// ASCII lower-casing of a single character; other characters are unchanged.
pub open spec fn lower_char(c: char) -> char {
    if 65 <= c as u32 && c as u32 <= 90 {
        (((c as u32) + 32) as u8) as char
    } else {
        c
    }
}

/// ASCII upper-casing of a single character; other characters are unchanged.
pub open spec fn upper_char(c: char) -> char {
    if 97 <= c as u32 && c as u32 <= 122 {
        (((c as u32) - 32) as u8) as char
    } else {
        c
    }
}

pub open spec fn lower_seq(s: Seq<char>) -> Seq<char> {
    s.map_values(|c: char| lower_char(c))
}

pub open spec fn upper_seq(s: Seq<char>) -> Seq<char> {
    s.map_values(|c: char| upper_char(c))
}

/// The needle occurs in the haystack starting at position `i`.
pub open spec fn matches_at(hay: Seq<char>, needle: Seq<char>, i: int) -> bool {
    &&& 0 <= i
    &&& i + needle.len() <= hay.len()
    &&& hay.subrange(i, i + needle.len() as int) == needle
}

/// Plain (case-sensitive) substring containment.
pub open spec fn contains_seq(hay: Seq<char>, needle: Seq<char>) -> bool {
    exists|i: int| matches_at(hay, needle, i)
}

/// Case-insensitive (ASCII) substring containment.
pub open spec fn contains_ci(hay: Seq<char>, needle: Seq<char>) -> bool {
    contains_seq(lower_seq(hay), lower_seq(needle))
}

/// The characters of a string slice, in order.
pub fn str_chars(s: &str) -> (r: Vec<char>)
    ensures
        r@ == s@,
{
    let n: usize = s.unicode_len();
    let mut r: Vec<char> = Vec::new();
    let mut i: usize = 0;
    while i < n
        invariant
            n == s@.len(),
            i <= n,
            r@ == s@.subrange(0, i as int),
        decreases n - i,
    {
        let c = s.get_char(i);
        r.push(c);
        i = i + 1;
        proof {
            assert(r@ =~= s@.subrange(0, i as int));
        }
    }
    proof {
        assert(r@ =~= s@);
    }
    r
}

pub fn lower_chars(v: &Vec<char>) -> (r: Vec<char>)
    ensures
        r@ == lower_seq(v@),
{
    let mut r: Vec<char> = Vec::new();
    let mut i: usize = 0;
    while i < v.len()
        invariant
            i <= v@.len(),
            r@ == lower_seq(v@.subrange(0, i as int)),
        decreases v@.len() - i,
    {
        let c = v[i];
        let u: u32 = c as u32;
        if 65 <= u && u <= 90 {
            let b: u8 = (u + 32) as u8;
            r.push(b as char);
        } else {
            r.push(c);
        }
        i = i + 1;
        proof {
            assert(r@ =~= lower_seq(v@.subrange(0, i as int)));
        }
    }
    proof {
        assert(v@.subrange(0, v@.len() as int) =~= v@);
    }
    r
}

pub fn upper_chars(v: &Vec<char>) -> (r: Vec<char>)
    ensures
        r@ == upper_seq(v@),
{
    let mut r: Vec<char> = Vec::new();
    let mut i: usize = 0;
    while i < v.len()
        invariant
            i <= v@.len(),
            r@ == upper_seq(v@.subrange(0, i as int)),
        decreases v@.len() - i,
    {
        let c = v[i];
        let u: u32 = c as u32;
        if 97 <= u && u <= 122 {
            let b: u8 = (u - 32) as u8;
            r.push(b as char);
        } else {
            r.push(c);
        }
        i = i + 1;
        proof {
            assert(r@ =~= upper_seq(v@.subrange(0, i as int)));
        }
    }
    proof {
        assert(v@.subrange(0, v@.len() as int) =~= v@);
    }
    r
}

/// The needle compared against the haystack at one position.
fn match_at(hay: &Vec<char>, needle: &Vec<char>, i: usize) -> (r: bool)
    requires
        i + needle@.len() <= hay@.len(),
    ensures
        r == matches_at(hay@, needle@, i as int),
{
    let hay_len: usize = hay.len();
    let mut j: usize = 0;
    while j < needle.len()
        invariant
            hay_len == hay@.len(),
            i + needle@.len() <= hay@.len(),
            j <= needle@.len(),
            forall|k: int| 0 <= k < j ==> hay@[i + k] == needle@[k],
        decreases needle@.len() - j,
    {
        if hay[i + j] != needle[j] {
            proof {
                let sub = hay@.subrange(i as int, i + needle@.len() as int);
                assert(sub[j as int] == hay@[i + j]);
                assert(!matches_at(hay@, needle@, i as int));
            }
            return false;
        }
        j = j + 1;
    }
    proof {
        assert(hay@.subrange(i as int, i + needle@.len() as int) =~= needle@);
    }
    true
}

/// Naive substring search over character vectors.
pub fn contains_chars(hay: &Vec<char>, needle: &Vec<char>) -> (r: bool)
    ensures
        r == contains_seq(hay@, needle@),
{
    if needle.len() == 0 {
        proof {
            assert(hay@.subrange(0, 0) =~= needle@);
            assert(matches_at(hay@, needle@, 0));
        }
        return true;
    }
    if needle.len() > hay.len() {
        proof {
            assert(forall|i: int| !matches_at(hay@, needle@, i));
        }
        return false;
    }
    let hay_len: usize = hay.len();
    let last: usize = hay_len - needle.len();
    let mut i: usize = 0;
    while i <= last
        invariant
            hay_len == hay@.len(),
            1 <= needle@.len() <= hay@.len(),
            last == hay@.len() - needle@.len(),
            i <= last + 1,
            forall|k: int| 0 <= k < i ==> !matches_at(hay@, needle@, k),
        decreases last + 1 - i,
    {
        if match_at(hay, needle, i) {
            return true;
        }
        i = i + 1;
    }
    proof {
        assert(forall|k: int| matches_at(hay@, needle@, k) ==> 0 <= k < i);
    }
    false
}

/// Equality of string slices, character by character.
pub fn str_eq(a: &str, b: &str) -> (r: bool)
    ensures
        r == (a@ == b@),
{
    let an: usize = a.unicode_len();
    let bn: usize = b.unicode_len();
    if an != bn {
        proof {
            assert(a@.len() != b@.len());
        }
        return false;
    }
    let mut i: usize = 0;
    while i < an
        invariant
            an == a@.len(),
            an == b@.len(),
            i <= an,
            forall|k: int| 0 <= k < i ==> a@[k] == b@[k],
        decreases an - i,
    {
        if a.get_char(i) != b.get_char(i) {
            return false;
        }
        i = i + 1;
    }
    proof {
        assert(a@ =~= b@);
    }
    true
}

/// Case-insensitive (ASCII) substring test on string slices.
pub fn str_contains_ci(hay: &str, needle: &str) -> (r: bool)
    ensures
        r == contains_ci(hay@, needle@),
{
    let h = str_chars(hay);
    let n = str_chars(needle);
    let hl = lower_chars(&h);
    let nl = lower_chars(&n);
    contains_chars(&hl, &nl)
}

/// Lexicographic order on character sequences by code point.
pub open spec fn lex_leq(a: Seq<char>, b: Seq<char>) -> bool
    decreases a.len(),
{
    if a.len() == 0 {
        true
    } else if b.len() == 0 {
        false
    } else if a[0] != b[0] {
        (a[0] as int) < (b[0] as int)
    } else {
        lex_leq(a.subrange(1, a.len() as int), b.subrange(1, b.len() as int))
    }
}

pub proof fn lemma_lex_total(a: Seq<char>, b: Seq<char>)
    ensures
        lex_leq(a, b) || lex_leq(b, a),
    decreases a.len(),
{
    if a.len() != 0 && b.len() != 0 && a[0] == b[0] {
        lemma_lex_total(a.subrange(1, a.len() as int), b.subrange(1, b.len() as int));
    }
}

pub proof fn lemma_lex_antisymmetric(a: Seq<char>, b: Seq<char>)
    requires
        lex_leq(a, b),
        lex_leq(b, a),
    ensures
        a == b,
    decreases a.len(),
{
    if a.len() == 0 {
        assert(b.len() == 0);
        assert(a =~= b);
    } else {
        assert(b.len() != 0);
        assert(a[0] == b[0]);
        lemma_lex_antisymmetric(a.subrange(1, a.len() as int), b.subrange(1, b.len() as int));
        assert(a =~= seq![a[0]] + a.subrange(1, a.len() as int));
        assert(b =~= seq![b[0]] + b.subrange(1, b.len() as int));
    }
}

pub proof fn lemma_lex_transitive(a: Seq<char>, b: Seq<char>, c: Seq<char>)
    requires
        lex_leq(a, b),
        lex_leq(b, c),
    ensures
        lex_leq(a, c),
    decreases a.len(),
{
    if a.len() != 0 && b.len() != 0 && c.len() != 0 && a[0] == b[0] && b[0] == c[0] {
        lemma_lex_transitive(
            a.subrange(1, a.len() as int),
            b.subrange(1, b.len() as int),
            c.subrange(1, c.len() as int),
        );
    }
}

/// Lexicographic comparison of string slices, by unicode code point.
pub fn str_lex_leq(a: &str, b: &str) -> (r: bool)
    ensures
        r == lex_leq(a@, b@),
{
    let va = str_chars(a);
    let vb = str_chars(b);
    chars_lex_leq(&va, &vb)
}

fn chars_lex_leq(a: &Vec<char>, b: &Vec<char>) -> (r: bool)
    ensures
        r == lex_leq(a@, b@),
{
    let mut i: usize = 0;
    let an: usize = a.len();
    let bn: usize = b.len();
    proof {
        assert(a@.subrange(0, an as int) =~= a@);
        assert(b@.subrange(0, bn as int) =~= b@);
    }
    while i < an && i < bn
        invariant
            an == a@.len(),
            bn == b@.len(),
            i <= an,
            i <= bn,
            forall|k: int| 0 <= k < i ==> a@[k] == b@[k],
            lex_leq(a@, b@) == lex_leq(
                a@.subrange(i as int, an as int),
                b@.subrange(i as int, bn as int),
            ),
        decreases an - i,
    {
        let ca = a[i];
        let cb = b[i];
        proof {
            let sa = a@.subrange(i as int, an as int);
            let sb = b@.subrange(i as int, bn as int);
            assert(sa[0] == a@[i as int]);
            assert(sb[0] == b@[i as int]);
            assert(sa.subrange(1, sa.len() as int) =~= a@.subrange(i + 1, an as int));
            assert(sb.subrange(1, sb.len() as int) =~= b@.subrange(i + 1, bn as int));
        }
        if ca != cb {
            return ca < cb;
        }
        i = i + 1;
    }
    proof {
        let sa = a@.subrange(i as int, an as int);
        let sb = b@.subrange(i as int, bn as int);
        if i == an {
            assert(sa.len() == 0);
            assert(lex_leq(sa, sb));
        } else {
            assert(sb.len() == 0);
            assert(!lex_leq(sa, sb));
        }
    }
    i == an
}

/// A sequence of owned names in ascending lexicographic order.
pub open spec fn names_sorted(v: Seq<String>) -> bool {
    forall|i: int, j: int| 0 <= i < j < v.len() ==> lex_leq(v[i]@, v[j]@)
}

/// Strictly ascending: sorted with no repeated name.
pub open spec fn names_strictly_sorted(v: Seq<String>) -> bool {
    forall|i: int, j: int| 0 <= i < j < v.len() ==> lex_leq(v[i]@, v[j]@) && v[i]@ != v[j]@
}

/// Some entry of the list has this name.
pub open spec fn has_name(v: Seq<String>, c: Seq<char>) -> bool {
    exists|i: int| 0 <= i < v.len() && #[trigger] v[i]@ == c
}

proof fn lemma_insert_multiset(s: Seq<String>, i: int, x: String)
    requires
        0 <= i <= s.len(),
    ensures
        s.insert(i, x).to_multiset() == s.to_multiset().insert(x),
{
    let pre = s.subrange(0, i);
    let post = s.subrange(i, s.len() as int);
    assert(s.insert(i, x) =~= pre.push(x) + post);
    assert(s =~= pre + post);
    vstd::seq_lib::lemma_multiset_commutative(pre.push(x), post);
    vstd::seq_lib::lemma_multiset_commutative(pre, post);
    pre.to_multiset_ensures();
    assert(pre.push(x).to_multiset() =~= pre.to_multiset().insert(x));
    assert(pre.to_multiset().insert(x).add(post.to_multiset()) =~= (pre.to_multiset().add(
        post.to_multiset(),
    )).insert(x));
}

/// The place of a name in an ascending list: every earlier entry is at
/// or below it, and the entry at the place (if any) is above it.
fn sorted_position(v: &Vec<String>, x: &String) -> (idx: usize)
    ensures
        idx <= v@.len(),
        forall|k: int| 0 <= k < idx ==> lex_leq(#[trigger] v@[k]@, x@),
        idx < v@.len() ==> !lex_leq(v@[idx as int]@, x@),
{
    let mut idx: usize = 0;
    while idx < v.len()
        invariant
            idx <= v@.len(),
            forall|k: int| 0 <= k < idx ==> lex_leq(#[trigger] v@[k]@, x@),
        decreases v@.len() - idx,
    {
        if !str_lex_leq(v[idx].as_str(), x.as_str()) {
            return idx;
        }
        idx = idx + 1;
    }
    idx
}

/// The name inserted at its place in an ascending list.
fn insert_sorted(v: Vec<String>, x: String) -> (r: Vec<String>)
    requires
        names_sorted(v@),
    ensures
        names_sorted(r@),
        r@.to_multiset() == v@.to_multiset().insert(x),
        r@.len() == v@.len() + 1,
        forall|c: Seq<char>| #[trigger] has_name(r@, c) <==> (c == x@ || has_name(v@, c)),
{
    let idx = sorted_position(&v, &x);
    proof {
        if idx < v@.len() {
            lemma_lex_total(v@[idx as int]@, x@);
        }
    }
    let ghost v0 = v@;
    let ghost xx = x;
    let mut v = v;
    v.insert(idx, x);
    proof {
        lemma_insert_multiset(v0, idx as int, xx);
        assert(names_sorted(v@)) by {
            assert forall|a: int, b: int| 0 <= a < b < v@.len() implies lex_leq(
                v@[a]@,
                v@[b]@,
            ) by {
                if a == idx && b > idx {
                    assert(v@[a]@ == xx@);
                    assert(v@[b]@ == v0[b - 1]@);
                    assert(lex_leq(xx@, v0[idx as int]@));
                    if b - 1 > idx {
                        assert(lex_leq(v0[idx as int]@, v0[b - 1]@));
                        lemma_lex_transitive(xx@, v0[idx as int]@, v0[b - 1]@);
                    }
                }
            }
        }
        assert forall|c: Seq<char>|
            #![trigger has_name(v@, c)]
            #![trigger has_name(v0, c)]
            has_name(v@, c) <==> (c == xx@ || has_name(v0, c)) by {
            if has_name(v@, c) {
                let i = choose|i: int| 0 <= i < v@.len() && #[trigger] v@[i]@ == c;
                if i < idx {
                    assert(v0[i]@ == c);
                    assert(has_name(v0, c));
                } else if i > idx {
                    assert(v0[i - 1]@ == c);
                    assert(has_name(v0, c));
                }
            }
            if c == xx@ {
                assert(v@[idx as int]@ == c);
                assert(has_name(v@, c));
            } else if has_name(v0, c) {
                let i = choose|i: int| 0 <= i < v0.len() && #[trigger] v0[i]@ == c;
                if i < idx {
                    assert(v@[i]@ == c);
                } else {
                    assert(v@[i + 1]@ == c);
                }
                assert(has_name(v@, c));
            }
        }
    }
    v
}

/// The names rearranged into ascending lexicographic order.
pub fn sort_names(v: Vec<String>) -> (r: Vec<String>)
    ensures
        names_sorted(r@),
        r@.to_multiset() == v@.to_multiset(),
{
    let mut r: Vec<String> = Vec::new();
    let mut i: usize = 0;
    proof {
        assert(v@.subrange(0, 0) =~= Seq::<String>::empty());
        v@.subrange(0, 0).to_multiset_ensures();
        assert(r@.to_multiset() =~= v@.subrange(0, 0).to_multiset());
    }
    while i < v.len()
        invariant
            i <= v@.len(),
            names_sorted(r@),
            r@.to_multiset() == v@.subrange(0, i as int).to_multiset(),
        decreases v@.len() - i,
    {
        let x = v[i].clone();
        proof {
            let pre = v@.subrange(0, i as int);
            assert(pre.push(v@[i as int]) =~= v@.subrange(0, i + 1 as int));
            pre.to_multiset_ensures();
        }
        r = insert_sorted(r, x);
        i = i + 1;
    }
    proof {
        assert(v@.subrange(0, v@.len() as int) =~= v@);
    }
    r
}

/// Lists with equal multisets hold the same names.
pub proof fn lemma_multiset_preserves_has_name(a: Seq<String>, b: Seq<String>)
    requires
        a.to_multiset() == b.to_multiset(),
    ensures
        forall|c: Seq<char>|
            #![trigger has_name(a, c)]
            #![trigger has_name(b, c)]
            has_name(a, c) <==> has_name(b, c),
{
    a.to_multiset_ensures();
    b.to_multiset_ensures();
    assert forall|c: Seq<char>|
        #![trigger has_name(a, c)]
        #![trigger has_name(b, c)]
        has_name(a, c) <==> has_name(b, c) by {
        if has_name(a, c) {
            let i = choose|i: int| 0 <= i < a.len() && #[trigger] a[i]@ == c;
            assert(a.contains(a[i]));
            assert(a.to_multiset().count(a[i]) > 0);
            assert(b.to_multiset().count(a[i]) > 0);
            assert(b.contains(a[i]));
            let j = choose|j: int| 0 <= j < b.len() && b[j] == a[i];
            assert(b[j]@ == c);
        }
        if has_name(b, c) {
            let i = choose|i: int| 0 <= i < b.len() && #[trigger] b[i]@ == c;
            assert(b.contains(b[i]));
            assert(b.to_multiset().count(b[i]) > 0);
            assert(a.to_multiset().count(b[i]) > 0);
            assert(a.contains(b[i]));
            let j = choose|j: int| 0 <= j < a.len() && a[j] == b[i];
            assert(a[j]@ == c);
        }
    }
}

/// The ascending list with repeated names dropped: strictly ascending,
/// holding exactly the names of the input.
pub fn dedup_sorted(v: Vec<String>) -> (r: Vec<String>)
    requires
        names_sorted(v@),
    ensures
        names_strictly_sorted(r@),
        forall|c: Seq<char>|
            #![trigger has_name(r@, c)]
            #![trigger has_name(v@, c)]
            has_name(r@, c) <==> has_name(v@, c),
{
    let mut r: Vec<String> = Vec::new();
    let mut i: usize = 0;
    proof {
        assert forall|c: Seq<char>| !has_name(v@.subrange(0, 0), c) by {}
    }
    while i < v.len()
        invariant
            names_sorted(v@),
            i <= v@.len(),
            names_strictly_sorted(r@),
            forall|c: Seq<char>|
                #![trigger has_name(r@, c)]
                #![trigger has_name(v@.subrange(0, i as int), c)]
                has_name(r@, c) <==> has_name(v@.subrange(0, i as int), c),
            r@.len() > 0 ==> i > 0 && r@.last()@ == v@[i - 1]@,
        decreases v@.len() - i,
    {
        let ghost sub0 = v@.subrange(0, i as int);
        let ghost sub1 = v@.subrange(0, i + 1 as int);
        let ghost r0 = r@;
        let take: bool = if r.len() == 0 {
            true
        } else {
            !str_eq(r[r.len() - 1].as_str(), v[i].as_str())
        };
        if take {
            r.push(v[i].clone());
            proof {
                assert(r@.last()@ == v@[i as int]@);
                assert(names_strictly_sorted(r@)) by {
                    assert forall|a: int, b: int| 0 <= a < b < r@.len() implies lex_leq(
                        r@[a]@,
                        r@[b]@,
                    ) && r@[a]@ != r@[b]@ by {
                        if b == r@.len() - 1 {
                            let c = r0[a]@;
                            assert(has_name(r0, c)) by {
                                assert(r0[a]@ == c);
                            }
                            let k = choose|k: int| 0 <= k < sub0.len() && #[trigger] sub0[k]@ == c;
                            assert(c == v@[k]@);
                            assert(lex_leq(v@[k]@, v@[i as int]@));
                            if r@[a]@ == r@[b]@ {
                                // the pushed name equals an earlier kept one:
                                // then it also equals the last kept name,
                                // against the take condition
                                assert(r0.len() > 0);
                                assert(r0.last()@ == v@[i - 1]@);
                                if a < r0.len() - 1 {
                                    assert(lex_leq(r0[a]@, r0.last()@));
                                }
                                assert(lex_leq(v@[i as int]@, v@[i - 1]@));
                                assert(lex_leq(v@[i - 1]@, v@[i as int]@));
                                lemma_lex_antisymmetric(v@[i - 1]@, v@[i as int]@);
                                assert(false);
                            }
                        }
                    }
                }
                assert forall|c: Seq<char>|
                    #![trigger has_name(r@, c)]
                    #![trigger has_name(sub1, c)]
                    has_name(r@, c) <==> has_name(sub1, c) by {
                    if has_name(r@, c) {
                        let k = choose|k: int| 0 <= k < r@.len() && #[trigger] r@[k]@ == c;
                        if k < r0.len() {
                            assert(r0[k]@ == c);
                            assert(has_name(r0, c));
                            let m = choose|m: int| 0 <= m < sub0.len() && #[trigger] sub0[m]@ == c;
                            assert(sub1[m]@ == c);
                        } else {
                            assert(sub1[i as int]@ == c);
                        }
                        assert(has_name(sub1, c));
                    }
                    if has_name(sub1, c) {
                        let k = choose|k: int| 0 <= k < sub1.len() && #[trigger] sub1[k]@ == c;
                        if k == i {
                            assert(r@.last()@ == c);
                        } else {
                            assert(sub0[k]@ == c);
                            assert(has_name(sub0, c));
                            let m = choose|m: int| 0 <= m < r0.len() && #[trigger] r0[m]@ == c;
                            assert(r@[m]@ == c);
                        }
                        assert(has_name(r@, c));
                    }
                }
            }
        } else {
            proof {
                assert(r@.last()@ == v@[i as int]@);
                assert forall|c: Seq<char>|
                    #![trigger has_name(r@, c)]
                    #![trigger has_name(sub1, c)]
                    has_name(r@, c) <==> has_name(sub1, c) by {
                    if has_name(r@, c) {
                        assert(has_name(sub0, c));
                        let k = choose|k: int| 0 <= k < sub0.len() && #[trigger] sub0[k]@ == c;
                        assert(sub1[k]@ == c);
                        assert(has_name(sub1, c));
                    }
                    if has_name(sub1, c) {
                        let k = choose|k: int| 0 <= k < sub1.len() && #[trigger] sub1[k]@ == c;
                        if k == i {
                            assert(r@[r@.len() - 1]@ == c);
                        } else {
                            assert(sub0[k]@ == c);
                            assert(has_name(sub0, c));
                        }
                        assert(has_name(r@, c));
                    }
                }
            }
        }
        i = i + 1;
    }
    proof {
        assert(v@.subrange(0, v@.len() as int) =~= v@);
    }
    r
}

/// Scored names in descending score order.
pub open spec fn scores_descending(v: Seq<(String, i64)>) -> bool {
    forall|i: int, j: int| 0 <= i < j < v.len() ==> v[i].1 >= v[j].1
}

/// The names of a scored list, in order.
pub open spec fn pair_names(v: Seq<(String, i64)>) -> Seq<String> {
    v.map_values(|p: (String, i64)| p.0)
}

proof fn lemma_pair_insert_multiset(s: Seq<(String, i64)>, i: int, x: (String, i64))
    requires
        0 <= i <= s.len(),
    ensures
        s.insert(i, x).to_multiset() == s.to_multiset().insert(x),
{
    let pre = s.subrange(0, i);
    let post = s.subrange(i, s.len() as int);
    assert(s.insert(i, x) =~= pre.push(x) + post);
    assert(s =~= pre + post);
    vstd::seq_lib::lemma_multiset_commutative(pre.push(x), post);
    vstd::seq_lib::lemma_multiset_commutative(pre, post);
    pre.to_multiset_ensures();
    assert(pre.push(x).to_multiset() =~= pre.to_multiset().insert(x));
    assert(pre.to_multiset().insert(x).add(post.to_multiset()) =~= (pre.to_multiset().add(
        post.to_multiset(),
    )).insert(x));
}

/// Lists of scored names with equal multisets carry name lists with
/// equal multisets.
pub proof fn lemma_pairs_multiset_names(a: Seq<(String, i64)>, b: Seq<(String, i64)>)
    requires
        a.to_multiset() == b.to_multiset(),
    ensures
        pair_names(a).to_multiset() == pair_names(b).to_multiset(),
    decreases a.len(),
{
    a.to_multiset_ensures();
    b.to_multiset_ensures();
    if a.len() == 0 {
        assert(b.to_multiset().len() == 0);
        assert(pair_names(a) =~= Seq::<String>::empty());
        assert(pair_names(b) =~= Seq::<String>::empty());
        pair_names(a).to_multiset_ensures();
        pair_names(b).to_multiset_ensures();
        assert(pair_names(a).to_multiset() =~= pair_names(b).to_multiset());
    } else {
        let x = a.last();
        assert(a.contains(x)) by {
            assert(a[a.len() - 1] == x);
        }
        assert(a.to_multiset().count(x) > 0);
        assert(b.to_multiset().count(x) > 0);
        assert(b.contains(x));
        let j = choose|j: int| 0 <= j < b.len() && b[j] == x;
        let a1 = a.drop_last();
        let b1 = b.remove(j);
        assert(a1.to_multiset() == b1.to_multiset()) by {
            a1.to_multiset_ensures();
            assert(a =~= a1.push(x));
            assert(a1.push(x).to_multiset() =~= a1.to_multiset().insert(x));
            assert(a.to_multiset() =~= a1.to_multiset().insert(x));
            assert(b1.to_multiset() =~= b.to_multiset().remove(b[j]));
            assert(a1.to_multiset() =~= a.to_multiset().remove(x));
        }
        lemma_pairs_multiset_names(a1, b1);
        assert(pair_names(a) =~= pair_names(a1).push(x.0));
        assert(pair_names(b1) =~= pair_names(b).remove(j));
        pair_names(a1).to_multiset_ensures();
        pair_names(b).to_multiset_ensures();
        pair_names(b1).to_multiset_ensures();
        assert(pair_names(a).to_multiset() =~= pair_names(a1).to_multiset().insert(x.0));
        assert(pair_names(b).remove(j).to_multiset() =~= pair_names(b).to_multiset().remove(
            pair_names(b)[j],
        ));
        assert(pair_names(b)[j] == x.0);
        assert(pair_names(b).to_multiset().count(x.0) > 0) by {
            assert(pair_names(b).contains(pair_names(b)[j]));
        }
        assert(pair_names(a).to_multiset() =~= pair_names(b).to_multiset());
    }
}

/// The place of a score in a descending list: every earlier entry is at
/// or above it, and the entry at the place (if any) is below it.
fn descending_position(v: &Vec<(String, i64)>, score: i64) -> (idx: usize)
    ensures
        idx <= v@.len(),
        forall|k: int| 0 <= k < idx ==> (#[trigger] v@[k]).1 >= score,
        idx < v@.len() ==> v@[idx as int].1 < score,
{
    let mut idx: usize = 0;
    while idx < v.len()
        invariant
            idx <= v@.len(),
            forall|k: int| 0 <= k < idx ==> (#[trigger] v@[k]).1 >= score,
        decreases v@.len() - idx,
    {
        if v[idx].1 < score {
            return idx;
        }
        idx = idx + 1;
    }
    idx
}

fn insert_scored(v: Vec<(String, i64)>, x: (String, i64)) -> (r: Vec<(String, i64)>)
    requires
        scores_descending(v@),
    ensures
        scores_descending(r@),
        r@.to_multiset() == v@.to_multiset().insert(x),
{
    let idx = descending_position(&v, x.1);
    let ghost v0 = v@;
    let ghost xx = x;
    let mut v = v;
    v.insert(idx, x);
    proof {
        lemma_pair_insert_multiset(v0, idx as int, xx);
        assert(scores_descending(v@)) by {
            assert forall|a: int, b: int| 0 <= a < b < v@.len() implies v@[a].1 >= v@[b].1 by {
                if a == idx && b > idx {
                    assert(v@[b] == v0[b - 1]);
                }
            }
        }
    }
    v
}

/// The scored names rearranged into descending score order.
pub fn sort_scored(v: Vec<(String, i64)>) -> (r: Vec<(String, i64)>)
    ensures
        scores_descending(r@),
        r@.to_multiset() == v@.to_multiset(),
{
    let mut r: Vec<(String, i64)> = Vec::new();
    let mut i: usize = 0;
    proof {
        assert(v@.subrange(0, 0) =~= Seq::<(String, i64)>::empty());
        v@.subrange(0, 0).to_multiset_ensures();
        assert(r@.to_multiset() =~= v@.subrange(0, 0).to_multiset());
    }
    while i < v.len()
        invariant
            i <= v@.len(),
            scores_descending(r@),
            r@.to_multiset() == v@.subrange(0, i as int).to_multiset(),
        decreases v@.len() - i,
    {
        let name = v[i].0.clone();
        let score = v[i].1;
        proof {
            let pre = v@.subrange(0, i as int);
            assert(pre.push(v@[i as int]) =~= v@.subrange(0, i + 1 as int));
            pre.to_multiset_ensures();
            assert((name, score) == v@[i as int]);
        }
        r = insert_scored(r, (name, score));
        i = i + 1;
    }
    proof {
        assert(v@.subrange(0, v@.len() as int) =~= v@);
    }
    r
}

/// Digit character for a value below ten.
pub open spec fn digit_char(d: nat) -> char {
    ((48 + d) as u8) as char
}

/// Decimal rendering of a natural number, most significant digit first.
pub open spec fn dec_digits(n: nat) -> Seq<char>
    decreases n,
{
    if n < 10 {
        seq![digit_char(n)]
    } else {
        dec_digits(n / 10) + seq![digit_char(n % 10)]
    }
}

/// The string without its last character; empty stays empty.
pub fn drop_last_char(s: &str) -> (r: String)
    ensures
        s@.len() > 0 ==> r@ == s@.drop_last(),
        s@.len() == 0 ==> r@ == Seq::<char>::empty(),
{
    let n: usize = s.unicode_len();
    if n == 0 {
        return String::new();
    }
    let chars = str_chars(s);
    let mut out: Vec<char> = Vec::new();
    let mut i: usize = 0;
    while i < n - 1
        invariant
            n == s@.len(),
            n >= 1,
            chars@ == s@,
            i <= n - 1,
            out@ == s@.subrange(0, i as int),
        decreases n - 1 - i,
    {
        out.push(chars[i]);
        i = i + 1;
        proof {
            assert(out@ =~= s@.subrange(0, i as int));
        }
    }
    proof {
        assert(out@ =~= s@.drop_last());
    }
    string_from_chars(&out)
}

/// Relies on String::push: appends exactly the given character.
#[verifier::external_body]
pub fn push_char(s: &mut String, c: char)
    ensures
        final(s)@ == old(s)@.push(c),
{
    s.push(c);
}

/// A String holding exactly the given characters.
pub fn string_from_chars(v: &Vec<char>) -> (r: String)
    ensures
        r@ == v@,
{
    let mut r = String::new();
    let mut i: usize = 0;
    while i < v.len()
        invariant
            i <= v@.len(),
            r@ == v@.subrange(0, i as int),
        decreases v@.len() - i,
    {
        push_char(&mut r, v[i]);
        i = i + 1;
        proof {
            assert(r@ =~= v@.subrange(0, i as int));
        }
    }
    proof {
        assert(r@ =~= v@);
    }
    r
}

/// Decimal rendering of a count.
pub fn u64_to_string(n: u64) -> (r: String)
    ensures
        r@ == dec_digits(n as nat),
{
    let mut digits: Vec<char> = Vec::new();
    let mut m: u64 = n;
    while m >= 10
        invariant
            dec_digits(n as nat) == dec_digits(m as nat) + digits@.reverse(),
        decreases m,
    {
        let d: u64 = m % 10;
        proof {
            assert(dec_digits(m as nat) == dec_digits((m / 10) as nat) + seq![
                digit_char((m % 10) as nat),
            ]);
            assert(dec_digits((m / 10) as nat) + (digits@.push(digit_char((m % 10) as nat))).reverse()
                =~= dec_digits((m / 10) as nat) + seq![digit_char((m % 10) as nat)]
                + digits@.reverse());
        }
        digits.push(((48 + d) as u8) as char);
        m = m / 10;
    }
    proof {
        assert(dec_digits(m as nat) == seq![digit_char(m as nat)]);
        assert((digits@.push(digit_char(m as nat))).reverse() =~= seq![digit_char(m as nat)]
            + digits@.reverse());
    }
    digits.push(((48 + m) as u8) as char);
    proof {
        assert(digits@.reverse() == dec_digits(n as nat));
    }
    let mut out: Vec<char> = Vec::new();
    let mut i: usize = digits.len();
    while i > 0
        invariant
            i <= digits@.len(),
            out@ == digits@.subrange(i as int, digits@.len() as int).reverse(),
        decreases i,
    {
        i = i - 1;
        out.push(digits[i]);
        proof {
            let tail = digits@.subrange(i as int, digits@.len() as int);
            assert(out@ =~= tail.reverse());
        }
    }
    proof {
        assert(digits@.subrange(0, digits@.len() as int) =~= digits@);
        assert(out@ == digits@.reverse());
    }
    string_from_chars(&out)
}

} // verus!
