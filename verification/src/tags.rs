//! Tag sets. Plugins label transactions with string tags; the combined
//! result carries the union of the tag sets of the contributing plugins,
//! held as a lexicographically sorted, duplicate-free list so that the
//! serialized header is deterministic across runs.

use vstd::prelude::*;

verus! {

/// Lexicographic order on character sequences, comparing scalar values
/// position by position; a prefix sorts before its extensions.
pub open spec fn lex_le(a: Seq<char>, b: Seq<char>) -> bool
    decreases a.len(),
{
    if a.len() == 0 {
        true
    } else if b.len() == 0 {
        false
    } else if (a[0] as u32) < (b[0] as u32) {
        true
    } else if (a[0] as u32) > (b[0] as u32) {
        false
    } else {
        lex_le(a.skip(1), b.skip(1))
    }
}

/// Strict lexicographic order.
pub open spec fn lex_lt(a: Seq<char>, b: Seq<char>) -> bool {
    lex_le(a, b) && a != b
}

/// The lexicographic order is total.
pub proof fn lemma_lex_le_total(a: Seq<char>, b: Seq<char>)
    ensures
        lex_le(a, b) || lex_le(b, a),
    decreases a.len(),
{
    if a.len() > 0 && b.len() > 0 && (a[0] as u32) == (b[0] as u32) {
        lemma_lex_le_total(a.skip(1), b.skip(1));
    }
}

/// The lexicographic order is reflexive.
pub proof fn lemma_lex_le_refl(a: Seq<char>)
    ensures
        lex_le(a, a),
    decreases a.len(),
{
    if a.len() > 0 {
        lemma_lex_le_refl(a.skip(1));
    }
}

/// The lexicographic order is antisymmetric.
pub proof fn lemma_lex_le_antisym(a: Seq<char>, b: Seq<char>)
    requires
        lex_le(a, b),
        lex_le(b, a),
    ensures
        a == b,
    decreases a.len(),
{
    if a.len() == 0 {
        assert(b.len() == 0);
        assert(a =~= b);
    } else {
        assert(b.len() > 0);
        lemma_lex_le_antisym(a.skip(1), b.skip(1));
        assert(a.skip(1).len() == b.skip(1).len());
        assert(a.len() == b.len());
        assert forall|i: int| 0 <= i < a.len() implies a[i] == b[i] by {
            if i == 0 {
                assert((a[0] as u32) == (b[0] as u32));
                vstd::utf8::char_u32_cast(a[0], a[0] as u32);
                vstd::utf8::char_u32_cast(b[0], b[0] as u32);
                assert(a[0] == b[0]);
            } else {
                assert(a.skip(1)[i - 1] == a[i]);
                assert(b.skip(1)[i - 1] == b[i]);
            }
        }
        assert(a =~= b);
    }
}

/// The lexicographic order is transitive.
pub proof fn lemma_lex_le_trans(a: Seq<char>, b: Seq<char>, c: Seq<char>)
    requires
        lex_le(a, b),
        lex_le(b, c),
    ensures
        lex_le(a, c),
    decreases a.len(),
{
    if a.len() > 0 {
        assert(b.len() > 0);
        assert(c.len() > 0);
        if (a[0] as u32) == (b[0] as u32) && (b[0] as u32) == (c[0] as u32) {
            lemma_lex_le_trans(a.skip(1), b.skip(1), c.skip(1));
        }
    }
}

/// Strict lexicographic order is transitive.
pub proof fn lemma_lex_lt_trans(a: Seq<char>, b: Seq<char>, c: Seq<char>)
    requires
        lex_lt(a, b),
        lex_lt(b, c),
    ensures
        lex_lt(a, c),
{
    lemma_lex_le_trans(a, b, c);
    if a == c {
        lemma_lex_le_antisym(a, b);
    }
}

/// Lexicographic comparison of two strings by scalar value.
pub fn str_le(x: &str, y: &str) -> (r: bool)
    ensures
        r == lex_le(x@, y@),
{
    let xl: usize = x.unicode_len();
    let yl: usize = y.unicode_len();
    let mut i: usize = 0;
    proof {
        assert(x@.skip(0) =~= x@);
        assert(y@.skip(0) =~= y@);
    }
    loop
        invariant
            0 <= i <= xl,
            i <= yl,
            xl == x@.len(),
            yl == y@.len(),
            lex_le(x@, y@) == lex_le(x@.skip(i as int), y@.skip(i as int)),
        decreases xl - i,
    {
        if i >= xl {
            return true;
        }
        if i >= yl {
            return false;
        }
        let cx = x.get_char(i);
        let cy = y.get_char(i);
        proof {
            assert(x@.skip(i as int)[0] == x@[i as int]);
            assert(y@.skip(i as int)[0] == y@[i as int]);
        }
        if (cx as u32) < (cy as u32) {
            return true;
        }
        if (cx as u32) > (cy as u32) {
            return false;
        }
        proof {
            assert(x@.skip(i as int).skip(1) =~= x@.skip(i + 1));
            assert(y@.skip(i as int).skip(1) =~= y@.skip(i + 1));
        }
        i += 1;
    }
}

/// Equality of two strings as character sequences.
pub fn str_eq(x: &str, y: &str) -> (r: bool)
    ensures
        r == (x@ == y@),
{
    let le = str_le(x, y);
    let ge = str_le(y, x);
    proof {
        if le && ge {
            lemma_lex_le_antisym(x@, y@);
        }
        if x@ == y@ {
            lemma_lex_le_refl(x@);
        }
    }
    le && ge
}

/// The views of a tag list.
pub open spec fn tag_views(ts: Seq<String>) -> Seq<Seq<char>> {
    ts.map_values(|t: String| t@)
}

/// The set of tags a tag list holds.
pub open spec fn tag_set(ts: Seq<String>) -> Set<Seq<char>> {
    tag_views(ts).to_set()
}

/// A canonical tag list: strictly sorted, hence duplicate-free.
pub open spec fn tags_strictly_sorted(ts: Seq<String>) -> bool {
    forall|i: int, j: int| 0 <= i < j < ts.len() ==> lex_lt(ts[i]@, ts[j]@)
}

/// A tag set membership is a witness index.
proof fn lemma_tag_set_contains(ts: Seq<String>, v: Seq<char>)
    ensures
        tag_set(ts).contains(v) <==> exists|k: int| 0 <= k < ts.len() && ts[k]@ == v,
{
    if tag_set(ts).contains(v) {
        let k = choose|k: int| 0 <= k < tag_views(ts).len() && tag_views(ts)[k] == v;
        assert(ts[k]@ == v);
    }
    if exists|k: int| 0 <= k < ts.len() && ts[k]@ == v {
        let k = choose|k: int| 0 <= k < ts.len() && ts[k]@ == v;
        assert(tag_views(ts)[k] == v);
        assert(tag_views(ts).contains(v));
    }
}

/// Adds one tag to a canonical tag list, keeping it canonical.
pub fn insert_tag(ts: &mut Vec<String>, tag: &String)
    requires
        tags_strictly_sorted(old(ts)@),
    ensures
        tags_strictly_sorted(final(ts)@),
        tag_set(final(ts)@) == tag_set(old(ts)@).insert(tag@),
{
    let mut i: usize = 0;
    loop
        invariant
            0 <= i <= ts@.len(),
            ts@ == old(ts)@,
            tags_strictly_sorted(ts@),
            forall|j: int| 0 <= j < i ==> lex_lt(ts@[j]@, tag@),
        ensures
            0 <= i <= ts@.len(),
            ts@ == old(ts)@,
            forall|j: int| 0 <= j < i ==> lex_lt(ts@[j]@, tag@),
            i < ts@.len() ==> lex_lt(tag@, ts@[i as int]@),
        decreases ts@.len() - i,
    {
        if i >= ts.len() {
            break;
        }
        let le_cur = str_le(tag.as_str(), ts[i].as_str());
        if le_cur {
            let ge_cur = str_le(ts[i].as_str(), tag.as_str());
            if ge_cur {
                proof {
                    lemma_lex_le_antisym(tag@, ts@[i as int]@);
                    lemma_tag_set_contains(ts@, tag@);
                    assert(tag_set(ts@).contains(tag@));
                    assert(tag_set(ts@) =~= tag_set(ts@).insert(tag@));
                }
                return;
            }
            proof {
                if tag@ == ts@[i as int]@ {
                    lemma_lex_le_refl(tag@);
                }
            }
            break;
        }
        proof {
            lemma_lex_le_total(tag@, ts@[i as int]@);
            if tag@ == ts@[i as int]@ {
                lemma_lex_le_refl(tag@);
            }
        }
        i += 1;
    }
    let ghost pre = ts@;
    ts.insert(i, tag.clone());
    proof {
        let post = ts@;
        assert(post == pre.insert(i as int, post[i as int]));
        assert(post[i as int]@ == tag@);
        assert forall|p: int, q: int| 0 <= p < q < post.len() implies lex_lt(
            post[p]@,
            post[q]@,
        ) by {
            if p < i && q == i {
                assert(post[p] == pre[p]);
            } else if p < i && q > i {
                assert(post[p] == pre[p]);
                assert(post[q] == pre[q - 1]);
                if q - 1 == i {
                    lemma_lex_lt_trans(pre[p]@, tag@, pre[q - 1]@);
                } else {
                    lemma_lex_lt_trans(pre[p]@, tag@, pre[i as int]@);
                    lemma_lex_lt_trans(pre[p]@, pre[i as int]@, pre[q - 1]@);
                }
            } else if p == i && q > i {
                assert(post[q] == pre[q - 1]);
                if q - 1 == i {
                    assert(lex_lt(tag@, pre[i as int]@));
                } else {
                    lemma_lex_lt_trans(tag@, pre[i as int]@, pre[q - 1]@);
                }
            } else if p > i && q > i {
                assert(post[p] == pre[p - 1]);
                assert(post[q] == pre[q - 1]);
            }
        }
        lemma_tag_set_contains(pre, tag@);
        assert forall|v: Seq<char>| tag_set(post).contains(v) implies tag_set(pre).insert(
            tag@,
        ).contains(v) by {
            lemma_tag_set_contains(post, v);
            let k = choose|k: int| 0 <= k < post.len() && post[k]@ == v;
            if k < i {
                assert(pre[k]@ == v);
                lemma_tag_set_contains(pre, v);
            } else if k == i {
            } else {
                assert(pre[k - 1]@ == v);
                lemma_tag_set_contains(pre, v);
            }
        }
        assert forall|v: Seq<char>| tag_set(pre).insert(tag@).contains(v) implies tag_set(
            post,
        ).contains(v) by {
            lemma_tag_set_contains(post, v);
            if v == tag@ {
                assert(post[i as int]@ == v);
            } else {
                lemma_tag_set_contains(pre, v);
                let k = choose|k: int| 0 <= k < pre.len() && pre[k]@ == v;
                if k < i {
                    assert(post[k]@ == v);
                } else {
                    assert(post[k + 1]@ == v);
                }
            }
        }
        assert(tag_set(post) =~= tag_set(pre).insert(tag@));
    }
}

/// Folds a further tag list into a canonical tag list: the result holds
/// exactly the union of the two tag sets.
pub fn merge_tags(acc: &mut Vec<String>, more: &Vec<String>)
    requires
        tags_strictly_sorted(old(acc)@),
    ensures
        tags_strictly_sorted(final(acc)@),
        tag_set(final(acc)@) == tag_set(old(acc)@) + tag_set(more@),
{
    let mut i: usize = 0;
    proof {
        assert(tag_set(more@.take(0)) =~= Set::<Seq<char>>::empty());
        assert(tag_set(acc@) =~= tag_set(old(acc)@) + tag_set(more@.take(0)));
    }
    while i < more.len()
        invariant
            0 <= i <= more@.len(),
            tags_strictly_sorted(acc@),
            tag_set(acc@) == tag_set(old(acc)@) + tag_set(more@.take(i as int)),
        decreases more@.len() - i,
    {
        insert_tag(acc, &more[i]);
        proof {
            let t = more@.take(i + 1);
            assert(t.drop_last() =~= more@.take(i as int));
            assert forall|v: Seq<char>| tag_set(t).contains(v) implies (tag_set(
                t.drop_last(),
            ).contains(v) || v == more@[i as int]@) by {
                lemma_tag_set_contains(t, v);
                let k = choose|k: int| 0 <= k < t.len() && t[k]@ == v;
                if k < i {
                    lemma_tag_set_contains(t.drop_last(), v);
                }
            }
            assert forall|v: Seq<char>|
                (tag_set(t.drop_last()).contains(v) || v == more@[i as int]@) implies tag_set(
                t,
            ).contains(v) by {
                lemma_tag_set_contains(t, v);
                if v == more@[i as int]@ {
                    assert(t[i as int]@ == v);
                } else {
                    lemma_tag_set_contains(t.drop_last(), v);
                    let k = choose|k: int| 0 <= k < t.drop_last().len() && t.drop_last()[k]@ == v;
                    assert(t[k]@ == v);
                }
            }
            assert(tag_set(t) =~= tag_set(t.drop_last()).insert(more@[i as int]@));
            assert(tag_set(acc@) =~= tag_set(old(acc)@) + tag_set(more@.take(i + 1)));
        }
        i += 1;
    }
    proof {
        assert(more@.take(more@.len() as int) =~= more@);
    }
}


/// A tag set has exactly one canonical list: two strictly sorted lists
/// holding the same tags hold the same character sequences in the same
/// order. A contract that fixes a tag list's set and its sortedness
/// therefore fixes the list.
pub proof fn lemma_canonical_tags_unique(a: Seq<String>, b: Seq<String>)
    requires
        tags_strictly_sorted(a),
        tags_strictly_sorted(b),
        tag_set(a) == tag_set(b),
    ensures
        tag_views(a) == tag_views(b),
    decreases a.len(),
{
    if a.len() == 0 {
        if b.len() > 0 {
            lemma_tag_set_contains(b, b[0]@);
            lemma_tag_set_contains(a, b[0]@);
        }
        assert(tag_views(a) =~= tag_views(b));
    } else {
        let la = a.last()@;
        lemma_tag_set_contains(a, la);
        lemma_tag_set_contains(b, la);
        assert(b.len() > 0);
        let lb = b.last()@;
        lemma_tag_set_contains(b, lb);
        lemma_tag_set_contains(a, lb);
        // each last element is the maximum of its list, so the two agree
        let ka = choose|k: int| 0 <= k < a.len() && a[k]@ == lb;
        if ka < a.len() - 1 {
            assert(lex_lt(a[ka]@, la));
        } else {
            lemma_lex_le_refl(la);
        }
        let kb = choose|k: int| 0 <= k < b.len() && b[k]@ == la;
        if kb < b.len() - 1 {
            assert(lex_lt(b[kb]@, lb));
        } else {
            lemma_lex_le_refl(lb);
        }
        lemma_lex_le_antisym(la, lb);
        // dropping the shared maximum leaves equal sets
        assert forall|v: Seq<char>| #[trigger] tag_set(a.drop_last()).contains(v) == tag_set(
            b.drop_last(),
        ).contains(v) by {
            lemma_tag_set_contains(a.drop_last(), v);
            lemma_tag_set_contains(b.drop_last(), v);
            lemma_tag_set_contains(a, v);
            lemma_tag_set_contains(b, v);
            if tag_set(a.drop_last()).contains(v) {
                let k = choose|k: int| 0 <= k < a.drop_last().len() && a.drop_last()[k]@ == v;
                assert(a[k]@ == v);
                assert(lex_lt(a[k]@, la));
                assert(tag_set(a).contains(v));
                let k2 = choose|k2: int| 0 <= k2 < b.len() && b[k2]@ == v;
                assert(k2 < b.len() - 1);
                assert(b.drop_last()[k2]@ == v);
            }
            if tag_set(b.drop_last()).contains(v) {
                let k = choose|k: int| 0 <= k < b.drop_last().len() && b.drop_last()[k]@ == v;
                assert(b[k]@ == v);
                assert(lex_lt(b[k]@, lb));
                assert(tag_set(b).contains(v));
                let k2 = choose|k2: int| 0 <= k2 < a.len() && a[k2]@ == v;
                assert(k2 < a.len() - 1);
                assert(a.drop_last()[k2]@ == v);
            }
        }
        assert(tag_set(a.drop_last()) =~= tag_set(b.drop_last()));
        lemma_canonical_tags_unique(a.drop_last(), b.drop_last());
        assert(tag_views(a.drop_last()).len() == tag_views(b.drop_last()).len());
        assert forall|i: int| 0 <= i < a.len() implies tag_views(a)[i] == tag_views(b)[i] by {
            if i < a.len() - 1 {
                assert(tag_views(a.drop_last())[i] == a.drop_last()[i]@);
                assert(tag_views(b.drop_last())[i] == b.drop_last()[i]@);
                assert(a.drop_last()[i]@ == a[i]@);
                assert(b.drop_last()[i]@ == b[i]@);
            }
        }
        assert(tag_views(a) =~= tag_views(b));
    }
}

}
