use vstd::prelude::*;
use vstd::string::StrSliceExecFns;

verus! {

/// Lexicographic order on character sequences, by Unicode scalar value:
/// a sequence precedes another when its first differing character is
/// smaller, and a prefix precedes every extension of itself.
pub open spec fn lex_le(a: Seq<char>, b: Seq<char>) -> bool
    decreases a.len(),
{
    if a.len() == 0 {
        true
    } else if b.len() == 0 {
        false
    } else if (a[0] as u32) < (b[0] as u32) {
        true
    } else if (b[0] as u32) < (a[0] as u32) {
        false
    } else {
        lex_le(a.drop_first(), b.drop_first())
    }
}

/// The lexicographic order is total.
pub proof fn lemma_lex_le_total(a: Seq<char>, b: Seq<char>)
    ensures
        lex_le(a, b) || lex_le(b, a),
    decreases a.len(),
{
    if a.len() != 0 && b.len() != 0 && !((a[0] as u32) < (b[0] as u32)) && !((b[0] as u32) < (a[0] as u32)) {
        lemma_lex_le_total(a.drop_first(), b.drop_first());
    }
}

/// The lexicographic order is transitive.
pub proof fn lemma_lex_le_trans(a: Seq<char>, b: Seq<char>, c: Seq<char>)
    requires
        lex_le(a, b),
        lex_le(b, c),
    ensures
        lex_le(a, c),
    decreases a.len(),
{
    if a.len() != 0 && b.len() != 0 && c.len() != 0 {
        if !((a[0] as u32) < (c[0] as u32)) && !((c[0] as u32) < (a[0] as u32)) {
            if (a[0] as u32) == (b[0] as u32) && (b[0] as u32) == (c[0] as u32) {
                lemma_lex_le_trans(a.drop_first(), b.drop_first(), c.drop_first());
            }
        }
    }
}

/// Characters with the same Unicode scalar value are the same character.
proof fn lemma_char_eq(c: char, d: char)
    requires
        c as u32 == d as u32,
    ensures
        c == d,
{
}

/// The lexicographic order is antisymmetric: mutually ordered
/// sequences are equal, so the order is strict between distinct names.
pub proof fn lemma_lex_le_antisymmetric(a: Seq<char>, b: Seq<char>)
    requires
        lex_le(a, b),
        lex_le(b, a),
    ensures
        a == b,
    decreases a.len(),
{
    if a.len() == 0 {
        assert(b.len() == 0);
        assert(a =~= b);
    } else {
        assert(b.len() != 0);
        if (a[0] as u32) < (b[0] as u32) {
            assert(!lex_le(b, a));
        } else if (b[0] as u32) < (a[0] as u32) {
            assert(!lex_le(a, b));
        } else {
            assert(lex_le(a.drop_first(), b.drop_first()));
            assert(lex_le(b.drop_first(), a.drop_first()));
            lemma_lex_le_antisymmetric(a.drop_first(), b.drop_first());
            let ca = a[0];
            let cb = b[0];
            assert(ca as u32 == cb as u32);
            lemma_char_eq(ca, cb);
            assert(ca == cb);
            assert(a =~= seq![a[0]] + a.drop_first());
            assert(b =~= seq![b[0]] + b.drop_first());
            assert(a == b);
        }
    }
}

/// Compares two names in the lexicographic order used for playback.
pub fn str_le(a: &str, b: &str) -> (r: bool)
    ensures
        r == lex_le(a@, b@),
{
    let la = a.unicode_len();
    let lb = b.unicode_len();
    let mut i: usize = 0;
    proof {
        assert(a@.skip(0) =~= a@);
        assert(b@.skip(0) =~= b@);
    }
    loop
        invariant
            i <= la,
            i <= lb,
            la == a@.len(),
            lb == b@.len(),
            lex_le(a@, b@) == lex_le(a@.skip(i as int), b@.skip(i as int)),
        decreases la - i,
    {
        if i >= la {
            proof {
                assert(a@.skip(i as int).len() == 0);
            }
            return true;
        }
        if i >= lb {
            proof {
                assert(b@.skip(i as int).len() == 0);
                assert(a@.skip(i as int).len() > 0);
            }
            return false;
        }
        let ca = a.get_char(i);
        let cb = b.get_char(i);
        proof {
            assert(a@.skip(i as int)[0] == a@[i as int]);
            assert(b@.skip(i as int)[0] == b@[i as int]);
        }
        if (ca as u32) < (cb as u32) {
            return true;
        }
        if (cb as u32) < (ca as u32) {
            return false;
        }
        proof {
            assert(a@.skip(i as int).drop_first() =~= a@.skip(i as int + 1));
            assert(b@.skip(i as int).drop_first() =~= b@.skip(i as int + 1));
        }
        i = i + 1;
    }
}

/// Whether names stand in ascending lexicographic order.
pub open spec fn sorted_names(v: Seq<String>) -> bool {
    forall|k: int, l: int| 0 <= k < l < v.len() ==> lex_le(#[trigger] v[k]@, #[trigger] v[l]@)
}

/// Sorts names into ascending lexicographic order.  The result holds
/// exactly the input names: the same multiset of values, so the same
/// count.
pub fn sort_names(names: Vec<String>) -> (r: Vec<String>)
    ensures
        sorted_names(r@),
        r@.to_multiset() == names@.to_multiset(),
        r@.len() == names@.len(),
{
    broadcast use vstd::seq_lib::group_to_multiset_ensures;
    broadcast use vstd::multiset::group_multiset_axioms;

    let mut v = names;
    let n = v.len();
    if n <= 1 {
        return v;
    }
    let ghost orig = v@;
    let mut i: usize = 1;
    while i < n
        invariant
            1 <= i <= n,
            n == v@.len(),
            v@.to_multiset() == orig.to_multiset(),
            forall|k: int, l: int| 0 <= k < l < i ==> lex_le(#[trigger] v@[k]@, #[trigger] v@[l]@),
        decreases n - i,
    {
        let mut j: usize = i;
        loop
            invariant_except_break
                j <= i,
                i < n,
                n == v@.len(),
                v@.to_multiset() == orig.to_multiset(),
                forall|k: int, l: int| 0 <= k < l <= i && l != j ==>
                    lex_le(#[trigger] v@[k]@, #[trigger] v@[l]@),
            ensures
                n == v@.len(),
                v@.to_multiset() == orig.to_multiset(),
                forall|k: int, l: int| 0 <= k < l <= i ==> lex_le(#[trigger] v@[k]@, #[trigger] v@[l]@),
            decreases j,
        {
            if j == 0 {
                break;
            }
            let le = str_le(v[j - 1].as_str(), v[j].as_str());
            if le {
                proof {
                    assert forall|k: int, l: int| 0 <= k < l <= i implies
                        lex_le(#[trigger] v@[k]@, #[trigger] v@[l]@) by {
                        if l == j && k < j - 1 {
                            lemma_lex_le_trans(v@[k]@, v@[j as int - 1]@, v@[j as int]@);
                        }
                    }
                }
                break;
            }
            proof {
                lemma_lex_le_total(v@[j as int - 1]@, v@[j as int]@);
            }
            let ghost before = v@;
            let x = v.remove(j);
            v.insert(j - 1, x);
            proof {
                let ghost w = before.remove(j as int).insert(j as int - 1, before[j as int]);
                assert(v@ == w);
                vstd::seq_lib::to_multiset_insert(before.remove(j as int), j as int - 1, before[j as int]);
                vstd::seq_lib::to_multiset_remove(before, j as int);
                vstd::seq_lib::to_multiset_contains(before, before[j as int]);
                assert(w.to_multiset() == before.to_multiset().remove(before[j as int]).insert(before[j as int]));
                assert(before.contains(before[j as int]));
                assert(before.to_multiset().count(before[j as int]) > 0);
                assert(w.to_multiset() =~= before.to_multiset());
                assert forall|m: int| 0 <= m < n && m != j - 1 && m != j implies w[m] == before[m] by {
                }
                assert(w[j as int - 1] == before[j as int]);
                assert(w[j as int] == before[j as int - 1]);
            }
            j = j - 1;
        }
        i = i + 1;
    }
    proof {
        vstd::seq_lib::to_multiset_len(v@);
        vstd::seq_lib::to_multiset_len(orig);
    }
    v
}

} // verus!
