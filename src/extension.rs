use crate::text::{seq_le, seq_lt, text_less, to_upper, upper_of};
use crate::text::{lemma_seq_le_antisymmetric, lemma_seq_le_total, lemma_seq_le_transitive};
use vstd::prelude::*;

verus! {

/// One installed extension, as its manifest describes it.
#[derive(Debug)]
pub struct ExtensionData {
    pub publisher: String,
    pub name: String,
    pub version: String,
    pub display_name: Option<String>,
    pub description: Option<String>,
    pub categories: Vec<String>,
    pub icon: Option<String>,
}

impl ExtensionData {
    /// `publisher.name`, followed by `@version` when versions are shown.
    pub open spec fn name_view(&self, show_version: bool) -> Seq<char> {
        let base = self.publisher@ + seq!['.'] + self.name@;
        if show_version {
            base + seq!['@'] + self.version@
        } else {
            base
        }
    }

    /// The extension's identifier, with or without its version.
    pub fn get_name(&self, show_version: bool) -> (r: String)
        ensures
            r@ == self.name_view(show_version),
    {
        let mut s = self.publisher.clone();
        s.append(".");
        s.append(self.name.as_str());
        if show_version {
            s.append("@");
            s.append(self.version.as_str());
        }
        proof {
            reveal_strlit(".");
            reveal_strlit("@");
        }
        s
    }

    /// The key that listings are ordered by: the full identifier in upper case.
    pub fn sort_key(&self) -> (r: String)
        ensures
            r@ == sort_key(*self),
    {
        let full = self.get_name(true);
        to_upper(full.as_str())
    }

    /// Orders two extensions by their identifiers, ignoring case.
    pub fn compare(&self, other: &ExtensionData) -> (r: core::cmp::Ordering)
        ensures
            r == core::cmp::Ordering::Less <==> seq_lt(sort_key(*self), sort_key(*other)),
            r == core::cmp::Ordering::Equal <==> sort_key(*self) == sort_key(*other),
            r == core::cmp::Ordering::Greater <==> seq_lt(sort_key(*other), sort_key(*self)),
    {
        let a = self.sort_key();
        let b = other.sort_key();
        proof {
            lemma_seq_le_total(a@, b@);
            if seq_le(a@, b@) && seq_le(b@, a@) {
                lemma_seq_le_antisymmetric(a@, b@);
            }
        }
        if text_less(a.as_str(), b.as_str()) {
            core::cmp::Ordering::Less
        } else if text_less(b.as_str(), a.as_str()) {
            core::cmp::Ordering::Greater
        } else {
            core::cmp::Ordering::Equal
        }
    }
}

/// The ordering key of an extension: `publisher.name@version` in upper case.
pub open spec fn sort_key(e: ExtensionData) -> Seq<char> {
    upper_of(e.name_view(true))
}

/// Every extension's key comes no later than the keys of those after it.
pub open spec fn sorted_by_key(s: Seq<ExtensionData>) -> bool {
    forall|i: int, j: int|
        0 <= i < j < s.len() ==> seq_le(sort_key(#[trigger] s[i]), sort_key(#[trigger] s[j]))
}

/// Each extension's key comes strictly before the keys of those after it.
pub open spec fn strictly_ascending(s: Seq<ExtensionData>) -> bool {
    forall|i: int, j: int|
        0 <= i < j < s.len() ==> seq_lt(sort_key(#[trigger] s[i]), sort_key(#[trigger] s[j]))
}

/// No two extensions share a key.
pub open spec fn distinct_keys(s: Seq<ExtensionData>) -> bool {
    forall|i: int, j: int|
        0 <= i < s.len() && 0 <= j < s.len() && i != j ==> sort_key(#[trigger] s[i])
            != sort_key(#[trigger] s[j])
}

/// `r` is `s` ordered by key: `r[k]` is `s[p[k]]` for a permutation `p` of
/// the positions of `s`, keys never decrease along `r`, and two extensions
/// with equal keys keep the order they had in `s`.
pub open spec fn stable_sort_of(r: Seq<ExtensionData>, s: Seq<ExtensionData>, p: Seq<int>) -> bool {
    &&& p.len() == r.len()
    &&& r.len() == s.len()
    &&& forall|k: int| 0 <= k < p.len() ==> 0 <= #[trigger] p[k] < s.len()
    &&& forall|k: int, l: int| 0 <= k < p.len() && 0 <= l < p.len() && k != l ==> #[trigger] p[k] != #[trigger] p[l]
    &&& forall|k: int| 0 <= k < r.len() ==> #[trigger] r[k] == s[p[k]]
    &&& sorted_by_key(r)
    &&& forall|k: int, l: int|
        0 <= k < l < r.len() && sort_key(#[trigger] r[k]) == sort_key(#[trigger] r[l]) ==> p[k] < p[l]
}

proof fn lemma_lt_le(a: Seq<char>, b: Seq<char>, c: Seq<char>)
    requires
        seq_lt(a, b),
        seq_le(b, c),
    ensures
        seq_lt(a, c),
{
    lemma_seq_le_transitive(a, b, c);
    if a == c {
        lemma_seq_le_antisymmetric(a, b);
    }
}

/// Orders extensions by key, ignoring case; extensions with equal keys keep
/// the order in which they came.
pub fn sort_extensions(exts: Vec<ExtensionData>) -> (r: Vec<ExtensionData>)
    ensures
        exists|p: Seq<int>| stable_sort_of(r@, exts@, p),
{
    let ghost orig = exts@;
    let ghost mut perm: Seq<int> = Seq::empty();
    let mut rest = exts;
    let mut res: Vec<ExtensionData> = Vec::new();
    let mut keys: Vec<String> = Vec::new();
    assert(rest@ =~= orig.skip(0));
    while rest.len() > 0
        invariant
            res@.len() <= orig.len(),
            rest@ == orig.skip(res@.len() as int),
            perm.len() == res@.len(),
            forall|k: int| 0 <= k < perm.len() ==> 0 <= #[trigger] perm[k] < res@.len(),
            forall|k: int, l: int|
                0 <= k < perm.len() && 0 <= l < perm.len() && k != l ==> #[trigger] perm[k]
                    != #[trigger] perm[l],
            forall|k: int| 0 <= k < res@.len() ==> #[trigger] res@[k] == orig[perm[k]],
            forall|k: int, l: int|
                0 <= k < l < res@.len() && sort_key(#[trigger] res@[k]) == sort_key(
                    #[trigger] res@[l],
                ) ==> perm[k] < perm[l],
            keys@.len() == res@.len(),
            forall|k: int| 0 <= k < keys@.len() ==> (#[trigger] keys@[k])@ == sort_key(res@[k]),
            sorted_by_key(res@),
        decreases rest@.len(),
    {
        let ghost n = res@.len() as int;
        let e = rest.remove(0);
        proof {
            assert(orig.skip(n)[0] == orig[n]);
            assert(rest@ =~= orig.skip(n + 1));
        }
        let ke = e.sort_key();
        let mut p: usize = 0;
        let mut found = false;
        while p < res.len() && !found
            invariant
                keys@.len() == res@.len(),
                forall|k: int| 0 <= k < keys@.len() ==> (#[trigger] keys@[k])@ == sort_key(res@[k]),
                p <= res@.len(),
                found ==> p < res@.len() && seq_lt(ke@, sort_key(res@[p as int])),
                forall|q: int| 0 <= q < p ==> seq_le(sort_key(#[trigger] res@[q]), ke@),
            decreases res@.len() - p + (if found { 0int } else { 1int }),
        {
            if text_less(ke.as_str(), keys[p].as_str()) {
                found = true;
            } else {
                proof {
                    lemma_seq_le_total(ke@, keys@[p as int]@);
                }
                p = p + 1;
            }
        }
        let ghost old_res = res@;
        let ghost old_perm = perm;
        proof {
            let t = old_res.insert(p as int, e);
            assert forall|i: int, j: int| 0 <= i < j < t.len() implies seq_le(
                sort_key(#[trigger] t[i]),
                sort_key(#[trigger] t[j]),
            ) && (sort_key(t[i]) == sort_key(t[j]) ==> old_perm.insert(p as int, n)[i]
                < old_perm.insert(p as int, n)[j]) by {
                let q = old_perm.insert(p as int, n);
                if j < p {
                    assert(t[i] == old_res[i] && t[j] == old_res[j]);
                } else if i < p && j == p {
                    assert(t[i] == old_res[i]);
                } else if i < p && j > p {
                    assert(t[i] == old_res[i]);
                    assert(t[j] == old_res[j - 1]);
                    assert(q[j] == old_perm[j - 1]);
                    if i < j - 1 {
                        assert(seq_le(sort_key(old_res[i]), sort_key(old_res[j - 1])));
                    }
                } else if i == p {
                    assert(t[j] == old_res[j - 1]);
                    assert(seq_lt(ke@, sort_key(old_res[p as int])));
                    if p < j - 1 {
                        assert(seq_le(sort_key(old_res[p as int]), sort_key(old_res[j - 1])));
                        lemma_lt_le(ke@, sort_key(old_res[p as int]), sort_key(old_res[j - 1]));
                    }
                } else {
                    assert(t[i] == old_res[i - 1]);
                    assert(t[j] == old_res[j - 1]);
                    assert(q[i] == old_perm[i - 1]);
                    assert(q[j] == old_perm[j - 1]);
                }
            }
        }
        res.insert(p, e);
        keys.insert(p, ke);
        proof {
            perm = old_perm.insert(p as int, n);
            assert(res@ =~= old_res.insert(p as int, e));
            assert forall|k: int| 0 <= k < res@.len() implies #[trigger] res@[k] == orig[perm[k]] by {
                if k < p {
                    assert(perm[k] == old_perm[k]);
                } else if k > p {
                    assert(perm[k] == old_perm[k - 1]);
                }
            }
            assert forall|k: int| 0 <= k < perm.len() implies 0 <= #[trigger] perm[k] < res@.len() by {
                if k < p {
                    assert(perm[k] == old_perm[k]);
                } else if k > p {
                    assert(perm[k] == old_perm[k - 1]);
                }
            }
            assert forall|k: int, l: int|
                0 <= k < perm.len() && 0 <= l < perm.len() && k != l implies #[trigger] perm[k]
                != #[trigger] perm[l] by {
                if k < p {
                    assert(perm[k] == old_perm[k]);
                } else if k > p {
                    assert(perm[k] == old_perm[k - 1]);
                }
                if l < p {
                    assert(perm[l] == old_perm[l]);
                } else if l > p {
                    assert(perm[l] == old_perm[l - 1]);
                }
            }
        }
    }
    proof {
        assert(res@.len() == orig.len());
        assert(stable_sort_of(res@, orig, perm));
    }
    res
}

/// Among extensions with pairwise distinct keys, an ordering by key is
/// strictly ascending.
pub proof fn lemma_sorted_distinct_strict(s: Seq<ExtensionData>)
    requires
        sorted_by_key(s),
        distinct_keys(s),
    ensures
        strictly_ascending(s),
{
    assert forall|i: int, j: int| 0 <= i < j < s.len() implies seq_lt(
        sort_key(#[trigger] s[i]),
        sort_key(#[trigger] s[j]),
    ) by {
        assert(seq_le(sort_key(s[i]), sort_key(s[j])));
        assert(sort_key(s[i]) != sort_key(s[j]));
    }
}

/// Sorting extensions whose keys are pairwise distinct yields a strictly
/// ascending order of keys.
pub proof fn lemma_sort_distinct_strict(s: Seq<ExtensionData>, r: Seq<ExtensionData>, p: Seq<int>)
    requires
        distinct_keys(s),
        stable_sort_of(r, s, p),
    ensures
        strictly_ascending(r),
{
    assert forall|i: int, j: int|
        0 <= i < r.len() && 0 <= j < r.len() && i != j implies sort_key(#[trigger] r[i])
        != sort_key(#[trigger] r[j]) by {
        assert(r[i] == s[p[i]]);
        assert(r[j] == s[p[j]]);
    }
    lemma_sorted_distinct_strict(r);
}

} // verus!
