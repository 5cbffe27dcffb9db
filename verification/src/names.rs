//! Package names: equality and the lexicographic order by code point in which
//! lockfile entries are kept.

use vstd::prelude::*;

verus! {

/// `a` and `b` agree on their first `k` characters.
pub open spec fn agree_before(a: Seq<char>, b: Seq<char>, k: int) -> bool {
    forall|j: int| 0 <= j < k ==> a[j] == b[j]
}

/// `a` sorts before `b`, and `k` is the first position where they part:
/// either `a` ends there while `b` goes on, or both go on and `a` has the
/// smaller code point there.
pub open spec fn name_lt_at(a: Seq<char>, b: Seq<char>, k: int) -> bool {
    &&& 0 <= k <= a.len()
    &&& k <= b.len()
    &&& agree_before(a, b, k)
    &&& {
        ||| (k == a.len() && k < b.len())
        ||| (k < a.len() && k < b.len() && (a[k] as u32) < (b[k] as u32))
    }
}

/// Strict lexicographic order on names, by code point. For `String`s this is
/// the order of their UTF-8 bytes.
pub open spec fn name_lt(a: Seq<char>, b: Seq<char>) -> bool {
    exists|k: int| name_lt_at(a, b, k)
}

/// No name sorts before itself.
pub proof fn lemma_name_lt_irreflexive(a: Seq<char>)
    ensures
        !name_lt(a, a),
{
}

/// The order on names is transitive.
pub proof fn lemma_name_lt_transitive(a: Seq<char>, b: Seq<char>, c: Seq<char>)
    requires
        name_lt(a, b),
        name_lt(b, c),
    ensures
        name_lt(a, c),
{
    let k1 = choose|k: int| name_lt_at(a, b, k);
    let k2 = choose|k: int| name_lt_at(b, c, k);
    if k1 < k2 {
        assert(name_lt_at(a, c, k1));
    } else if k2 < k1 {
        assert(name_lt_at(a, c, k2));
    } else {
        assert(name_lt_at(a, c, k1));
    }
}

/// The order on names is asymmetric.
pub proof fn lemma_name_lt_asymmetric(a: Seq<char>, b: Seq<char>)
    requires
        name_lt(a, b),
    ensures
        !name_lt(b, a),
{
    if name_lt(b, a) {
        lemma_name_lt_transitive(a, b, a);
        lemma_name_lt_irreflexive(a);
    }
}

/// The outcome of comparing two names.
#[derive(Clone, Copy, Debug, PartialEq, Eq, Structural)]
pub enum NameOrder {
    Less,
    Equal,
    Greater,
}

/// Compares two names character by character.
pub fn compare_names(a: &str, b: &str) -> (res: NameOrder)
    ensures
        res == NameOrder::Less <==> name_lt(a@, b@),
        res == NameOrder::Equal <==> a@ == b@,
        res == NameOrder::Greater <==> name_lt(b@, a@),
{
    let la = a.unicode_len();
    let lb = b.unicode_len();
    let mut i: usize = 0;
    while i < la && i < lb
        invariant
            la == a@.len(),
            lb == b@.len(),
            i <= la,
            i <= lb,
            agree_before(a@, b@, i as int),
        decreases la - i,
    {
        let ca = a.get_char(i);
        let cb = b.get_char(i);
        if ca != cb {
            if (ca as u32) < (cb as u32) {
                assert(name_lt_at(a@, b@, i as int));
                proof { lemma_name_lt_asymmetric(a@, b@); }
                return NameOrder::Less;
            } else {
                assert(name_lt_at(b@, a@, i as int));
                proof { lemma_name_lt_asymmetric(b@, a@); }
                return NameOrder::Greater;
            }
        }
        i = i + 1;
    }
    if la == lb {
        assert(a@ =~= b@);
        proof { lemma_name_lt_irreflexive(a@); }
        NameOrder::Equal
    } else if la < lb {
        assert(name_lt_at(a@, b@, la as int));
        proof { lemma_name_lt_asymmetric(a@, b@); }
        NameOrder::Less
    } else {
        assert(name_lt_at(b@, a@, lb as int));
        proof { lemma_name_lt_asymmetric(b@, a@); }
        NameOrder::Greater
    }
}

/// Whether some entry of `names` is the name `name`.
pub open spec fn names_contain(names: Seq<String>, name: Seq<char>) -> bool {
    exists|j: int| 0 <= j < names.len() && #[trigger] names[j]@ == name
}

/// Whether `name` occurs in `names`.
pub fn contains_name(names: &Vec<String>, name: &str) -> (res: bool)
    ensures
        res == names_contain(names@, name@),
{
    let mut i: usize = 0;
    while i < names.len()
        invariant
            i <= names.len(),
            forall|j: int| 0 <= j < i ==> #[trigger] names@[j]@ != name@,
        decreases names.len() - i,
    {
        if compare_names(names[i].as_str(), name) == NameOrder::Equal {
            assert(names@[i as int]@ == name@);
            return true;
        }
        i = i + 1;
    }
    false
}

} // verus!
