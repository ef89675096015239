//! The order in which identifiers are kept: strings compared by their UTF-8
//! bytes, which is the order of their code points.

use vstd::prelude::*;

verus! {

/// `a` and `b` hold the same bytes at every index below `k`.
pub open spec fn agree_until(a: Seq<u8>, b: Seq<u8>, k: int) -> bool {
    &&& 0 <= k <= a.len()
    &&& k <= b.len()
    &&& forall|i: int| 0 <= i < k ==> a[i] == b[i]
}

/// Lexicographic order on byte strings: at the first index where the two
/// differ, `a` has ended or holds the smaller byte.
pub open spec fn bytes_precede(a: Seq<u8>, b: Seq<u8>) -> bool {
    exists|k: int| #[trigger]
        agree_until(a, b, k) && k < b.len() && (k == a.len() || a[k] < b[k])
}

/// The order on identifiers: that of their UTF-8 encodings.
pub open spec fn precedes(a: Seq<char>, b: Seq<char>) -> bool {
    bytes_precede(vstd::utf8::encode_utf8(a), vstd::utf8::encode_utf8(b))
}

/// How one identifier stands to another.
#[derive(Clone, Copy, Debug, PartialEq, Eq, Structural)]
pub enum Rank {
    Before,
    Same,
    After,
}

/// No byte string precedes itself.
pub proof fn lemma_bytes_irreflexive(a: Seq<u8>)
    ensures
        !bytes_precede(a, a),
{
}

/// The order on byte strings is transitive.
pub proof fn lemma_bytes_transitive(a: Seq<u8>, b: Seq<u8>, c: Seq<u8>)
    requires
        bytes_precede(a, b),
        bytes_precede(b, c),
    ensures
        bytes_precede(a, c),
{
    let k1 = choose|k: int| #[trigger]
        agree_until(a, b, k) && k < b.len() && (k == a.len() || a[k] < b[k]);
    let k2 = choose|k: int| #[trigger]
        agree_until(b, c, k) && k < c.len() && (k == b.len() || b[k] < c[k]);
    let k = if k1 <= k2 { k1 } else { k2 };
    assert(agree_until(a, c, k));
}

/// Of two byte strings that agree below `k`, one precedes the other or they
/// are the same.
proof fn lemma_bytes_total_from(a: Seq<u8>, b: Seq<u8>, k: int)
    requires
        agree_until(a, b, k),
    ensures
        bytes_precede(a, b) || a == b || bytes_precede(b, a),
    decreases a.len() - k,
{
    assert(agree_until(b, a, k));
    if k == a.len() {
        if k == b.len() {
            assert(a =~= b);
        }
    } else if k < b.len() && a[k] == b[k] {
        lemma_bytes_total_from(a, b, k + 1);
    }
}

/// The order on byte strings is total.
pub proof fn lemma_bytes_total(a: Seq<u8>, b: Seq<u8>)
    ensures
        bytes_precede(a, b) || a == b || bytes_precede(b, a),
{
    lemma_bytes_total_from(a, b, 0);
}

/// No identifier precedes itself.
pub proof fn lemma_irreflexive(a: Seq<char>)
    ensures
        !precedes(a, a),
{
    lemma_bytes_irreflexive(vstd::utf8::encode_utf8(a));
}

/// The order on identifiers is transitive.
pub proof fn lemma_transitive(a: Seq<char>, b: Seq<char>, c: Seq<char>)
    requires
        precedes(a, b),
        precedes(b, c),
    ensures
        precedes(a, c),
{
    lemma_bytes_transitive(
        vstd::utf8::encode_utf8(a),
        vstd::utf8::encode_utf8(b),
        vstd::utf8::encode_utf8(c),
    );
}

/// The order on identifiers is total.
pub proof fn lemma_total(a: Seq<char>, b: Seq<char>)
    ensures
        precedes(a, b) || a == b || precedes(b, a),
{
    lemma_bytes_total(vstd::utf8::encode_utf8(a), vstd::utf8::encode_utf8(b));
    vstd::utf8::encode_utf8_decode_utf8(a);
    vstd::utf8::encode_utf8_decode_utf8(b);
}

/// Each identifier stands before all that follow it in the sequence.
pub open spec fn strictly_sorted(names: Seq<Seq<char>>) -> bool {
    forall|i: int, j: int| 0 <= i < j < names.len() ==> precedes(names[i], names[j])
}

/// `names` lists the members of `set` in order, each once.
pub open spec fn lists(names: Seq<Seq<char>>, set: Set<Seq<char>>) -> bool {
    strictly_sorted(names) && names.to_set() == set
}

/// The members of a finite set of identifiers in order.
pub open spec fn sorted_names(set: Set<Seq<char>>) -> Seq<Seq<char>> {
    choose|names: Seq<Seq<char>>| lists(names, set)
}

/// A sorted sequence holds no identifier twice.
pub proof fn lemma_sorted_distinct(names: Seq<Seq<char>>)
    requires
        strictly_sorted(names),
    ensures
        names.no_duplicates(),
        names.to_set().len() == names.len(),
{
    assert forall|i: int, j: int| 0 <= i < names.len() && 0 <= j < names.len() && i != j implies names[i]
        != names[j] by {
        lemma_irreflexive(names[i]);
    }
    names.unique_seq_to_set();
}

/// Putting `name` where all before it precede it and it precedes the next
/// keeps the sequence sorted and adds `name` to its members.
pub proof fn lemma_insert_sorted(names: Seq<Seq<char>>, at: int, name: Seq<char>)
    requires
        strictly_sorted(names),
        0 <= at <= names.len(),
        forall|k: int| 0 <= k < at ==> precedes(names[k], name),
        at == names.len() || precedes(name, names[at]),
    ensures
        strictly_sorted(names.insert(at, name)),
        names.insert(at, name).to_set() == names.to_set().insert(name),
{
    let after = names.insert(at, name);
    assert forall|i: int, j: int| 0 <= i < j < after.len() implies precedes(after[i], after[j]) by {
        let i0 = if i < at { i } else { i - 1 };
        let j0 = if j < at { j } else { j - 1 };
        if j == at {
            assert(precedes(names[i0], name));
        } else if i == at {
            if j0 > at {
                assert(precedes(names[at], names[j0]));
                lemma_transitive(name, names[at], names[j0]);
            }
        } else if i < at && j > at {
            assert(precedes(names[i0], name));
            if j0 > at {
                assert(precedes(names[at], names[j0]));
                lemma_transitive(name, names[at], names[j0]);
            }
            lemma_transitive(names[i0], name, names[j0]);
        } else {
            assert(precedes(names[i0], names[j0]));
        }
    }
    assert forall|z: Seq<char>| after.to_set().contains(z) <==> names.to_set().insert(name).contains(
        z,
    ) by {
        if after.contains(z) {
            let k = choose|k: int| 0 <= k < after.len() && after[k] == z;
            if k < at {
                assert(names[k] == z);
            } else if k > at {
                assert(names[k - 1] == z);
            }
        }
        if names.contains(z) {
            let k = choose|k: int| 0 <= k < names.len() && names[k] == z;
            if k < at {
                assert(after[k] == z);
            } else {
                assert(after[k + 1] == z);
            }
        }
        if z == name {
            assert(after[at] == z);
        }
    }
    assert(after.to_set() == names.to_set().insert(name));
}

/// Taking one identifier out keeps the sequence sorted and takes the
/// identifier out of its members.
pub proof fn lemma_remove_sorted(names: Seq<Seq<char>>, at: int)
    requires
        strictly_sorted(names),
        0 <= at < names.len(),
    ensures
        strictly_sorted(names.remove(at)),
        names.remove(at).to_set() == names.to_set().remove(names[at]),
{
    let after = names.remove(at);
    lemma_sorted_distinct(names);
    assert forall|i: int, j: int| 0 <= i < j < after.len() implies precedes(after[i], after[j]) by {
        let i0 = if i < at { i } else { i + 1 };
        let j0 = if j < at { j } else { j + 1 };
        assert(precedes(names[i0], names[j0]));
    }
    assert forall|z: Seq<char>| after.to_set().contains(z) <==> names.to_set().remove(
        names[at],
    ).contains(z) by {
        if after.contains(z) {
            let k = choose|k: int| 0 <= k < after.len() && after[k] == z;
            let k0 = if k < at { k } else { k + 1 };
            assert(names[k0] == z);
            assert(names[k0] != names[at]);
        }
        if names.contains(z) && z != names[at] {
            let k = choose|k: int| 0 <= k < names.len() && names[k] == z;
            if k < at {
                assert(after[k] == z);
            } else {
                assert(after[k - 1] == z);
            }
        }
    }
    assert(after.to_set() == names.to_set().remove(names[at]));
}

/// Two sorted sequences with the same members are the same sequence.
pub proof fn lemma_sorted_unique(a: Seq<Seq<char>>, b: Seq<Seq<char>>)
    requires
        strictly_sorted(a),
        strictly_sorted(b),
        a.to_set() == b.to_set(),
    ensures
        a == b,
    decreases a.len(),
{
    lemma_sorted_distinct(a);
    lemma_sorted_distinct(b);
    if a.len() > 0 {
        let x = a.last();
        let y = b.last();
        assert(a.to_set().contains(x));
        assert(b.to_set().contains(y));
        let j = choose|j: int| 0 <= j < b.len() && b[j] == x;
        let i = choose|i: int| 0 <= i < a.len() && a[i] == y;
        if x != y {
            lemma_transitive(x, y, x);
            lemma_irreflexive(x);
        }
        let a0 = a.drop_last();
        let b0 = b.drop_last();
        assert forall|z: Seq<char>| a0.to_set().contains(z) <==> b0.to_set().contains(z) by {
            if a0.to_set().contains(z) {
                let k = choose|k: int| 0 <= k < a0.len() && a0[k] == z;
                assert(a[k] == z);
                assert(a.to_set().contains(z));
                let m = choose|m: int| 0 <= m < b.len() && b[m] == z;
                lemma_irreflexive(z);
                assert(b0[m] == z);
            }
            if b0.to_set().contains(z) {
                let k = choose|k: int| 0 <= k < b0.len() && b0[k] == z;
                assert(b[k] == z);
                assert(b.to_set().contains(z));
                let m = choose|m: int| 0 <= m < a.len() && a[m] == z;
                lemma_irreflexive(z);
                assert(a0[m] == z);
            }
        }
        assert(a0.to_set() == b0.to_set());
        lemma_sorted_unique(a0, b0);
        assert(a == a0.push(x));
        assert(b == b0.push(y));
    } else {
        assert(a == b);
    }
}

/// A sorted sequence is the sorted listing of its own members.
pub proof fn lemma_sorted_names(names: Seq<Seq<char>>)
    requires
        strictly_sorted(names),
    ensures
        sorted_names(names.to_set()) == names,
{
    assert(lists(names, names.to_set()));
    lemma_sorted_unique(sorted_names(names.to_set()), names);
}

/// The number of identifiers at the start of `names` that precede `name`.
pub open spec fn lead(names: Seq<Seq<char>>, name: Seq<char>) -> int
    decreases names.len(),
{
    if names.len() == 0 || !precedes(names[0], name) {
        0
    } else {
        1 + lead(names.skip(1), name)
    }
}

/// `lead` counts a run at the start of the sequence and stops at the first
/// identifier that does not precede `name`.
proof fn lemma_lead(names: Seq<Seq<char>>, name: Seq<char>)
    ensures
        0 <= lead(names, name) <= names.len(),
        forall|k: int| 0 <= k < lead(names, name) ==> precedes(names[k], name),
        lead(names, name) == names.len() || !precedes(names[lead(names, name)], name),
    decreases names.len(),
{
    if names.len() > 0 && precedes(names[0], name) {
        let rest = names.skip(1);
        lemma_lead(rest, name);
        assert forall|k: int| 0 <= k < lead(names, name) implies precedes(names[k], name) by {
            if k > 0 {
                assert(rest[k - 1] == names[k]);
            }
        }
        if lead(names, name) < names.len() {
            assert(rest[lead(rest, name)] == names[lead(names, name)]);
        }
    }
}

/// Every finite set of identifiers has a sorted listing, which
/// `sorted_names` gives.
pub proof fn lemma_sorted_names_exist(set: Set<Seq<char>>)
    requires
        set.finite(),
    ensures
        lists(sorted_names(set), set),
    decreases set.len(),
{
    if set.len() == 0 {
        let names = Seq::<Seq<char>>::empty();
        assert(names.to_set() =~= set);
        assert(lists(names, set));
    } else {
        let name = set.choose();
        let rest = set.remove(name);
        lemma_sorted_names_exist(rest);
        let names = sorted_names(rest);
        let at = lead(names, name);
        lemma_lead(names, name);
        if at < names.len() {
            assert(names.to_set().contains(names[at]));
            lemma_total(name, names[at]);
        }
        lemma_insert_sorted(names, at, name);
        assert(rest.insert(name) =~= set);
        assert(lists(names.insert(at, name), set));
    }
}

/// Compares two strings byte by byte.
pub fn compare(a: &str, b: &str) -> (rank: Rank)
    ensures
        rank == Rank::Before <==> precedes(a@, b@),
        rank == Rank::Same <==> a@ == b@,
        rank == Rank::After <==> precedes(b@, a@),
{
    let x = a.as_bytes();
    let y = b.as_bytes();
    let mut i: usize = 0;
    while i < x.len() && i < y.len()
        invariant
            x@ == vstd::utf8::encode_utf8(a@),
            y@ == vstd::utf8::encode_utf8(b@),
            agree_until(x@, y@, i as int),
        decreases x.len() - i,
    {
        if x[i] < y[i] {
            assert(agree_until(x@, y@, i as int));
            return Rank::Before;
        }
        if y[i] < x[i] {
            assert(agree_until(y@, x@, i as int));
            return Rank::After;
        }
        i += 1;
    }
    if i < y.len() {
        assert(agree_until(x@, y@, i as int));
        Rank::Before
    } else if i < x.len() {
        assert(agree_until(y@, x@, i as int));
        Rank::After
    } else {
        assert(x@ =~= y@);
        proof {
            vstd::utf8::encode_utf8_decode_utf8(a@);
            vstd::utf8::encode_utf8_decode_utf8(b@);
        }
        Rank::Same
    }
}

} // verus!
