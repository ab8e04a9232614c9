//! Ordering and comparison of resource and argument names.
//!
//! Names are ordered lexicographically by Unicode scalar value. For strings
//! held as UTF-8 this is the same order as the byte-wise order of `String`,
//! which is the order in which the graph assigns its resource slots.
use vstd::prelude::*;
use vstd::string::StrSliceExecFns;

verus! {

/// The outcome of comparing two names.
#[derive(Clone, Copy, Debug, PartialEq, Eq, Structural)]
pub enum NameOrder {
    Less,
    Equal,
    Greater,
}

/// Lexicographic comparison of two character sequences.
pub open spec fn name_order(a: Seq<char>, b: Seq<char>) -> NameOrder
    decreases a.len(),
{
    if a.len() == 0 {
        if b.len() == 0 {
            NameOrder::Equal
        } else {
            NameOrder::Less
        }
    } else if b.len() == 0 {
        NameOrder::Greater
    } else if a[0] < b[0] {
        NameOrder::Less
    } else if a[0] > b[0] {
        NameOrder::Greater
    } else {
        name_order(a.drop_first(), b.drop_first())
    }
}

/// `a` sorts strictly before `b`.
pub open spec fn name_lt(a: Seq<char>, b: Seq<char>) -> bool {
    name_order(a, b) is Less
}

/// Each name sorts strictly before the next one (so no name occurs twice).
pub open spec fn strictly_increasing(names: Seq<Seq<char>>) -> bool {
    forall|i: int, j: int| 0 <= i < j < names.len() ==> name_lt(#[trigger] names[i], #[trigger] names[j])
}

/// Two names compare equal exactly when they are the same sequence.
pub proof fn lemma_name_order_equal(a: Seq<char>, b: Seq<char>)
    ensures
        (name_order(a, b) is Equal) <==> a == b,
    decreases a.len(),
{
    if a.len() == 0 && b.len() == 0 {
        assert(a =~= b);
    }
    if a.len() != 0 && b.len() != 0 && a[0] == b[0] {
        lemma_name_order_equal(a.drop_first(), b.drop_first());
        if a.drop_first() == b.drop_first() {
            assert(a =~= seq![a[0]] + a.drop_first());
            assert(b =~= seq![b[0]] + b.drop_first());
        }
    }
    if a.len() != 0 && b.len() != 0 && a == b {
        assert(a.drop_first() == b.drop_first());
    }
}

/// Comparison is antisymmetric: `a < b` exactly when `b > a`.
pub proof fn lemma_name_order_flip(a: Seq<char>, b: Seq<char>)
    ensures
        (name_order(a, b) is Less) <==> (name_order(b, a) is Greater),
        (name_order(a, b) is Greater) <==> (name_order(b, a) is Less),
    decreases a.len(),
{
    if a.len() != 0 && b.len() != 0 && a[0] == b[0] {
        lemma_name_order_flip(a.drop_first(), b.drop_first());
    }
}

/// The strict order on names is transitive.
pub proof fn lemma_name_lt_transitive(a: Seq<char>, b: Seq<char>, c: Seq<char>)
    requires
        name_lt(a, b),
        name_lt(b, c),
    ensures
        name_lt(a, c),
    decreases a.len(),
{
    if a.len() != 0 && b.len() != 0 && c.len() != 0 && a[0] == b[0] && b[0]
        == c[0] {
        lemma_name_lt_transitive(a.drop_first(), b.drop_first(), c.drop_first());
    }
}

/// No name sorts strictly before itself.
pub proof fn lemma_name_lt_irreflexive(a: Seq<char>)
    ensures
        !name_lt(a, a),
{
    lemma_name_order_equal(a, a);
}

/// How many of the names sort strictly before `name`.
pub open spec fn count_before(names: Seq<Seq<char>>, name: Seq<char>) -> nat
    decreases names.len(),
{
    if names.len() == 0 {
        0
    } else {
        count_before(names.drop_last(), name) + if name_lt(names.last(), name) {
            1nat
        } else {
            0nat
        }
    }
}

/// When every name sorts before `name`, all of them are counted.
proof fn lemma_count_all_before(names: Seq<Seq<char>>, name: Seq<char>)
    requires
        forall|i: int| 0 <= i < names.len() ==> name_lt(#[trigger] names[i], name),
    ensures
        count_before(names, name) == names.len(),
    decreases names.len(),
{
    if names.len() > 0 {
        lemma_count_all_before(names.drop_last(), name);
    }
}

/// In strictly increasing names, the index of a name is the number of names
/// that sort before it.
pub proof fn lemma_index_is_rank(names: Seq<Seq<char>>, s: int)
    requires
        strictly_increasing(names),
        0 <= s < names.len(),
    ensures
        count_before(names, names[s]) == s,
    decreases names.len(),
{
    let prefix = names.drop_last();
    assert(strictly_increasing(prefix));
    if s == names.len() - 1 {
        lemma_count_all_before(prefix, names[s]);
        lemma_name_lt_irreflexive(names[s]);
    } else {
        lemma_index_is_rank(prefix, s);
        assert(name_lt(names[s], names.last()));
        lemma_name_order_flip(names[s], names.last());
    }
}

/// The characters of a string, in order.
pub fn chars_of(s: &str) -> (r: Vec<char>)
    ensures
        r@ == s@,
{
    let n = s.unicode_len();
    let mut v: Vec<char> = Vec::new();
    let mut i: usize = 0;
    while i < n
        invariant
            n == s@.len(),
            i <= n,
            v@ == s@.subrange(0, i as int),
        decreases n - i,
    {
        v.push(s.get_char(i));
        i = i + 1;
    }
    v
}

/// Compares two character sequences held in vectors.
pub fn compare_chars(a: &Vec<char>, b: &Vec<char>) -> (r: NameOrder)
    ensures
        r == name_order(a@, b@),
{
    let mut i: usize = 0;
    proof {
        assert(a@.skip(0) =~= a@);
        assert(b@.skip(0) =~= b@);
    }
    while i < a.len() && i < b.len()
        invariant
            i <= a.len(),
            i <= b.len(),
            name_order(a@, b@) == name_order(a@.skip(i as int), b@.skip(i as int)),
        decreases a.len() - i,
    {
        let x = a[i];
        let y = b[i];
        proof {
            assert(a@.skip(i as int)[0] == x);
            assert(b@.skip(i as int)[0] == y);
        }
        if x < y {
            return NameOrder::Less;
        } else if x > y {
            return NameOrder::Greater;
        }
        proof {
            assert(a@.skip(i as int).drop_first() =~= a@.skip(i + 1));
            assert(b@.skip(i as int).drop_first() =~= b@.skip(i + 1));
        }
        i = i + 1;
    }
    if i < a.len() {
        NameOrder::Greater
    } else if i < b.len() {
        NameOrder::Less
    } else {
        NameOrder::Equal
    }
}

/// Compares two names.
pub fn compare_names(a: &str, b: &str) -> (r: NameOrder)
    ensures
        r == name_order(a@, b@),
{
    let x = chars_of(a);
    let y = chars_of(b);
    compare_chars(&x, &y)
}

/// Whether two names are the same.
pub fn same_name(a: &str, b: &str) -> (r: bool)
    ensures
        r == (a@ == b@),
{
    let order = compare_names(a, b);
    proof {
        lemma_name_order_equal(a@, b@);
    }
    match order {
        NameOrder::Equal => true,
        _ => false,
    }
}

} // verus!
