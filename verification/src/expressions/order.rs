//! How values compare.

use vstd::prelude::*;

use crate::text::{code, to_chars};

verus! {

/// How one value compares to another.
#[derive(Debug, Clone, Copy, PartialEq, Eq, Structural)]
pub enum Order {
    /// It is less.
    Less,
    /// The two are equal.
    Equal,
    /// It is greater.
    Greater,
}

impl Order {
    /// How the other value compares to the first.
    pub open spec fn reversed(self) -> Order {
        match self {
            Order::Less => Order::Greater,
            Order::Equal => Order::Equal,
            Order::Greater => Order::Less,
        }
    }
}

/// How two numbers compare.
pub open spec fn int_order(a: int, b: int) -> Order {
    if a < b {
        Order::Less
    } else if a == b {
        Order::Equal
    } else {
        Order::Greater
    }
}

/// How two lists of numbers compare: by the first place at which they differ, and where there is
/// none the shorter one is less.
pub open spec fn lexical_order(a: Seq<int>, b: Seq<int>) -> Order
    decreases a.len(),
{
    if a.len() == 0 && b.len() == 0 {
        Order::Equal
    } else if a.len() == 0 {
        Order::Less
    } else if b.len() == 0 {
        Order::Greater
    } else if a[0] != b[0] {
        int_order(a[0], b[0])
    } else {
        lexical_order(a.skip(1), b.skip(1))
    }
}

/// The code points of a text.
pub open spec fn codes(text: Seq<char>) -> Seq<int> {
    text.map_values(|c: char| c as int)
}

/// The values of some bytes.
pub open spec fn byte_values(bytes: Seq<u8>) -> Seq<int> {
    bytes.map_values(|b: u8| b as int)
}

/// How two lists of numbers compare from equal beginnings on.
pub proof fn lemma_lexical_skip(a: Seq<int>, b: Seq<int>, n: int)
    requires
        0 <= n <= a.len(),
        n <= b.len(),
        forall|i: int| 0 <= i < n ==> a[i] == b[i],
    ensures
        lexical_order(a, b) == lexical_order(a.skip(n), b.skip(n)),
    decreases n,
{
    if n == 0 {
        assert(a.skip(0) =~= a);
        assert(b.skip(0) =~= b);
    } else {
        assert(a[0] == b[0]);
        assert forall|i: int| 0 <= i < n - 1 implies a.skip(1)[i] == b.skip(1)[i] by {
            assert(a[i + 1] == b[i + 1]);
        }
        lemma_lexical_skip(a.skip(1), b.skip(1), n - 1);
        assert(a.skip(1).skip(n - 1) =~= a.skip(n));
        assert(b.skip(1).skip(n - 1) =~= b.skip(n));
    }
}

/// The comparison turns round when the two lists change places.
pub proof fn lemma_lexical_reversed(a: Seq<int>, b: Seq<int>)
    ensures
        lexical_order(b, a) == lexical_order(a, b).reversed(),
        lexical_order(a, b) is Equal <==> a == b,
    decreases a.len(),
{
    if a.len() > 0 && b.len() > 0 && a[0] == b[0] {
        lemma_lexical_reversed(a.skip(1), b.skip(1));
        if a.skip(1) == b.skip(1) {
            assert(a =~= seq![a[0]] + a.skip(1));
            assert(b =~= seq![b[0]] + b.skip(1));
        }
    } else if a.len() == 0 && b.len() == 0 {
        assert(a =~= b);
    }
}

/// Where one list comes before another and that before a third, the first comes before the third.
pub proof fn lemma_lexical_transitive(a: Seq<int>, b: Seq<int>, c: Seq<int>)
    requires
        lexical_order(a, b) is Less,
        lexical_order(b, c) is Less,
    ensures
        lexical_order(a, c) is Less,
    decreases a.len(),
{
    if a.len() > 0 && b.len() > 0 && c.len() > 0 && a[0] == b[0] && b[0] == c[0] {
        lemma_lexical_transitive(a.skip(1), b.skip(1), c.skip(1));
    }
}

/// How two integers compare.
pub fn order_i128(a: i128, b: i128) -> (r: Order)
    ensures
        r == int_order(a as int, b as int),
{
    if a < b {
        Order::Less
    } else if a == b {
        Order::Equal
    } else {
        Order::Greater
    }
}

/// How two texts compare: by code points.
pub fn order_text(a: &str, b: &str) -> (r: Order)
    ensures
        r == lexical_order(codes(a@), codes(b@)),
{
    let x: Vec<char> = to_chars(a);
    let y: Vec<char> = to_chars(b);
    let mut i: usize = 0;
    while i < x.len() && i < y.len()
        invariant
            i <= x.len(),
            i <= y.len(),
            x@ == a@,
            y@ == b@,
            forall|j: int| 0 <= j < i ==> codes(x@)[j] == codes(y@)[j],
        decreases x.len() - i,
    {
        let p: u32 = code(x[i]);
        let q: u32 = code(y[i]);
        if p != q {
            proof {
                lemma_lexical_skip(codes(a@), codes(b@), i as int);
                assert(codes(a@).skip(i as int)[0] == p);
                assert(codes(b@).skip(i as int)[0] == q);
            }
            return if p < q {
                Order::Less
            } else {
                Order::Greater
            };
        }
        i += 1;
    }
    proof {
        lemma_lexical_skip(codes(a@), codes(b@), i as int);
    }
    if i < y.len() {
        Order::Less
    } else if i < x.len() {
        Order::Greater
    } else {
        Order::Equal
    }
}

/// How two lists of bytes compare.
pub fn order_bytes(a: &[u8], b: &[u8]) -> (r: Order)
    ensures
        r == lexical_order(byte_values(a@), byte_values(b@)),
{
    let mut i: usize = 0;
    while i < a.len() && i < b.len()
        invariant
            i <= a.len(),
            i <= b.len(),
            forall|j: int| 0 <= j < i ==> a@[j] == b@[j],
        decreases a.len() - i,
    {
        if a[i] != b[i] {
            proof {
                lemma_lexical_skip(byte_values(a@), byte_values(b@), i as int);
                assert(byte_values(a@).skip(i as int)[0] == a@[i as int]);
                assert(byte_values(b@).skip(i as int)[0] == b@[i as int]);
            }
            return if a[i] < b[i] {
                Order::Less
            } else {
                Order::Greater
            };
        }
        i += 1;
    }
    proof {
        lemma_lexical_skip(byte_values(a@), byte_values(b@), i as int);
    }
    if i < b.len() {
        Order::Less
    } else if i < a.len() {
        Order::Greater
    } else {
        Order::Equal
    }
}

} // verus!
