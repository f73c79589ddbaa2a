//! Lexicographic order on account identifiers, by code point. Session
//! keys are ordered pairs of identifiers under this order; the store
//! keeps its sessions ascending by key, as the listing queries promise.

use vstd::prelude::*;
use vstd::string::StrSliceExecFns;

verus! {

/// Strict lexicographic order on character sequences: a proper prefix
/// precedes its extensions, and otherwise the first differing code
/// point decides.
pub open spec fn lex_lt(a: Seq<char>, b: Seq<char>) -> bool
    decreases a.len(),
{
    if b.len() == 0 {
        false
    } else if a.len() == 0 {
        true
    } else if (a[0] as u32) < (b[0] as u32) {
        true
    } else if (b[0] as u32) < (a[0] as u32) {
        false
    } else {
        lex_lt(a.skip(1), b.skip(1))
    }
}

/// Strict order on session keys: by host first, then by opponent.
pub open spec fn pair_lt(h1: Seq<char>, o1: Seq<char>, h2: Seq<char>, o2: Seq<char>) -> bool {
    ||| lex_lt(h1, h2)
    ||| (h1 == h2 && lex_lt(o1, o2))
}

/// No identifier precedes itself.
pub proof fn lemma_lex_lt_irreflexive(a: Seq<char>)
    ensures
        !lex_lt(a, a),
    decreases a.len(),
{
    if a.len() > 0 {
        lemma_lex_lt_irreflexive(a.skip(1));
    }
}

/// Two identifiers neither of which precedes the other are equal.
pub proof fn lemma_lex_lt_connected(a: Seq<char>, b: Seq<char>)
    requires
        !lex_lt(a, b),
        !lex_lt(b, a),
    ensures
        a == b,
    decreases a.len(),
{
    if b.len() == 0 {
        assert(a.len() == 0);
        assert(a =~= b);
    } else if a.len() == 0 {
        assert(false);
    } else {
        vstd::utf8::char_u32_cast(a[0], a[0] as u32);
        vstd::utf8::char_u32_cast(b[0], b[0] as u32);
        assert(a[0] == b[0]);
        lemma_lex_lt_connected(a.skip(1), b.skip(1));
        assert forall|j: int| 0 <= j < a.len() implies a[j] == b[j] by {
            if j > 0 {
                assert(a.skip(1)[j - 1] == a[j]);
                assert(b.skip(1)[j - 1] == b[j]);
            }
        }
        assert(a =~= b);
    }
}

/// The order is transitive.
pub proof fn lemma_lex_lt_transitive(a: Seq<char>, b: Seq<char>, c: Seq<char>)
    requires
        lex_lt(a, b),
        lex_lt(b, c),
    ensures
        lex_lt(a, c),
    decreases a.len(),
{
    if a.len() == 0 {
    } else {
        if (a[0] as u32) < (b[0] as u32) || (b[0] as u32) < (c[0] as u32) {
        } else {
            vstd::utf8::char_u32_cast(a[0], a[0] as u32);
            vstd::utf8::char_u32_cast(b[0], b[0] as u32);
            vstd::utf8::char_u32_cast(c[0], c[0] as u32);
            assert(a[0] == b[0] && b[0] == c[0]);
            lemma_lex_lt_transitive(a.skip(1), b.skip(1), c.skip(1));
        }
    }
}

/// Two session keys neither of which precedes the other are equal.
pub proof fn lemma_pair_lt_connected(h1: Seq<char>, o1: Seq<char>, h2: Seq<char>, o2: Seq<char>)
    requires
        !pair_lt(h1, o1, h2, o2),
        !pair_lt(h2, o2, h1, o1),
    ensures
        h1 == h2,
        o1 == o2,
{
    lemma_lex_lt_connected(h1, h2);
    lemma_lex_lt_connected(o1, o2);
}

/// The key order is transitive.
pub proof fn lemma_pair_lt_transitive(
    h1: Seq<char>,
    o1: Seq<char>,
    h2: Seq<char>,
    o2: Seq<char>,
    h3: Seq<char>,
    o3: Seq<char>,
)
    requires
        pair_lt(h1, o1, h2, o2),
        pair_lt(h2, o2, h3, o3),
    ensures
        pair_lt(h1, o1, h3, o3),
{
    if lex_lt(h1, h2) && lex_lt(h2, h3) {
        lemma_lex_lt_transitive(h1, h2, h3);
    } else if h1 == h2 && h2 == h3 {
        lemma_lex_lt_transitive(o1, o2, o3);
    }
}

/// Under equal prefixes of length `k`, the order is decided past them.
proof fn lemma_lex_lt_skip(a: Seq<char>, b: Seq<char>, k: int)
    requires
        0 <= k <= a.len(),
        k <= b.len(),
        forall|j: int| 0 <= j < k ==> a[j] == b[j],
    ensures
        lex_lt(a, b) == lex_lt(a.skip(k), b.skip(k)),
    decreases k,
{
    if k == 0 {
        assert(a.skip(0) =~= a);
        assert(b.skip(0) =~= b);
    } else {
        assert(a[0] == b[0]);
        assert(lex_lt(a, b) == lex_lt(a.skip(1), b.skip(1)));
        lemma_lex_lt_skip(a.skip(1), b.skip(1), k - 1);
        assert(a.skip(1).skip(k - 1) =~= a.skip(k));
        assert(b.skip(1).skip(k - 1) =~= b.skip(k));
    }
}

/// Does identifier `a` strictly precede identifier `b`?
pub fn account_lt(a: &str, b: &str) -> (r: bool)
    ensures
        r == lex_lt(a@, b@),
{
    let a_len = a.unicode_len();
    let b_len = b.unicode_len();
    let mut i: usize = 0;
    while i < a_len && i < b_len
        invariant
            a_len == a@.len(),
            b_len == b@.len(),
            i <= a_len,
            i <= b_len,
            forall|j: int| 0 <= j < i ==> a@[j] == b@[j],
        decreases a_len - i,
    {
        let ca = a.get_char(i);
        let cb = b.get_char(i);
        if (ca as u32) < (cb as u32) {
            proof {
                lemma_lex_lt_skip(a@, b@, i as int);
            }
            return true;
        }
        if (cb as u32) < (ca as u32) {
            proof {
                lemma_lex_lt_skip(a@, b@, i as int);
            }
            return false;
        }
        proof {
            vstd::utf8::char_u32_cast(ca, ca as u32);
            vstd::utf8::char_u32_cast(cb, cb as u32);
            assert(a@[i as int] == b@[i as int]);
        }
        i += 1;
    }
    proof {
        lemma_lex_lt_skip(a@, b@, i as int);
    }
    i < b_len
}

} // verus!
