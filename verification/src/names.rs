//! Node names on the wire are the letter `n` followed by the node's decimal
//! index (`n0`, `n17`, ...). The core works on the numeric index; this
//! module turns a name's bytes into that index.

use vstd::prelude::*;

verus! {

/// An ASCII decimal digit.
pub open spec fn is_digit(b: u8) -> bool {
    48 <= b <= 57
}

/// The number the digit bytes spell in decimal.
pub open spec fn digits_value(s: Seq<u8>) -> int
    decreases s.len(),
{
    if s.len() == 0 {
        0
    } else {
        digits_value(s.drop_last()) * 10 + (s.last() - 48)
    }
}

/// Every byte is a decimal digit.
pub open spec fn all_digits(s: Seq<u8>) -> bool {
    forall|i: int| 0 <= i < s.len() ==> is_digit(#[trigger] s[i])
}

/// A well-formed node name: the letter `n` (byte 110) followed by at least
/// one decimal digit.
pub open spec fn valid_node_name(s: Seq<u8>) -> bool {
    &&& s.len() >= 2
    &&& s[0] == 110
    &&& all_digits(s.skip(1))
}

proof fn lemma_digits_value_nonneg(s: Seq<u8>)
    requires
        all_digits(s),
    ensures
        digits_value(s) >= 0,
    decreases s.len(),
{
    if s.len() > 0 {
        assert(all_digits(s.drop_last()));
        lemma_digits_value_nonneg(s.drop_last());
    }
}

proof fn lemma_digits_value_take_step(s: Seq<u8>, j: int)
    requires
        0 <= j < s.len(),
    ensures
        digits_value(s.take(j + 1)) == digits_value(s.take(j)) * 10 + (s[j] - 48),
{
    assert(s.take(j + 1).drop_last() =~= s.take(j));
    assert(s.take(j + 1).last() == s[j]);
}

proof fn lemma_digits_value_take_le(s: Seq<u8>, j: int)
    requires
        all_digits(s),
        0 <= j <= s.len(),
    ensures
        digits_value(s.take(j)) <= digits_value(s),
    decreases s.len() - j,
{
    if j == s.len() {
        assert(s.take(j) =~= s);
    } else {
        lemma_digits_value_take_step(s, j);
        assert(all_digits(s.take(j)));
        lemma_digits_value_nonneg(s.take(j));
        lemma_digits_value_take_le(s, j + 1);
    }
}

/// Parse a node name into its numeric index: `Some(k)` exactly when the
/// bytes are the letter `n` followed by decimal digits spelling `k`, and
/// `k` fits the index type; `None` on every other input.
pub fn parse_node_index(name: &[u8]) -> (r: Option<usize>)
    ensures
        match r {
            Some(k) => {
                &&& valid_node_name(name@)
                &&& k == digits_value(name@.skip(1))
            },
            None => !valid_node_name(name@) || digits_value(name@.skip(1)) > usize::MAX,
        },
{
    let len = name.len();
    if len < 2 {
        return None;
    }
    if *vstd::slice::slice_index_get(name, 0) != 110 {
        return None;
    }
    let ghost t = name@.skip(1);
    let mut acc: usize = 0;
    let mut i: usize = 1;
    while i < len
        invariant
            1 <= i <= len,
            len == name@.len(),
            2 <= len,
            name@[0] == 110,
            all_digits(t.take(i - 1)),
            acc == digits_value(t.take(i - 1)),
            t == name@.skip(1),
        decreases len - i,
    {
        let b = *vstd::slice::slice_index_get(name, i);
        if b < 48 || b > 57 {
            proof {
                assert(t[i - 1] == name@[i as int]);
                assert(!all_digits(t));
            }
            return None;
        }
        let d = (b - 48) as usize;
        proof {
            assert(t[i - 1] == name@[i as int]);
            lemma_digits_value_take_step(t, i - 1);
        }
        if acc > (usize::MAX - d) / 10 {
            proof {
                let q = (usize::MAX - d) as int / 10;
                assert(q * 10 + (usize::MAX - d) as int % 10 == (usize::MAX - d) as int) by {
                    vstd::arithmetic::div_mod::lemma_fundamental_div_mod(
                        (usize::MAX - d) as int,
                        10,
                    );
                }
                assert(acc * 10 >= (q + 1) * 10) by (nonlinear_arith)
                    requires
                        acc >= q + 1,
                ;
                assert(digits_value(t.take(i as int)) > usize::MAX);
                if all_digits(t) {
                    lemma_digits_value_take_le(t, i as int);
                }
            }
            return None;
        }
        proof {
            let q = (usize::MAX - d) as int / 10;
            assert(q * 10 + (usize::MAX - d) as int % 10 == (usize::MAX - d) as int) by {
                vstd::arithmetic::div_mod::lemma_fundamental_div_mod((usize::MAX - d) as int, 10);
            }
            assert(acc * 10 <= q * 10) by (nonlinear_arith)
                requires
                    acc <= q,
            ;
            assert(all_digits(t.take(i as int)));
        }
        acc = acc * 10 + d;
        i = i + 1;
    }
    proof {
        assert(t.take(i - 1) =~= t);
    }
    Some(acc)
}

} // verus!
