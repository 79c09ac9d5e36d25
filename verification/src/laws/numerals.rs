//! Numerals can be read back, and prefixes are what texts begin with.

use crate::text::{decimal, decimal_text, has_prefix};
use vstd::prelude::*;

verus! {

/// The number that a text of digits stands for.
pub open spec fn value_of(text: Seq<char>) -> int
    decreases text.len(),
{
    if text.len() == 0 {
        0
    } else {
        10 * value_of(text.drop_last()) + (text.last() as int - '0' as int)
    }
}

/// Whether `text` is `n` in decimal: digits that stand for `n`, the first of several not
/// zero.
pub open spec fn is_numeral_of(text: Seq<char>, n: int) -> bool {
    &&& text.len() > 0
    &&& forall|i: int| 0 <= i < text.len() ==> '0' as int <= (#[trigger] text[i]) as int <= '9' as int
    &&& text.len() > 1 ==> text[0] != '0'
    &&& value_of(text) == n
}

/// Whether `text` is `prefix` followed by `n` in decimal.
pub open spec fn is_numbered_text(text: Seq<char>, prefix: Seq<char>, n: int) -> bool {
    exists|numeral: Seq<char>| #[trigger] is_numeral_of(numeral, n) && text == prefix + numeral
}

pub(crate) proof fn lemma_decimal_reads_back(n: nat)
    ensures
        is_numeral_of(decimal(n), n as int),
    decreases n,
{
    if n < 10 {
        assert(decimal(n).drop_last() =~= Seq::<char>::empty());
        assert(value_of(decimal(n).drop_last()) == 0);
    } else {
        let rest = decimal(n / 10);
        lemma_decimal_reads_back(n / 10);
        assert(decimal(n).drop_last() =~= rest);
        assert(decimal(n)[0] == rest[0]);
        if rest.len() == 1 {
            assert(rest.drop_last() =~= Seq::<char>::empty());
            assert(value_of(rest.drop_last()) == 0);
            assert(value_of(rest) == rest[0] as int - '0' as int);
        }
        assert forall|i: int| 0 <= i < decimal(n).len() implies '0' as int <= (#[trigger] decimal(
            n,
        )[i]) as int <= '9' as int by {
            if i < rest.len() {
                assert(decimal(n)[i] == rest[i]);
            }
        }
    }
}

pub(crate) proof fn lemma_numbered(prefix: Seq<char>, n: nat)
    ensures
        is_numbered_text(prefix + decimal(n), prefix, n as int),
{
    lemma_decimal_reads_back(n);
    assert(is_numeral_of(decimal(n), n as int));
}

/// A numeral reads back as the number it was written for.
pub proof fn numerals_read_back(n: u64, r: String)
    requires
        call_ensures(decimal_text, (n,), r),
    ensures
        is_numeral_of(r@, n as int),
{
    lemma_decimal_reads_back(n as nat);
}

/// A text has a prefix exactly if it is the prefix and something after it.
pub proof fn prefixes_begin_texts(name: &str, prefix: &str, r: bool)
    requires
        call_ensures(has_prefix, (name, prefix), r),
    ensures
        r <==> exists|rest: Seq<char>| name@ == #[trigger] (prefix@ + rest),
{
    if r {
        assert(name@ =~= prefix@ + name@.skip(prefix@.len() as int));
    }
    if exists|rest: Seq<char>| name@ == #[trigger] (prefix@ + rest) {
        let rest = choose|rest: Seq<char>| name@ == #[trigger] (prefix@ + rest);
        assert((prefix@ + rest).take(prefix@.len() as int) =~= prefix@);
    }
}

} // verus!
