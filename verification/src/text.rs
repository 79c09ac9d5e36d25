//! Text that the compiler builds: decimal numerals, symbol names and prefixes.

use pliron::identifier::Identifier;
use vstd::prelude::*;
use vstd::std_specs::iter::IteratorSpec;
use vstd::string::*;

verus! {

/// The decimal digit for `d`.
pub open spec fn digit(d: int) -> char
    recommends
        0 <= d < 10,
{
    if d == 0 {
        '0'
    } else if d == 1 {
        '1'
    } else if d == 2 {
        '2'
    } else if d == 3 {
        '3'
    } else if d == 4 {
        '4'
    } else if d == 5 {
        '5'
    } else if d == 6 {
        '6'
    } else if d == 7 {
        '7'
    } else if d == 8 {
        '8'
    } else {
        '9'
    }
}

/// The decimal numeral of `n`, without leading zeros.
pub open spec fn decimal(n: nat) -> Seq<char>
    decreases n,
{
    if n < 10 {
        seq![digit(n as int)]
    } else {
        decimal(n / 10).push(digit((n % 10) as int))
    }
}

/// A letter of the English alphabet, or an underscore.
pub open spec fn is_identifier_start(c: char) -> bool {
    'a' <= c <= 'z' || 'A' <= c <= 'Z' || c == '_'
}

/// What may follow the first character of an identifier.
pub open spec fn is_identifier_part(c: char) -> bool {
    is_identifier_start(c) || '0' <= c <= '9'
}

/// The identifiers of the IR: `[a-zA-Z_][a-zA-Z0-9_]*`.
pub open spec fn is_identifier(s: Seq<char>) -> bool {
    &&& s.len() > 0
    &&& is_identifier_start(s[0])
    &&& forall|i: int| 0 <= i < s.len() ==> is_identifier_part(#[trigger] s[i])
}

/// The `Debug` text of a `str`: the text in double quotes, with escapes.
pub uninterp spec fn str_debug(s: Seq<char>) -> Seq<char>;

/// Whether `account` tells that `name` is no identifier: it opens with the name of the error
/// type, and gives the kind of the error and then `name` in quotes.
pub open spec fn is_malformed_account(account: Seq<char>, name: Seq<char>) -> bool {
    exists|a: Seq<char>, b: Seq<char>, c: Seq<char>|
        account == #[trigger] ("Error"@ + a + "InvalidArgument"@ + b + str_debug(name) + c)
}

/// Calls `pliron::identifier::Identifier::try_new`. It accepts exactly the texts that match
/// `[a-zA-Z_][a-zA-Z0-9_]*`, and an accepted identifier reads as the text it was made from.
/// A refusal is handed back as the `Debug` text of its `pliron::result::Error`: the type's
/// name, then each field, of which the first is the kind `InvalidArgument` and the second
/// the refused text. What else it holds is not claimed, as it ends with a backtrace.
#[verifier::external_body]
pub(crate) fn try_identifier(name: String) -> (r: Result<String, String>)
    ensures
        r is Ok <==> is_identifier(name@),
        r matches Ok(id) ==> id@ == name@,
        r matches Err(account) ==> is_malformed_account(account@, name@),
{
    match Identifier::try_new(name) {
        Ok(id) => Ok(String::from(id)),
        Err(e) => Err(format!("{:?}", e)),
    }
}

/// The `Debug` text that `std` gives a `str`, by the name `str_debug`.
#[verifier::external_body]
pub(crate) fn quoted(s: &str) -> (r: String)
    ensures
        r@ == str_debug(s@),
{
    format!("{:?}", s)
}

fn digit_text(d: u64) -> (r: &'static str)
    requires
        d < 10,
    ensures
        r@ == seq![digit(d as int)],
{
    proof {
        reveal_strlit("0");
        reveal_strlit("1");
        reveal_strlit("2");
        reveal_strlit("3");
        reveal_strlit("4");
        reveal_strlit("5");
        reveal_strlit("6");
        reveal_strlit("7");
        reveal_strlit("8");
        reveal_strlit("9");
    }
    match d {
        0 => "0",
        1 => "1",
        2 => "2",
        3 => "3",
        4 => "4",
        5 => "5",
        6 => "6",
        7 => "7",
        8 => "8",
        _ => "9",
    }
}

/// Writes `n` in decimal.
pub fn decimal_text(n: u64) -> (r: String)
    ensures
        r@ == decimal(n as nat),
    decreases n,
{
    if n < 10 {
        digit_text(n).to_owned()
    } else {
        decimal_text(n / 10).concat(digit_text(n % 10))
    }
}

/// Whether `name` begins with `prefix`.
pub fn has_prefix(name: &str, prefix: &str) -> (r: bool)
    ensures
        r == prefix@.is_prefix_of(name@),
{
    let mut rest = name.chars();
    let mut wanted = prefix.chars();
    let ghost mut i: int = 0;
    loop
        invariant
            0 <= i <= prefix@.len(),
            i <= name@.len(),
            rest.remaining() == name@.skip(i),
            wanted.remaining() == prefix@.skip(i),
            prefix@.take(i) == name@.take(i),
            wanted.decrease() is Some,
            wanted.obeys_prophetic_iter_laws(),
        decreases prefix@.len() - i,
    {
        match wanted.next() {
            None => {
                assert(prefix@.take(i) == prefix@);
                return true;
            },
            Some(w) => match rest.next() {
                None => {
                    return false;
                },
                Some(c) => {
                    if c != w {
                        assert(name@[i] == c && prefix@[i] == w);
                        return false;
                    }
                    proof {
                        assert(prefix@.take(i + 1) == prefix@.take(i).push(w));
                        assert(name@.take(i + 1) == name@.take(i).push(c));
                        i = i + 1;
                    }
                },
            },
        }
    }
}

proof fn lemma_digit_injective(a: int, b: int)
    requires
        0 <= a < 10,
        0 <= b < 10,
        digit(a) == digit(b),
    ensures
        a == b,
{
}

pub(crate) proof fn lemma_decimal_is_digits(n: nat)
    ensures
        decimal(n).len() > 0,
        n >= 10 ==> decimal(n).len() > 1,
        forall|i: int| 0 <= i < decimal(n).len() ==> '0' <= #[trigger] decimal(n)[i] <= '9',
    decreases n,
{
    if n >= 10 {
        lemma_decimal_is_digits(n / 10);
    }
}

/// Distinct numbers have distinct numerals.
pub proof fn decimal_injective(m: nat, n: nat)
    requires
        decimal(m) == decimal(n),
    ensures
        m == n,
    decreases m,
{
    lemma_decimal_is_digits(m);
    lemma_decimal_is_digits(n);
    if m < 10 && n < 10 {
        assert(decimal(m)[0] == digit(m as int) && decimal(n)[0] == digit(n as int));
        lemma_digit_injective(m as int, n as int);
    } else if m >= 10 && n >= 10 {
        assert(decimal(m).last() == digit((m % 10) as int));
        assert(decimal(n).last() == digit((n % 10) as int));
        lemma_digit_injective((m % 10) as int, (n % 10) as int);
        assert(decimal(m).drop_last() == decimal(m / 10));
        assert(decimal(n).drop_last() == decimal(n / 10));
        decimal_injective(m / 10, n / 10);
    }
}

} // verus!
