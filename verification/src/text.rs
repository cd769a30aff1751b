//! Identifiers: a family's prefix followed by a number in decimal.
use vstd::prelude::*;
use vstd::string::StringExecFns;

verus! {

/// The character of a decimal digit.
pub open spec fn digit_char(d: nat) -> char {
    if d == 0 {
        '0'
    } else if d == 1 {
        '1'
    } else if d == 2 {
        '2'
    } else if d == 3 {
        '3'
    } else if d == 4 {
        '4'
    } else if d == 5 {
        '5'
    } else if d == 6 {
        '6'
    } else if d == 7 {
        '7'
    } else if d == 8 {
        '8'
    } else {
        '9'
    }
}

/// A number in decimal, without leading zeros.
pub open spec fn decimal_text(n: nat) -> Seq<char>
    decreases n,
{
    if n < 10 {
        seq![digit_char(n)]
    } else {
        decimal_text(n / 10).push(digit_char(n % 10))
    }
}

/// The prefix of intent identifiers.
pub open spec fn intent_prefix() -> Seq<char> {
    seq!['i', 'n', 't', 'e', 'n', 't', '_']
}

/// The prefix of evaluation identifiers.
pub open spec fn evaluation_prefix() -> Seq<char> {
    seq!['e', 'v', 'a', 'l', '_']
}

/// The prefix of challenge identifiers.
pub open spec fn challenge_prefix() -> Seq<char> {
    seq!['c', 'h', 'a', 'l', 'l', 'e', 'n', 'g', 'e', '_']
}

/// The identifier with the given prefix and number.
pub open spec fn id_text(prefix: Seq<char>, n: nat) -> Seq<char> {
    prefix + decimal_text(n)
}

/// Whether the text is one of the first `issued` identifiers of a family.
pub open spec fn is_issued(prefix: Seq<char>, issued: nat, text: Seq<char>) -> bool {
    exists|n: nat| 1 <= n <= issued && text == #[trigger] id_text(prefix, n)
}

/// A number's decimal text is not empty, and it has one character exactly
/// when the number is below ten.
pub proof fn lemma_decimal_len(n: nat)
    ensures
        decimal_text(n).len() >= 1,
        decimal_text(n).len() == 1 <==> n < 10,
    decreases n,
{
    if n >= 10 {
        lemma_decimal_len(n / 10);
    }
}

/// Different numbers have different decimal texts.
pub proof fn lemma_decimal_injective(a: nat, b: nat)
    requires
        decimal_text(a) == decimal_text(b),
    ensures
        a == b,
    decreases a,
{
    lemma_decimal_len(b);
    if a < 10 {
        assert(decimal_text(a)[0] == digit_char(a));
    } else {
        let ta = decimal_text(a / 10);
        let tb = decimal_text(b / 10);
        assert(ta.push(digit_char(a % 10)).last() == tb.push(digit_char(b % 10)).last());
        assert(ta.push(digit_char(a % 10)).drop_last() =~= ta);
        assert(tb.push(digit_char(b % 10)).drop_last() =~= tb);
        lemma_decimal_injective(a / 10, b / 10);
    }
}

/// Different numbers give different identifiers within a family.
pub proof fn lemma_id_injective(prefix: Seq<char>, a: nat, b: nat)
    requires
        id_text(prefix, a) == id_text(prefix, b),
    ensures
        a == b,
{
    let ta = decimal_text(a);
    let tb = decimal_text(b);
    assert((prefix + ta).subrange(prefix.len() as int, (prefix + ta).len() as int) =~= ta);
    assert((prefix + tb).subrange(prefix.len() as int, (prefix + tb).len() as int) =~= tb);
    lemma_decimal_injective(a, b);
}

/// The identifier after the ones issued so far is none of them.
pub proof fn lemma_next_id_is_fresh(prefix: Seq<char>, issued: nat, text: Seq<char>)
    requires
        is_issued(prefix, issued, text),
    ensures
        text != id_text(prefix, issued + 1),
{
    let n = choose|n: nat| 1 <= n <= issued && text == #[trigger] id_text(prefix, n);
    if text == id_text(prefix, issued + 1) {
        lemma_id_injective(prefix, n, issued + 1);
    }
}

fn digit_str(d: u64) -> (text: &'static str)
    requires
        d < 10,
    ensures
        text@ == seq![digit_char(d as nat)],
{
    proof {
        reveal_strlit("0");
        reveal_strlit("1");
        reveal_strlit("2");
        reveal_strlit("3");
        reveal_strlit("4");
        reveal_strlit("5");
        reveal_strlit("6");
        reveal_strlit("7");
        reveal_strlit("8");
        reveal_strlit("9");
    }
    let text = if d == 0 {
        "0"
    } else if d == 1 {
        "1"
    } else if d == 2 {
        "2"
    } else if d == 3 {
        "3"
    } else if d == 4 {
        "4"
    } else if d == 5 {
        "5"
    } else if d == 6 {
        "6"
    } else if d == 7 {
        "7"
    } else if d == 8 {
        "8"
    } else {
        "9"
    };
    text
}

/// Appends a number in decimal to a text.
pub fn append_decimal(text: &mut String, n: u64)
    ensures
        final(text)@ == old(text)@ + decimal_text(n as nat),
    decreases n,
{
    if n >= 10 {
        append_decimal(text, n / 10);
    }
    text.append(digit_str(n % 10));
}

/// The identifier of the `n`-th intent.
pub fn intent_id_of(n: u64) -> (id: String)
    ensures
        id@ == id_text(intent_prefix(), n as nat),
{
    proof {
        reveal_strlit("intent_");
    }
    let mut id = String::from_str("intent_");
    append_decimal(&mut id, n);
    id
}

/// The identifier of the `n`-th evaluation.
pub fn evaluation_id_of(n: u64) -> (id: String)
    ensures
        id@ == id_text(evaluation_prefix(), n as nat),
{
    proof {
        reveal_strlit("eval_");
    }
    let mut id = String::from_str("eval_");
    append_decimal(&mut id, n);
    id
}

/// The identifier of the `n`-th challenge.
pub fn challenge_id_of(n: u64) -> (id: String)
    ensures
        id@ == id_text(challenge_prefix(), n as nat),
{
    proof {
        reveal_strlit("challenge_");
    }
    let mut id = String::from_str("challenge_");
    append_decimal(&mut id, n);
    id
}

} // verus!
