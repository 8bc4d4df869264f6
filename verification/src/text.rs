//! The text form of a cache: `{k: v, k: v, ...}`, listing the entries from the most
//! recently used to the least recently used, each number in decimal.
use crate::model::Entry;
use vstd::prelude::*;

verus! {

/// The character of a decimal digit.
pub open spec fn digit_char(d: int) -> char {
    (48 + d) as char
}

/// The decimal digits of `n`, most significant first, without leading zeros.
pub open spec fn decimal(n: nat) -> Seq<char>
    decreases n,
{
    if n < 10 {
        seq![digit_char(n as int)]
    } else {
        decimal(n / 10).push(digit_char((n % 10) as int))
    }
}

/// One entry: `key: value`.
pub open spec fn entry_text(e: Entry) -> Seq<char> {
    decimal(e.0 as nat) + seq![':', ' '] + decimal(e.1 as nat)
}

/// The entries of `s` from the last to the first, separated by `, `.
pub open spec fn entries_text_backwards(s: Seq<Entry>) -> Seq<char>
    decreases s.len(),
{
    if s.len() == 0 {
        seq![]
    } else if s.len() == 1 {
        entry_text(s[0])
    } else {
        entries_text_backwards(s.drop_first()) + seq![',', ' '] + entry_text(s[0])
    }
}

/// The text form of a cache whose entries, from the least to the most recently used,
/// are `s`.
pub open spec fn debug_text(s: Seq<Entry>) -> Seq<char> {
    seq!['{'] + entries_text_backwards(s) + seq!['}']
}

/// `String::push`: claims the character is appended at the end.
#[verifier::external_body]
pub(crate) fn string_push(s: &mut String, c: char)
    ensures
        final(s)@ == old(s)@.push(c),
{
    s.push(c)
}

/// Appends the decimal digits of `n`.
pub fn push_decimal(out: &mut String, n: u64)
    ensures
        final(out)@ == old(out)@ + decimal(n as nat),
    decreases n,
{
    if n >= 10 {
        push_decimal(out, n / 10);
    }
    let d: u8 = (n % 10) as u8;
    string_push(out, (48u8 + d) as char);
    proof {
        if n >= 10 {
            assert(decimal(n as nat) == decimal((n / 10) as nat).push(digit_char((n % 10) as int)));
        }
    }
    assert(out@ =~= old(out)@ + decimal(n as nat));
}

/// Appends `key: value`.
pub fn push_entry(out: &mut String, e: Entry)
    ensures
        final(out)@ == old(out)@ + entry_text(e),
{
    push_decimal(out, e.0);
    string_push(out, ':');
    string_push(out, ' ');
    push_decimal(out, e.1);
    assert(out@ =~= old(out)@ + entry_text(e));
}

/// The text form of the entries `items` (least recently used first).
pub fn entries_debug_text(items: &Vec<Entry>) -> (r: String)
    ensures
        r@ == debug_text(items@),
{
    let mut out = String::new();
    string_push(&mut out, '{');
    let n = items.len();
    let mut i = n;
    assert(items@.subrange(n as int, n as int).len() == 0);
    assert(out@ =~= seq!['{'] + entries_text_backwards(items@.subrange(n as int, n as int)));
    while i > 0
        invariant
            i <= n,
            n == items@.len(),
            out@ == seq!['{'] + entries_text_backwards(items@.subrange(i as int, n as int)),
        decreases i,
    {
        i = i - 1;
        let ghost before = out@;
        let ghost tail = items@.subrange(i + 1, n as int);
        let ghost cur = items@.subrange(i as int, n as int);
        assert(cur.drop_first() =~= tail);
        assert(cur[0] == items@[i as int]);
        if i + 1 < n {
            string_push(&mut out, ',');
            string_push(&mut out, ' ');
        }
        push_entry(&mut out, items[i]);
        proof {
            if i + 1 < n {
                assert(out@ =~= before + seq![',', ' '] + entry_text(items@[i as int]));
            } else {
                assert(tail.len() == 0);
                assert(out@ =~= before + entry_text(items@[i as int]));
            }
            assert(out@ =~= seq!['{'] + entries_text_backwards(cur));
        }
    }
    string_push(&mut out, '}');
    assert(items@.subrange(0, n as int) =~= items@);
    assert(out@ =~= debug_text(items@));
    out
}

} // verus!
