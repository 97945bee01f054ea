//! Small text builders: runs of blanks and decimal numerals.

use vstd::prelude::*;
use vstd::string::*;

verus! {

/// A run of `n` blanks.
pub open spec fn blanks(n: nat) -> Seq<char> {
    Seq::new(n, |i: int| ' ')
}

/// The numeral of one decimal digit.
pub open spec fn digit(d: nat) -> char {
    if d == 0 {
        '0'
    } else if d == 1 {
        '1'
    } else if d == 2 {
        '2'
    } else if d == 3 {
        '3'
    } else if d == 4 {
        '4'
    } else if d == 5 {
        '5'
    } else if d == 6 {
        '6'
    } else if d == 7 {
        '7'
    } else if d == 8 {
        '8'
    } else {
        '9'
    }
}

/// The decimal numeral of `n`, without sign or padding.
pub open spec fn decimal(n: nat) -> Seq<char>
    decreases n,
{
    if n < 10 {
        seq![digit(n)]
    } else {
        decimal(n / 10).push(digit(n % 10))
    }
}

/// `String::push` of the standard library: the text grows by the one
/// character, at its end.
#[verifier::external_body]
pub(crate) fn push_char(text: &mut String, c: char)
    ensures
        final(text)@ == old(text)@.push(c),
{
    text.push(c)
}

/// The test that a character is not the marker `c`.
pub open spec fn other_than(c: char) -> spec_fn(char) -> bool {
    |x: char| x != c
}

/// The text without any occurrence of the character `c`.
pub open spec fn stripped(text: Seq<char>, c: char) -> Seq<char> {
    text.filter(other_than(c))
}

/// Whether the text ends with the character `c`.
pub open spec fn ends_with(text: Seq<char>, c: char) -> bool {
    text.len() > 0 && text.last() == c
}

/// The text without any occurrence of the character `c`, and whether there
/// was one.
pub fn strip_char(text: &str, c: char) -> (r: (String, bool))
    ensures
        r.0@ == stripped(text@, c),
        r.1 == text@.contains(c),
{
    let n = text.unicode_len();
    let mut out = String::new();
    let mut found = false;
    let mut i: usize = 0;
    while i < n
        invariant
            i <= n,
            n == text@.len(),
            out@ == stripped(text@.take(i as int), c),
            found == text@.take(i as int).contains(c),
        decreases n - i,
    {
        let x = text.get_char(i);
        proof {
            let front = text@.take(i as int);
            assert(text@.take(i + 1) =~= front.push(x));
            front.lemma_filter_push(x, other_than(c));
            if x == c {
                assert(front.push(x)[i as int] == c);
            } else if front.push(x).contains(c) {
                let j = choose|j: int| 0 <= j < i + 1 && front.push(x)[j] == c;
                assert(front[j] == c);
            } else if front.contains(c) {
                let j = choose|j: int| 0 <= j < i && front[j] == c;
                assert(front.push(x)[j] == c);
            }
        }
        if x == c {
            found = true;
        } else {
            push_char(&mut out, x);
        }
        i += 1;
    }
    proof {
        assert(text@.take(n as int) =~= text@);
        assert(text@.take(0) =~= Seq::<char>::empty());
    }
    (out, found)
}

/// Whether the text ends with the character `c`.
pub fn ends_with_char(text: &str, c: char) -> (r: bool)
    ensures
        r == ends_with(text@, c),
{
    let n = text.unicode_len();
    if n == 0 {
        false
    } else {
        text.get_char(n - 1) == c
    }
}

/// Whether two texts have the same characters.
pub fn same_text(a: &str, b: &str) -> (same: bool)
    ensures
        same == (a@ == b@),
{
    let left = String::from_str(a);
    let right = String::from_str(b);
    left == right
}

/// A text of `n` blanks.
pub fn blank_text(n: usize) -> (text: String)
    ensures
        text@ == blanks(n as nat),
{
    let mut text = String::new();
    let mut i: usize = 0;
    while i < n
        invariant
            i <= n,
            text@ == blanks(i as nat),
        decreases n - i,
    {
        push_char(&mut text, ' ');
        i += 1;
        assert(text@ =~= blanks(i as nat));
    }
    text
}

fn digit_char(d: u64) -> (c: char)
    requires
        d < 10,
    ensures
        c == digit(d as nat),
{
    if d == 0 {
        '0'
    } else if d == 1 {
        '1'
    } else if d == 2 {
        '2'
    } else if d == 3 {
        '3'
    } else if d == 4 {
        '4'
    } else if d == 5 {
        '5'
    } else if d == 6 {
        '6'
    } else if d == 7 {
        '7'
    } else if d == 8 {
        '8'
    } else {
        '9'
    }
}

/// The decimal numeral of `n` as a text.
pub fn decimal_text(n: u64) -> (text: String)
    ensures
        text@ == decimal(n as nat),
    decreases n,
{
    if n < 10 {
        let mut text = String::new();
        push_char(&mut text, digit_char(n));
        assert(text@ =~= seq![digit(n as nat)]);
        text
    } else {
        let mut text = decimal_text(n / 10);
        push_char(&mut text, digit_char(n % 10));
        text
    }
}

} // verus!
