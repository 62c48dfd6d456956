//! Characters and strings: the few operations on text that the rest of the crate needs,
//! stated over `Seq<char>`.

use vstd::prelude::*;
use vstd::std_specs::iter::IteratorSpec;
use vstd::string::StringExecFns;

verus! {

/// Whether `c` is alphanumeric in the sense of Unicode: it has the Alphabetic property
/// or one of the numeric general categories. The Unicode tables that decide this are
/// not written out here; the predicate is the answer of `char::is_alphanumeric`.
pub uninterp spec fn char_is_alphanumeric(c: char) -> bool;

/// Whether `c` is one of the ASCII letters `A`-`Z`, `a`-`z` or digits `0`-`9`.
pub open spec fn is_ascii_alphanumeric(c: char) -> bool {
    ('0' <= c && c <= '9') || ('A' <= c && c <= 'Z') || ('a' <= c && c <= 'z')
}

/// Every character of `s` is alphanumeric in the sense of Unicode.
pub open spec fn all_alphanumeric(s: Seq<char>) -> bool {
    forall|i: int| 0 <= i < s.len() ==> char_is_alphanumeric(#[trigger] s[i])
}

/// Every character of `s` is an ASCII letter or digit.
pub open spec fn all_ascii_alphanumeric(s: Seq<char>) -> bool {
    forall|i: int| 0 <= i < s.len() ==> is_ascii_alphanumeric(#[trigger] s[i])
}

/// Calls `char::is_alphanumeric` of the standard library.
///
/// Trusted, not proved: the result is the Unicode predicate named above.
#[verifier::external_body]
pub(crate) fn is_alphanumeric(c: char) -> (b: bool)
    ensures
        b == char_is_alphanumeric(c),
{
    c.is_alphanumeric()
}

/// Whether `c` is one of the ASCII letters `A`-`Z`, `a`-`z` or digits `0`-`9`.
pub fn ascii_alphanumeric(c: char) -> (b: bool)
    ensures
        b == is_ascii_alphanumeric(c),
{
    ('0' <= c && c <= '9') || ('A' <= c && c <= 'Z') || ('a' <= c && c <= 'z')
}

/// Calls `String::push` of the standard library.
///
/// Trusted, not proved: the string afterwards holds the characters it held before,
/// followed by `c`.
#[verifier::external_body]
pub(crate) fn push_char(s: &mut String, c: char)
    ensures
        final(s)@ == old(s)@.push(c),
{
    s.push(c)
}

/// The characters of `s`, in order.
pub fn chars_of(s: &str) -> (cs: Vec<char>)
    ensures
        cs@ == s@,
{
    broadcast use vstd::string::group_string_axioms;

    let mut cs: Vec<char> = Vec::new();
    let chars = s.chars();
    for c in it: chars
        invariant
            it.seq() == s@,
            cs@ == s@.take(it.index()),
    {
        cs.push(c);
    }
    cs
}

/// The string made of the characters `cs[from..to]`.
pub(crate) fn string_of(cs: &Vec<char>, from: usize, to: usize) -> (s: String)
    requires
        from <= to <= cs.len(),
    ensures
        s@ == cs@.subrange(from as int, to as int),
{
    let mut s = String::new();
    let mut i: usize = from;
    while i < to
        invariant
            from <= i <= to <= cs.len(),
            s@ == cs@.subrange(from as int, i as int),
        decreases to - i,
    {
        push_char(&mut s, cs[i]);
        i += 1;
    }
    s
}

/// The position of the first `c` in `cs`, where there is one.
pub fn find_char(cs: &Vec<char>, c: char) -> (found: Option<usize>)
    ensures
        match found {
            Some(i) => cs@.index_of_first(c) == Some(i as int),
            None => cs@.index_of_first(c) is None,
        },
{
    let mut i: usize = 0;
    while i < cs.len()
        invariant
            i <= cs.len(),
            forall|j: int| 0 <= j < i ==> cs@[j] != c,
        decreases cs.len() - i,
    {
        if cs[i] == c {
            proof {
                cs@.index_of_first_ensures(c);
            }
            return Some(i);
        }
        i += 1;
    }
    proof {
        cs@.index_of_first_ensures(c);
    }
    None
}

/// Whether `cs` begins with the characters of `prefix`.
pub fn starts_with(cs: &Vec<char>, prefix: &Vec<char>) -> (begins: bool)
    ensures
        begins == prefix@.is_prefix_of(cs@),
{
    if prefix.len() > cs.len() {
        return false;
    }
    let mut i: usize = 0;
    while i < prefix.len()
        invariant
            prefix.len() <= cs.len(),
            i <= prefix.len(),
            forall|j: int| 0 <= j < i ==> cs@[j] == prefix@[j],
        decreases prefix.len() - i,
    {
        if cs[i] != prefix[i] {
            return false;
        }
        i += 1;
    }
    true
}

/// The path `base` with `segment` added below it: the two are joined by one `/`, which
/// is left out where `base` is empty or ends with `/` already.
pub open spec fn join_path(base: Seq<char>, segment: Seq<char>) -> Seq<char> {
    if base.len() == 0 || base.last() == '/' {
        base + segment
    } else {
        base + seq!['/'] + segment
    }
}

/// The last character of `s`, if it has one.
pub fn last_char(s: &str) -> (last: Option<char>)
    ensures
        last == if s@.len() == 0 {
            None
        } else {
            Some(s@.last())
        },
{
    broadcast use vstd::string::group_string_axioms;

    let mut last: Option<char> = None;
    let chars = s.chars();
    for c in it: chars
        invariant
            it.seq() == s@,
            last == if it.index() == 0 {
                None
            } else {
                Some(s@[it.index() - 1])
            },
    {
        last = Some(c);
    }
    last
}

/// The path `base` with `segment` added below it.
pub fn join(base: &str, segment: &str) -> (path: String)
    ensures
        path@ == join_path(base@, segment@),
{
    let mut path = String::from_str(base);
    match last_char(base) {
        None => {},
        Some(last) => {
            if last != '/' {
                push_char(&mut path, '/');
            }
        },
    }
    path.append(segment);
    path
}

/// The character that writes the digit `d`.
pub open spec fn digit(d: nat) -> char {
    if d == 0 {
        '0'
    } else if d == 1 {
        '1'
    } else if d == 2 {
        '2'
    } else if d == 3 {
        '3'
    } else if d == 4 {
        '4'
    } else if d == 5 {
        '5'
    } else if d == 6 {
        '6'
    } else if d == 7 {
        '7'
    } else if d == 8 {
        '8'
    } else {
        '9'
    }
}

/// The number `n` written in decimal, without leading zeros.
pub open spec fn decimal(n: nat) -> Seq<char>
    decreases n,
{
    if n < 10 {
        seq![digit(n)]
    } else {
        decimal(n / 10).push(digit(n % 10))
    }
}

/// The character that writes the digit `d`.
fn digit_of(d: usize) -> (c: char)
    requires
        d < 10,
    ensures
        c == digit(d as nat),
{
    match d {
        0 => '0',
        1 => '1',
        2 => '2',
        3 => '3',
        4 => '4',
        5 => '5',
        6 => '6',
        7 => '7',
        8 => '8',
        _ => '9',
    }
}

/// The number `n` written in decimal, without leading zeros.
pub fn decimal_of(n: usize) -> (s: String)
    ensures
        s@ == decimal(n as nat),
{
    let mut low: Vec<char> = Vec::new();
    let mut rest: usize = n;
    while rest >= 10
        invariant
            decimal(n as nat) == decimal(rest as nat) + low@.reverse(),
        decreases rest,
    {
        low.push(digit_of(rest % 10));
        rest = rest / 10;
    }
    let mut s = String::new();
    push_char(&mut s, digit_of(rest));
    let mut i: usize = low.len();
    while i > 0
        invariant
            i <= low.len(),
            s@ == decimal(rest as nat) + low@.reverse().take(low.len() - i),
        decreases i,
    {
        i -= 1;
        push_char(&mut s, low[i]);
    }
    s
}

/// How one text stands to another in the dictionary order.
#[derive(Debug, Clone, Copy, PartialEq, Eq, Structural)]
pub enum Rank {
    Before,
    Same,
    After,
}

/// The dictionary order on texts: the first position at which `a` and `b` differ
/// decides, by the characters' code points; a proper prefix comes before the longer text.
pub open spec fn rank(a: Seq<char>, b: Seq<char>) -> Rank
    decreases a.len(),
{
    if a.len() == 0 {
        if b.len() == 0 {
            Rank::Same
        } else {
            Rank::Before
        }
    } else if b.len() == 0 {
        Rank::After
    } else if a[0] < b[0] {
        Rank::Before
    } else if b[0] < a[0] {
        Rank::After
    } else {
        rank(a.drop_first(), b.drop_first())
    }
}

/// Two texts rank the same exactly when they are equal.
pub proof fn lemma_rank_same(a: Seq<char>, b: Seq<char>)
    ensures
        rank(a, b) == Rank::Same <==> a == b,
    decreases a.len(),
{
    if a.len() > 0 && b.len() > 0 && a[0] == b[0] {
        lemma_rank_same(a.drop_first(), b.drop_first());
        if a.drop_first() == b.drop_first() {
            assert(a =~= seq![a[0]] + a.drop_first());
            assert(b =~= seq![b[0]] + b.drop_first());
        }
    } else if a.len() == 0 && b.len() == 0 {
        assert(a =~= b);
    }
}

/// Swapping the two texts swaps `Before` and `After`.
pub proof fn lemma_rank_mirror(a: Seq<char>, b: Seq<char>)
    ensures
        rank(a, b) == Rank::Before <==> rank(b, a) == Rank::After,
        rank(a, b) == Rank::Same <==> rank(b, a) == Rank::Same,
    decreases a.len(),
{
    if a.len() > 0 && b.len() > 0 && a[0] == b[0] {
        lemma_rank_mirror(a.drop_first(), b.drop_first());
    }
}

/// `Before` is transitive.
pub proof fn lemma_rank_transitive(a: Seq<char>, b: Seq<char>, c: Seq<char>)
    requires
        rank(a, b) == Rank::Before,
        rank(b, c) == Rank::Before,
    ensures
        rank(a, c) == Rank::Before,
    decreases a.len(),
{
    if a.len() > 0 && b.len() > 0 && c.len() > 0 && a[0] == b[0] && b[0] == c[0] {
        lemma_rank_transitive(a.drop_first(), b.drop_first(), c.drop_first());
    }
}

/// How `a` stands to `b` in the dictionary order.
pub fn str_rank(a: &str, b: &str) -> (r: Rank)
    ensures
        r == rank(a@, b@),
{
    broadcast use vstd::string::group_string_axioms;

    let mut rest_a = a.chars();
    let mut rest_b = b.chars();
    let ghost mut n: int = 0;
    assert(a@.skip(0) == a@ && b@.skip(0) == b@);
    loop
        invariant
            rest_a.obeys_prophetic_iter_laws(),
            rest_b.obeys_prophetic_iter_laws(),
            0 <= n <= a@.len(),
            n <= b@.len(),
            rest_a.remaining() == a@.skip(n),
            rest_b.remaining() == b@.skip(n),
            rank(a@, b@) == rank(a@.skip(n), b@.skip(n)),
        decreases a@.len() - n,
    {
        let next_a = rest_a.next();
        let next_b = rest_b.next();
        match (next_a, next_b) {
            (None, None) => {
                return Rank::Same;
            },
            (None, Some(_)) => {
                return Rank::Before;
            },
            (Some(_), None) => {
                return Rank::After;
            },
            (Some(x), Some(y)) => {
                if x < y {
                    return Rank::Before;
                } else if y < x {
                    return Rank::After;
                }
                proof {
                    assert(a@.skip(n).drop_first() == a@.skip(n + 1));
                    assert(b@.skip(n).drop_first() == b@.skip(n + 1));
                    n = n + 1;
                }
            },
        }
    }
}

/// Whether `a` and `b` hold the same characters.
pub fn str_eq(a: &str, b: &str) -> (same: bool)
    ensures
        same == (a@ == b@),
{
    proof {
        lemma_rank_same(a@, b@);
    }
    match str_rank(a, b) {
        Rank::Same => true,
        _ => false,
    }
}

} // verus!
