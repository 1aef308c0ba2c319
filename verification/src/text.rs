//! Text utilities over the character view of strings.

use vstd::prelude::*;
use vstd::std_specs::iter::IteratorSpec;
use vstd::string::StringExecFns;
use vstd::string::StrSliceExecFns;

verus! {

/// The characters of a string, in order.
pub fn chars_of(s: &str) -> (v: Vec<char>)
    ensures
        v@ == s@,
{
    let mut v: Vec<char> = Vec::new();
    for c in it: s.chars()
        invariant
            it.seq() == s@,
            v@ == it.seq().take(it.index()),
    {
        v.push(c);
    }
    v
}

/// How one text stands to another in lexicographic order.
#[derive(Clone, Copy, Debug, PartialEq, Eq, Structural)]
pub enum Order {
    Less,
    Equal,
    Greater,
}

/// Lexicographic order of two texts by code point: the order that `str` has.
pub open spec fn text_order(a: Seq<char>, b: Seq<char>) -> Order
    decreases a.len(),
{
    if a.len() == 0 {
        if b.len() == 0 {
            Order::Equal
        } else {
            Order::Less
        }
    } else if b.len() == 0 {
        Order::Greater
    } else if a[0] < b[0] {
        Order::Less
    } else if a[0] > b[0] {
        Order::Greater
    } else {
        text_order(a.drop_first(), b.drop_first())
    }
}

/// Two texts compare as equal exactly when they are the same text.
pub proof fn lemma_text_order_equal(a: Seq<char>, b: Seq<char>)
    ensures
        text_order(a, b) == Order::Equal <==> a == b,
    decreases a.len(),
{
    if a.len() > 0 && b.len() > 0 {
        lemma_text_order_equal(a.drop_first(), b.drop_first());
        if a[0] == b[0] && a.drop_first() == b.drop_first() {
            assert(a =~= seq![a[0]] + a.drop_first());
            assert(b =~= seq![b[0]] + b.drop_first());
        }
    } else if a.len() == 0 && b.len() == 0 {
        assert(a =~= b);
    }
}

/// Swapping the two texts swaps `Less` and `Greater`.
pub proof fn lemma_text_order_flip(a: Seq<char>, b: Seq<char>)
    ensures
        text_order(a, b) == Order::Less <==> text_order(b, a) == Order::Greater,
        text_order(a, b) == Order::Equal <==> text_order(b, a) == Order::Equal,
    decreases a.len(),
{
    if a.len() > 0 && b.len() > 0 {
        lemma_text_order_flip(a.drop_first(), b.drop_first());
    }
}

/// `Less` is transitive, also through `Equal`.
pub proof fn lemma_text_order_transitive(a: Seq<char>, b: Seq<char>, c: Seq<char>)
    requires
        text_order(a, b) == Order::Less,
        text_order(b, c) != Order::Greater,
    ensures
        text_order(a, c) == Order::Less,
    decreases a.len(),
{
    if a.len() > 0 && b.len() > 0 && c.len() > 0 {
        if a[0] == b[0] && b[0] == c[0] {
            lemma_text_order_transitive(a.drop_first(), b.drop_first(), c.drop_first());
        }
    }
}

/// Compares two strings in lexicographic order.
pub fn compare_text(a: &str, b: &str) -> (r: Order)
    ensures
        r == text_order(a@, b@),
{
    let mut left = a.chars();
    let mut right = b.chars();
    loop
        invariant
            text_order(a@, b@) == text_order(left.remaining(), right.remaining()),
            left.decrease() is Some,
        decreases left.decrease()->0,
    {
        let x = left.next();
        let y = right.next();
        match (x, y) {
            (None, None) => {
                return Order::Equal;
            },
            (None, Some(_)) => {
                return Order::Less;
            },
            (Some(_), None) => {
                return Order::Greater;
            },
            (Some(p), Some(q)) => {
                if p < q {
                    return Order::Less;
                }
                if p > q {
                    return Order::Greater;
                }
            },
        }
    }
}

/// Whether two strings hold the same text.
pub fn same_text(a: &str, b: &str) -> (r: bool)
    ensures
        r == (a@ == b@),
{
    proof {
        lemma_text_order_equal(a@, b@);
    }
    match compare_text(a, b) {
        Order::Equal => true,
        _ => false,
    }
}

/// A prefix relation steps through the first characters.
proof fn lemma_prefix_step(a: Seq<char>, b: Seq<char>)
    requires
        a.len() > 0,
        b.len() > 0,
    ensures
        a.is_prefix_of(b) <==> (a[0] == b[0] && a.drop_first().is_prefix_of(b.drop_first())),
{
    if a.is_prefix_of(b) {
        assert(a[0] == b.subrange(0, a.len() as int)[0]);
        assert(a.drop_first() =~= b.drop_first().subrange(0, a.len() - 1));
    }
    if a[0] == b[0] && a.drop_first().is_prefix_of(b.drop_first()) {
        assert forall|i: int| 0 <= i < a.len() implies a[i] == b[i] by {
            if i > 0 {
                assert(a.drop_first()[i - 1] == b.drop_first().subrange(0, a.len() - 1)[i - 1]);
            }
        }
        assert(a =~= b.subrange(0, a.len() as int));
    }
}

/// Whether `full` begins with `prefix`.
pub fn has_prefix(full: &str, prefix: &str) -> (r: bool)
    ensures
        r == prefix@.is_prefix_of(full@),
{
    let mut left = full.chars();
    let mut right = prefix.chars();
    loop
        invariant
            prefix@.is_prefix_of(full@) == right.remaining().is_prefix_of(left.remaining()),
            right.decrease() is Some,
        decreases right.decrease()->0,
    {
        let ghost rest_full = left.remaining();
        let ghost rest_prefix = right.remaining();
        let y = right.next();
        match y {
            None => {
                assert(rest_prefix =~= rest_full.subrange(0, 0));
                return true;
            },
            Some(q) => {
                let x = left.next();
                match x {
                    None => {
                        return false;
                    },
                    Some(p) => {
                        proof {
                            lemma_prefix_step(rest_prefix, rest_full);
                        }
                        if p != q {
                            return false;
                        }
                    },
                }
            },
        }
    }
}

/// `full` without the leading `root`, or `full` itself where it does not
/// begin with `root`.
pub open spec fn without_prefix(full: Seq<char>, root: Seq<char>) -> Seq<char> {
    if root.is_prefix_of(full) {
        full.skip(root.len() as int)
    } else {
        full
    }
}

/// Removes the leading `root` from `full`; a `full` that does not begin with
/// `root` comes back unchanged.
pub fn strip_prefix(full: &str, root: &str) -> (r: String)
    ensures
        r@ == without_prefix(full@, root@),
{
    if has_prefix(full, root) {
        let from = root.unicode_len();
        let to = full.unicode_len();
        let rest = full.substring_char(from, to);
        assert(rest@ =~= full@.skip(root@.len() as int));
        rest.to_owned()
    } else {
        full.to_owned()
    }
}

/// The parts, each two neighbours separated by `separator`.
pub open spec fn joined(parts: Seq<Seq<char>>, separator: Seq<char>) -> Seq<char>
    decreases parts.len(),
{
    if parts.len() == 0 {
        Seq::empty()
    } else if parts.len() == 1 {
        parts[0]
    } else {
        joined(parts.drop_last(), separator) + separator + parts.last()
    }
}

/// The texts that a vector of strings holds.
pub open spec fn texts(parts: Seq<String>) -> Seq<Seq<char>> {
    Seq::new(parts.len(), |i: int| parts[i]@)
}

/// Joins strings with a separator between each two neighbours.
pub fn join(parts: &Vec<String>, separator: &str) -> (r: String)
    ensures
        r@ == joined(texts(parts@), separator@),
{
    let mut out = String::new();
    let mut i: usize = 0;
    while i < parts.len()
        invariant
            i <= parts.len(),
            out@ == joined(texts(parts@).take(i as int), separator@),
        decreases parts.len() - i,
    {
        let ghost before = texts(parts@).take(i as int);
        let ghost after = texts(parts@).take(i + 1);
        assert(after.drop_last() =~= before);
        assert(after.last() == parts@[i as int]@);
        if i > 0 {
            out.append(separator);
        } else {
            assert(out@ + parts@[i as int]@ =~= parts@[i as int]@);
        }
        out.append(parts[i].as_str());
        i = i + 1;
    }
    assert(texts(parts@).take(parts.len() as int) =~= texts(parts@));
    out
}

/// The pieces of a text between the occurrences of a separator: one piece
/// more than there are separators.
pub open spec fn split_on(s: Seq<char>, separator: char) -> Seq<Seq<char>>
    decreases s.len(),
{
    if s.len() == 0 {
        seq![Seq::empty()]
    } else {
        let before = split_on(s.drop_last(), separator);
        if s.last() == separator {
            before.push(Seq::empty())
        } else {
            before.drop_last().push(before.last().push(s.last()))
        }
    }
}

/// Splits a string at each occurrence of a separator.
pub fn split(s: &str, separator: char) -> (r: Vec<String>)
    ensures
        texts(r@) == split_on(s@, separator),
{
    let chars = chars_of(s);
    let mut pieces: Vec<String> = Vec::new();
    let mut start: usize = 0;
    let mut i: usize = 0;
    assert(s@.take(0) =~= Seq::<char>::empty());
    assert(texts(pieces@).push(s@.subrange(0, 0)) =~= seq![Seq::<char>::empty()]);
    while i < chars.len()
        invariant
            chars@ == s@,
            start <= i <= chars.len(),
            split_on(s@.take(i as int), separator) == texts(pieces@).push(
                s@.subrange(start as int, i as int),
            ),
        decreases chars.len() - i,
    {
        let ghost before = split_on(s@.take(i as int), separator);
        let ghost done = texts(pieces@);
        proof {
            assert(s@.take(i + 1).drop_last() =~= s@.take(i as int));
            assert(s@.take(i + 1).last() == s@[i as int]);
        }
        if chars[i] == separator {
            let ghost piece = s@.subrange(start as int, i as int);
            pieces.push(s.substring_char(start, i).to_owned());
            start = i + 1;
            proof {
                assert(texts(pieces@) =~= done.push(piece));
                assert(s@.subrange(i + 1, i + 1) =~= Seq::<char>::empty());
            }
        } else {
            proof {
                assert(before.drop_last() =~= done);
                assert(s@.subrange(start as int, i + 1) =~= s@.subrange(start as int, i as int).push(
                    s@[i as int],
                ));
            }
        }
        i = i + 1;
    }
    pieces.push(s.substring_char(start, i).to_owned());
    assert(s@.take(i as int) =~= s@);
    assert(texts(pieces@) =~= split_on(s@, separator));
    pieces
}

/// The character of a decimal digit.
pub open spec fn digit_char(d: nat) -> char {
    if d == 0 {
        '0'
    } else if d == 1 {
        '1'
    } else if d == 2 {
        '2'
    } else if d == 3 {
        '3'
    } else if d == 4 {
        '4'
    } else if d == 5 {
        '5'
    } else if d == 6 {
        '6'
    } else if d == 7 {
        '7'
    } else if d == 8 {
        '8'
    } else {
        '9'
    }
}

/// The decimal numeral of `n`, without leading zeros.
pub open spec fn numeral(n: nat) -> Seq<char>
    decreases n,
{
    if n < 10 {
        seq![digit_char(n)]
    } else {
        numeral(n / 10).push(digit_char(n % 10))
    }
}

fn digit_str(d: usize) -> (r: &'static str)
    requires
        d < 10,
    ensures
        r@ == seq![digit_char(d as nat)],
{
    proof {
        reveal_strlit("0");
        reveal_strlit("1");
        reveal_strlit("2");
        reveal_strlit("3");
        reveal_strlit("4");
        reveal_strlit("5");
        reveal_strlit("6");
        reveal_strlit("7");
        reveal_strlit("8");
        reveal_strlit("9");
    }
    let r = if d == 0 {
        "0"
    } else if d == 1 {
        "1"
    } else if d == 2 {
        "2"
    } else if d == 3 {
        "3"
    } else if d == 4 {
        "4"
    } else if d == 5 {
        "5"
    } else if d == 6 {
        "6"
    } else if d == 7 {
        "7"
    } else if d == 8 {
        "8"
    } else {
        "9"
    };
    assert(r@ =~= seq![digit_char(d as nat)]);
    r
}

/// Writes a number as its decimal numeral.
pub fn to_numeral(n: usize) -> (r: String)
    ensures
        r@ == numeral(n as nat),
    decreases n,
{
    if n < 10 {
        digit_str(n).to_owned()
    } else {
        let mut out = to_numeral(n / 10);
        out.append(digit_str(n % 10));
        assert(out@ =~= numeral((n / 10) as nat).push(digit_char((n % 10) as nat)));
        out
    }
}

} // verus!
