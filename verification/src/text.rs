//! Messages: decimal numerals and the pieces that a message is made of.

use crate::number::Real;
use vstd::prelude::*;
use vstd::string::StringExecFns;

verus! {

/// One piece of a message.
#[derive(Clone, Debug, PartialEq, Eq)]
pub enum Piece {
    /// Fixed words.
    Text(&'static str),
    /// Words that came from elsewhere.
    Owned(String),
    /// A count.
    Count(usize),
    /// A signed integer.
    Signed(i64),
    /// A number, whose decimal form is supplied when the message is made.
    Number(Real),
}

/// The character of a decimal digit.
pub open spec fn digit(d: int) -> char {
    if d == 0 {
        '0'
    } else if d == 1 {
        '1'
    } else if d == 2 {
        '2'
    } else if d == 3 {
        '3'
    } else if d == 4 {
        '4'
    } else if d == 5 {
        '5'
    } else if d == 6 {
        '6'
    } else if d == 7 {
        '7'
    } else if d == 8 {
        '8'
    } else {
        '9'
    }
}

/// The decimal numeral of a natural number.
pub open spec fn decimal(n: nat) -> Seq<char>
    decreases n,
{
    if n < 10 {
        seq![digit(n as int)]
    } else {
        decimal(n / 10).push(digit((n % 10) as int))
    }
}

/// The decimal numeral of an integer.
pub open spec fn signed_decimal(n: int) -> Seq<char> {
    if n < 0 {
        seq!['-'] + decimal((-n) as nat)
    } else {
        decimal(n as nat)
    }
}

/// The views of a sequence of strings.
pub open spec fn views(strings: Seq<String>) -> Seq<Seq<char>> {
    Seq::new(strings.len(), |i: int| strings[i]@)
}

/// The numbers among the pieces.
pub open spec fn numbers(pieces: Seq<Piece>) -> Seq<Real>
    decreases pieces.len(),
{
    if pieces.len() == 0 {
        Seq::empty()
    } else {
        let rest = numbers(pieces.drop_last());
        match pieces.last() {
            Piece::Number(value) => rest.push(value),
            _ => rest,
        }
    }
}

/// The text of the pieces; the k-th number among them is shown as `shown[k]`.
pub open spec fn rendered(pieces: Seq<Piece>, shown: Seq<Seq<char>>) -> Seq<char>
    decreases pieces.len(),
{
    if pieces.len() == 0 {
        Seq::empty()
    } else {
        let before = pieces.drop_last();
        let head = rendered(before, shown);
        match pieces.last() {
            Piece::Text(words) => head + words@,
            Piece::Owned(words) => head + words@,
            Piece::Count(n) => head + decimal(n as nat),
            Piece::Signed(n) => head + signed_decimal(n as int),
            Piece::Number(_) => head + shown[numbers(before).len() as int],
        }
    }
}

fn append_digit(out: &mut String, d: u64)
    requires
        d < 10,
    ensures
        final(out)@ == old(out)@.push(digit(d as int)),
{
    proof {
        reveal_strlit("0");
        reveal_strlit("1");
        reveal_strlit("2");
        reveal_strlit("3");
        reveal_strlit("4");
        reveal_strlit("5");
        reveal_strlit("6");
        reveal_strlit("7");
        reveal_strlit("8");
        reveal_strlit("9");
    }
    let words = if d == 0 {
        "0"
    } else if d == 1 {
        "1"
    } else if d == 2 {
        "2"
    } else if d == 3 {
        "3"
    } else if d == 4 {
        "4"
    } else if d == 5 {
        "5"
    } else if d == 6 {
        "6"
    } else if d == 7 {
        "7"
    } else if d == 8 {
        "8"
    } else {
        "9"
    };
    assert(words@ =~= seq![digit(d as int)]);
    assert(out@ + words@ =~= out@.push(digit(d as int)));
    out.append(words);
}

/// Appends the decimal numeral of `n`.
pub fn append_decimal(out: &mut String, n: u64)
    ensures
        final(out)@ == old(out)@ + decimal(n as nat),
    decreases n,
{
    if n >= 10 {
        append_decimal(out, n / 10);
    }
    append_digit(out, n % 10);
    assert(out@ =~= old(out)@ + decimal(n as nat));
}

/// Appends the decimal numeral of `n`.
pub fn append_signed(out: &mut String, n: i64)
    ensures
        final(out)@ == old(out)@ + signed_decimal(n as int),
{
    if n < 0 {
        proof {
            reveal_strlit("-");
            assert("-"@ =~= seq!['-']);
        }
        out.append("-");
        if n == i64::MIN {
            append_decimal(out, 9223372036854775808);
        } else {
            append_decimal(out, (-n) as u64);
        }
        assert(out@ =~= old(out)@ + signed_decimal(n as int));
    } else {
        append_decimal(out, n as u64);
    }
}

proof fn numbers_grow(pieces: Seq<Piece>, k: int)
    requires
        0 <= k <= pieces.len(),
    ensures
        numbers(pieces.take(k)).len() <= numbers(pieces).len(),
    decreases pieces.len(),
{
    if k < pieces.len() {
        assert(pieces.drop_last().take(k) =~= pieces.take(k));
        numbers_grow(pieces.drop_last(), k);
    } else {
        assert(pieces.take(k) =~= pieces);
    }
}

/// The numbers among the pieces.
pub fn collect_numbers(pieces: &[Piece]) -> (found: Vec<Real>)
    ensures
        found@ == numbers(pieces@),
{
    let mut found: Vec<Real> = Vec::new();
    let mut k: usize = 0;
    proof {
        assert(pieces@.take(0) =~= Seq::empty());
    }
    while k < pieces.len()
        invariant
            k <= pieces.len(),
            found@ == numbers(pieces@.take(k as int)),
        decreases pieces.len() - k,
    {
        proof {
            assert(pieces@.take(k + 1).drop_last() =~= pieces@.take(k as int));
        }
        match &pieces[k] {
            Piece::Number(value) => {
                found.push(*value);
            },
            _ => {},
        }
        k = k + 1;
    }
    proof {
        assert(pieces@.take(k as int) =~= pieces@);
    }
    found
}

/// The text of the pieces, with the given forms of their numbers.
pub fn message_of(pieces: &[Piece], shown: &[String]) -> (message: String)
    requires
        shown.len() == numbers(pieces@).len(),
    ensures
        message@ == rendered(pieces@, views(shown@)),
{
    let mut out = String::new();
    let mut k: usize = 0;
    let mut used: usize = 0;
    proof {
        assert(pieces@.take(0) =~= Seq::empty());
    }
    while k < pieces.len()
        invariant
            k <= pieces.len(),
            shown.len() == numbers(pieces@).len(),
            used == numbers(pieces@.take(k as int)).len(),
            out@ == rendered(pieces@.take(k as int), views(shown@)),
        decreases pieces.len() - k,
    {
        proof {
            assert(pieces@.take(k + 1).drop_last() =~= pieces@.take(k as int));
            numbers_grow(pieces@, k + 1);
        }
        match &pieces[k] {
            Piece::Text(words) => {
                out.append(words);
            },
            Piece::Owned(words) => {
                out.append(words.as_str());
            },
            Piece::Count(n) => {
                append_decimal(&mut out, *n as u64);
            },
            Piece::Signed(n) => {
                append_signed(&mut out, *n);
            },
            Piece::Number(_) => {
                out.append(shown[used].as_str());
                used = used + 1;
            },
        }
        k = k + 1;
    }
    proof {
        assert(pieces@.take(k as int) =~= pieces@);
    }
    out
}

} // verus!
