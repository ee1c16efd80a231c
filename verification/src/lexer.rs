//! The lexer: splits one definition's right-hand side into
//! whitespace-delimited tokens, classifying each as a keyword, an integer
//! literal, or a free-form symbol reference.

use vstd::prelude::*;
use vstd::string::StrSliceExecFns;
use crate::names::str_eq;

verus! {

/// Mathematical model of a token.
pub enum TokenV {
    Symbol(Seq<char>),
    Int(int),
    ADD,
    AP,
    B,
    C,
    CAR,
    CDR,
    CONS,
    DIV,
    EQ,
    EQUAL,
    I,
    ISNIL,
    LT,
    MUL,
    NEG,
    NIL,
    S,
    T,
}

/// One token of a definition line.
#[derive(Debug, Clone, PartialEq, Eq)]
pub enum Token {
    SYMBOL(String),
    INT(isize),
    ADD,
    AP,
    B,
    C,
    CAR,
    CDR,
    CONS,
    DIV,
    EQ,
    EQUAL,
    I,
    ISNIL,
    LT,
    MUL,
    NEG,
    NIL,
    S,
    T,
}

impl View for Token {
    type V = TokenV;

    open spec fn view(&self) -> TokenV {
        match self {
            Token::SYMBOL(s) => TokenV::Symbol(s@),
            Token::INT(n) => TokenV::Int(*n as int),
            Token::ADD => TokenV::ADD,
            Token::AP => TokenV::AP,
            Token::B => TokenV::B,
            Token::C => TokenV::C,
            Token::CAR => TokenV::CAR,
            Token::CDR => TokenV::CDR,
            Token::CONS => TokenV::CONS,
            Token::DIV => TokenV::DIV,
            Token::EQ => TokenV::EQ,
            Token::EQUAL => TokenV::EQUAL,
            Token::I => TokenV::I,
            Token::ISNIL => TokenV::ISNIL,
            Token::LT => TokenV::LT,
            Token::MUL => TokenV::MUL,
            Token::NEG => TokenV::NEG,
            Token::NIL => TokenV::NIL,
            Token::S => TokenV::S,
            Token::T => TokenV::T,
        }
    }
}

/// The characters on which a line is split into chunks.
pub open spec fn is_ws(c: char) -> bool {
    c == ' ' || c == '\t' || c == '\n' || c == '\r'
}

pub open spec fn is_digit(c: char) -> bool {
    '0' <= c && c <= '9'
}

pub open spec fn digit_val(c: char) -> int {
    c as int - '0' as int
}

/// A non-empty run of decimal digits.
pub open spec fn is_digits(s: Seq<char>) -> bool {
    s.len() > 0 && forall|i: int| 0 <= i < s.len() ==> is_digit(s[i])
}

/// The value of a run of decimal digits.
pub open spec fn dec_val(s: Seq<char>) -> int
    decreases s.len(),
{
    if s.len() == 0 {
        0
    } else {
        dec_val(s.drop_last()) * 10 + digit_val(s.last())
    }
}

/// The integer denoted by a chunk, if the chunk is a well-formed signed
/// decimal literal: an optional sign followed by at least one digit.
pub open spec fn int_lit_val(s: Seq<char>) -> Option<int> {
    if is_digits(s) {
        Some(dec_val(s))
    } else if s.len() > 1 && s[0] == '-' && is_digits(s.skip(1)) {
        Some(-dec_val(s.skip(1)))
    } else if s.len() > 1 && s[0] == '+' && is_digits(s.skip(1)) {
        Some(dec_val(s.skip(1)))
    } else {
        None
    }
}

/// Classification of one whitespace-delimited chunk: first the fixed keyword
/// vocabulary, then signed integer literals that fit the machine word, and
/// everything else as an opaque symbol.
pub open spec fn token_of(s: Seq<char>) -> TokenV {
    if s == "add"@ {
        TokenV::ADD
    } else if s == "ap"@ {
        TokenV::AP
    } else if s == "b"@ {
        TokenV::B
    } else if s == "c"@ {
        TokenV::C
    } else if s == "car"@ {
        TokenV::CAR
    } else if s == "cdr"@ {
        TokenV::CDR
    } else if s == "cons"@ {
        TokenV::CONS
    } else if s == "div"@ {
        TokenV::DIV
    } else if s == "eq"@ {
        TokenV::EQ
    } else if s == "i"@ {
        TokenV::I
    } else if s == "isnil"@ {
        TokenV::ISNIL
    } else if s == "lt"@ {
        TokenV::LT
    } else if s == "mul"@ {
        TokenV::MUL
    } else if s == "neg"@ {
        TokenV::NEG
    } else if s == "nil"@ {
        TokenV::NIL
    } else if s == "s"@ {
        TokenV::S
    } else if s == "t"@ {
        TokenV::T
    } else if s == "="@ {
        TokenV::EQUAL
    } else if int_lit_val(s) is Some && isize::MIN <= int_lit_val(s)->Some_0 <= isize::MAX {
        TokenV::Int(int_lit_val(s)->Some_0)
    } else {
        TokenV::Symbol(s)
    }
}

/// The length of the longest digit-only prefix of `s`.
pub open spec fn digits_prefix_len(s: Seq<char>) -> nat
    decreases s.len(),
{
    if s.len() == 0 || !is_digit(s[0]) {
        0
    } else {
        1 + digits_prefix_len(s.skip(1))
    }
}

/// The length of the longest non-whitespace prefix of `s`.
pub open spec fn chunk_len(s: Seq<char>) -> nat
    decreases s.len(),
{
    if s.len() == 0 || is_ws(s[0]) {
        0
    } else {
        1 + chunk_len(s.skip(1))
    }
}

pub proof fn lemma_chunk_len_le(s: Seq<char>)
    ensures
        chunk_len(s) <= s.len(),
    decreases s.len(),
{
    if s.len() > 0 && !is_ws(s[0]) {
        lemma_chunk_len_le(s.skip(1));
    }
}

/// `s` split at whitespace into its maximal non-empty chunks, in order.
pub open spec fn split_ws(s: Seq<char>) -> Seq<Seq<char>>
    decreases s.len(),
    via split_ws_decreases
{
    if s.len() == 0 {
        seq![]
    } else if is_ws(s[0]) {
        split_ws(s.skip(1))
    } else {
        seq![s.take(chunk_len(s) as int)] + split_ws(s.skip(chunk_len(s) as int))
    }
}

#[via_fn]
proof fn split_ws_decreases(s: Seq<char>) {
    if s.len() > 0 && !is_ws(s[0]) {
        lemma_chunk_len_le(s);
        assert(chunk_len(s) >= 1);
    }
}

/// A chunk runs exactly up to the next whitespace character or the end.
proof fn lemma_chunk_len_range(s: Seq<char>, j: int)
    requires
        0 <= j <= s.len(),
        forall|m: int| 0 <= m < j ==> !is_ws(s[m]),
        j == s.len() || is_ws(s[j]),
    ensures
        chunk_len(s) == j,
    decreases j,
{
    if j == 0 {
    } else {
        assert(!is_ws(s[0]));
        lemma_chunk_len_range(s.skip(1), j - 1);
    }
}

/// The tokens of one line.
pub open spec fn lex_spec(s: Seq<char>) -> Seq<TokenV> {
    split_ws(s).map_values(|c: Seq<char>| token_of(c))
}

/// Classifies one chunk.
fn to_token(s: &str) -> (t: Token)
    ensures
        t@ == token_of(s@),
{
    if str_eq(s, "add") {
        Token::ADD
    } else if str_eq(s, "ap") {
        Token::AP
    } else if str_eq(s, "b") {
        Token::B
    } else if str_eq(s, "c") {
        Token::C
    } else if str_eq(s, "car") {
        Token::CAR
    } else if str_eq(s, "cdr") {
        Token::CDR
    } else if str_eq(s, "cons") {
        Token::CONS
    } else if str_eq(s, "div") {
        Token::DIV
    } else if str_eq(s, "eq") {
        Token::EQ
    } else if str_eq(s, "i") {
        Token::I
    } else if str_eq(s, "isnil") {
        Token::ISNIL
    } else if str_eq(s, "lt") {
        Token::LT
    } else if str_eq(s, "mul") {
        Token::MUL
    } else if str_eq(s, "neg") {
        Token::NEG
    } else if str_eq(s, "nil") {
        Token::NIL
    } else if str_eq(s, "s") {
        Token::S
    } else if str_eq(s, "t") {
        Token::T
    } else if str_eq(s, "=") {
        Token::EQUAL
    } else {
        match parse_isize(s) {
            Some(n) => Token::INT(n),
            None => Token::SYMBOL(String::from_str(s)),
        }
    }
}

/// Reads the digits of `s` from position `from` on, or reports that some
/// character there is not a digit or the digit run is empty or too large.
fn parse_digits(s: &str, from: usize) -> (r: Option<i128>)
    requires
        from <= s@.len(),
    ensures
        match r {
            Some(v) => is_digits(s@.skip(from as int)) && v == dec_val(s@.skip(from as int)) && 0
                <= v <= 0x8000_0000_0000_0000i128,
            None => !(is_digits(s@.skip(from as int)) && dec_val(s@.skip(from as int))
                <= 0x8000_0000_0000_0000i128),
        },
{
    let len = s.unicode_len();
    if from >= len {
        assert(s@.skip(from as int).len() == 0);
        return None;
    }
    let mut acc: i128 = 0;
    let mut i: usize = from;
    let ghost tail = s@.skip(from as int);
    while i < len
        invariant
            from <= i <= len,
            len == s@.len(),
            tail == s@.skip(from as int),
            forall|m: int| 0 <= m < i - from ==> is_digit(tail[m]),
            acc == dec_val(tail.take(i - from)),
            0 <= acc <= 0x8000_0000_0000_0000i128,
        decreases len - i,
    {
        let c = s.get_char(i);
        let cv = c as u32;
        if cv < 48 || cv > 57 {
            assert(!is_digit(tail[i - from]));
            return None;
        }
        assert(is_digit(tail[i - from]));
        if acc > 922337203685477580i128 || (acc == 922337203685477580i128 && cv > 56) {
            proof {
                let k = i + 1 - from;
                assert(tail.take(k).drop_last() =~= tail.take(k - 1));
                assert(tail.take(k).last() == tail[k - 1]);
                assert(dec_val(tail.take(k)) == acc * 10 + digit_val(tail[k - 1]));
                assert(dec_val(tail.take(k)) > 0x8000_0000_0000_0000);
                lemma_dec_val_grows(tail, k);
            }
            return None;
        }
        acc = acc * 10 + ((cv - 48) as i128);
        proof {
            let k = i + 1 - from;
            assert(tail.take(k).drop_last() =~= tail.take(k - 1));
            assert(tail.take(k).last() == tail[k - 1]);
        }
        i = i + 1;
    }
    proof {
        assert(tail.take(tail.len() as int) =~= tail);
    }
    Some(acc)
}

/// Once the accumulated value exceeds the machine bound, reading further
/// digits keeps it above the bound.
proof fn lemma_dec_val_grows(tail: Seq<char>, k: int)
    requires
        0 < k <= tail.len(),
        dec_val(tail.take(k)) > 0x8000_0000_0000_0000,
    ensures
        is_digits(tail) ==> dec_val(tail) > 0x8000_0000_0000_0000,
    decreases tail.len() - k,
{
    if k == tail.len() {
        assert(tail.take(k) =~= tail);
    } else if is_digit(tail[k]) {
        assert(tail.take(k + 1).drop_last() =~= tail.take(k));
        assert(tail.take(k + 1).last() == tail[k]);
        assert(dec_val(tail.take(k + 1)) == dec_val(tail.take(k)) * 10 + digit_val(tail[k]));
        assert(digit_val(tail[k]) >= 0);
        lemma_dec_val_grows(tail, k + 1);
    } else {
        assert(!is_digits(tail));
    }
}

/// Parses a chunk as a signed machine integer, exactly when the chunk is a
/// well-formed literal whose value fits.
fn parse_isize(s: &str) -> (r: Option<isize>)
    ensures
        match r {
            Some(v) => int_lit_val(s@) == Some(v as int) && isize::MIN <= v as int <= isize::MAX,
            None => !(int_lit_val(s@) is Some && isize::MIN <= int_lit_val(s@)->Some_0
                <= isize::MAX),
        },
{
    let len = s.unicode_len();
    if len == 0 {
        return None;
    }
    let c0 = s.get_char(0);
    if c0 == '-' {
        match parse_digits(s, 1) {
            Some(v) => {
                proof {
                    assert(!is_digit('-'));
                    assert(!is_digits(s@));
                }
                if -(v as i128) >= isize::MIN as i128 {
                    Some((-(v as i128)) as isize)
                } else {
                    None
                }
            },
            None => None,
        }
    } else if c0 == '+' {
        match parse_digits(s, 1) {
            Some(v) => {
                proof {
                    assert(!is_digit('+'));
                    assert(!is_digits(s@));
                }
                if v <= isize::MAX as i128 {
                    Some(v as isize)
                } else {
                    None
                }
            },
            None => None,
        }
    } else {
        match parse_digits(s, 0) {
            Some(v) => {
                proof {
                    assert(s@.skip(0) =~= s@);
                }
                if v <= isize::MAX as i128 {
                    Some(v as isize)
                } else {
                    None
                }
            },
            None => {
                proof {
                    assert(s@.skip(0) =~= s@);
                }
                None
            },
        }
    }
}

/// Splits `s` on whitespace and classifies each chunk.
pub fn lex(s: &str) -> (tokens: Vec<Token>)
    ensures
        tokens@.map_values(|t: Token| t@) == lex_spec(s@),
{
    let len = s.unicode_len();
    let mut tokens: Vec<Token> = Vec::new();
    proof {
        assert(s@.skip(0) =~= s@);
        assert(tokens@.map_values(|t: Token| t@) =~= Seq::<TokenV>::empty());
        assert(Seq::<TokenV>::empty() + lex_spec(s@) =~= lex_spec(s@));
    }
    let mut i: usize = 0;
    while i < len
        invariant
            i <= len,
            len == s@.len(),
            tokens@.map_values(|t: Token| t@) + split_ws(s@.skip(i as int)).map_values(
                |c: Seq<char>| token_of(c),
            ) == lex_spec(s@),
        decreases len - i,
    {
        let c = s.get_char(i);
        if c == ' ' || c == '\t' || c == '\n' || c == '\r' {
            proof {
                assert(s@.skip(i as int)[0] == s@[i as int]);
                assert(s@.skip(i as int).skip(1) =~= s@.skip(i + 1));
            }
            i = i + 1;
        } else {
            let ghost rest = s@.skip(i as int);
            let mut j: usize = i + 1;
            while j < len
                invariant_except_break
                    i < j <= len,
                    len == s@.len(),
                    forall|m: int| i <= m < j ==> !is_ws(s@[m]),
                ensures
                    i < j <= len,
                    len == s@.len(),
                    forall|m: int| i <= m < j ==> !is_ws(s@[m]),
                    j == len || is_ws(s@[j as int]),
                decreases len - j,
            {
                let cj = s.get_char(j);
                if cj == ' ' || cj == '\t' || cj == '\n' || cj == '\r' {
                    break ;
                }
                j = j + 1;
            }
            let chunk = s.substring_char(i, j);
            let tok = to_token(chunk);
            proof {
                assert(rest[0] == s@[i as int]);
                assert(forall|m: int| 0 <= m < j - i ==> rest[m] == s@[i + m]);
                if j < len {
                    assert(is_ws(s@[j as int]));
                    assert(rest[j - i] == s@[j as int]);
                }
                lemma_chunk_len_range(rest, j - i);
                assert(rest.take(j - i) =~= s@.subrange(i as int, j as int));
                assert(rest.skip(j - i) =~= s@.skip(j as int));
                assert(split_ws(rest) == seq![rest.take(j - i)] + split_ws(s@.skip(j as int)));
            }
            tokens.push(tok);
            proof {
                let f = |t: Token| t@;
                let g = |c: Seq<char>| token_of(c);
                assert(tokens@.map_values(f) =~= tokens@.drop_last().map_values(f).push(tok@));
                assert((seq![rest.take(j - i)] + split_ws(s@.skip(j as int))).map_values(g) =~= seq![
                    token_of(rest.take(j - i)),
                ] + split_ws(s@.skip(j as int)).map_values(g));
                assert(tokens@.drop_last().map_values(f) + seq![token_of(rest.take(j - i))]
                    + split_ws(s@.skip(j as int)).map_values(g) =~= tokens@.drop_last().map_values(f)
                    + (seq![token_of(rest.take(j - i))] + split_ws(s@.skip(j as int)).map_values(
                    g,
                )));
                assert(tokens@.map_values(f) + split_ws(s@.skip(j as int)).map_values(g)
                    =~= tokens@.drop_last().map_values(f) + (seq![token_of(rest.take(j - i))]
                    + split_ws(s@.skip(j as int)).map_values(g)));
            }
            i = j;
        }
    }
    proof {
        assert(s@.skip(len as int).len() == 0);
        assert(tokens@.map_values(|t: Token| t@) + Seq::<TokenV>::empty() =~= tokens@.map_values(
            |t: Token| t@,
        ));
    }
    tokens
}

} // verus!
