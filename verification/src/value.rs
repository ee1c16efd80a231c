//! The linear data values exchanged with the game server, and the signal
//! modulation that turns them into bit strings and back.

use vstd::prelude::*;
use vstd::string::{StrSliceExecFns, StringExecFns};

verus! {

/// Mathematical model of a data value.
pub enum ValV {
    Int(int),
    Nil,
    Cons(Box<ValV>, Box<ValV>),
}

/// A data value: an integer, the empty list, or a pair.
#[derive(Debug)]
pub enum Value {
    Int(i128),
    Nil,
    Cons(Box<Value>, Box<Value>),
}

pub open spec fn view_val(v: Value) -> ValV
    decreases v,
{
    match v {
        Value::Int(n) => ValV::Int(n as int),
        Value::Nil => ValV::Nil,
        Value::Cons(h, t) => ValV::Cons(Box::new(view_val(*h)), Box::new(view_val(*t))),
    }
}

impl View for Value {
    type V = ValV;

    open spec fn view(&self) -> ValV {
        view_val(*self)
    }
}

impl Clone for Value {
    fn clone(&self) -> (r: Self)
        ensures
            r@ == self@,
        decreases self,
    {
        match self {
            Value::Int(n) => Value::Int(*n),
            Value::Nil => Value::Nil,
            Value::Cons(h, t) => Value::Cons(Box::new((**h).clone()), Box::new((**t).clone())),
        }
    }
}

/// Every integer in the value fits the modulation's 64-bit magnitude.
pub open spec fn val_in_range(v: ValV) -> bool
    decreases v,
{
    match v {
        ValV::Int(n) => -(u64::MAX as int) <= n <= u64::MAX as int,
        ValV::Nil => true,
        ValV::Cons(h, t) => val_in_range(*h) && val_in_range(*t),
    }
}

/// The number of binary digits of `n`.
pub open spec fn bit_len(n: nat) -> nat
    decreases n,
{
    if n == 0 {
        0
    } else {
        (1 + bit_len(n / 2)) as nat
    }
}

/// The number of four-bit groups the modulation uses for magnitude `n`.
pub open spec fn nibble_count(n: nat) -> nat {
    (bit_len(n) + 3) / 4
}

/// The `w`-bit big-endian encoding of `n`.
pub open spec fn int_bits(n: nat, w: nat) -> Seq<bool>
    decreases w,
{
    if w == 0 {
        Seq::empty()
    } else {
        int_bits(n / 2, (w - 1) as nat).push(n % 2 == 1)
    }
}

pub open spec fn ones(t: nat) -> Seq<bool> {
    Seq::new(t, |i: int| true)
}

/// The modulation of an integer: a two-bit sign, the magnitude's group count
/// in unary, a separator, and the magnitude itself.
pub open spec fn mod_int_bits(n: int) -> Seq<bool> {
    let sign: Seq<bool> = if n >= 0 {
        seq![false, true]
    } else {
        seq![true, false]
    };
    let mag = if n >= 0 {
        n as nat
    } else {
        (-n) as nat
    };
    let t = nibble_count(mag);
    sign + ones(t) + seq![false] + int_bits(mag, 4 * t)
}

/// The modulation of a value: `00` for nil, `11` before the two halves of a
/// pair, and the integer encoding otherwise.
pub open spec fn mod_bits(v: ValV) -> Seq<bool>
    decreases v,
{
    match v {
        ValV::Int(n) => mod_int_bits(n),
        ValV::Nil => seq![false, false],
        ValV::Cons(h, t) => seq![true, true] + mod_bits(*h) + mod_bits(*t),
    }
}

/// Powers of two.
pub open spec fn p2(w: nat) -> nat
    decreases w,
{
    if w == 0 {
        1
    } else {
        2 * p2((w - 1) as nat)
    }
}

/// A number below `2^k` has at most `k` binary digits.
proof fn lemma_bit_len_le(n: nat, k: nat)
    requires
        n < p2(k),
    ensures
        bit_len(n) <= k,
    decreases k,
{
    if n > 0 {
        if k == 0 {
        } else {
            lemma_bit_len_le(n / 2, (k - 1) as nat);
        }
    }
}

proof fn lemma_p2_64()
    ensures
        p2(64) == 0x1_0000_0000_0000_0000,
{
    reveal_with_fuel(p2, 65);
}

#[verifier::loop_isolation(false)]
fn bit_len_exec(n: u64) -> (r: u64)
    ensures
        r as nat == bit_len(n as nat),
        r <= 64,
{
    proof {
        lemma_p2_64();
        lemma_bit_len_le(n as nat, 64);
    }
    let mut m: u64 = n;
    let mut c: u64 = 0;
    while m > 0
        invariant
            bit_len(n as nat) == c + bit_len(m as nat),
        decreases m,
    {
        proof {
            assert(bit_len(m as nat) >= 1);
        }
        c = c + 1;
        m = m / 2;
    }
    c
}

/// Appends the modulation of `val` to `v`.
pub fn modulate(val: &Value, v: &mut Vec<bool>)
    requires
        val_in_range(val@),
    ensures
        final(v)@ == old(v)@ + mod_bits(val@),
    decreases val,
{
    let ghost v0 = v@;
    match val {
        Value::Int(n0) => {
            let n: u64 = if *n0 >= 0 {
                v.push(false);
                v.push(true);
                *n0 as u64
            } else {
                v.push(true);
                v.push(false);
                (-*n0) as u64
            };
            let ghost sign_done = v@;
            let keta = bit_len_exec(n);
            let t = (keta + 3) / 4;
            proof {
                assert(t <= 17);
            }
            let mut k: u64 = 0;
            while k < t
                invariant
                    k <= t,
                    v@ == sign_done + ones(k as nat),
                decreases t - k,
            {
                v.push(true);
                proof {
                    assert(v@ =~= sign_done + ones((k + 1) as nat));
                }
                k = k + 1;
            }
            v.push(false);
            let ghost mid_done = v@;
            // collect the magnitude bits, least significant first
            let mut tmp: Vec<bool> = Vec::new();
            let mut m: u64 = n;
            let mut j: u64 = 0;
            proof {
                assert(int_bits(n as nat, (4 * t) as nat) + tmp@.reverse() =~= int_bits(
                    n as nat,
                    (4 * t) as nat,
                ));
            }
            while j < 4 * t
                invariant
                    j <= 4 * t,
                    t <= 17,
                    tmp@.len() == j,
                    int_bits(n as nat, (4 * t) as nat) == int_bits(
                        m as nat,
                        ((4 * t) - j) as nat,
                    ) + tmp@.reverse(),
                decreases 4 * t - j,
            {
                let ghost tmp0 = tmp@;
                let b = m % 2 == 1;
                tmp.push(b);
                proof {
                    assert(tmp@.reverse() =~= seq![b] + tmp0.reverse());
                    let w = ((4 * t) - j) as nat;
                    assert(int_bits(m as nat, w) == int_bits((m / 2) as nat, (w - 1) as nat).push(
                        m % 2 == 1,
                    ));
                    assert(int_bits((m / 2) as nat, (w - 1) as nat).push(b) + tmp0.reverse()
                        =~= int_bits((m / 2) as nat, (w - 1) as nat) + (seq![b] + tmp0.reverse()));
                }
                m = m / 2;
                j = j + 1;
            }
            proof {
                assert(int_bits(m as nat, 0) =~= Seq::<bool>::empty());
                assert(Seq::<bool>::empty() + tmp@.reverse() =~= tmp@.reverse());
            }
            // write them out, most significant first
            let mut i: usize = tmp.len();
            while i > 0
                invariant
                    i <= tmp@.len(),
                    v@ == mid_done + tmp@.reverse().take(tmp@.len() - i),
                decreases i,
            {
                i = i - 1;
                v.push(tmp[i]);
                proof {
                    let rev = tmp@.reverse();
                    assert(rev[tmp@.len() - i - 1] == tmp@[i as int]);
                    assert(v@ =~= mid_done + rev.take(tmp@.len() - i));
                }
            }
            proof {
                assert(tmp@.reverse().take(tmp@.len() as int) =~= tmp@.reverse());
                let magn = if n0 >= 0 {
                    (n0 as int) as nat
                } else {
                    (-(n0 as int)) as nat
                };
                assert(magn == n as nat);
                assert(v@ =~= v0 + mod_int_bits(n0 as int));
            }
        },
        Value::Nil => {
            v.push(false);
            v.push(false);
            proof {
                assert(v@ =~= v0 + seq![false, false]);
            }
        },
        Value::Cons(hd, tl) => {
            v.push(true);
            v.push(true);
            modulate(hd, v);
            modulate(tl, v);
            proof {
                assert(v@ =~= v0 + (seq![true, true] + mod_bits(hd@) + mod_bits(tl@)));
            }
        },
    }
}

/// The length of the run of set bits starting at `j`.
pub open spec fn ones_run(bits: Seq<bool>, j: int) -> nat
    decreases bits.len() - j,
{
    if j < 0 || j >= bits.len() || !bits[j] {
        0
    } else {
        (1 + ones_run(bits, j + 1)) as nat
    }
}

/// The value of the `w` bits starting at `j`, most significant first.
pub open spec fn bits_val(bits: Seq<bool>, j: int, w: nat) -> nat
    decreases w,
{
    if w == 0 {
        0
    } else {
        (2 * bits_val(bits, j, (w - 1) as nat) + (if bits[j + w - 1] {
            1nat
        } else {
            0nat
        })) as nat
    }
}

/// Demodulation from position `i`: the decoded value and the position after
/// it, or nothing for a truncated or oversized signal.
pub open spec fn demod_at(bits: Seq<bool>, i: int, fuel: nat) -> Option<(ValV, int)>
    decreases fuel,
{
    if fuel == 0 {
        None
    } else if i < 0 || i + 2 > bits.len() {
        None
    } else {
        let t0 = bits[i];
        let t1 = bits[i + 1];
        if !t0 && !t1 {
            Some((ValV::Nil, i + 2))
        } else if t0 && t1 {
            match demod_at(bits, i + 2, (fuel - 1) as nat) {
                Some((x, j)) => match demod_at(bits, j, (fuel - 1) as nat) {
                    Some((y, k)) => Some((ValV::Cons(Box::new(x), Box::new(y)), k)),
                    None => None,
                },
                None => None,
            }
        } else {
            let t = ones_run(bits, i + 2);
            if i + 2 + t + 1 + 4 * t > bits.len() {
                None
            } else if t > 31 {
                None
            } else {
                let mag = bits_val(bits, i + 3 + t, 4 * t);
                Some((ValV::Int(if t1 {
                    mag as int
                } else {
                    -(mag as int)
                }), i + 3 + t + 4 * t))
            }
        }
    }
}

/// The fuel that always suffices from position `i`.
pub open spec fn dfuel(bits: Seq<bool>, i: int) -> nat {
    (bits.len() - i + 1) as nat
}

/// A successful decode advances at least two positions.
pub proof fn lemma_demod_advances(bits: Seq<bool>, i: int, fuel: nat)
    ensures
        demod_at(bits, i, fuel) matches Some((v, j)) ==> i + 2 <= j <= bits.len(),
    decreases fuel,
{
    if fuel > 0 && 0 <= i && i + 2 <= bits.len() {
        lemma_demod_advances(bits, i + 2, (fuel - 1) as nat);
        match demod_at(bits, i + 2, (fuel - 1) as nat) {
            Some((x, j)) => {
                lemma_demod_advances(bits, j, (fuel - 1) as nat);
            },
            None => {},
        }
        let t = ones_run(bits, i + 2);
        lemma_ones_run_le(bits, i + 2);
    }
}

proof fn lemma_ones_run_le(bits: Seq<bool>, j: int)
    requires
        0 <= j <= bits.len(),
    ensures
        j + ones_run(bits, j) <= bits.len(),
    decreases bits.len() - j,
{
    if j < bits.len() && bits[j] {
        lemma_ones_run_le(bits, j + 1);
    }
}

/// Above the canonical bound, the amount of fuel does not matter.
pub proof fn lemma_demod_fuel(bits: Seq<bool>, i: int, f1: nat, f2: nat)
    requires
        f1 >= bits.len() - i + 1,
        f2 >= bits.len() - i + 1,
        0 <= i,
    ensures
        demod_at(bits, i, f1) == demod_at(bits, i, f2),
    decreases f1 + f2,
{
    if f1 > 0 && f2 > 0 && i + 2 <= bits.len() {
        lemma_demod_fuel(bits, i + 2, (f1 - 1) as nat, (f2 - 1) as nat);
        match demod_at(bits, i + 2, (f1 - 1) as nat) {
            Some((x, j)) => {
                lemma_demod_advances(bits, i + 2, (f1 - 1) as nat);
                lemma_demod_fuel(bits, j, (f1 - 1) as nat, (f2 - 1) as nat);
            },
            None => {},
        }
    }
}

#[verifier::loop_isolation(false)]
fn ones_run_exec(bits: &Vec<bool>, j: usize) -> (r: usize)
    requires
        j <= bits@.len(),
    ensures
        r as nat == ones_run(bits@, j as int),
        j + r <= bits@.len(),
{
    let mut k = j;
    while k < bits.len() && bits[k]
        invariant
            j <= k <= bits@.len(),
            ones_run(bits@, j as int) == (k - j) + ones_run(bits@, k as int),
        decreases bits@.len() - k,
    {
        k = k + 1;
    }
    k - j
}

/// Decodes one value from `bits` at `pos`, advancing `pos` past it.
#[verifier::loop_isolation(false)]
pub fn demodulate(bits: &Vec<bool>, pos: &mut usize) -> (r: Option<Value>)
    requires
        *old(pos) <= bits@.len(),
    ensures
        *final(pos) <= bits@.len(),
        r is Some ==> *old(pos) < *final(pos),
        match r {
            Some(v) => demod_at(bits@, *old(pos) as int, dfuel(bits@, *old(pos) as int)) == Some(
                (v@, *final(pos) as int),
            ),
            None => demod_at(bits@, *old(pos) as int, dfuel(bits@, *old(pos) as int)) is None,
        },
    decreases bits@.len() - *old(pos),
{
    let ghost i0 = *pos as int;
    let ghost fuel = dfuel(bits@, i0);
    if bits.len() - *pos < 2 {
        return None;
    }
    let t0 = bits[*pos];
    let t1 = bits[*pos + 1];
    if !t0 && !t1 {
        *pos = *pos + 2;
        return Some(Value::Nil);
    }
    if t0 && t1 {
        *pos = *pos + 2;
        let x = match demodulate(bits, pos) {
            Some(x) => x,
            None => {
                proof {
                    lemma_demod_fuel(bits@, i0 + 2, dfuel(bits@, i0 + 2), (fuel - 1) as nat);
                }
                return None;
            },
        };
        proof {
            lemma_demod_fuel(bits@, i0 + 2, dfuel(bits@, i0 + 2), (fuel - 1) as nat);
        }
        let ghost j = *pos as int;
        let y = match demodulate(bits, pos) {
            Some(y) => y,
            None => {
                proof {
                    lemma_demod_fuel(bits@, j, dfuel(bits@, j), (fuel - 1) as nat);
                }
                return None;
            },
        };
        proof {
            lemma_demod_fuel(bits@, j, dfuel(bits@, j), (fuel - 1) as nat);
        }
        return Some(Value::Cons(Box::new(x), Box::new(y)));
    }
    // integer
    let t = ones_run_exec(bits, *pos + 2);
    if t > 31 {
        proof {
            lemma_ones_run_le(bits@, i0 + 2);
        }
        return None;
    }
    if bits.len() - (*pos + 2 + t) < 1 + 4 * t {
        return None;
    }
    let start = *pos + 3 + t;
    let mut acc: i128 = 0;
    let mut w: usize = 0;
    while w < 4 * t
        invariant
            w <= 4 * t,
            t <= 31,
            start == i0 + 3 + t,
            start + 4 * t <= bits@.len(),
            0 <= acc,
            acc as nat == bits_val(bits@, start as int, w as nat),
            acc < 0x1000_0000_0000_0000_0000_0000_0000_0000i128,
        decreases 4 * t - w,
    {
        proof {
            lemma_bits_val_bound(bits@, start as int, w as nat);
        }
        acc = acc * 2 + (if bits[start + w] {
            1i128
        } else {
            0i128
        });
        w = w + 1;
        proof {
            lemma_bits_val_bound(bits@, start as int, w as nat);
        }
    }
    *pos = start + 4 * t;
    Some(Value::Int(if t1 {
        acc
    } else {
        -acc
    }))
}

/// A `w`-bit value is below `2^w`.
proof fn lemma_bits_val_p2(bits: Seq<bool>, j: int, w: nat)
    ensures
        bits_val(bits, j, w) < p2(w),
    decreases w,
{
    if w > 0 {
        lemma_bits_val_p2(bits, j, (w - 1) as nat);
    }
}

proof fn lemma_p2_le(a: nat, b: nat)
    requires
        a <= b,
    ensures
        p2(a) <= p2(b),
    decreases b,
{
    if a < b {
        lemma_p2_le(a, (b - 1) as nat);
        assert(p2((b - 1) as nat) >= 1) by {
            lemma_p2_pos((b - 1) as nat);
        }
    }
}

proof fn lemma_p2_pos(a: nat)
    ensures
        p2(a) >= 1,
    decreases a,
{
    if a > 0 {
        lemma_p2_pos((a - 1) as nat);
    }
}

proof fn lemma_p2_add(a: nat, b: nat)
    ensures
        p2((a + b) as nat) == p2(a) * p2(b),
    decreases b,
{
    if b == 0 {
        assert(p2((a + 0) as nat) == p2(a) * 1);
    } else {
        lemma_p2_add(a, (b - 1) as nat);
        let x = p2(a);
        let y = p2((b - 1) as nat);
        assert(p2((a + b) as nat) == 2 * p2((a + b - 1) as nat));
        assert(p2((a + b - 1) as nat) == x * y);
        assert(2 * (x * y) == x * (2 * y)) by (nonlinear_arith);
        assert(p2(b) == 2 * y);
        assert(p2((a + b) as nat) == x * p2(b));
    }
}

proof fn lemma_p2_124()
    ensures
        p2(124) == 0x1000_0000_0000_0000_0000_0000_0000_0000,
{
    assert(p2(31) == 0x8000_0000) by {
        reveal_with_fuel(p2, 32);
    }
    lemma_p2_add(31, 31);
    assert(p2(62) == 0x4000_0000_0000_0000);
    lemma_p2_add(62, 62);
}

/// Enough to know that at most 124 bits fit the machine integer.
proof fn lemma_bits_val_bound(bits: Seq<bool>, j: int, w: nat)
    requires
        w <= 124,
    ensures
        bits_val(bits, j, w) < 0x1000_0000_0000_0000_0000_0000_0000_0000nat,
{
    lemma_bits_val_p2(bits, j, w);
    lemma_p2_le(w, 124);
    lemma_p2_124();
}

/// The modulation of a value as a string of `0` and `1` characters.
pub fn modulate_to_string(val: &Value) -> (r: String)
    requires
        val_in_range(val@),
    ensures
        r@ == bits_text(mod_bits(val@)),
{
    let mut v: Vec<bool> = Vec::new();
    modulate(val, &mut v);
    proof {
        assert(Seq::<bool>::empty() + mod_bits(val@) =~= mod_bits(val@));
    }
    bits_to_text(&v)
}

/// Each bit as a character.
pub open spec fn bits_text(bits: Seq<bool>) -> Seq<char> {
    bits.map_values(
        |b: bool|
            if b {
                '1'
            } else {
                '0'
            },
    )
}

fn bits_to_text(v: &Vec<bool>) -> (r: String)
    ensures
        r@ == bits_text(v@),
{
    let mut out = String::new();
    let mut i: usize = 0;
    proof {
        assert(out@ =~= bits_text(v@).take(0));
    }
    while i < v.len()
        invariant
            i <= v@.len(),
            out@ == bits_text(v@).take(i as int),
        decreases v@.len() - i,
    {
        if v[i] {
            out.append("1");
        } else {
            out.append("0");
        }
        proof {
            reveal_strlit("0");
            reveal_strlit("1");
            assert(bits_text(v@)[i as int] == (if v@[i as int] {
                '1'
            } else {
                '0'
            }));
            assert(out@ =~= bits_text(v@).take(i + 1));
        }
        i = i + 1;
    }
    proof {
        assert(bits_text(v@).take(v@.len() as int) =~= bits_text(v@));
    }
    out
}

/// The characters of a signal string as bits: `1` is set, anything else
/// clear.
pub open spec fn text_bits(s: Seq<char>) -> Seq<bool> {
    s.map_values(|c: char| c == '1')
}

/// Decodes a whole signal string; anything other than `1` counts as a clear
/// bit, as when reading a trailing newline.
pub fn demodulate_from_string(s: &str) -> (r: Option<Value>)
    ensures
        match r {
            Some(v) => demod_at(text_bits(s@), 0, dfuel(text_bits(s@), 0)) matches Some((vv, j))
                && vv == v@,
            None => demod_at(text_bits(s@), 0, dfuel(text_bits(s@), 0)) is None,
        },
{
    let len = s.unicode_len();
    let mut bits: Vec<bool> = Vec::new();
    let mut i: usize = 0;
    proof {
        assert(bits@ =~= text_bits(s@).take(0));
    }
    while i < len
        invariant
            i <= len,
            len == s@.len(),
            bits@ == text_bits(s@).take(i as int),
        decreases len - i,
    {
        let c = s.get_char(i);
        bits.push(c == '1');
        proof {
            assert(text_bits(s@)[i as int] == (s@[i as int] == '1'));
            assert(bits@ =~= text_bits(s@).take(i + 1));
        }
        i = i + 1;
    }
    proof {
        assert(text_bits(s@).take(s@.len() as int) =~= text_bits(s@));
    }
    let mut pos: usize = 0;
    demodulate(&bits, &mut pos)
}

/// Whether a value is a well-formed list: a chain of pairs ending in nil.
pub open spec fn is_list_val(v: ValV) -> bool
    decreases v,
{
    match v {
        ValV::Int(_) => false,
        ValV::Nil => true,
        ValV::Cons(_, t) => is_list_val(*t),
    }
}

fn is_list(val: &Value) -> (r: bool)
    ensures
        r == is_list_val(val@),
    decreases val,
{
    match val {
        Value::Int(_) => false,
        Value::Nil => true,
        Value::Cons(_, cdr) => is_list(cdr),
    }
}

/// The elements of a list-shaped value.
pub open spec fn list_elems(v: ValV) -> Seq<ValV>
    decreases v,
{
    match v {
        ValV::Cons(h, t) => seq![*h] + list_elems(*t),
        _ => Seq::empty(),
    }
}

/// The printed form of the elements of a list, separated by spaces.
pub open spec fn list_text(v: ValV) -> Seq<char>
    decreases v, 0int,
{
    match v {
        ValV::Cons(h, t) => if *t is Nil {
            val_text(*h)
        } else {
            val_text(*h) + " "@ + list_text(*t)
        },
        _ => Seq::empty(),
    }
}

/// The printed form of a value: integers in decimal, `nil`, lists between
/// parentheses with spaces, and other pairs in dotted form.
pub open spec fn val_text(v: ValV) -> Seq<char>
    decreases v, 1int,
{
    match v {
        ValV::Int(n) => crate::names::dec_int(n),
        ValV::Nil => "nil"@,
        ValV::Cons(h, t) => if is_list_val(v) {
            "("@ + list_text(v) + ")"@
        } else {
            "("@ + val_text(*h) + " . "@ + val_text(*t) + ")"@
        },
    }
}

impl Value {
    /// The printed form of the value.
    pub fn to_string(&self) -> (r: String)
        ensures
            r@ == val_text(self@),
        decreases self, 1int,
    {
        proof {
            reveal_with_fuel(view_val, 3);
        }
        match self {
            Value::Int(n) => crate::names::i128_to_string(*n),
            Value::Nil => String::from_str("nil"),
            Value::Cons(h, t) => {
                if is_list(self) {
                    let mut out = String::from_str("(");
                    let inner = self.list_to_string();
                    out.append(inner.as_str());
                    out.append(")");
                    out
                } else {
                    let mut out = String::from_str("(");
                    let hs = h.to_string();
                    out.append(hs.as_str());
                    out.append(" . ");
                    let ts = t.to_string();
                    out.append(ts.as_str());
                    out.append(")");
                    out
                }
            },
        }
    }

    fn list_to_string(&self) -> (r: String)
        ensures
            r@ == list_text(self@),
        decreases self, 0int,
    {
        proof {
            reveal_with_fuel(view_val, 3);
        }
        match self {
            Value::Cons(h, t) => {
                let t_is_nil = match &**t {
                    Value::Nil => true,
                    _ => false,
                };
                if t_is_nil {
                    h.to_string()
                } else {
                    let mut out = h.to_string();
                    out.append(" ");
                    let rest = t.list_to_string();
                    out.append(rest.as_str());
                    out
                }
            },
            _ => String::new(),
        }
    }
}

/// The elements of a list-shaped value, or a report that it is not a list.
#[verifier::loop_isolation(false)]
pub fn to_vec(val: Value) -> (r: Result<Vec<Value>, Value>)
    ensures
        match r {
            Ok(vs) => is_list_val(val@) && vs@.map_values(|x: Value| x@) == list_elems(val@),
            Err(bad) => !is_list_val(val@),
        },
{
    let mut vals: Vec<Value> = Vec::new();
    let mut val = val;
    let ghost orig = val@;
    proof {
        assert(vals@.map_values(|x: Value| x@) =~= Seq::<ValV>::empty());
        assert(Seq::<ValV>::empty() + list_elems(orig) =~= list_elems(orig));
    }
    loop
        invariant
            is_list_val(orig) == is_list_val(val@),
            list_elems(orig) == vals@.map_values(|x: Value| x@) + list_elems(val@),
        decreases val,
    {
        match val {
            Value::Cons(car, cdr) => {
                let ghost vs0 = vals@.map_values(|x: Value| x@);
                let ghost carv = car@;
                vals.push(*car);
                proof {
                    assert(vals@.map_values(|x: Value| x@) =~= vs0.push(carv));
                    assert(vs0 + (seq![carv] + list_elems(cdr@)) =~= vs0.push(carv)
                        + list_elems(cdr@));
                }
                val = *cdr;
            },
            Value::Nil => {
                proof {
                    assert(vals@.map_values(|x: Value| x@) + Seq::<ValV>::empty()
                        =~= vals@.map_values(|x: Value| x@));
                }
                return Ok(vals);
            },
            v => {
                return Err(v);
            },
        }
    }
}

/// `nil` as absence, anything else as presence.
pub fn to_option(val: Value) -> (r: Option<Value>)
    ensures
        match r {
            None => val@ is Nil,
            Some(v) => v@ == val@ && !(val@ is Nil),
        },
{
    match val {
        Value::Nil => None,
        val => Some(val),
    }
}

/// The integer a value carries, or the value back when it is not an integer.
pub fn to_int(val: &Value) -> (r: Result<i128, ()>)
    ensures
        match r {
            Ok(n) => val@ == ValV::Int(n as int),
            Err(_) => !(val@ is Int),
        },
{
    match val {
        Value::Int(n) => Ok(*n),
        _ => Err(()),
    }
}

} // verus!
