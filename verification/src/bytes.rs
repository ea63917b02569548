//! Big-endian byte encodings of unsigned integers and the lexicographic order
//! of byte strings, as used for database keys.

use vstd::prelude::*;

verus! {

/// `256` raised to the power `n`.
pub open spec fn pow256(n: nat) -> nat
    decreases n,
{
    if n == 0 {
        1
    } else {
        256 * pow256((n - 1) as nat)
    }
}

/// The `n` most significant-first base-256 digits of `x`.
pub open spec fn be_bytes(x: nat, n: nat) -> Seq<u8>
    decreases n,
{
    if n == 0 {
        Seq::empty()
    } else {
        seq![((x / pow256((n - 1) as nat)) % 256) as u8] + be_bytes(
            x % pow256((n - 1) as nat),
            (n - 1) as nat,
        )
    }
}

/// The number whose big-endian base-256 digits are `s`.
pub open spec fn be_value(s: Seq<u8>) -> nat
    decreases s.len(),
{
    if s.len() == 0 {
        0
    } else {
        (s[0] as nat) * pow256((s.len() - 1) as nat) + be_value(s.drop_first())
    }
}

/// Result of comparing two keys.
#[derive(PartialEq, Eq, Structural, Clone, Copy, Debug)]
pub enum KeyOrder {
    Less,
    Equal,
    Greater,
}

/// How two numbers compare.
pub open spec fn num_order(x: int, y: int) -> KeyOrder {
    if x < y {
        KeyOrder::Less
    } else if x == y {
        KeyOrder::Equal
    } else {
        KeyOrder::Greater
    }
}

/// Lexicographic order of byte strings: the first differing byte decides, and a
/// proper prefix comes first.
pub open spec fn lex_order(a: Seq<u8>, b: Seq<u8>) -> KeyOrder
    decreases a.len(),
{
    if a.len() == 0 {
        if b.len() == 0 {
            KeyOrder::Equal
        } else {
            KeyOrder::Less
        }
    } else if b.len() == 0 {
        KeyOrder::Greater
    } else if a[0] < b[0] {
        KeyOrder::Less
    } else if a[0] > b[0] {
        KeyOrder::Greater
    } else {
        lex_order(a.drop_first(), b.drop_first())
    }
}

pub proof fn lemma_pow256_pos(n: nat)
    ensures
        pow256(n) > 0,
    decreases n,
{
    if n > 0 {
        lemma_pow256_pos((n - 1) as nat);
    }
}

pub proof fn lemma_be_bytes_len(x: nat, n: nat)
    ensures
        be_bytes(x, n).len() == n,
    decreases n,
{
    if n > 0 {
        let m = (n - 1) as nat;
        lemma_pow256_pos(m);
        lemma_be_bytes_len(x % pow256(m), m);
        assert(be_bytes(x, n).drop_first() =~= be_bytes(x % pow256(m), m));
    }
}

/// Splits `x < 256 * p` into its leading digit `x / p` and the rest `x % p`.
proof fn lemma_digit_split(x: nat, p: nat)
    requires
        p > 0,
        x < 256 * p,
    ensures
        x == (x / p) * p + x % p,
        x % p < p,
        x / p < 256,
{
    vstd::arithmetic::div_mod::lemma_fundamental_div_mod(x as int, p as int);
    vstd::arithmetic::div_mod::lemma_mod_bound(x as int, p as int);
    assert((x / p) * p == p * (x / p)) by (nonlinear_arith);
    assert(x / p < 256) by (nonlinear_arith)
        requires
            p > 0,
            x < 256 * p,
            x == (x / p) * p + x % p,
            x % p >= 0,
    ;
}

/// A digit string of length `n` denotes a number below `256^n`.
pub proof fn lemma_be_value_bound(s: Seq<u8>)
    ensures
        be_value(s) < pow256(s.len()),
    decreases s.len(),
{
    if s.len() > 0 {
        let p = pow256((s.len() - 1) as nat);
        lemma_be_value_bound(s.drop_first());
        let d = s[0] as nat;
        let r = be_value(s.drop_first());
        assert(d * p + r < 256 * p) by (nonlinear_arith)
            requires
                d <= 255,
                r < p,
        ;
    }
}

/// Decoding the encoding of `x < 256^n` gives back `x`.
pub proof fn lemma_value_of_bytes(x: nat, n: nat)
    requires
        x < pow256(n),
    ensures
        be_value(be_bytes(x, n)) == x,
    decreases n,
{
    if n > 0 {
        let p = pow256((n - 1) as nat);
        lemma_pow256_pos((n - 1) as nat);
        lemma_digit_split(x, p);
        lemma_value_of_bytes(x % p, (n - 1) as nat);
        lemma_be_bytes_len(x, n);
        let b = be_bytes(x, n);
        assert(b.drop_first() =~= be_bytes(x % p, (n - 1) as nat));
        assert(b[0] as nat == x / p);
    }
}

/// Encoding the value of a digit string gives back the digit string.
pub proof fn lemma_bytes_of_value(s: Seq<u8>)
    ensures
        be_bytes(be_value(s), s.len()) =~= s,
    decreases s.len(),
{
    if s.len() > 0 {
        let n = s.len();
        let p = pow256((n - 1) as nat);
        let d = s[0] as nat;
        let rest = s.drop_first();
        let r = be_value(rest);
        lemma_pow256_pos((n - 1) as nat);
        lemma_be_value_bound(rest);
        let v = be_value(s);
        assert(v == d * p + r);
        vstd::arithmetic::div_mod::lemma_fundamental_div_mod_converse(
            v as int,
            p as int,
            d as int,
            r as int,
        );
        lemma_bytes_of_value(rest);
        let b = be_bytes(v, n);
        assert(b =~= seq![((v / p) % 256) as u8] + be_bytes(v % p, (n - 1) as nat));
        assert(b[0] == s[0]);
        lemma_be_bytes_len(r, (n - 1) as nat);
        assert forall|i: int| 0 <= i < n implies b[i] == s[i] by {
            if i > 0 {
                assert(b[i] == be_bytes(r, (n - 1) as nat)[i - 1]);
                assert(s[i] == rest[i - 1]);
            }
        }
    }
}

/// For numbers below `256^n`, the lexicographic order of their `n`-digit
/// big-endian encodings is their numeric order.
pub proof fn lemma_lex_order_of_bytes(x: nat, y: nat, n: nat)
    requires
        x < pow256(n),
        y < pow256(n),
    ensures
        lex_order(be_bytes(x, n), be_bytes(y, n)) == num_order(x as int, y as int),
    decreases n,
{
    if n == 0 {
        assert(x == 0 && y == 0);
    } else {
        let p = pow256((n - 1) as nat);
        lemma_pow256_pos((n - 1) as nat);
        lemma_digit_split(x, p);
        lemma_digit_split(y, p);
        let dx = x / p;
        let dy = y / p;
        let rx = x % p;
        let ry = y % p;
        let bx = be_bytes(x, n);
        let by = be_bytes(y, n);
        lemma_be_bytes_len(x, n);
        lemma_be_bytes_len(y, n);
        assert(bx[0] as nat == dx);
        assert(by[0] as nat == dy);
        assert(bx.drop_first() =~= be_bytes(rx, (n - 1) as nat));
        assert(by.drop_first() =~= be_bytes(ry, (n - 1) as nat));
        if dx < dy {
            assert(x < y) by (nonlinear_arith)
                requires
                    x == dx * p + rx,
                    y == dy * p + ry,
                    rx < p,
                    dx < dy,
                    ry >= 0,
            ;
        } else if dx > dy {
            assert(y < x) by (nonlinear_arith)
                requires
                    x == dx * p + rx,
                    y == dy * p + ry,
                    ry < p,
                    dy < dx,
                    rx >= 0,
            ;
        } else {
            lemma_lex_order_of_bytes(rx, ry, (n - 1) as nat);
        }
    }
}

/// Compares two byte strings lexicographically, as slices of bytes compare.
pub fn compare_key_bytes(a: &[u8], b: &[u8]) -> (r: KeyOrder)
    ensures
        r == lex_order(a@, b@),
{
    let mut i: usize = 0;
    assert(a@.skip(0) =~= a@);
    assert(b@.skip(0) =~= b@);
    while i < a.len() && i < b.len()
        invariant
            i <= a@.len(),
            i <= b@.len(),
            lex_order(a@, b@) == lex_order(a@.skip(i as int), b@.skip(i as int)),
        decreases a.len() - i,
    {
        assert(a@.skip(i as int)[0] == a@[i as int]);
        assert(b@.skip(i as int)[0] == b@[i as int]);
        if a[i] < b[i] {
            return KeyOrder::Less;
        }
        if a[i] > b[i] {
            return KeyOrder::Greater;
        }
        assert(a@.skip(i as int).drop_first() =~= a@.skip(i + 1));
        assert(b@.skip(i as int).drop_first() =~= b@.skip(i + 1));
        i = i + 1;
    }
    if i < a.len() {
        KeyOrder::Greater
    } else if i < b.len() {
        KeyOrder::Less
    } else {
        KeyOrder::Equal
    }
}

} // verus!
