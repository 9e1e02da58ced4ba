//! The board's on-disk form: a line of decimal numbers — width, height,
//! player column and row, goal column and row, each followed by a single
//! space — then one digit per tile, row-major. Encoding and decoding
//! round-trip exactly: decoding any encoded well-formed board yields an
//! equivalent board.

use vstd::prelude::*;

use crate::board::Board;
use crate::board::Pos;
use crate::board::lemma_board_size;
use crate::tiles::Tile;

verus! {

/// An ASCII decimal digit.
pub open spec fn is_digit(c: u8) -> bool {
    48 <= c <= 57
}

/// The canonical decimal digits of `n`, most significant first.
pub open spec fn dec(n: nat) -> Seq<u8>
    decreases n,
{
    if n < 10 {
        seq![(n + 48) as u8]
    } else {
        dec(n / 10).push((n % 10 + 48) as u8)
    }
}

/// The value of a digit string, read left to right.
pub open spec fn val_of(s: Seq<u8>) -> int
    decreases s.len(),
{
    if s.len() == 0 {
        0
    } else {
        val_of(s.drop_last()) * 10 + (s.last() - 48)
    }
}

/// The first position at or after `i` that does not hold a digit.
pub open spec fn run_end(s: Seq<u8>, i: int) -> int
    decreases s.len() - i,
{
    if 0 <= i < s.len() && is_digit(s[i]) {
        run_end(s, i + 1)
    } else {
        i
    }
}

/// The byte encoding one tile.
pub open spec fn tile_byte(t: Tile) -> u8 {
    match t {
        Tile::Empty => 48,
        Tile::Wall => 49,
        Tile::Box => 50,
    }
}

/// The tile a byte encodes, if any.
pub open spec fn tile_of(c: u8) -> Option<Tile> {
    if c == 48 {
        Some(Tile::Empty)
    } else if c == 49 {
        Some(Tile::Wall)
    } else if c == 50 {
        Some(Tile::Box)
    } else {
        None
    }
}

/// One encoded number: its digits followed by a space.
pub open spec fn field(n: nat) -> Seq<u8> {
    dec(n).push(32u8)
}

/// The encoded tile region.
pub open spec fn tiles_bytes(ts: Seq<Tile>) -> Seq<u8> {
    Seq::new(ts.len(), |i: int| tile_byte(ts[i]))
}

/// The `k`-th encoded number of a board.
pub open spec fn enc_num(b: Board, k: int) -> nat {
    if k == 0 {
        b.width as nat
    } else if k == 1 {
        b.spec_height() as nat
    } else if k == 2 {
        b.player_pos.0 as nat
    } else if k == 3 {
        b.player_pos.1 as nat
    } else if k == 4 {
        b.goal.0 as nat
    } else {
        b.goal.1 as nat
    }
}

/// Where the `k`-th encoded number starts.
pub open spec fn enc_off(b: Board, k: int) -> int
    decreases k,
{
    if k <= 0 {
        0
    } else {
        enc_off(b, k - 1) + dec(enc_num(b, k - 1)).len() + 1
    }
}

/// The full encoding of a board.
pub open spec fn spec_encode(b: Board) -> Seq<u8> {
    field(enc_num(b, 0)) + field(enc_num(b, 1)) + field(enc_num(b, 2)) + field(enc_num(b, 3))
        + field(enc_num(b, 4)) + field(enc_num(b, 5)) + tiles_bytes(b.tiles@)
}

proof fn lemma_dec_digits(n: nat)
    ensures
        dec(n).len() >= 1,
        forall|j: int| 0 <= j < dec(n).len() ==> is_digit(#[trigger] dec(n)[j]),
    decreases n,
{
    if n >= 10 {
        lemma_dec_digits(n / 10);
    }
}

proof fn lemma_val_of_dec(n: nat)
    ensures
        val_of(dec(n)) == n,
    decreases n,
{
    if n < 10 {
        assert(dec(n).drop_last() =~= Seq::<u8>::empty());
        assert(val_of(Seq::<u8>::empty()) == 0);
        assert(dec(n).last() == (n + 48) as u8);
    } else {
        lemma_val_of_dec(n / 10);
        assert(dec(n).drop_last() =~= dec(n / 10));
        assert(dec(n).last() == (n % 10 + 48) as u8);
    }
}

proof fn lemma_val_nonneg(s: Seq<u8>)
    requires
        forall|j: int| 0 <= j < s.len() ==> is_digit(#[trigger] s[j]),
    ensures
        val_of(s) >= 0,
    decreases s.len(),
{
    if s.len() > 0 {
        lemma_val_nonneg(s.drop_last());
    }
}

/// Extending a digit string on the right never shrinks its value.
proof fn lemma_val_monotone(s: Seq<u8>, a: int, b: int, c: int)
    requires
        0 <= a <= b <= c <= s.len(),
        forall|j: int| a <= j < c ==> is_digit(#[trigger] s[j]),
    ensures
        val_of(s.subrange(a, b)) <= val_of(s.subrange(a, c)),
    decreases c - b,
{
    if b < c {
        lemma_val_monotone(s, a, b, c - 1);
        assert(s.subrange(a, c).drop_last() =~= s.subrange(a, c - 1));
        lemma_val_nonneg(s.subrange(a, c - 1));
    }
}

proof fn lemma_run_end_facts(s: Seq<u8>, i: int)
    requires
        0 <= i <= s.len(),
    ensures
        i <= run_end(s, i) <= s.len(),
        forall|j: int| i <= j < run_end(s, i) ==> is_digit(#[trigger] s[j]),
        run_end(s, i) < s.len() ==> !is_digit(s[run_end(s, i)]),
    decreases s.len() - i,
{
    if i < s.len() && is_digit(s[i]) {
        lemma_run_end_facts(s, i + 1);
    }
}

proof fn lemma_run_end_exact(s: Seq<u8>, i: int, j: int)
    requires
        0 <= i <= j <= s.len(),
        forall|k: int| i <= k < j ==> is_digit(#[trigger] s[k]),
        j == s.len() || !is_digit(s[j]),
    ensures
        run_end(s, i) == j,
    decreases j - i,
{
    if i < j {
        lemma_run_end_exact(s, i + 1, j);
    }
}

/// Where a buffer holds an encoded number at `off`, the digit run there is
/// exactly that number's digits.
proof fn lemma_field_at(s: Seq<u8>, off: int, n: nat)
    requires
        0 <= off,
        off + dec(n).len() + 1 <= s.len(),
        s.subrange(off, off + dec(n).len() + 1) == field(n),
    ensures
        run_end(s, off) == off + dec(n).len(),
        val_of(s.subrange(off, off + dec(n).len())) == n,
        s[off + dec(n).len()] == 32,
{
    lemma_dec_digits(n);
    lemma_val_of_dec(n);
    let d = dec(n).len() as int;
    let f = s.subrange(off, off + d + 1);
    assert forall|k: int| off <= k < off + d implies is_digit(#[trigger] s[k]) by {
        assert(s[k] == f[k - off]);
        assert(f[k - off] == dec(n)[k - off]);
    }
    assert(s[off + d] == f[d]);
    assert(f[d] == 32);
    lemma_run_end_exact(s, off, off + d);
    assert(s.subrange(off, off + d) =~= dec(n));
}

/// Whether position `o` of buffer `s` holds the digits of `n`, a trailing
/// space, and nothing in between: the digit run at `o` is exactly `n`'s.
pub open spec fn holds_field(s: Seq<u8>, o: int, n: nat) -> bool {
    &&& run_end(s, o) == o + dec(n).len()
    &&& val_of(s.subrange(o, run_end(s, o))) == n
    &&& run_end(s, o) < s.len()
    &&& s[run_end(s, o)] == 32
}

/// The layout facts of an encoded board: each number's digit run, its value,
/// its trailing space, and the tile region.
proof fn lemma_encode_shape(b: Board, s: Seq<u8>)
    requires
        b.wf(),
        s == spec_encode(b),
    ensures
        holds_field(s, enc_off(b, 0), enc_num(b, 0)),
        holds_field(s, enc_off(b, 1), enc_num(b, 1)),
        holds_field(s, enc_off(b, 2), enc_num(b, 2)),
        holds_field(s, enc_off(b, 3), enc_num(b, 3)),
        holds_field(s, enc_off(b, 4), enc_num(b, 4)),
        holds_field(s, enc_off(b, 5), enc_num(b, 5)),
        enc_off(b, 0) == 0,
        enc_off(b, 1) == run_end(s, enc_off(b, 0)) + 1,
        enc_off(b, 2) == run_end(s, enc_off(b, 1)) + 1,
        enc_off(b, 3) == run_end(s, enc_off(b, 2)) + 1,
        enc_off(b, 4) == run_end(s, enc_off(b, 3)) + 1,
        enc_off(b, 5) == run_end(s, enc_off(b, 4)) + 1,
        enc_off(b, 6) == run_end(s, enc_off(b, 5)) + 1,
        enc_num(b, 0) == b.width && enc_num(b, 1) == b.spec_height() && enc_num(b, 2)
            == b.player_pos.0 && enc_num(b, 3) == b.player_pos.1 && enc_num(b, 4) == b.goal.0
            && enc_num(b, 5) == b.goal.1,
        enc_num(b, 0) <= usize::MAX && enc_num(b, 1) <= usize::MAX && enc_num(b, 2) <= usize::MAX
            && enc_num(b, 3) <= usize::MAX && enc_num(b, 4) <= usize::MAX && enc_num(b, 5)
            <= usize::MAX,
        s.len() == enc_off(b, 6) + b.tiles@.len(),
        forall|j: int|
            0 <= j < b.tiles@.len() ==> s[enc_off(b, 6) + j] == tile_byte(#[trigger] b.tiles@[j]),
{
    lemma_board_size(b);
    assert(b.tiles@.len() == vstd::std_specs::vec::spec_vec_len(&b.tiles));
    assert(b.spec_height() <= b.tiles@.len()) by (nonlinear_arith)
        requires
            b.width >= 1,
            b.spec_height() == b.tiles@.len() as int / b.width as int,
            b.tiles@.len() >= 1,
    ;
    let f0 = field(enc_num(b, 0));
    let f1 = field(enc_num(b, 1));
    let f2 = field(enc_num(b, 2));
    let f3 = field(enc_num(b, 3));
    let f4 = field(enc_num(b, 4));
    let f5 = field(enc_num(b, 5));
    let tb = tiles_bytes(b.tiles@);
    assert(s.len() == f0.len() + f1.len() + f2.len() + f3.len() + f4.len() + f5.len() + tb.len());
    assert(enc_off(b, 0) == 0);
    assert(enc_off(b, 1) == f0.len());
    assert(enc_off(b, 2) == f0.len() + f1.len());
    assert(enc_off(b, 3) == f0.len() + f1.len() + f2.len());
    assert(enc_off(b, 4) == f0.len() + f1.len() + f2.len() + f3.len());
    assert(enc_off(b, 5) == f0.len() + f1.len() + f2.len() + f3.len() + f4.len());
    assert(enc_off(b, 6) == f0.len() + f1.len() + f2.len() + f3.len() + f4.len() + f5.len());
    assert(s.subrange(enc_off(b, 0), enc_off(b, 1)) =~= f0);
    assert(s.subrange(enc_off(b, 1), enc_off(b, 2)) =~= f1);
    assert(s.subrange(enc_off(b, 2), enc_off(b, 3)) =~= f2);
    assert(s.subrange(enc_off(b, 3), enc_off(b, 4)) =~= f3);
    assert(s.subrange(enc_off(b, 4), enc_off(b, 5)) =~= f4);
    assert(s.subrange(enc_off(b, 5), enc_off(b, 6)) =~= f5);
    lemma_field_at(s, enc_off(b, 0), enc_num(b, 0));
    lemma_field_at(s, enc_off(b, 1), enc_num(b, 1));
    lemma_field_at(s, enc_off(b, 2), enc_num(b, 2));
    lemma_field_at(s, enc_off(b, 3), enc_num(b, 3));
    lemma_field_at(s, enc_off(b, 4), enc_num(b, 4));
    lemma_field_at(s, enc_off(b, 5), enc_num(b, 5));
    assert forall|j: int| 0 <= j < b.tiles@.len() implies s[enc_off(b, 6) + j] == tile_byte(
        #[trigger] b.tiles@[j],
    ) by {
        assert(s[enc_off(b, 6) + j] == tb[j]);
    }
}

/// Append the decimal digits of `n`.
fn push_dec(v: &mut Vec<u8>, n: u64)
    ensures
        final(v)@ == old(v)@ + dec(n as nat),
    decreases n,
{
    if n >= 10 {
        push_dec(v, n / 10);
    }
    v.push((n % 10) as u8 + 48);
    proof {
        assert(v@ =~= old(v)@ + dec(n as nat));
    }
}

/// Append one encoded number: its digits and a trailing space.
fn push_field(v: &mut Vec<u8>, n: u64)
    ensures
        final(v)@ == old(v)@ + field(n as nat),
{
    push_dec(v, n);
    v.push(32);
    proof {
        assert(v@ =~= old(v)@ + field(n as nat));
    }
}

/// Read one number followed by a space, starting at `start`: the maximal
/// digit run there, rejected when it is empty, does not fit a 64-bit value,
/// or is not followed by a space.
fn read_field(s: &Vec<u8>, start: usize) -> (r: Option<(u64, usize)>)
    requires
        start <= s@.len(),
    ensures
        ({
            let e = run_end(s@, start as int);
            let ok = e > start && val_of(s@.subrange(start as int, e)) <= u64::MAX && e
                < s@.len() && s@[e] == 32;
            if ok {
                r matches Some(p) && p.0 == val_of(s@.subrange(start as int, e)) && p.1 == e + 1
            } else {
                r is None
            }
        }),
{
    proof {
        lemma_run_end_facts(s@, start as int);
    }
    let len = s.len();
    let mut i = start;
    let mut acc: u64 = 0;
    while i < len && 48 <= s[i] && s[i] <= 57
        invariant
            start <= i <= len,
            len == s@.len(),
            forall|j: int| start <= j < i ==> is_digit(#[trigger] s@[j]),
            acc == val_of(s@.subrange(start as int, i as int)),
        decreases len - i,
    {
        let d = s[i] - 48;
        proof {
            let e = run_end(s@, start as int);
            lemma_run_end_facts(s@, start as int);
            if e <= i as int {
                assert(is_digit(s@[e]));
                assert(false);
            }
            assert(s@.subrange(start as int, i as int + 1).drop_last() =~= s@.subrange(
                start as int,
                i as int,
            ));
            assert(s@.subrange(start as int, i as int + 1).last() == s@[i as int]);
        }
        let next = match acc.checked_mul(10) {
            Some(a) => a.checked_add(d as u64),
            None => None,
        };
        match next {
            Some(a) => {
                acc = a;
            },
            None => {
                proof {
                    let e = run_end(s@, start as int);
                    lemma_val_monotone(s@, start as int, i as int + 1, e);
                }
                return None;
            },
        }
        i += 1;
    }
    proof {
        lemma_run_end_exact(s@, start as int, i as int);
    }
    if i == start {
        return None;
    }
    if i < len {
        let c = s[i];
        if c == 32 {
            return Some((acc, i + 1));
        }
    }
    None
}

/// Encode a board as bytes.
pub fn encode_board(b: &Board) -> (r: Vec<u8>)
    requires
        b.wf(),
    ensures
        r@ == spec_encode(*b),
{
    let mut v: Vec<u8> = Vec::new();
    push_field(&mut v, b.width() as u64);
    push_field(&mut v, b.height() as u64);
    let p = *b.player_pos();
    let g = *b.goal();
    push_field(&mut v, p.0 as u64);
    push_field(&mut v, p.1 as u64);
    push_field(&mut v, g.0 as u64);
    push_field(&mut v, g.1 as u64);
    let ghost head = v@;
    let n = b.tiles.len();
    let mut j: usize = 0;
    while j < n
        invariant
            j <= n,
            n == b.tiles@.len(),
            v@ =~= head + tiles_bytes(b.tiles@.take(j as int)),
        decreases n - j,
    {
        let t = b.tiles[j];
        let c: u8 = match t {
            Tile::Empty => 48,
            Tile::Wall => 49,
            Tile::Box => 50,
        };
        v.push(c);
        j += 1;
        proof {
            assert(v@ =~= head + tiles_bytes(b.tiles@.take(j as int)));
        }
    }
    proof {
        assert(b.tiles@.take(n as int) =~= b.tiles@);
        assert(v@ =~= spec_encode(*b));
    }
    v
}

/// Decode a board from bytes. Decoding succeeds on (at least) every buffer
/// that encodes a well-formed board, and then yields an equivalent board;
/// whatever it yields is well formed.
#[verifier::rlimit(100)]
#[verifier::loop_isolation(false)]
pub fn decode_board(s: &Vec<u8>) -> (r: Option<Board>)
    ensures
        r matches Some(b2) ==> b2.wf(),
        forall|b: Board|
            b.wf() && s@ == #[trigger] spec_encode(b) ==> (r matches Some(b2) && b.eqv(b2)),
{
    let r0 = read_field(s, 0);
    proof {
        assert forall|b: Board| b.wf() && s@ == #[trigger] spec_encode(b) implies r0 is Some by {
            lemma_encode_shape(b, s@);
        }
    }
    let (w64, i1) = match r0 {
        Some(p) => p,
        None => {
            return None;
        },
    };
    let r1 = read_field(s, i1);
    proof {
        assert forall|b: Board| b.wf() && s@ == #[trigger] spec_encode(b) implies r1 is Some by {
            lemma_encode_shape(b, s@);
        }
    }
    let (h64, i2) = match r1 {
        Some(p) => p,
        None => {
            return None;
        },
    };
    let r2 = read_field(s, i2);
    proof {
        assert forall|b: Board| b.wf() && s@ == #[trigger] spec_encode(b) implies r2 is Some by {
            lemma_encode_shape(b, s@);
        }
    }
    let (px64, i3) = match r2 {
        Some(p) => p,
        None => {
            return None;
        },
    };
    let r3 = read_field(s, i3);
    proof {
        assert forall|b: Board| b.wf() && s@ == #[trigger] spec_encode(b) implies r3 is Some by {
            lemma_encode_shape(b, s@);
        }
    }
    let (py64, i4) = match r3 {
        Some(p) => p,
        None => {
            return None;
        },
    };
    let r4 = read_field(s, i4);
    proof {
        assert forall|b: Board| b.wf() && s@ == #[trigger] spec_encode(b) implies r4 is Some by {
            lemma_encode_shape(b, s@);
        }
    }
    let (gx64, i5) = match r4 {
        Some(p) => p,
        None => {
            return None;
        },
    };
    let r5 = read_field(s, i5);
    proof {
        assert forall|b: Board| b.wf() && s@ == #[trigger] spec_encode(b) implies r5 is Some by {
            lemma_encode_shape(b, s@);
        }
    }
    let (gy64, i6) = match r5 {
        Some(p) => p,
        None => {
            return None;
        },
    };
    proof {
        assert forall|b: Board| b.wf() && s@ == #[trigger] spec_encode(b) implies {
            &&& w64 == b.width
            &&& h64 == b.spec_height()
            &&& px64 == b.player_pos.0
            &&& py64 == b.player_pos.1
            &&& gx64 == b.goal.0
            &&& gy64 == b.goal.1
            &&& i6 == enc_off(b, 6)
        } by {
            lemma_encode_shape(b, s@);
        }
    }
    let umax = usize::MAX as u64;
    if w64 == 0 || h64 == 0 || w64 > umax || h64 > umax || px64 > umax || py64 > umax || gx64
        > umax || gy64 > umax {
        proof {
            assert forall|b: Board| b.wf() && s@ == #[trigger] spec_encode(b) implies false by {
                lemma_encode_shape(b, s@);
                lemma_board_size(b);
            }
        }
        return None;
    }
    let w = w64 as usize;
    let h = h64 as usize;
    let total = match w.checked_mul(h) {
        Some(t) => t,
        None => {
            proof {
                assert forall|b: Board| b.wf() && s@ == #[trigger] spec_encode(b) implies false by {
                    lemma_board_size(b);
                }
            }
            return None;
        },
    };
    proof {
        assert forall|b: Board| b.wf() && s@ == #[trigger] spec_encode(b) implies total
            == b.tiles@.len() by {
            lemma_board_size(b);
        }
    }
    if s.len() - i6 != total {
        proof {
            assert forall|b: Board| b.wf() && s@ == #[trigger] spec_encode(b) implies false by {
                lemma_encode_shape(b, s@);
                lemma_board_size(b);
            }
        }
        return None;
    }
    let mut tiles: Vec<Tile> = Vec::new();
    let mut j: usize = 0;
    while j < total
        invariant
            j <= total,
            i6 + total == s@.len(),
            i6 + total <= usize::MAX,
            tiles@.len() == j,
            forall|m: int| 0 <= m < j ==> tile_of(s@[i6 + m]) == Some(#[trigger] tiles@[m]),
        decreases total - j,
    {
        let c = s[i6 + j];
        let t = if c == 48 {
            Tile::Empty
        } else if c == 49 {
            Tile::Wall
        } else if c == 50 {
            Tile::Box
        } else {
            proof {
                assert forall|b: Board| b.wf() && s@ == #[trigger] spec_encode(b) implies false by {
                    lemma_encode_shape(b, s@);
                    assert(s@[i6 + j] == tile_byte(b.tiles@[j as int]));
                }
            }
            return None;
        };
        tiles.push(t);
        j += 1;
    }
    let out = Board { width: w, tiles, player_pos: Pos(px64 as usize, py64 as usize), goal: Pos(
        gx64 as usize,
        gy64 as usize,
    ) };
    proof {
        assert(total == w * h);
        assert(out.tiles@.len() >= out.width && (out.tiles@.len() as int) % (out.width as int) == 0)
            by (nonlinear_arith)
            requires
                out.tiles@.len() == w * h,
                out.width == w,
                w >= 1,
                h >= 1,
        ;
        assert(out.wf());
        assert forall|b: Board| b.wf() && s@ == #[trigger] spec_encode(b) implies b.eqv(out) by {
            lemma_encode_shape(b, s@);
            lemma_board_size(b);
            assert forall|m: int| 0 <= m < total implies b.tiles@[m] == out.tiles@[m] by {
                assert(s@[i6 + m] == tile_byte(b.tiles@[m]));
                lemma_tile_byte_inverse(b.tiles@[m]);
            }
            assert(b.tiles@ =~= out.tiles@);
        }
    }
    Some(out)
}

proof fn lemma_tile_byte_inverse(t: Tile)
    ensures
        tile_of(tile_byte(t)) == Some(t),
{
}

} // verus!
