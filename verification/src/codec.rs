use crate::snapshot::{Snapshot, MAX_TENTHS};
use vstd::prelude::*;

verus! {

// ---------------------------------------------------------------------------
// The wire format. One snapshot travels as a UTF-8 text frame holding an
// array of decimal numbers with one fractional digit, one per core, e.g.
// `[12.5, 8.0, 45.3, 3.1]`. A reading of `v` tenths of a percent is printed
// as its whole part (no leading zeros) followed by `.` and the tenths digit.
// ---------------------------------------------------------------------------
/// The byte `[`.
pub const OPEN_BRACKET: u8 = 91;

/// The byte `]`.
pub const CLOSE_BRACKET: u8 = 93;

/// The byte `,`.
pub const COMMA: u8 = 44;

/// The byte ` `.
pub const SPACE: u8 = 32;

/// The byte `.`.
pub const DOT: u8 = 46;

/// The byte of decimal digit `d`.
pub open spec fn digit_byte(d: int) -> u8 {
    (48 + d) as u8
}

/// Whether byte `c` is a decimal digit.
pub open spec fn is_digit(c: u8) -> bool {
    48 <= c <= 57
}

/// The value of digit byte `c`.
pub open spec fn digit_val(c: u8) -> int {
    c - 48
}

/// Canonical decimal representation of `n`: its digits, most significant
/// first, with no leading zeros.
pub open spec fn dec_rep(n: nat) -> Seq<u8>
    decreases n,
{
    if n < 10 {
        seq![digit_byte(n as int)]
    } else {
        dec_rep(n / 10).push(digit_byte((n % 10) as int))
    }
}

/// The number token for a reading of `v` tenths of a percent: whole percents
/// in decimal, a dot, and the tenths digit.
pub open spec fn num_rep(v: u32) -> Seq<u8> {
    dec_rep((v / 10) as nat) + seq![DOT, digit_byte((v % 10) as int)]
}

/// The readings of `s`, each as a number token, joined by `", "`.
pub open spec fn items_rep(s: Seq<u32>) -> Seq<u8>
    decreases s.len(),
{
    if s.len() == 0 {
        Seq::empty()
    } else if s.len() == 1 {
        num_rep(s[0])
    } else {
        num_rep(s[0]) + seq![COMMA, SPACE] + items_rep(s.drop_first())
    }
}

/// The complete wire message for the readings `s`: the joined number tokens
/// between `[` and `]`.
pub open spec fn wire_of(s: Seq<u32>) -> Seq<u8> {
    seq![OPEN_BRACKET] + items_rep(s) + seq![CLOSE_BRACKET]
}

// ---------------------------------------------------------------------------
// Serialization.
// ---------------------------------------------------------------------------
/// Appends the decimal digits of `n` to `out`.
fn push_dec(n: u32, out: &mut Vec<u8>)
    ensures
        final(out)@ == old(out)@ + dec_rep(n as nat),
    decreases n,
{
    if n >= 10 {
        push_dec(n / 10, out);
    }
    out.push(48 + (n % 10) as u8);
    proof {
        assert(out@ =~= old(out)@ + dec_rep(n as nat));
    }
}

/// Appends the number token of the reading `v` to `out`.
fn push_num(v: u32, out: &mut Vec<u8>)
    ensures
        final(out)@ == old(out)@ + num_rep(v),
{
    push_dec(v / 10, out);
    out.push(DOT);
    out.push(48 + (v % 10) as u8);
    proof {
        assert(out@ =~= old(out)@ + num_rep(v));
    }
}

/// Appends the joined number tokens of the readings of `s` from core `i` on.
fn push_items(s: &Snapshot, i: usize, out: &mut Vec<u8>)
    requires
        i <= s@.len(),
    ensures
        final(out)@ == old(out)@ + items_rep(s@.skip(i as int)),
    decreases s@.len() - i,
{
    if i < s.core_count() {
        push_num(s.reading(i), out);
        if i + 1 < s.core_count() {
            out.push(COMMA);
            out.push(SPACE);
        }
        push_items(s, i + 1, out);
        proof {
            let rest = s@.skip(i as int);
            assert(rest[0] == s@[i as int]);
            assert(rest.drop_first() =~= s@.skip(i as int + 1));
            if i + 1 < s@.len() {
                assert(out@ =~= old(out)@ + items_rep(rest));
            } else {
                assert(s@.skip(i as int + 1).len() == 0);
                assert(rest.len() == 1);
                assert(out@ =~= old(out)@ + items_rep(rest));
            }
        }
    } else {
        proof {
            assert(s@.skip(i as int).len() == 0);
            assert(out@ =~= old(out)@ + items_rep(s@.skip(i as int)));
        }
    }
}

/// Serializes one snapshot to its wire message, the exact byte sequence
/// `wire_of` describes.
pub fn serialize_snapshot(s: &Snapshot) -> (out: Vec<u8>)
    ensures
        out@ == wire_of(s@),
{
    let mut out: Vec<u8> = Vec::new();
    out.push(OPEN_BRACKET);
    push_items(s, 0, &mut out);
    out.push(CLOSE_BRACKET);
    proof {
        assert(s@.skip(0) =~= s@);
        assert(out@ =~= wire_of(s@));
    }
    out
}

// ---------------------------------------------------------------------------
// Parsing. The grammar accepts exactly the canonical wire messages: a
// number token is one, two or three non-zero-led digits, a dot and one
// digit, its value at most `MAX_TENTHS`; tokens are joined by `", "` and
// enclosed in brackets.
// ---------------------------------------------------------------------------
/// Reads one number token at position `i` of `b`; yields the reading in
/// tenths of a percent and the position just past the token.
pub open spec fn parse_num_at(b: Seq<u8>, i: int) -> Option<(u32, int)> {
    if 0 <= i && i + 3 <= b.len() && is_digit(b[i]) && b[i + 1] == DOT && is_digit(b[i + 2]) {
        Some(((digit_val(b[i]) * 10 + digit_val(b[i + 2])) as u32, i + 3))
    } else if 0 <= i && i + 4 <= b.len() && is_digit(b[i]) && b[i] != digit_byte(0) && is_digit(
        b[i + 1],
    ) && b[i + 2] == DOT && is_digit(b[i + 3]) {
        Some((((digit_val(b[i]) * 10 + digit_val(b[i + 1])) * 10 + digit_val(b[i + 3])) as u32,
        i + 4))
    } else if 0 <= i && i + 5 <= b.len() && is_digit(b[i]) && b[i] != digit_byte(0) && is_digit(
        b[i + 1],
    ) && is_digit(b[i + 2]) && b[i + 3] == DOT && is_digit(b[i + 4]) && ((digit_val(b[i]) * 100
        + digit_val(b[i + 1]) * 10 + digit_val(b[i + 2])) * 10 + digit_val(b[i + 4]))
        <= MAX_TENTHS {
        Some((((digit_val(b[i]) * 100 + digit_val(b[i + 1]) * 10 + digit_val(b[i + 2])) * 10
            + digit_val(b[i + 4])) as u32, i + 5))
    } else {
        None
    }
}

/// Reads the non-empty list of number tokens joined by `", "` that starts at
/// position `i` of `b`; yields the readings and the position just past the
/// last token.
pub open spec fn parse_items_at(b: Seq<u8>, i: int) -> Option<(Seq<u32>, int)>
    decreases b.len() - i,
{
    match parse_num_at(b, i) {
        Option::None => None,
        Option::Some((v, j)) => if i < j && j + 2 <= b.len() && b[j] == COMMA && b[j + 1]
            == SPACE {
            match parse_items_at(b, j + 2) {
                Option::None => None,
                Option::Some((rest, k)) => Some((seq![v] + rest, k)),
            }
        } else {
            Some((seq![v], j))
        },
    }
}

/// Reads a complete wire message: `Some` exactly on the canonical encoding
/// of a snapshot, and then yields its readings.
pub open spec fn parse_wire(b: Seq<u8>) -> Option<Seq<u32>> {
    if b.len() < 2 || b[0] != OPEN_BRACKET {
        None
    } else if b.len() == 2 {
        if b[1] == CLOSE_BRACKET {
            Some(Seq::empty())
        } else {
            None
        }
    } else {
        match parse_items_at(b, 1) {
            Option::None => None,
            Option::Some((s, j)) => if j == b.len() - 1 && b[j] == CLOSE_BRACKET {
                Some(s)
            } else {
                None
            },
        }
    }
}

/// Reads one number token at position `i` of `b`, exactly as `parse_num_at`
/// describes.
fn parse_num_from(b: &Vec<u8>, i: usize) -> (r: Option<(u32, usize)>)
    ensures
        match r {
            Option::Some((v, j)) => parse_num_at(b@, i as int) == Some((v, j as int)) && i < j <= b@.len(),
            Option::None => parse_num_at(b@, i as int) is None,
        },
{
    let n = b.len();
    if i < n && n - i >= 3 && is_digit_exec(b[i]) && b[i + 1] == DOT && is_digit_exec(b[i + 2]) {
        let v = (b[i] - 48) as u32 * 10 + (b[i + 2] - 48) as u32;
        Some((v, i + 3))
    } else if i < n && n - i >= 4 && is_digit_exec(b[i]) && b[i] != 48 && is_digit_exec(b[i + 1]) && b[i
        + 2] == DOT && is_digit_exec(b[i + 3]) {
        let v = ((b[i] - 48) as u32 * 10 + (b[i + 1] - 48) as u32) * 10 + (b[i + 3] - 48) as u32;
        Some((v, i + 4))
    } else if i < n && n - i >= 5 && is_digit_exec(b[i]) && b[i] != 48 && is_digit_exec(b[i + 1])
        && is_digit_exec(b[i + 2]) && b[i + 3] == DOT && is_digit_exec(b[i + 4]) {
        let v = ((b[i] - 48) as u32 * 100 + (b[i + 1] - 48) as u32 * 10 + (b[i + 2] - 48) as u32)
            * 10 + (b[i + 4] - 48) as u32;
        if v <= MAX_TENTHS {
            Some((v, i + 5))
        } else {
            None
        }
    } else {
        None
    }
}

/// Whether byte `c` is a decimal digit, exactly as `is_digit` describes.
fn is_digit_exec(c: u8) -> (r: bool)
    ensures
        r == is_digit(c),
{
    48 <= c && c <= 57
}

/// Reads the list of number tokens starting at position `i` of `b`, exactly
/// as `parse_items_at` describes, appending the readings to `acc`.
fn parse_items_from(b: &Vec<u8>, i: usize, acc: &mut Vec<u32>) -> (r: Option<usize>)
    ensures
        match r {
            Option::Some(j) => {
                &&& parse_items_at(b@, i as int) matches Some((s, jj)) && jj == j as int
                    && final(acc)@ == old(acc)@ + s
                &&& j <= b@.len()
            },
            Option::None => parse_items_at(b@, i as int) is None,
        },
    decreases b@.len() - i,
{
    match parse_num_from(b, i) {
        None => None,
        Some((v, j)) => {
            acc.push(v);
            if j < b.len() && b.len() - j >= 2 && b[j] == COMMA && b[j + 1] == SPACE {
                match parse_items_from(b, j + 2, acc) {
                    None => None,
                    Some(k) => {
                        proof {
                            let (s0, _) = parse_items_at(b@, j as int + 2)->Some_0;
                            assert(seq![v] + s0 == (seq![v] + s0));
                            assert(old(acc)@.push(v) + s0 =~= old(acc)@ + (seq![v] + s0));
                        }
                        Some(k)
                    },
                }
            } else {
                proof {
                    assert(old(acc)@.push(v) =~= old(acc)@ + seq![v]);
                }
                Some(j)
            }
        },
    }
}

/// Parses a wire message back into a snapshot: succeeds exactly on the
/// canonical encoding of a snapshot, as `parse_wire` describes, and then
/// returns that snapshot.
pub fn parse_snapshot(b: &Vec<u8>) -> (r: Option<Snapshot>)
    ensures
        match r {
            Option::Some(s) => parse_wire(b@) == Some(s@),
            Option::None => parse_wire(b@) is None,
        },
{
    let n = b.len();
    if n < 2 || b[0] != OPEN_BRACKET {
        return None;
    }
    if n == 2 {
        if b[1] == CLOSE_BRACKET {
            let cores: Vec<u32> = Vec::new();
            match Snapshot::from_tenths(cores) {
                Some(s) => {
                    proof {
                        assert(s@ =~= parse_wire(b@)->Some_0);
                    }
                    return Some(s);
                },
                None => {
                    proof {
                        assert(false);
                    }
                    return None;
                },
            }
        } else {
            return None;
        }
    }
    let mut acc: Vec<u32> = Vec::new();
    match parse_items_from(b, 1, &mut acc) {
        None => None,
        Some(j) => {
            if j == n - 1 && b[j] == CLOSE_BRACKET {
                proof {
                    lemma_parse_items_bounded(b@, 1);
                }
                match Snapshot::from_tenths(acc) {
                    Some(s) => Some(s),
                    None => {
                        proof {
                            assert(false);
                        }
                        None
                    },
                }
            } else {
                None
            }
        },
    }
}

// ---------------------------------------------------------------------------
// Round trip: parsing the serialized form of a snapshot gives the snapshot
// back, reading for reading.
// ---------------------------------------------------------------------------
/// A decimal representation has at least one digit.
proof fn lemma_dec_rep_len_pos(n: nat)
    ensures
        dec_rep(n).len() >= 1,
    decreases n,
{
    if n >= 10 {
        lemma_dec_rep_len_pos(n / 10);
    }
}

/// Byte `i + k` of `b` is byte `k` of the pattern `p` that sits at `i`.
proof fn lemma_subrange_index(b: Seq<u8>, i: int, p: Seq<u8>, k: int)
    requires
        0 <= i,
        i + p.len() <= b.len(),
        b.subrange(i, i + p.len() as int) == p,
        0 <= k < p.len(),
    ensures
        b[i + k] == p[k],
{
    assert(b.subrange(i, i + p.len() as int)[k] == p[k]);
}

/// A slice of a pattern that sits at `i` in `b` sits at `i + lo` in `b`.
proof fn lemma_subrange_slice(b: Seq<u8>, i: int, p: Seq<u8>, lo: int, hi: int)
    requires
        0 <= i,
        i + p.len() <= b.len(),
        b.subrange(i, i + p.len() as int) == p,
        0 <= lo <= hi <= p.len(),
    ensures
        b.subrange(i + lo, i + hi) == p.subrange(lo, hi),
{
    assert(b.subrange(i + lo, i + hi) =~= p.subrange(lo, hi)) by {
        assert forall|k: int| 0 <= k < hi - lo implies b.subrange(i + lo, i + hi)[k] == p.subrange(
            lo,
            hi,
        )[k] by {
            lemma_subrange_index(b, i, p, lo + k);
        }
    }
}

/// Wherever the number token of a reading `v` sits in `b`, the token parser
/// reads exactly `v` and stops just past the token.
proof fn lemma_parse_num_rep(b: Seq<u8>, i: int, v: u32)
    requires
        0 <= i,
        v <= MAX_TENTHS,
        i + num_rep(v).len() <= b.len(),
        b.subrange(i, i + num_rep(v).len() as int) == num_rep(v),
    ensures
        parse_num_at(b, i) == Some((v, i + num_rep(v).len() as int)),
{
    let w = (v / 10) as nat;
    let f = (v % 10) as int;
    let nr = num_rep(v);
    if v < 100 {
        assert(dec_rep(w) =~= seq![digit_byte(w as int)]);
        assert(nr =~= seq![digit_byte(w as int), DOT, digit_byte(f)]);
        lemma_subrange_index(b, i, nr, 0);
        lemma_subrange_index(b, i, nr, 1);
        lemma_subrange_index(b, i, nr, 2);
        assert(parse_num_at(b, i) == Some((v, i + 3)));
    } else if v < 1000 {
        assert(10 <= w < 100);
        assert(dec_rep(w / 10) =~= seq![digit_byte((w / 10) as int)]);
        assert(dec_rep(w) =~= seq![digit_byte((w / 10) as int), digit_byte((w % 10) as int)]);
        assert(nr =~= seq![
            digit_byte((w / 10) as int),
            digit_byte((w % 10) as int),
            DOT,
            digit_byte(f),
        ]);
        lemma_subrange_index(b, i, nr, 0);
        lemma_subrange_index(b, i, nr, 1);
        lemma_subrange_index(b, i, nr, 2);
        lemma_subrange_index(b, i, nr, 3);
        assert(b[i + 1] != DOT);
        assert(b[i] != digit_byte(0));
        assert((digit_val(b[i]) * 10 + digit_val(b[i + 1])) * 10 + digit_val(b[i + 3]) == v as int);
        assert(parse_num_at(b, i) == Some((v, i + 4)));
    } else {
        assert(v == 1000);
        assert(w == 100);
        assert(dec_rep(1 as nat) =~= seq![digit_byte(1)]);
        assert(dec_rep(10 as nat) =~= seq![digit_byte(1), digit_byte(0)]);
        assert(dec_rep(100 as nat) =~= seq![digit_byte(1), digit_byte(0), digit_byte(0)]);
        assert(nr =~= seq![digit_byte(1), digit_byte(0), digit_byte(0), DOT, digit_byte(0)]);
        lemma_subrange_index(b, i, nr, 0);
        lemma_subrange_index(b, i, nr, 1);
        lemma_subrange_index(b, i, nr, 2);
        lemma_subrange_index(b, i, nr, 3);
        lemma_subrange_index(b, i, nr, 4);
        assert(b[i + 1] != DOT);
        assert(b[i + 2] != DOT);
        assert((digit_val(b[i]) * 100 + digit_val(b[i + 1]) * 10 + digit_val(b[i + 2])) * 10
            + digit_val(b[i + 4]) == 1000);
        assert(parse_num_at(b, i) == Some((v, i + 5)));
    }
}

/// Wherever the joined number tokens of the readings `s` sit in `b`, with
/// anything but `", "` after them, the list parser reads exactly `s` and
/// stops just past the last token.
proof fn lemma_parse_items_rep(b: Seq<u8>, i: int, s: Seq<u32>)
    requires
        s.len() >= 1,
        forall|t: int| 0 <= t < s.len() ==> s[t] <= MAX_TENTHS,
        0 <= i,
        i + items_rep(s).len() < b.len(),
        b.subrange(i, i + items_rep(s).len() as int) == items_rep(s),
        b[i + items_rep(s).len()] != COMMA,
    ensures
        parse_items_at(b, i) == Some((s, i + items_rep(s).len() as int)),
    decreases s.len(),
{
    let ir = items_rep(s);
    let v = s[0];
    let nr = num_rep(v);
    if s.len() == 1 {
        lemma_parse_num_rep(b, i, v);
        let j = i + nr.len();
        assert(parse_items_at(b, i) == Some((seq![v], j)));
        assert(seq![v] =~= s);
    } else {
        let rest = s.drop_first();
        let irr = items_rep(rest);
        assert(ir == nr + seq![COMMA, SPACE] + irr);
        assert(ir.len() == nr.len() + 2 + irr.len());
        lemma_subrange_slice(b, i, ir, 0, nr.len() as int);
        assert(ir.subrange(0, nr.len() as int) =~= nr);
        lemma_parse_num_rep(b, i, v);
        let j = i + nr.len();
        lemma_subrange_index(b, i, ir, nr.len() as int);
        lemma_subrange_index(b, i, ir, nr.len() as int + 1);
        assert(b[j] == COMMA);
        assert(b[j + 1] == SPACE);
        lemma_subrange_slice(b, i, ir, nr.len() as int + 2, ir.len() as int);
        assert(ir.subrange(nr.len() as int + 2, ir.len() as int) =~= irr);
        assert(b.subrange(j + 2, j + 2 + irr.len() as int) == irr);
        assert(j + 2 + irr.len() == i + ir.len());
        lemma_parse_items_rep(b, j + 2, rest);
        assert(parse_items_at(b, j + 2) == Some((rest, i + ir.len() as int)));
        assert(seq![v] + rest =~= s);
        assert(parse_items_at(b, i) == Some((s, i + ir.len() as int)));
    }
}

/// Round trip: the wire message of any snapshot parses back to exactly the
/// same per-core readings.
pub proof fn lemma_wire_round_trip(s: Seq<u32>)
    requires
        forall|i: int| 0 <= i < s.len() ==> s[i] <= MAX_TENTHS,
    ensures
        parse_wire(wire_of(s)) == Some(s),
{
    let b = wire_of(s);
    let ir = items_rep(s);
    assert(b.len() == ir.len() + 2);
    assert(b[0] == OPEN_BRACKET);
    assert(b[b.len() - 1] == CLOSE_BRACKET);
    if s.len() == 0 {
        assert(ir.len() == 0);
        assert(b.len() == 2);
        assert(parse_wire(b) == Some(Seq::<u32>::empty()));
        assert(Seq::<u32>::empty() =~= s);
    } else {
        lemma_dec_rep_len_pos((s[0] / 10) as nat);
        assert(ir.len() >= 3);
        assert(b.subrange(1, 1 + ir.len() as int) =~= ir);
        assert(b[1 + ir.len() as int] == CLOSE_BRACKET);
        lemma_parse_items_rep(b, 1, s);
        assert(parse_items_at(b, 1) == Some((s, 1 + ir.len() as int)));
        assert(1 + ir.len() == b.len() - 1);
        assert(parse_wire(b) == Some(s));
    }
}

/// Every reading that `parse_items_at` yields is at most `MAX_TENTHS`.
proof fn lemma_parse_items_bounded(b: Seq<u8>, i: int)
    ensures
        parse_items_at(b, i) matches Some((s, j)) ==> forall|t: int|
            0 <= t < s.len() ==> s[t] <= MAX_TENTHS,
    decreases b.len() - i,
{
    if parse_items_at(b, i) is Some {
        let (v, j) = parse_num_at(b, i)->Some_0;
        if i < j && j + 2 <= b.len() && b[j] == COMMA && b[j + 1] == SPACE {
            lemma_parse_items_bounded(b, j + 2);
        }
    }
}

} // verus!
