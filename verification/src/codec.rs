//! A plain-text serialization of the domain types, written and proved
//! here: every number is a fixed-width base-16 numeral, every string is
//! length-prefixed, and every composite is the concatenation of its
//! fields. Decoding an encoding gives back every field exactly; the
//! round-trip lemmas state that over the types' views.

use vstd::prelude::*;
use crate::game::{GameStage, GameState, PlayerAction};
use crate::player::Player;
use crate::errors::{JoinError, RoomError};
use crate::room::{Room, RoomState};
use crate::types::{AvatarId, ImageId, PlayerId, RoomId};

verus! {

/// 16 to the power `w`.
pub open spec fn pow16(w: nat) -> nat
    decreases w,
{
    if w == 0 {
        1
    } else {
        16 * pow16((w - 1) as nat)
    }
}

/// The character standing for the base-16 digit `d`: the digits
/// followed by the next six characters of the ASCII table.
pub open spec fn digit_char(d: int) -> char {
    if d == 0 { '0' }
    else if d == 1 { '1' }
    else if d == 2 { '2' }
    else if d == 3 { '3' }
    else if d == 4 { '4' }
    else if d == 5 { '5' }
    else if d == 6 { '6' }
    else if d == 7 { '7' }
    else if d == 8 { '8' }
    else if d == 9 { '9' }
    else if d == 10 { ':' }
    else if d == 11 { ';' }
    else if d == 12 { '<' }
    else if d == 13 { '=' }
    else if d == 14 { '>' }
    else { '?' }
}

/// The digit a character stands for; -1 if it stands for none.
pub open spec fn digit_val(c: char) -> int {
    if c == '0' { 0 }
    else if c == '1' { 1 }
    else if c == '2' { 2 }
    else if c == '3' { 3 }
    else if c == '4' { 4 }
    else if c == '5' { 5 }
    else if c == '6' { 6 }
    else if c == '7' { 7 }
    else if c == '8' { 8 }
    else if c == '9' { 9 }
    else if c == ':' { 10 }
    else if c == ';' { 11 }
    else if c == '<' { 12 }
    else if c == '=' { 13 }
    else if c == '>' { 14 }
    else if c == '?' { 15 }
    else { -1 }
}

/// Whether `c` stands for a base-16 digit.
pub open spec fn is_digit(c: char) -> bool {
    digit_val(c) >= 0
}

/// Whether every character of `s` stands for a base-16 digit.
pub open spec fn all_digits(s: Seq<char>) -> bool {
    forall|i: int| 0 <= i < s.len() ==> is_digit(#[trigger] s[i])
}

/// The `w`-digit numeral of `k`, most significant digit first.
pub open spec fn enc_nat(k: int, w: nat) -> Seq<char>
    decreases w,
{
    if w == 0 {
        Seq::empty()
    } else {
        enc_nat(k / 16, (w - 1) as nat).push(digit_char(k % 16))
    }
}

/// The value of the numeral `s`.
pub open spec fn val_of(s: Seq<char>) -> int
    decreases s.len(),
{
    if s.len() == 0 {
        0
    } else {
        val_of(s.drop_last()) * 16 + digit_val(s.last())
    }
}

/// Read a `w`-digit numeral off the front of `s`: its value and the
/// rest.
pub open spec fn dec_nat(s: Seq<char>, w: nat) -> Option<(int, Seq<char>)> {
    if s.len() >= w && all_digits(s.take(w as int)) {
        Some((val_of(s.take(w as int)), s.skip(w as int)))
    } else {
        None
    }
}

/// A numeral is `w` digit characters, and its value is what was encoded,
/// for any `k` below `16^w`.
pub proof fn lemma_enc_nat(k: int, w: nat)
    requires
        0 <= k < pow16(w),
    ensures
        enc_nat(k, w).len() == w,
        all_digits(enc_nat(k, w)),
        val_of(enc_nat(k, w)) == k,
    decreases w,
{
    if w > 0 {
        let q = k / 16;
        let r = k % 16;
        assert(k == 16 * q + r && 0 <= r < 16);
        assert(q < pow16((w - 1) as nat)) by (nonlinear_arith)
            requires
                0 <= k < 16 * pow16((w - 1) as nat),
                q == k / 16,
        ;
        lemma_enc_nat(q, (w - 1) as nat);
        let s = enc_nat(k, w);
        assert(s.drop_last() =~= enc_nat(q, (w - 1) as nat));
        assert(s.last() == digit_char(r));
        assert(digit_val(digit_char(r)) == r);
        assert(val_of(s) == val_of(s.drop_last()) * 16 + digit_val(s.last()));
        assert forall|i: int| 0 <= i < s.len() implies is_digit(#[trigger] s[i]) by {
            if i < s.len() - 1 {
                assert(s[i] == enc_nat(q, (w - 1) as nat)[i]);
            } else {
                assert(s[i] == digit_char(r));
            }
        }
    }
}

/// Decoding a `w`-digit numeral followed by anything gives back the
/// value and that remainder.
pub proof fn lemma_nat_round_trip(k: int, w: nat, tail: Seq<char>)
    requires
        0 <= k < pow16(w),
    ensures
        dec_nat(enc_nat(k, w) + tail, w) == Some((k, tail)),
{
    lemma_enc_nat(k, w);
    let s = enc_nat(k, w) + tail;
    assert(s.take(w as int) =~= enc_nat(k, w));
    assert(s.skip(w as int) =~= tail);
}

/// The concrete powers of 16 the widths used here rely on: two digits
/// hold a `u8`, eight a `u32`, sixteen a `u64`, and thirty-two a `u128`.
pub proof fn lemma_pow16_widths()
    ensures
        pow16(2) == 0x100,
        pow16(8) == 0x1_0000_0000,
        pow16(16) == 0x1_0000_0000_0000_0000,
        pow16(32) == 0x1_0000_0000_0000_0000_0000_0000_0000_0000,
{
    assert(pow16(0) == 1);
    assert(pow16(1) == 0x10);
    assert(pow16(2) == 0x100);
    assert(pow16(3) == 0x1000);
    assert(pow16(4) == 0x1_0000);
    assert(pow16(5) == 0x10_0000);
    assert(pow16(6) == 0x100_0000);
    assert(pow16(7) == 0x1000_0000);
    assert(pow16(8) == 0x1_0000_0000);
    assert(pow16(9) == 0x10_0000_0000);
    assert(pow16(10) == 0x100_0000_0000);
    assert(pow16(11) == 0x1000_0000_0000);
    assert(pow16(12) == 0x1_0000_0000_0000);
    assert(pow16(13) == 0x10_0000_0000_0000);
    assert(pow16(14) == 0x100_0000_0000_0000);
    assert(pow16(15) == 0x1000_0000_0000_0000);
    assert(pow16(16) == 0x1_0000_0000_0000_0000);
    assert(pow16(17) == 0x10_0000_0000_0000_0000);
    assert(pow16(18) == 0x100_0000_0000_0000_0000);
    assert(pow16(19) == 0x1000_0000_0000_0000_0000);
    assert(pow16(20) == 0x1_0000_0000_0000_0000_0000);
    assert(pow16(21) == 0x10_0000_0000_0000_0000_0000);
    assert(pow16(22) == 0x100_0000_0000_0000_0000_0000);
    assert(pow16(23) == 0x1000_0000_0000_0000_0000_0000);
    assert(pow16(24) == 0x1_0000_0000_0000_0000_0000_0000);
    assert(pow16(25) == 0x10_0000_0000_0000_0000_0000_0000);
    assert(pow16(26) == 0x100_0000_0000_0000_0000_0000_0000);
    assert(pow16(27) == 0x1000_0000_0000_0000_0000_0000_0000);
    assert(pow16(28) == 0x1_0000_0000_0000_0000_0000_0000_0000);
    assert(pow16(29) == 0x10_0000_0000_0000_0000_0000_0000_0000);
    assert(pow16(30) == 0x100_0000_0000_0000_0000_0000_0000_0000);
    assert(pow16(31) == 0x1000_0000_0000_0000_0000_0000_0000_0000);
    assert(pow16(32) == 0x1_0000_0000_0000_0000_0000_0000_0000_0000);
}

/// The character for the digit `d`, as executable code.
fn digit_char_exec(d: u8) -> (r: char)
    requires
        d < 16,
    ensures
        r == digit_char(d as int),
{
    match d {
        0 => '0',
        1 => '1',
        2 => '2',
        3 => '3',
        4 => '4',
        5 => '5',
        6 => '6',
        7 => '7',
        8 => '8',
        9 => '9',
        10 => ':',
        11 => ';',
        12 => '<',
        13 => '=',
        14 => '>',
        _ => '?',
    }
}

/// The digit the character stands for, as executable code.
fn digit_val_exec(c: char) -> (r: Option<u8>)
    ensures
        match r {
            Some(d) => is_digit(c) && d == digit_val(c) && d < 16,
            None => !is_digit(c),
        },
{
    match c {
        '0' => Some(0),
        '1' => Some(1),
        '2' => Some(2),
        '3' => Some(3),
        '4' => Some(4),
        '5' => Some(5),
        '6' => Some(6),
        '7' => Some(7),
        '8' => Some(8),
        '9' => Some(9),
        ':' => Some(10),
        ';' => Some(11),
        '<' => Some(12),
        '=' => Some(13),
        '>' => Some(14),
        '?' => Some(15),
        _ => None,
    }
}

/// The `w`-digit numeral of `k`, as executable code.
fn enc_nat_exec(k: u128, w: u8) -> (r: Vec<char>)
    ensures
        r@ == enc_nat(k as int, w as nat),
    decreases w,
{
    if w == 0 {
        Vec::new()
    } else {
        let mut r = enc_nat_exec(k / 16, w - 1);
        let d = (k % 16) as u8;
        r.push(digit_char_exec(d));
        r
    }
}

/// Read a `w`-digit numeral at position `pos`, returning its value and
/// the position after it.
fn dec_nat_exec(s: &Vec<char>, pos: usize, w: u8) -> (r: Option<(u128, usize)>)
    requires
        pos <= s@.len(),
        w <= 32,
    ensures
        match r {
            Some(v) => {
                &&& dec_nat(s@.skip(pos as int), w as nat) == Some((
                    v.0 as int,
                    s@.skip(v.1 as int),
                ))
                &&& v.1 == pos + w
                &&& v.1 <= s@.len()
                &&& v.0 < pow16(w as nat)
            },
            None => dec_nat(s@.skip(pos as int), w as nat) is None,
        },
{
    proof {
        lemma_pow16_widths();
    }
    let n = s.len();
    if n - pos < w as usize {
        return None;
    }
    let ghost sub = s@.skip(pos as int).take(w as int);
    let mut acc: u128 = 0;
    let mut i: usize = 0;
    while i < w as usize
        invariant
            n == s@.len(),
            i <= w as usize,
            w <= 32,
            pos + w as usize <= s@.len(),
            sub == s@.skip(pos as int).take(w as int),
            all_digits(sub.take(i as int)),
            acc == val_of(sub.take(i as int)),
            acc < pow16(i as nat),
        decreases w as usize - i,
    {
        let c = s[pos + i];
        let looked = digit_val_exec(c);
        let d: u128 = match looked {
            Some(d8) => d8 as u128,
            None => {
                proof {
                    assert(sub[i as int] == s@[pos + i]);
                    assert(!is_digit(sub[i as int]));
                }
                return None;
            },
        };
        proof {
            assert(sub[i as int] == s@[pos + i]);
            assert(is_digit(sub[i as int]));
            assert(digit_val(sub[i as int]) == d);
            assert(acc * 16 + d < pow16((i + 1) as nat)) by (nonlinear_arith)
                requires
                    acc < pow16(i as nat),
                    0 <= d < 16,
                    pow16((i + 1) as nat) == 16 * pow16(i as nat),
            ;
            lemma_pow16_mono(i as nat + 1, 32);
            lemma_pow16_widths();
            assert(sub.take(i as int + 1).drop_last() =~= sub.take(i as int));
            assert(sub.take(i as int + 1).last() == sub[i as int]);
        }
        acc = acc * 16 + d;
        i += 1;
    }
    proof {
        assert(sub.take(w as int) =~= sub);
    }
    Some((acc, pos + w as usize))
}

/// A boolean as one character.
pub open spec fn enc_bool(b: bool) -> Seq<char> {
    seq![if b { '1' } else { '0' }]
}

/// Read a boolean off the front of `s`.
pub open spec fn dec_bool(s: Seq<char>) -> Option<(bool, Seq<char>)> {
    if s.len() >= 1 && (s[0] == '0' || s[0] == '1') {
        Some((s[0] == '1', s.skip(1)))
    } else {
        None
    }
}

/// Decoding an encoded boolean gives it back.
pub proof fn lemma_bool_round_trip(b: bool, tail: Seq<char>)
    ensures
        dec_bool(enc_bool(b) + tail) == Some((b, tail)),
{
    let s = enc_bool(b) + tail;
    assert(s[0] == (if b { '1' } else { '0' }));
    assert(s.skip(1) =~= tail);
}

/// A string as its length followed by its characters.
pub open spec fn enc_str(t: Seq<char>) -> Seq<char> {
    enc_nat(t.len() as int, 16) + t
}

/// Read a length-prefixed string off the front of `s`.
pub open spec fn dec_str(s: Seq<char>) -> Option<(Seq<char>, Seq<char>)> {
    match dec_nat(s, 16) {
        Some(header) => {
            if header.1.len() >= header.0 {
                Some((header.1.take(header.0), header.1.skip(header.0)))
            } else {
                None
            }
        },
        None => None,
    }
}

/// Decoding an encoded string gives back exactly its characters.
pub proof fn lemma_str_round_trip(t: Seq<char>, tail: Seq<char>)
    requires
        t.len() < pow16(16),
    ensures
        dec_str(enc_str(t) + tail) == Some((t, tail)),
{
    assert(enc_str(t) + tail =~= enc_nat(t.len() as int, 16) + (t + tail));
    lemma_nat_round_trip(t.len() as int, 16, t + tail);
    assert((t + tail).take(t.len() as int) =~= t);
    assert((t + tail).skip(t.len() as int) =~= tail);
}

/// An optional number as a presence flag followed, when present, by the
/// number at width 16.
pub open spec fn enc_opt_u64(o: Option<u64>) -> Seq<char> {
    match o {
        None => enc_bool(false),
        Some(v) => enc_bool(true) + enc_nat(v as int, 16),
    }
}

/// Read an optional number off the front of `s`.
pub open spec fn dec_opt_u64(s: Seq<char>) -> Option<(Option<u64>, Seq<char>)> {
    match dec_bool(s) {
        Some(flag) => {
            if !flag.0 {
                Some((None, flag.1))
            } else {
                match dec_nat(flag.1, 16) {
                    Some(num) => Some((Some(num.0 as u64), num.1)),
                    None => None,
                }
            }
        },
        None => None,
    }
}

/// Decoding an encoded optional number gives it back.
pub proof fn lemma_opt_u64_round_trip(o: Option<u64>, tail: Seq<char>)
    ensures
        dec_opt_u64(enc_opt_u64(o) + tail) == Some((o, tail)),
{
    lemma_pow16_widths();
    match o {
        None => {
            lemma_bool_round_trip(false, tail);
        },
        Some(v) => {
            assert(enc_opt_u64(o) + tail =~= enc_bool(true) + (enc_nat(v as int, 16) + tail));
            lemma_bool_round_trip(true, enc_nat(v as int, 16) + tail);
            lemma_nat_round_trip(v as int, 16, tail);
        },
    }
}

/// A sequence of items, encoded back to back.
pub open spec fn enc_items<T>(s: Seq<T>, f: spec_fn(T) -> Seq<char>) -> Seq<char>
    decreases s.len(),
{
    if s.len() == 0 {
        Seq::empty()
    } else {
        f(s[0]) + enc_items(s.skip(1), f)
    }
}

/// A vector as its length followed by its items.
pub open spec fn enc_list<T>(s: Seq<T>, f: spec_fn(T) -> Seq<char>) -> Seq<char> {
    enc_nat(s.len() as int, 16) + enc_items(s, f)
}

/// Read `n` items off the front of `s`, each with the decoder `g`.
pub open spec fn dec_items<V>(
    s: Seq<char>,
    n: nat,
    g: spec_fn(Seq<char>) -> Option<(V, Seq<char>)>,
) -> Option<(Seq<V>, Seq<char>)>
    decreases n,
{
    if n == 0 {
        Some((Seq::empty(), s))
    } else {
        match g(s) {
            Some(head) => {
                match dec_items(head.1, (n - 1) as nat, g) {
                    Some(rest) => Some((seq![head.0] + rest.0, rest.1)),
                    None => None,
                }
            },
            None => None,
        }
    }
}

/// Read a length-prefixed list off the front of `s`.
pub open spec fn dec_list<V>(
    s: Seq<char>,
    g: spec_fn(Seq<char>) -> Option<(V, Seq<char>)>,
) -> Option<(Seq<V>, Seq<char>)> {
    match dec_nat(s, 16) {
        Some(header) => dec_items(header.1, header.0 as nat, g),
        None => None,
    }
}

/// If the element decoder inverts the element encoder on every element
/// of `s`, decoding the encoded items gives back their views in order.
pub proof fn lemma_items_round_trip<T, V>(
    s: Seq<T>,
    f: spec_fn(T) -> Seq<char>,
    g: spec_fn(Seq<char>) -> Option<(V, Seq<char>)>,
    view: spec_fn(T) -> V,
    tail: Seq<char>,
)
    requires
        forall|i: int, t: Seq<char>| 0 <= i < s.len() ==> #[trigger] g(f(s[i]) + t) == Some(
            (view(s[i]), t),
        ),
    ensures
        dec_items(enc_items(s, f) + tail, s.len(), g) == Some((s.map_values(view), tail)),
    decreases s.len(),
{
    if s.len() == 0 {
        assert(enc_items(s, f) + tail =~= tail);
        assert(s.map_values(view) =~= Seq::<V>::empty());
    } else {
        let rest = s.skip(1);
        assert(enc_items(s, f) + tail =~= f(s[0]) + (enc_items(rest, f) + tail));
        assert(g(f(s[0]) + (enc_items(rest, f) + tail)) == Some(
            (view(s[0]), enc_items(rest, f) + tail),
        ));
        assert forall|i: int, t: Seq<char>| 0 <= i < rest.len() implies #[trigger] g(
            f(rest[i]) + t,
        ) == Some((view(rest[i]), t)) by {
            assert(rest[i] == s[i + 1]);
        }
        lemma_items_round_trip(rest, f, g, view, tail);
        assert(seq![view(s[0])] + rest.map_values(view) =~= s.map_values(view));
    }
}

/// Decoding an encoded list gives back the views of its items.
pub proof fn lemma_list_round_trip<T, V>(
    s: Seq<T>,
    f: spec_fn(T) -> Seq<char>,
    g: spec_fn(Seq<char>) -> Option<(V, Seq<char>)>,
    view: spec_fn(T) -> V,
    tail: Seq<char>,
)
    requires
        s.len() < pow16(16),
        forall|i: int, t: Seq<char>| 0 <= i < s.len() ==> #[trigger] g(f(s[i]) + t) == Some(
            (view(s[i]), t),
        ),
    ensures
        dec_list(enc_list(s, f) + tail, g) == Some((s.map_values(view), tail)),
{
    assert(enc_list(s, f) + tail =~= enc_nat(s.len() as int, 16) + (enc_items(s, f) + tail));
    lemma_nat_round_trip(s.len() as int, 16, enc_items(s, f) + tail);
    lemma_items_round_trip(s, f, g, view, tail);
}

/// `pow16` is monotone in its exponent.
pub proof fn lemma_pow16_mono(a: nat, b: nat)
    requires
        a <= b,
    ensures
        pow16(a) <= pow16(b),
    decreases b,
{
    if a < b {
        lemma_pow16_mono(a, (b - 1) as nat);
        assert(pow16(b) == 16 * pow16((b - 1) as nat));
        assert(pow16((b - 1) as nat) <= 16 * pow16((b - 1) as nat)) by (nonlinear_arith)
            requires
                pow16((b - 1) as nat) >= 0,
        ;
    }
}

/// A stage as one digit.
pub open spec fn stage_tag(st: GameStage) -> int {
    match st {
        GameStage::RevealGoal => 0,
        GameStage::PlayerTurn => 1,
        GameStage::Voting => 2,
        GameStage::Results => 3,
    }
}

/// A stage, encoded as its tag.
pub open spec fn enc_stage(st: GameStage) -> Seq<char> {
    enc_nat(stage_tag(st), 1)
}

/// Read a stage off the front of `s`.
pub open spec fn dec_stage(s: Seq<char>) -> Option<(GameStage, Seq<char>)> {
    match dec_nat(s, 1) {
        Some(p) => {
            if p.0 == 0 {
                Some((GameStage::RevealGoal, p.1))
            } else if p.0 == 1 {
                Some((GameStage::PlayerTurn, p.1))
            } else if p.0 == 2 {
                Some((GameStage::Voting, p.1))
            } else if p.0 == 3 {
                Some((GameStage::Results, p.1))
            } else {
                None
            }
        },
        None => None,
    }
}

/// Decoding an encoded stage gives it back.
pub proof fn lemma_stage_round_trip(st: GameStage, tail: Seq<char>)
    ensures
        dec_stage(enc_stage(st) + tail) == Some((st, tail)),
{
    assert(pow16(0) == 1);
    assert(pow16(1) == 16);
    lemma_nat_round_trip(stage_tag(st), 1, tail);
}

/// A room state as one digit.
pub open spec fn state_tag(st: RoomState) -> int {
    match st {
        RoomState::Lobby => 0,
        RoomState::InGame => 1,
        RoomState::Finished => 2,
    }
}

/// A room state, encoded as its tag.
pub open spec fn enc_state(st: RoomState) -> Seq<char> {
    enc_nat(state_tag(st), 1)
}

/// Read a room state off the front of `s`.
pub open spec fn dec_state(s: Seq<char>) -> Option<(RoomState, Seq<char>)> {
    match dec_nat(s, 1) {
        Some(p) => {
            if p.0 == 0 {
                Some((RoomState::Lobby, p.1))
            } else if p.0 == 1 {
                Some((RoomState::InGame, p.1))
            } else if p.0 == 2 {
                Some((RoomState::Finished, p.1))
            } else {
                None
            }
        },
        None => None,
    }
}

/// Decoding an encoded room state gives it back.
pub proof fn lemma_state_round_trip(st: RoomState, tail: Seq<char>)
    ensures
        dec_state(enc_state(st) + tail) == Some((st, tail)),
{
    assert(pow16(0) == 1);
    assert(pow16(1) == 16);
    lemma_nat_round_trip(state_tag(st), 1, tail);
}

/// An optional index as a presence flag followed, when present, by the
/// index at width 16.
pub open spec fn enc_opt_usize(o: Option<usize>) -> Seq<char> {
    match o {
        None => enc_bool(false),
        Some(v) => enc_bool(true) + enc_nat(v as int, 16),
    }
}

/// Read an optional index off the front of `s`.
pub open spec fn dec_opt_usize(s: Seq<char>) -> Option<(Option<usize>, Seq<char>)> {
    match dec_bool(s) {
        Some(flag) => {
            if !flag.0 {
                Some((None, flag.1))
            } else {
                match dec_nat(flag.1, 16) {
                    Some(num) => {
                        if num.0 <= usize::MAX as int {
                            Some((Some(num.0 as usize), num.1))
                        } else {
                            None
                        }
                    },
                    None => None,
                }
            }
        },
        None => None,
    }
}

/// Decoding an encoded optional index gives it back.
pub proof fn lemma_opt_usize_round_trip(o: Option<usize>, tail: Seq<char>)
    ensures
        dec_opt_usize(enc_opt_usize(o) + tail) == Some((o, tail)),
{
    lemma_pow16_widths();
    match o {
        None => {
            lemma_bool_round_trip(false, tail);
        },
        Some(v) => {
            assert(enc_opt_usize(o) + tail =~= enc_bool(true) + (enc_nat(v as int, 16) + tail));
            lemma_bool_round_trip(true, enc_nat(v as int, 16) + tail);
            lemma_nat_round_trip(v as int, 16, tail);
        },
    }
}

/// The mathematical content of a player record.
pub ghost struct PlayerV {
    /// The identifier's bits.
    pub id_bits: u128,
    /// The nickname's characters.
    pub nickname: Seq<char>,
    /// The avatar number.
    pub avatar: u8,
    /// The connection flag.
    pub connected: bool,
}

/// The view of a player record.
pub open spec fn player_view(p: Player) -> PlayerV {
    PlayerV { id_bits: p.id@, nickname: p.nickname@, avatar: p.avatar_id@, connected: p.connected }
}

/// Whether a player record's fields fit the encoding's widths.
pub open spec fn player_encodable(p: Player) -> bool {
    &&& p.nickname@.len() < pow16(16)
    &&& p.avatar_id@ < 10
}

/// A player record, field by field.
pub open spec fn enc_player(p: Player) -> Seq<char> {
    enc_nat(p.id@ as int, 32) + enc_str(p.nickname@) + enc_nat(p.avatar_id@ as int, 2) + enc_bool(
        p.connected,
    )
}

/// Read a player record off the front of `s`.
pub open spec fn dec_player(s: Seq<char>) -> Option<(PlayerV, Seq<char>)> {
    match dec_nat(s, 32) {
        Some(idp) => match dec_str(idp.1) {
            Some(np) => match dec_nat(np.1, 2) {
                Some(ap) => {
                    if ap.0 < 10 {
                        match dec_bool(ap.1) {
                            Some(cp) => Some(
                                (
                                    PlayerV {
                                        id_bits: idp.0 as u128,
                                        nickname: np.0,
                                        avatar: ap.0 as u8,
                                        connected: cp.0,
                                    },
                                    cp.1,
                                ),
                            ),
                            None => None,
                        }
                    } else {
                        None
                    }
                },
                None => None,
            },
            None => None,
        },
        None => None,
    }
}

/// Decoding an encoded player record gives back its view.
pub proof fn lemma_player_round_trip(p: Player, tail: Seq<char>)
    requires
        player_encodable(p),
    ensures
        dec_player(enc_player(p) + tail) == Some((player_view(p), tail)),
{
    lemma_pow16_widths();
    let t3 = tail;
    let t2 = enc_bool(p.connected) + t3;
    let t1 = enc_nat(p.avatar_id@ as int, 2) + t2;
    let t0 = enc_str(p.nickname@) + t1;
    assert(enc_player(p) + tail =~= enc_nat(p.id@ as int, 32) + t0);
    lemma_nat_round_trip(p.id@ as int, 32, t0);
    assert(t0 =~= enc_str(p.nickname@) + t1);
    lemma_str_round_trip(p.nickname@, t1);
    lemma_nat_round_trip(p.avatar_id@ as int, 2, t2);
    lemma_bool_round_trip(p.connected, t3);
}

/// The mathematical content of a recorded action.
pub ghost struct ActionV {
    /// The acting player's identifier bits.
    pub player_bits: u128,
    /// The round the action fell in.
    pub round: u32,
    /// The chosen option, if any.
    pub option_chosen: Option<usize>,
    /// The modification text.
    pub modification: Seq<char>,
    /// The resulting object text.
    pub resulting_object: Seq<char>,
}

/// The view of a recorded action.
pub open spec fn action_view(a: PlayerAction) -> ActionV {
    ActionV {
        player_bits: a.player_id@,
        round: a.round,
        option_chosen: a.option_chosen,
        modification: a.modification@,
        resulting_object: a.resulting_object@,
    }
}

/// Whether an action record's fields fit the encoding's widths.
pub open spec fn action_encodable(a: PlayerAction) -> bool {
    &&& a.modification@.len() < pow16(16)
    &&& a.resulting_object@.len() < pow16(16)
}

/// A recorded action, field by field.
pub open spec fn enc_action(a: PlayerAction) -> Seq<char> {
    enc_nat(a.player_id@ as int, 32) + enc_nat(a.round as int, 8) + enc_opt_usize(a.option_chosen)
        + enc_str(a.modification@) + enc_str(a.resulting_object@)
}

/// Read a recorded action off the front of `s`.
pub open spec fn dec_action(s: Seq<char>) -> Option<(ActionV, Seq<char>)> {
    match dec_nat(s, 32) {
        Some(pp) => match dec_nat(pp.1, 8) {
            Some(rp) => match dec_opt_usize(rp.1) {
                Some(op) => match dec_str(op.1) {
                    Some(mp) => match dec_str(mp.1) {
                        Some(obp) => Some(
                            (
                                ActionV {
                                    player_bits: pp.0 as u128,
                                    round: rp.0 as u32,
                                    option_chosen: op.0,
                                    modification: mp.0,
                                    resulting_object: obp.0,
                                },
                                obp.1,
                            ),
                        ),
                        None => None,
                    },
                    None => None,
                },
                None => None,
            },
            None => None,
        },
        None => None,
    }
}

/// Decoding an encoded action gives back its view.
pub proof fn lemma_action_round_trip(a: PlayerAction, tail: Seq<char>)
    requires
        action_encodable(a),
    ensures
        dec_action(enc_action(a) + tail) == Some((action_view(a), tail)),
{
    lemma_pow16_widths();
    let t4 = tail;
    let t3 = enc_str(a.resulting_object@) + t4;
    let t2 = enc_str(a.modification@) + t3;
    let t1 = enc_opt_usize(a.option_chosen) + t2;
    let t0 = enc_nat(a.round as int, 8) + t1;
    assert(enc_action(a) + tail =~= enc_nat(a.player_id@ as int, 32) + t0);
    lemma_nat_round_trip(a.player_id@ as int, 32, t0);
    assert(t0 =~= enc_nat(a.round as int, 8) + t1);
    lemma_nat_round_trip(a.round as int, 8, t1);
    lemma_opt_usize_round_trip(a.option_chosen, t2);
    lemma_str_round_trip(a.modification@, t3);
    lemma_str_round_trip(a.resulting_object@, t4);
}

/// The view of one object-map entry.
pub open spec fn obj_view(e: (PlayerId, String)) -> (u128, Seq<char>) {
    (e.0@, e.1@)
}

/// One object-map entry: the player's identifier and the object text.
pub open spec fn enc_obj(e: (PlayerId, String)) -> Seq<char> {
    enc_nat(e.0@ as int, 32) + enc_str(e.1@)
}

/// Read one object-map entry off the front of `s`.
pub open spec fn dec_obj(s: Seq<char>) -> Option<((u128, Seq<char>), Seq<char>)> {
    match dec_nat(s, 32) {
        Some(ip) => match dec_str(ip.1) {
            Some(tp) => Some(((ip.0 as u128, tp.0), tp.1)),
            None => None,
        },
        None => None,
    }
}

/// Decoding an encoded object-map entry gives back its view.
pub proof fn lemma_obj_round_trip(e: (PlayerId, String), tail: Seq<char>)
    requires
        e.1@.len() < pow16(16),
    ensures
        dec_obj(enc_obj(e) + tail) == Some((obj_view(e), tail)),
{
    lemma_pow16_widths();
    let t0 = enc_str(e.1@) + tail;
    assert(enc_obj(e) + tail =~= enc_nat(e.0@ as int, 32) + t0);
    lemma_nat_round_trip(e.0@ as int, 32, t0);
    lemma_str_round_trip(e.1@, tail);
}

/// The view of one ballot entry.
pub open spec fn ballot_entry_view(e: (PlayerId, u8)) -> (u128, u8) {
    (e.0@, e.1)
}

/// One ballot entry: the target's identifier and the stars.
pub open spec fn enc_ballot_entry(e: (PlayerId, u8)) -> Seq<char> {
    enc_nat(e.0@ as int, 32) + enc_nat(e.1 as int, 2)
}

/// Read one ballot entry off the front of `s`.
pub open spec fn dec_ballot_entry(s: Seq<char>) -> Option<((u128, u8), Seq<char>)> {
    match dec_nat(s, 32) {
        Some(ip) => match dec_nat(ip.1, 2) {
            Some(sp) => Some(((ip.0 as u128, sp.0 as u8), sp.1)),
            None => None,
        },
        None => None,
    }
}

/// Decoding an encoded ballot entry gives back its view.
pub proof fn lemma_ballot_entry_round_trip(e: (PlayerId, u8), tail: Seq<char>)
    ensures
        dec_ballot_entry(enc_ballot_entry(e) + tail) == Some((ballot_entry_view(e), tail)),
{
    lemma_pow16_widths();
    let t0 = enc_nat(e.1 as int, 2) + tail;
    assert(enc_ballot_entry(e) + tail =~= enc_nat(e.0@ as int, 32) + t0);
    lemma_nat_round_trip(e.0@ as int, 32, t0);
    lemma_nat_round_trip(e.1 as int, 2, tail);
}

/// The view of one vote-store entry: the voter and the ballot.
pub open spec fn vote_view(e: (PlayerId, Vec<(PlayerId, u8)>)) -> (u128, Seq<(u128, u8)>) {
    (e.0@, e.1@.map_values(|x: (PlayerId, u8)| ballot_entry_view(x)))
}

/// One vote-store entry: the voter's identifier and the ballot list.
pub open spec fn enc_vote(e: (PlayerId, Vec<(PlayerId, u8)>)) -> Seq<char> {
    enc_nat(e.0@ as int, 32) + enc_list(e.1@, |x: (PlayerId, u8)| enc_ballot_entry(x))
}

/// Read one vote-store entry off the front of `s`.
pub open spec fn dec_vote(s: Seq<char>) -> Option<((u128, Seq<(u128, u8)>), Seq<char>)> {
    match dec_nat(s, 32) {
        Some(ip) => {
            match dec_list(ip.1, |t: Seq<char>| dec_ballot_entry(t)) {
                Some(bp) => Some(((ip.0 as u128, bp.0), bp.1)),
                None => None,
            }
        },
        None => None,
    }
}

/// Decoding an encoded vote-store entry gives back its view.
pub proof fn lemma_vote_round_trip(e: (PlayerId, Vec<(PlayerId, u8)>), tail: Seq<char>)
    requires
        e.1@.len() < pow16(16),
    ensures
        dec_vote(enc_vote(e) + tail) == Some((vote_view(e), tail)),
{
    lemma_pow16_widths();
    let f = |x: (PlayerId, u8)| enc_ballot_entry(x);
    let g = |t: Seq<char>| dec_ballot_entry(t);
    let view = |x: (PlayerId, u8)| ballot_entry_view(x);
    let t0 = enc_list(e.1@, f) + tail;
    assert(enc_vote(e) + tail =~= enc_nat(e.0@ as int, 32) + t0);
    lemma_nat_round_trip(e.0@ as int, 32, t0);
    assert forall|i: int, t: Seq<char>| 0 <= i < e.1@.len() implies #[trigger] g(f(e.1@[i]) + t)
        == Some((view(e.1@[i]), t)) by {
        lemma_ballot_entry_round_trip(e.1@[i], t);
    }
    lemma_list_round_trip(e.1@, f, g, view, tail);
}


/// The mathematical content of a game state.
pub ghost struct GameStateV {
    /// The goal image handle's characters.
    pub goal_image: Seq<char>,
    /// The communal goal text.
    pub communal_goal: Seq<char>,
    /// The starting image handle's characters.
    pub starting_image: Seq<char>,
    /// The current image handle's characters.
    pub current_image: Seq<char>,
    /// The starting objects, one per player.
    pub starting_objects: Seq<(u128, Seq<char>)>,
    /// The current objects, one per player.
    pub current_objects: Seq<(u128, Seq<char>)>,
    /// The stage.
    pub stage: GameStage,
    /// The turn order, as identifier bits.
    pub players: Seq<u128>,
    /// The current turn index.
    pub current_turn_index: usize,
    /// The round cap.
    pub max_rounds: u32,
    /// The current round.
    pub current_round: u32,
    /// The recorded actions.
    pub actions: Seq<ActionV>,
    /// The current options.
    pub current_options: Seq<Seq<char>>,
    /// When the current turn started.
    pub turn_start_time: Option<u64>,
    /// The stored ballots.
    pub votes: Seq<(u128, Seq<(u128, u8)>)>,
    /// The voters so far.
    pub players_who_voted: Seq<u128>,
    /// When the current stage started.
    pub stage_start_time: u64,
}

/// The view of a game state.
pub open spec fn game_view(g: GameState) -> GameStateV {
    GameStateV {
        goal_image: g.goal_image@,
        communal_goal: g.communal_goal@,
        starting_image: g.starting_image@,
        current_image: g.current_image@,
        starting_objects: g.player_starting_objects@.map_values(
            |e: (PlayerId, String)| obj_view(e),
        ),
        current_objects: g.player_current_objects@.map_values(|e: (PlayerId, String)| obj_view(e)),
        stage: g.stage,
        players: g.players_in_order@.map_values(|x: PlayerId| x@),
        current_turn_index: g.current_turn_index,
        max_rounds: g.max_rounds,
        current_round: g.current_round,
        actions: g.actions@.map_values(|a: PlayerAction| action_view(a)),
        current_options: g.current_options@.map_values(|t: String| t@),
        turn_start_time: g.turn_start_time,
        votes: g.votes@.map_values(|e: (PlayerId, Vec<(PlayerId, u8)>)| vote_view(e)),
        players_who_voted: g.players_who_voted@.map_values(|x: PlayerId| x@),
        stage_start_time: g.stage_start_time,
    }
}

/// Whether a game state's fields fit the encoding's widths.
pub open spec fn game_encodable(g: GameState) -> bool {
    &&& g.goal_image@.len() < pow16(16)
    &&& g.communal_goal@.len() < pow16(16)
    &&& g.starting_image@.len() < pow16(16)
    &&& g.current_image@.len() < pow16(16)
    &&& g.player_starting_objects@.len() < pow16(16)
    &&& (forall|i: int| 0 <= i < g.player_starting_objects@.len()
        ==> (#[trigger] g.player_starting_objects@[i]).1@.len() < pow16(16))
    &&& g.player_current_objects@.len() < pow16(16)
    &&& (forall|i: int| 0 <= i < g.player_current_objects@.len()
        ==> (#[trigger] g.player_current_objects@[i]).1@.len() < pow16(16))
    &&& g.players_in_order@.len() < pow16(16)
    &&& g.actions@.len() < pow16(16)
    &&& (forall|i: int| 0 <= i < g.actions@.len() ==> action_encodable(#[trigger] g.actions@[i]))
    &&& g.current_options@.len() < pow16(16)
    &&& (forall|i: int| 0 <= i < g.current_options@.len()
        ==> (#[trigger] g.current_options@[i])@.len() < pow16(16))
    &&& g.votes@.len() < pow16(16)
    &&& (forall|i: int| 0 <= i < g.votes@.len() ==> (#[trigger] g.votes@[i]).1@.len() < pow16(16))
    &&& g.players_who_voted@.len() < pow16(16)
}

/// A game state, field by field.
#[verifier::opaque]
pub open spec fn enc_game(g: GameState) -> Seq<char> {
    enc_str(g.goal_image@) + enc_str(g.communal_goal@) + enc_str(g.starting_image@) + enc_str(
        g.current_image@,
    ) + enc_list(g.player_starting_objects@, |e: (PlayerId, String)| enc_obj(e)) + enc_list(
        g.player_current_objects@,
        |e: (PlayerId, String)| enc_obj(e),
    ) + enc_stage(g.stage) + enc_list(g.players_in_order@, |x: PlayerId| enc_nat(x@ as int, 32))
        + enc_nat(g.current_turn_index as int, 16) + enc_nat(g.max_rounds as int, 8) + enc_nat(
        g.current_round as int,
        8,
    ) + enc_list(g.actions@, |a: PlayerAction| enc_action(a)) + enc_list(
        g.current_options@,
        |t: String| enc_str(t@),
    ) + enc_opt_u64(g.turn_start_time) + enc_list(
        g.votes@,
        |e: (PlayerId, Vec<(PlayerId, u8)>)| enc_vote(e),
    ) + enc_list(g.players_who_voted@, |x: PlayerId| enc_nat(x@ as int, 32)) + enc_nat(
        g.stage_start_time as int,
        16,
    )
}

/// Read an identifier off the front of `s`.
pub open spec fn dec_id(s: Seq<char>) -> Option<(u128, Seq<char>)> {
    match dec_nat(s, 32) {
        Some(p) => Some((p.0 as u128, p.1)),
        None => None,
    }
}

/// Read a 16-digit machine-sized number off the front of `s`.
pub open spec fn dec_usize16(s: Seq<char>) -> Option<(usize, Seq<char>)> {
    match dec_nat(s, 16) {
        Some(p) => {
            if p.0 <= usize::MAX as int {
                Some((p.0 as usize, p.1))
            } else {
                None
            }
        },
        None => None,
    }
}

/// Read a game state off the front of `s`.
#[verifier::opaque]
pub open spec fn dec_game(s: Seq<char>) -> Option<(GameStateV, Seq<char>)> {
    match dec_str(s) {
        Some(goal) => match dec_str(goal.1) {
            Some(cg) => match dec_str(cg.1) {
                Some(si) => match dec_str(si.1) {
                    Some(ci) => match dec_list(ci.1, |t: Seq<char>| dec_obj(t)) {
                        Some(so) => match dec_list(so.1, |t: Seq<char>| dec_obj(t)) {
                            Some(co) => match dec_stage(co.1) {
                                Some(st) => match dec_list(st.1, |t: Seq<char>| dec_id(t)) {
                                    Some(po) => match dec_usize16(po.1) {
                                        Some(ti) => match dec_nat(ti.1, 8) {
                                            Some(mr) => match dec_nat(mr.1, 8) {
                                                Some(cr) => match dec_list(
                                                    cr.1,
                                                    |t: Seq<char>| dec_action(t),
                                                ) {
                                                    Some(ac) => match dec_list(
                                                        ac.1,
                                                        |t: Seq<char>| dec_str(t),
                                                    ) {
                                                        Some(oo) => match dec_opt_u64(oo.1) {
                                                            Some(ts) => match dec_list(
                                                                ts.1,
                                                                |t: Seq<char>| dec_vote(t),
                                                            ) {
                                                                Some(vo) => match dec_list(
                                                                    vo.1,
                                                                    |t: Seq<char>| dec_id(t),
                                                                ) {
                                                                    Some(pv) => match dec_nat(
                                                                        pv.1,
                                                                        16,
                                                                    ) {
                                                                        Some(ss) => Some(
                                                                            (
                                                                                GameStateV {
                                                                                    goal_image: goal.0,
                                                                                    communal_goal: cg.0,
                                                                                    starting_image: si.0,
                                                                                    current_image: ci.0,
                                                                                    starting_objects: so.0,
                                                                                    current_objects: co.0,
                                                                                    stage: st.0,
                                                                                    players: po.0,
                                                                                    current_turn_index: ti.0,
                                                                                    max_rounds: mr.0 as u32,
                                                                                    current_round: cr.0 as u32,
                                                                                    actions: ac.0,
                                                                                    current_options: oo.0,
                                                                                    turn_start_time: ts.0,
                                                                                    votes: vo.0,
                                                                                    players_who_voted: pv.0,
                                                                                    stage_start_time: ss.0 as u64,
                                                                                },
                                                                                ss.1,
                                                                            ),
                                                                        ),
                                                                        None => None,
                                                                    },
                                                                    None => None,
                                                                },
                                                                None => None,
                                                            },
                                                            None => None,
                                                        },
                                                        None => None,
                                                    },
                                                    None => None,
                                                },
                                                None => None,
                                            },
                                            None => None,
                                        },
                                        None => None,
                                    },
                                    None => None,
                                },
                                None => None,
                            },
                            None => None,
                        },
                        None => None,
                    },
                    None => None,
                },
                None => None,
            },
            None => None,
        },
        None => None,
    }
}

/// Decoding an encoded identifier gives back its bits.
pub proof fn lemma_id_round_trip(x: PlayerId, tail: Seq<char>)
    ensures
        dec_id(enc_nat(x@ as int, 32) + tail) == Some((x@, tail)),
{
    lemma_pow16_widths();
    lemma_nat_round_trip(x@ as int, 32, tail);
}

/// Decoding an encoded game state gives back its view.
#[verifier::rlimit(100)]
#[verifier::spinoff_prover]
pub proof fn lemma_game_round_trip(g: GameState, tail: Seq<char>)
    requires
        game_encodable(g),
    ensures
        dec_game(enc_game(g) + tail) == Some((game_view(g), tail)),
{
    reveal(enc_game);
    reveal(dec_game);
    lemma_pow16_widths();
    let f_obj = |e: (PlayerId, String)| enc_obj(e);
    let g_obj = |t: Seq<char>| dec_obj(t);
    let v_obj = |e: (PlayerId, String)| obj_view(e);
    let f_id = |x: PlayerId| enc_nat(x@ as int, 32);
    let g_id = |t: Seq<char>| dec_id(t);
    let v_id = |x: PlayerId| x@;
    let f_act = |a: PlayerAction| enc_action(a);
    let g_act = |t: Seq<char>| dec_action(t);
    let v_act = |a: PlayerAction| action_view(a);
    let f_str = |t: String| enc_str(t@);
    let g_str = |t: Seq<char>| dec_str(t);
    let v_str = |t: String| t@;
    let f_vote = |e: (PlayerId, Vec<(PlayerId, u8)>)| enc_vote(e);
    let g_vote = |t: Seq<char>| dec_vote(t);
    let v_vote = |e: (PlayerId, Vec<(PlayerId, u8)>)| vote_view(e);

    let t16 = tail;
    let t15 = enc_nat(g.stage_start_time as int, 16) + t16;
    let t14 = enc_list(g.players_who_voted@, f_id) + t15;
    let t13 = enc_list(g.votes@, f_vote) + t14;
    let t12 = enc_opt_u64(g.turn_start_time) + t13;
    let t11 = enc_list(g.current_options@, f_str) + t12;
    let t10 = enc_list(g.actions@, f_act) + t11;
    let t9 = enc_nat(g.current_round as int, 8) + t10;
    let t8 = enc_nat(g.max_rounds as int, 8) + t9;
    let t7 = enc_nat(g.current_turn_index as int, 16) + t8;
    let t6 = enc_list(g.players_in_order@, f_id) + t7;
    let t5 = enc_stage(g.stage) + t6;
    let t4 = enc_list(g.player_current_objects@, f_obj) + t5;
    let t3 = enc_list(g.player_starting_objects@, f_obj) + t4;
    let t2 = enc_str(g.current_image@) + t3;
    let t1 = enc_str(g.starting_image@) + t2;
    let t0 = enc_str(g.communal_goal@) + t1;
    assert(enc_game(g) + tail =~= enc_str(g.goal_image@) + t0);
    lemma_str_round_trip(g.goal_image@, t0);
    lemma_str_round_trip(g.communal_goal@, t1);
    lemma_str_round_trip(g.starting_image@, t2);
    lemma_str_round_trip(g.current_image@, t3);
    assert forall|i: int, t: Seq<char>|
        0 <= i < g.player_starting_objects@.len() implies #[trigger] g_obj(
        f_obj(g.player_starting_objects@[i]) + t,
    ) == Some((v_obj(g.player_starting_objects@[i]), t)) by {
        lemma_obj_round_trip(g.player_starting_objects@[i], t);
    }
    lemma_list_round_trip(g.player_starting_objects@, f_obj, g_obj, v_obj, t4);
    assert forall|i: int, t: Seq<char>|
        0 <= i < g.player_current_objects@.len() implies #[trigger] g_obj(
        f_obj(g.player_current_objects@[i]) + t,
    ) == Some((v_obj(g.player_current_objects@[i]), t)) by {
        lemma_obj_round_trip(g.player_current_objects@[i], t);
    }
    lemma_list_round_trip(g.player_current_objects@, f_obj, g_obj, v_obj, t5);
    lemma_stage_round_trip(g.stage, t6);
    assert forall|i: int, t: Seq<char>| 0 <= i < g.players_in_order@.len() implies #[trigger] g_id(
        f_id(g.players_in_order@[i]) + t,
    ) == Some((v_id(g.players_in_order@[i]), t)) by {
        lemma_id_round_trip(g.players_in_order@[i], t);
    }
    lemma_list_round_trip(g.players_in_order@, f_id, g_id, v_id, t7);
    lemma_nat_round_trip(g.current_turn_index as int, 16, t8);
    lemma_nat_round_trip(g.max_rounds as int, 8, t9);
    lemma_nat_round_trip(g.current_round as int, 8, t10);
    assert forall|i: int, t: Seq<char>| 0 <= i < g.actions@.len() implies #[trigger] g_act(
        f_act(g.actions@[i]) + t,
    ) == Some((v_act(g.actions@[i]), t)) by {
        lemma_action_round_trip(g.actions@[i], t);
    }
    lemma_list_round_trip(g.actions@, f_act, g_act, v_act, t11);
    assert forall|i: int, t: Seq<char>| 0 <= i < g.current_options@.len() implies #[trigger] g_str(
        f_str(g.current_options@[i]) + t,
    ) == Some((v_str(g.current_options@[i]), t)) by {
        lemma_str_round_trip(g.current_options@[i]@, t);
    }
    lemma_list_round_trip(g.current_options@, f_str, g_str, v_str, t12);
    lemma_opt_u64_round_trip(g.turn_start_time, t13);
    assert forall|i: int, t: Seq<char>| 0 <= i < g.votes@.len() implies #[trigger] g_vote(
        f_vote(g.votes@[i]) + t,
    ) == Some((v_vote(g.votes@[i]), t)) by {
        lemma_vote_round_trip(g.votes@[i], t);
    }
    lemma_list_round_trip(g.votes@, f_vote, g_vote, v_vote, t14);
    assert forall|i: int, t: Seq<char>| 0 <= i < g.players_who_voted@.len() implies #[trigger] g_id(
        f_id(g.players_who_voted@[i]) + t,
    ) == Some((v_id(g.players_who_voted@[i]), t)) by {
        lemma_id_round_trip(g.players_who_voted@[i], t);
    }
    lemma_list_round_trip(g.players_who_voted@, f_id, g_id, v_id, t15);
    lemma_nat_round_trip(g.stage_start_time as int, 16, t16);
}

/// The mathematical content of a room.
pub ghost struct RoomV {
    /// The identifier's bits.
    pub id_bits: u128,
    /// The code's characters.
    pub code: Seq<char>,
    /// The roster, in join order.
    pub players: Seq<PlayerV>,
    /// The lifecycle state.
    pub state: RoomState,
    /// The embedded game, if any.
    pub game: Option<GameStateV>,
}

/// The view of a room.
pub open spec fn room_view(r: Room) -> RoomV {
    RoomV {
        id_bits: r.id@,
        code: r.code@,
        players: r.players@.map_values(|p: Player| player_view(p)),
        state: r.state,
        game: match r.game {
            Some(g) => Some(game_view(g)),
            None => None,
        },
    }
}

/// Whether a room's fields fit the encoding's widths.
pub open spec fn room_encodable(r: Room) -> bool {
    &&& r.code@.len() < pow16(16)
    &&& r.players@.len() < pow16(16)
    &&& (forall|i: int| 0 <= i < r.players@.len() ==> player_encodable(#[trigger] r.players@[i]))
    &&& match r.game {
        Some(g) => game_encodable(g),
        None => true,
    }
}

/// An optional game as a presence flag followed, when present, by the
/// game.
pub open spec fn enc_opt_game(o: Option<GameState>) -> Seq<char> {
    match o {
        None => enc_bool(false),
        Some(g) => enc_bool(true) + enc_game(g),
    }
}

/// Read an optional game off the front of `s`.
pub open spec fn dec_opt_game(s: Seq<char>) -> Option<(Option<GameStateV>, Seq<char>)> {
    match dec_bool(s) {
        Some(flag) => {
            if !flag.0 {
                Some((None, flag.1))
            } else {
                match dec_game(flag.1) {
                    Some(gp) => Some((Some(gp.0), gp.1)),
                    None => None,
                }
            }
        },
        None => None,
    }
}

/// A room, field by field.
pub open spec fn enc_room(r: Room) -> Seq<char> {
    enc_nat(r.id@ as int, 32) + enc_str(r.code@) + enc_list(
        r.players@,
        |p: Player| enc_player(p),
    ) + enc_state(r.state) + enc_opt_game(r.game)
}

/// Read a room off the front of `s`.
pub open spec fn dec_room(s: Seq<char>) -> Option<(RoomV, Seq<char>)> {
    match dec_nat(s, 32) {
        Some(ip) => match dec_str(ip.1) {
            Some(cp) => match dec_list(cp.1, |t: Seq<char>| dec_player(t)) {
                Some(pp) => match dec_state(pp.1) {
                    Some(sp) => match dec_opt_game(sp.1) {
                        Some(gp) => Some(
                            (
                                RoomV {
                                    id_bits: ip.0 as u128,
                                    code: cp.0,
                                    players: pp.0,
                                    state: sp.0,
                                    game: gp.0,
                                },
                                gp.1,
                            ),
                        ),
                        None => None,
                    },
                    None => None,
                },
                None => None,
            },
            None => None,
        },
        None => None,
    }
}

/// Round-trip law: decoding an encoded room gives back every field of
/// its view exactly — identifier, code, roster, state and, when present,
/// the whole embedded game.
#[verifier::rlimit(100)]
#[verifier::spinoff_prover]
pub proof fn lemma_room_round_trip(r: Room, tail: Seq<char>)
    requires
        room_encodable(r),
    ensures
        dec_room(enc_room(r) + tail) == Some((room_view(r), tail)),
{
    lemma_pow16_widths();
    let f_pl = |p: Player| enc_player(p);
    let g_pl = |t: Seq<char>| dec_player(t);
    let v_pl = |p: Player| player_view(p);
    let t3 = tail;
    let t2 = enc_opt_game(r.game) + t3;
    let t1 = enc_state(r.state) + t2;
    let t0 = enc_str(r.code@) + t1;
    assert(enc_room(r) + tail =~= enc_nat(r.id@ as int, 32) + (enc_str(r.code@) + (enc_list(
        r.players@,
        f_pl,
    ) + t1)));
    lemma_nat_round_trip(r.id@ as int, 32, enc_str(r.code@) + (enc_list(r.players@, f_pl) + t1));
    lemma_str_round_trip(r.code@, enc_list(r.players@, f_pl) + t1);
    assert forall|i: int, t: Seq<char>| 0 <= i < r.players@.len() implies #[trigger] g_pl(
        f_pl(r.players@[i]) + t,
    ) == Some((v_pl(r.players@[i]), t)) by {
        lemma_player_round_trip(r.players@[i], t);
    }
    lemma_list_round_trip(r.players@, f_pl, g_pl, v_pl, t1);
    lemma_state_round_trip(r.state, t2);
    match r.game {
        None => {
            lemma_bool_round_trip(false, t3);
        },
        Some(g) => {
            assert(enc_opt_game(r.game) + t3 =~= enc_bool(true) + (enc_game(g) + t3));
            lemma_bool_round_trip(true, enc_game(g) + t3);
            lemma_game_round_trip(g, t3);
        },
    }
}


/// A length-prefixed string, as executable code.
fn enc_str_exec(t: &str) -> (r: Vec<char>)
    ensures
        r@ == enc_str(t@),
{
    let mut chars = crate::text::string_to_chars(t);
    let mut out = enc_nat_exec(chars.len() as u128, 16);
    out.append(&mut chars);
    out
}

/// A boolean flag character, appended in place.
fn push_bool(out: &mut Vec<char>, b: bool)
    ensures
        final(out)@ == old(out)@ + enc_bool(b),
{
    out.push(if b { '1' } else { '0' });
    proof {
        assert(out@ =~= old(out)@ + enc_bool(b));
    }
}

/// A player record, as executable code.
fn encode_player_chars(p: &Player) -> (r: Vec<char>)
    ensures
        r@ == enc_player(*p),
{
    let mut out = enc_nat_exec(p.id.as_bits(), 32);
    let mut nick = enc_str_exec(p.nickname.as_str());
    out.append(&mut nick);
    let mut av = enc_nat_exec(p.avatar_id.as_u8() as u128, 2);
    out.append(&mut av);
    push_bool(&mut out, p.connected);
    out
}

/// A recorded action, as executable code.
fn encode_action_chars(a: &PlayerAction) -> (r: Vec<char>)
    ensures
        r@ == enc_action(*a),
{
    let mut out = enc_nat_exec(a.player_id.as_bits(), 32);
    let mut rd = enc_nat_exec(a.round as u128, 8);
    out.append(&mut rd);
    match a.option_chosen {
        None => {
            push_bool(&mut out, false);
        },
        Some(idx) => {
            push_bool(&mut out, true);
            let mut ix = enc_nat_exec(idx as u128, 16);
            out.append(&mut ix);
        },
    }
    let mut m = enc_str_exec(a.modification.as_str());
    out.append(&mut m);
    let mut ro = enc_str_exec(a.resulting_object.as_str());
    out.append(&mut ro);
    proof {
        assert(out@ =~= enc_action(*a));
    }
    out
}

/// One object-map entry, as executable code.
fn encode_obj_chars(e: &(PlayerId, String)) -> (r: Vec<char>)
    ensures
        r@ == enc_obj(*e),
{
    let mut out = enc_nat_exec(e.0.as_bits(), 32);
    let mut t = enc_str_exec(e.1.as_str());
    out.append(&mut t);
    out
}

/// One ballot entry, as executable code.
fn encode_ballot_entry_chars(e: &(PlayerId, u8)) -> (r: Vec<char>)
    ensures
        r@ == enc_ballot_entry(*e),
{
    let mut out = enc_nat_exec(e.0.as_bits(), 32);
    let mut st = enc_nat_exec(e.1 as u128, 2);
    out.append(&mut st);
    out
}

/// A list of object-map entries, as executable code.
#[verifier::loop_isolation(false)]
fn encode_objs_chars(v: &Vec<(PlayerId, String)>) -> (r: Vec<char>)
    ensures
        r@ == enc_list(v@, |e: (PlayerId, String)| enc_obj(e)),
{
    let ghost f = |e: (PlayerId, String)| enc_obj(e);
    let mut out = enc_nat_exec(v.len() as u128, 16);
    let n = v.len();
    let mut i: usize = 0;
    while i < n
        invariant
            n == v@.len(),
            i <= n,
            out@ == enc_nat(n as int, 16) + enc_items(v@.take(i as int), f),
        decreases n - i,
    {
        let mut piece = encode_obj_chars(&v[i]);
        out.append(&mut piece);
        proof {
            lemma_enc_items_snoc(v@, i as int, f);
            assert(out@ =~= enc_nat(n as int, 16) + enc_items(v@.take(i as int + 1), f));
        }
        i += 1;
    }
    proof {
        assert(v@.take(n as int) =~= v@);
    }
    out
}

/// Splitting the encoded items after one more element appends that
/// element's encoding.
proof fn lemma_enc_items_snoc<T>(s: Seq<T>, i: int, f: spec_fn(T) -> Seq<char>)
    requires
        0 <= i < s.len(),
    ensures
        enc_items(s.take(i + 1), f) == enc_items(s.take(i), f) + f(s[i]),
    decreases i,
{
    if i == 0 {
        assert(s.take(0) =~= Seq::<T>::empty());
        assert(enc_items(s.take(0), f) == Seq::<char>::empty());
        assert(s.take(1).skip(1) =~= Seq::<T>::empty());
        assert(enc_items(s.take(1).skip(1), f) == Seq::<char>::empty());
        assert(enc_items(s.take(1), f) == f(s.take(1)[0]) + enc_items(s.take(1).skip(1), f));
        assert(s.take(1)[0] == s[0]);
        assert(enc_items(s.take(1), f) =~= enc_items(s.take(0), f) + f(s[0]));
    } else {
        let a = s.take(i + 1);
        let b = s.take(i);
        assert(a[0] == s[0] && b[0] == s[0]);
        assert(a.skip(1) =~= s.skip(1).take(i));
        assert(b.skip(1) =~= s.skip(1).take(i - 1));
        lemma_enc_items_snoc(s.skip(1), i - 1, f);
        assert(s.skip(1)[i - 1] == s[i]);
        assert(enc_items(a, f) == f(s[0]) + enc_items(s.skip(1).take(i), f));
        assert(enc_items(b, f) == f(s[0]) + enc_items(s.skip(1).take(i - 1), f));
        assert(enc_items(a, f) =~= enc_items(b, f) + f(s[i]));
    }
}

/// A list of ballot entries, as executable code.
#[verifier::loop_isolation(false)]
fn encode_ballot_chars(v: &Vec<(PlayerId, u8)>) -> (r: Vec<char>)
    ensures
        r@ == enc_list(v@, |e: (PlayerId, u8)| enc_ballot_entry(e)),
{
    let ghost f = |e: (PlayerId, u8)| enc_ballot_entry(e);
    let mut out = enc_nat_exec(v.len() as u128, 16);
    let n = v.len();
    let mut i: usize = 0;
    while i < n
        invariant
            n == v@.len(),
            i <= n,
            out@ == enc_nat(n as int, 16) + enc_items(v@.take(i as int), f),
        decreases n - i,
    {
        let mut piece = encode_ballot_entry_chars(&v[i]);
        out.append(&mut piece);
        proof {
            lemma_enc_items_snoc(v@, i as int, f);
            assert(out@ =~= enc_nat(n as int, 16) + enc_items(v@.take(i as int + 1), f));
        }
        i += 1;
    }
    proof {
        assert(v@.take(n as int) =~= v@);
    }
    out
}

/// One vote-store entry, as executable code.
fn encode_vote_chars(e: &(PlayerId, Vec<(PlayerId, u8)>)) -> (r: Vec<char>)
    ensures
        r@ == enc_vote(*e),
{
    let mut out = enc_nat_exec(e.0.as_bits(), 32);
    let mut b = encode_ballot_chars(&e.1);
    out.append(&mut b);
    out
}

/// The vote store, as executable code.
#[verifier::loop_isolation(false)]
fn encode_votes_chars(v: &Vec<(PlayerId, Vec<(PlayerId, u8)>)>) -> (r: Vec<char>)
    ensures
        r@ == enc_list(v@, |e: (PlayerId, Vec<(PlayerId, u8)>)| enc_vote(e)),
{
    let ghost f = |e: (PlayerId, Vec<(PlayerId, u8)>)| enc_vote(e);
    let mut out = enc_nat_exec(v.len() as u128, 16);
    let n = v.len();
    let mut i: usize = 0;
    while i < n
        invariant
            n == v@.len(),
            i <= n,
            out@ == enc_nat(n as int, 16) + enc_items(v@.take(i as int), f),
        decreases n - i,
    {
        let mut piece = encode_vote_chars(&v[i]);
        out.append(&mut piece);
        proof {
            lemma_enc_items_snoc(v@, i as int, f);
            assert(out@ =~= enc_nat(n as int, 16) + enc_items(v@.take(i as int + 1), f));
        }
        i += 1;
    }
    proof {
        assert(v@.take(n as int) =~= v@);
    }
    out
}

/// A list of identifiers, as executable code.
#[verifier::loop_isolation(false)]
fn encode_ids_chars(v: &Vec<PlayerId>) -> (r: Vec<char>)
    ensures
        r@ == enc_list(v@, |x: PlayerId| enc_nat(x@ as int, 32)),
{
    let ghost f = |x: PlayerId| enc_nat(x@ as int, 32);
    let mut out = enc_nat_exec(v.len() as u128, 16);
    let n = v.len();
    let mut i: usize = 0;
    while i < n
        invariant
            n == v@.len(),
            i <= n,
            out@ == enc_nat(n as int, 16) + enc_items(v@.take(i as int), f),
        decreases n - i,
    {
        let mut piece = enc_nat_exec(v[i].as_bits(), 32);
        out.append(&mut piece);
        proof {
            lemma_enc_items_snoc(v@, i as int, f);
            assert(out@ =~= enc_nat(n as int, 16) + enc_items(v@.take(i as int + 1), f));
        }
        i += 1;
    }
    proof {
        assert(v@.take(n as int) =~= v@);
    }
    out
}

/// A list of option texts, as executable code.
#[verifier::loop_isolation(false)]
fn encode_strs_chars(v: &Vec<String>) -> (r: Vec<char>)
    ensures
        r@ == enc_list(v@, |t: String| enc_str(t@)),
{
    let ghost f = |t: String| enc_str(t@);
    let mut out = enc_nat_exec(v.len() as u128, 16);
    let n = v.len();
    let mut i: usize = 0;
    while i < n
        invariant
            n == v@.len(),
            i <= n,
            out@ == enc_nat(n as int, 16) + enc_items(v@.take(i as int), f),
        decreases n - i,
    {
        let mut piece = enc_str_exec(v[i].as_str());
        out.append(&mut piece);
        proof {
            lemma_enc_items_snoc(v@, i as int, f);
            assert(out@ =~= enc_nat(n as int, 16) + enc_items(v@.take(i as int + 1), f));
        }
        i += 1;
    }
    proof {
        assert(v@.take(n as int) =~= v@);
    }
    out
}

/// The roster, as executable code.
#[verifier::loop_isolation(false)]
fn encode_players_chars(v: &Vec<Player>) -> (r: Vec<char>)
    ensures
        r@ == enc_list(v@, |p: Player| enc_player(p)),
{
    let ghost f = |p: Player| enc_player(p);
    let mut out = enc_nat_exec(v.len() as u128, 16);
    let n = v.len();
    let mut i: usize = 0;
    while i < n
        invariant
            n == v@.len(),
            i <= n,
            out@ == enc_nat(n as int, 16) + enc_items(v@.take(i as int), f),
        decreases n - i,
    {
        let mut piece = encode_player_chars(&v[i]);
        out.append(&mut piece);
        proof {
            lemma_enc_items_snoc(v@, i as int, f);
            assert(out@ =~= enc_nat(n as int, 16) + enc_items(v@.take(i as int + 1), f));
        }
        i += 1;
    }
    proof {
        assert(v@.take(n as int) =~= v@);
    }
    out
}

/// The list of actions, as executable code.
#[verifier::loop_isolation(false)]
fn encode_actions_chars(v: &Vec<PlayerAction>) -> (r: Vec<char>)
    ensures
        r@ == enc_list(v@, |a: PlayerAction| enc_action(a)),
{
    let ghost f = |a: PlayerAction| enc_action(a);
    let mut out = enc_nat_exec(v.len() as u128, 16);
    let n = v.len();
    let mut i: usize = 0;
    while i < n
        invariant
            n == v@.len(),
            i <= n,
            out@ == enc_nat(n as int, 16) + enc_items(v@.take(i as int), f),
        decreases n - i,
    {
        let mut piece = encode_action_chars(&v[i]);
        out.append(&mut piece);
        proof {
            lemma_enc_items_snoc(v@, i as int, f);
            assert(out@ =~= enc_nat(n as int, 16) + enc_items(v@.take(i as int + 1), f));
        }
        i += 1;
    }
    proof {
        assert(v@.take(n as int) =~= v@);
    }
    out
}

/// A whole game state, as executable code.
#[verifier::spinoff_prover]
fn encode_game_chars(g: &GameState) -> (r: Vec<char>)
    ensures
        r@ == enc_game(*g),
{
    let mut out = enc_str_exec(g.goal_image.as_str());
    let mut p2 = enc_str_exec(g.communal_goal.as_str());
    out.append(&mut p2);
    let mut p3 = enc_str_exec(g.starting_image.as_str());
    out.append(&mut p3);
    let mut p4 = enc_str_exec(g.current_image.as_str());
    out.append(&mut p4);
    let mut p5 = encode_objs_chars(&g.player_starting_objects);
    out.append(&mut p5);
    let mut p6 = encode_objs_chars(&g.player_current_objects);
    out.append(&mut p6);
    let tag: u128 = match g.stage {
        GameStage::RevealGoal => 0,
        GameStage::PlayerTurn => 1,
        GameStage::Voting => 2,
        GameStage::Results => 3,
    };
    let mut p7 = enc_nat_exec(tag, 1);
    out.append(&mut p7);
    let mut p8 = encode_ids_chars(&g.players_in_order);
    out.append(&mut p8);
    let mut p9 = enc_nat_exec(g.current_turn_index as u128, 16);
    out.append(&mut p9);
    let mut p10 = enc_nat_exec(g.max_rounds as u128, 8);
    out.append(&mut p10);
    let mut p11 = enc_nat_exec(g.current_round as u128, 8);
    out.append(&mut p11);
    let mut p12 = encode_actions_chars(&g.actions);
    out.append(&mut p12);
    let mut p13 = encode_strs_chars(&g.current_options);
    out.append(&mut p13);
    match g.turn_start_time {
        None => {
            push_bool(&mut out, false);
        },
        Some(ts) => {
            push_bool(&mut out, true);
            let mut p14 = enc_nat_exec(ts as u128, 16);
            out.append(&mut p14);
        },
    }
    let mut p15 = encode_votes_chars(&g.votes);
    out.append(&mut p15);
    let mut p16 = encode_ids_chars(&g.players_who_voted);
    out.append(&mut p16);
    let mut p17 = enc_nat_exec(g.stage_start_time as u128, 16);
    out.append(&mut p17);
    proof {
        reveal(enc_game);
        assert(out@ =~= enc_game(*g));
    }
    out
}

/// A whole room, as executable code.
fn encode_room_chars(r: &Room) -> (res: Vec<char>)
    ensures
        res@ == enc_room(*r),
{
    let mut out = enc_nat_exec(r.id.as_bits(), 32);
    let mut p2 = enc_str_exec(r.code.as_str());
    out.append(&mut p2);
    let mut p3 = encode_players_chars(&r.players);
    out.append(&mut p3);
    let tag: u128 = match r.state {
        RoomState::Lobby => 0,
        RoomState::InGame => 1,
        RoomState::Finished => 2,
    };
    let mut p4 = enc_nat_exec(tag, 1);
    out.append(&mut p4);
    match &r.game {
        None => {
            push_bool(&mut out, false);
        },
        Some(g) => {
            push_bool(&mut out, true);
            let mut p5 = encode_game_chars(g);
            out.append(&mut p5);
        },
    }
    proof {
        assert(out@ =~= enc_room(*r));
    }
    out
}

/// Serialize a player record to text.
pub fn encode_player(p: &Player) -> (r: String)
    ensures
        r@ == enc_player(*p),
{
    let chars = encode_player_chars(p);
    crate::text::chars_to_string(&chars)
}

/// Serialize a game state to text.
pub fn encode_game_state(g: &GameState) -> (r: String)
    ensures
        r@ == enc_game(*g),
{
    let chars = encode_game_chars(g);
    crate::text::chars_to_string(&chars)
}

/// Serialize a room to text.
pub fn encode_room(r: &Room) -> (res: String)
    ensures
        res@ == enc_room(*r),
{
    let chars = encode_room_chars(r);
    crate::text::chars_to_string(&chars)
}


/// Copy `n` characters starting at `pos`.
#[verifier::loop_isolation(false)]
fn read_chars(s: &Vec<char>, pos: usize, n: usize) -> (r: Vec<char>)
    requires
        pos + n <= s@.len(),
    ensures
        r@ == s@.skip(pos as int).take(n as int),
{
    let total = s.len();
    let mut out: Vec<char> = Vec::new();
    let mut i: usize = 0;
    while i < n
        invariant
            total == s@.len(),
            i <= n,
            out@.len() == i,
            forall|j: int| 0 <= j < i ==> out@[j] == s@[pos + j],
        decreases n - i,
    {
        out.push(s[pos + i]);
        i += 1;
    }
    proof {
        assert(out@ =~= s@.skip(pos as int).take(n as int));
    }
    out
}

/// Read a length-prefixed string at `pos`.
fn dec_str_exec(s: &Vec<char>, pos: usize) -> (r: Option<(String, usize)>)
    requires
        pos <= s@.len(),
    ensures
        match r {
            Some(v) => dec_str(s@.skip(pos as int)) == Some((v.0@, s@.skip(v.1 as int))) && pos
                <= v.1 <= s@.len(),
            None => dec_str(s@.skip(pos as int)) is None,
        },
{
    let header = dec_nat_exec(s, pos, 16);
    match header {
        None => None,
        Some((len, pos1)) => {
            if ((s.len() - pos1) as u128) < len {
                return None;
            }
            let ln = len as usize;
            let chars = read_chars(s, pos1, ln);
            let st = crate::text::chars_to_string(&chars);
            proof {
                assert(s@.skip(pos1 as int).skip(len as int) =~= s@.skip(pos1 + ln));
            }
            Some((st, pos1 + ln))
        },
    }
}

/// Read a boolean flag at `pos`.
fn dec_bool_exec(s: &Vec<char>, pos: usize) -> (r: Option<(bool, usize)>)
    requires
        pos <= s@.len(),
    ensures
        match r {
            Some(v) => dec_bool(s@.skip(pos as int)) == Some((v.0, s@.skip(v.1 as int))) && pos
                < v.1 <= s@.len(),
            None => dec_bool(s@.skip(pos as int)) is None,
        },
{
    if pos >= s.len() {
        return None;
    }
    let c = s[pos];
    proof {
        assert(s@.skip(pos as int)[0] == s@[pos as int]);
        assert(s@.skip(pos as int).skip(1) =~= s@.skip(pos as int + 1));
    }
    if c == '0' {
        Some((false, pos + 1))
    } else if c == '1' {
        Some((true, pos + 1))
    } else {
        None
    }
}

/// Read a stage tag at `pos`.
fn dec_stage_exec(s: &Vec<char>, pos: usize) -> (r: Option<(GameStage, usize)>)
    requires
        pos <= s@.len(),
    ensures
        match r {
            Some(v) => dec_stage(s@.skip(pos as int)) == Some((v.0, s@.skip(v.1 as int))) && pos
                <= v.1 <= s@.len(),
            None => dec_stage(s@.skip(pos as int)) is None,
        },
{
    let num = dec_nat_exec(s, pos, 1);
    match num {
        None => None,
        Some((v, pos1)) => {
            if v == 0 {
                Some((GameStage::RevealGoal, pos1))
            } else if v == 1 {
                Some((GameStage::PlayerTurn, pos1))
            } else if v == 2 {
                Some((GameStage::Voting, pos1))
            } else if v == 3 {
                Some((GameStage::Results, pos1))
            } else {
                None
            }
        },
    }
}

/// Read a room-state tag at `pos`.
fn dec_state_exec(s: &Vec<char>, pos: usize) -> (r: Option<(RoomState, usize)>)
    requires
        pos <= s@.len(),
    ensures
        match r {
            Some(v) => dec_state(s@.skip(pos as int)) == Some((v.0, s@.skip(v.1 as int))) && pos
                <= v.1 <= s@.len(),
            None => dec_state(s@.skip(pos as int)) is None,
        },
{
    let num = dec_nat_exec(s, pos, 1);
    match num {
        None => None,
        Some((v, pos1)) => {
            if v == 0 {
                Some((RoomState::Lobby, pos1))
            } else if v == 1 {
                Some((RoomState::InGame, pos1))
            } else if v == 2 {
                Some((RoomState::Finished, pos1))
            } else {
                None
            }
        },
    }
}

/// Read an optional index at `pos`.
fn dec_opt_usize_exec(s: &Vec<char>, pos: usize) -> (r: Option<(Option<usize>, usize)>)
    requires
        pos <= s@.len(),
    ensures
        match r {
            Some(v) => dec_opt_usize(s@.skip(pos as int)) == Some((v.0, s@.skip(v.1 as int)))
                && pos <= v.1 <= s@.len(),
            None => dec_opt_usize(s@.skip(pos as int)) is None,
        },
{
    let flag = dec_bool_exec(s, pos);
    match flag {
        None => None,
        Some((b, pos1)) => {
            if !b {
                Some((None, pos1))
            } else {
                let num = dec_nat_exec(s, pos1, 16);
                match num {
                    None => None,
                    Some((v, pos2)) => {
                        if v > usize::MAX as u128 {
                            None
                        } else {
                            Some((Some(v as usize), pos2))
                        }
                    },
                }
            }
        },
    }
}

/// Read an optional timestamp at `pos`.
fn dec_opt_u64_exec(s: &Vec<char>, pos: usize) -> (r: Option<(Option<u64>, usize)>)
    requires
        pos <= s@.len(),
    ensures
        match r {
            Some(v) => dec_opt_u64(s@.skip(pos as int)) == Some((v.0, s@.skip(v.1 as int))) && pos
                <= v.1 <= s@.len(),
            None => dec_opt_u64(s@.skip(pos as int)) is None,
        },
{
    proof {
        lemma_pow16_widths();
    }
    let flag = dec_bool_exec(s, pos);
    match flag {
        None => None,
        Some((b, pos1)) => {
            if !b {
                Some((None, pos1))
            } else {
                let num = dec_nat_exec(s, pos1, 16);
                match num {
                    None => None,
                    Some((v, pos2)) => Some((Some(v as u64), pos2)),
                }
            }
        },
    }
}

/// Read a player record at `pos`.
fn dec_player_exec(s: &Vec<char>, pos: usize) -> (r: Option<(Player, usize)>)
    requires
        pos <= s@.len(),
    ensures
        match r {
            Some(v) => dec_player(s@.skip(pos as int)) == Some(
                (player_view(v.0), s@.skip(v.1 as int)),
            ) && pos <= v.1 <= s@.len(),
            None => dec_player(s@.skip(pos as int)) is None,
        },
{
    proof {
        lemma_pow16_widths();
    }
    let idp = dec_nat_exec(s, pos, 32);
    match idp {
        None => None,
        Some((bits, pos1)) => {
            let np = dec_str_exec(s, pos1);
            match np {
                None => None,
                Some((nickname, pos2)) => {
                    let ap = dec_nat_exec(s, pos2, 2);
                    match ap {
                        None => None,
                        Some((av, pos3)) => {
                            if av >= 10 {
                                return None;
                            }
                            let cp = dec_bool_exec(s, pos3);
                            match cp {
                                None => None,
                                Some((connected, pos4)) => {
                                    let player = Player {
                                        id: PlayerId::from_bits(bits),
                                        nickname,
                                        avatar_id: AvatarId::new(av as u8),
                                        connected,
                                    };
                                    Some((player, pos4))
                                },
                            }
                        },
                    }
                },
            }
        },
    }
}

/// Read a recorded action at `pos`.
fn dec_action_exec(s: &Vec<char>, pos: usize) -> (r: Option<(PlayerAction, usize)>)
    requires
        pos <= s@.len(),
    ensures
        match r {
            Some(v) => dec_action(s@.skip(pos as int)) == Some(
                (action_view(v.0), s@.skip(v.1 as int)),
            ) && pos <= v.1 <= s@.len(),
            None => dec_action(s@.skip(pos as int)) is None,
        },
{
    proof {
        lemma_pow16_widths();
    }
    let pp = dec_nat_exec(s, pos, 32);
    match pp {
        None => None,
        Some((bits, pos1)) => {
            let rp = dec_nat_exec(s, pos1, 8);
            match rp {
                None => None,
                Some((round, pos2)) => {
                    let op = dec_opt_usize_exec(s, pos2);
                    match op {
                        None => None,
                        Some((option_chosen, pos3)) => {
                            let mp = dec_str_exec(s, pos3);
                            match mp {
                                None => None,
                                Some((modification, pos4)) => {
                                    let obp = dec_str_exec(s, pos4);
                                    match obp {
                                        None => None,
                                        Some((resulting_object, pos5)) => {
                                            let action = PlayerAction {
                                                player_id: PlayerId::from_bits(bits),
                                                round: round as u32,
                                                option_chosen,
                                                modification,
                                                resulting_object,
                                            };
                                            Some((action, pos5))
                                        },
                                    }
                                },
                            }
                        },
                    }
                },
            }
        },
    }
}

/// Read one object-map entry at `pos`.
fn dec_obj_exec(s: &Vec<char>, pos: usize) -> (r: Option<((PlayerId, String), usize)>)
    requires
        pos <= s@.len(),
    ensures
        match r {
            Some(v) => dec_obj(s@.skip(pos as int)) == Some((obj_view(v.0), s@.skip(v.1 as int)))
                && pos <= v.1 <= s@.len(),
            None => dec_obj(s@.skip(pos as int)) is None,
        },
{
    let ip = dec_nat_exec(s, pos, 32);
    match ip {
        None => None,
        Some((bits, pos1)) => {
            let tp = dec_str_exec(s, pos1);
            match tp {
                None => None,
                Some((text, pos2)) => Some(((PlayerId::from_bits(bits), text), pos2)),
            }
        },
    }
}

/// Read one ballot entry at `pos`.
fn dec_ballot_entry_exec(s: &Vec<char>, pos: usize) -> (r: Option<((PlayerId, u8), usize)>)
    requires
        pos <= s@.len(),
    ensures
        match r {
            Some(v) => dec_ballot_entry(s@.skip(pos as int)) == Some(
                (ballot_entry_view(v.0), s@.skip(v.1 as int)),
            ) && pos <= v.1 <= s@.len(),
            None => dec_ballot_entry(s@.skip(pos as int)) is None,
        },
{
    proof {
        lemma_pow16_widths();
    }
    let ip = dec_nat_exec(s, pos, 32);
    match ip {
        None => None,
        Some((bits, pos1)) => {
            let sp = dec_nat_exec(s, pos1, 2);
            match sp {
                None => None,
                Some((stars, pos2)) => Some(((PlayerId::from_bits(bits), stars as u8), pos2)),
            }
        },
    }
}


/// Read `n` player records at `pos`.
fn dec_players_n(s: &Vec<char>, pos: usize, n: u64) -> (r: Option<(Vec<Player>, usize)>)
    requires
        pos <= s@.len(),
    ensures
        match r {
            Some(v) => dec_items(s@.skip(pos as int), n as nat, |t: Seq<char>| dec_player(t))
                == Some(
                (v.0@.map_values(|p: Player| player_view(p)), s@.skip(v.1 as int)),
            ) && pos <= v.1 <= s@.len(),
            None => dec_items(s@.skip(pos as int), n as nat, |t: Seq<char>| dec_player(t))
                is None,
        },
    decreases n,
{
    if n == 0 {
        let out: Vec<Player> = Vec::new();
        proof {
            assert(out@.map_values(|p: Player| player_view(p)) =~= Seq::<PlayerV>::empty());
        }
        Some((out, pos))
    } else {
        let head = dec_player_exec(s, pos);
        match head {
            None => None,
            Some((p, pos1)) => {
                let rest = dec_players_n(s, pos1, n - 1);
                match rest {
                    None => None,
                    Some((mut items, pos2)) => {
                        let ghost pre = items@;
                        items.insert(0, p);
                        proof {
                            let view = |q: Player| player_view(q);
                            assert(items@ =~= seq![p] + pre);
                            assert(items@.map_values(view) =~= seq![player_view(p)]
                                + pre.map_values(view));
                        }
                        Some((items, pos2))
                    },
                }
            },
        }
    }
}

/// Read `n` object-map entries at `pos`.
fn dec_objs_n(s: &Vec<char>, pos: usize, n: u64) -> (r: Option<(Vec<(PlayerId, String)>, usize)>)
    requires
        pos <= s@.len(),
    ensures
        match r {
            Some(v) => dec_items(s@.skip(pos as int), n as nat, |t: Seq<char>| dec_obj(t))
                == Some(
                (v.0@.map_values(|e: (PlayerId, String)| obj_view(e)), s@.skip(v.1 as int)),
            ) && pos <= v.1 <= s@.len(),
            None => dec_items(s@.skip(pos as int), n as nat, |t: Seq<char>| dec_obj(t)) is None,
        },
    decreases n,
{
    if n == 0 {
        let out: Vec<(PlayerId, String)> = Vec::new();
        proof {
            assert(out@.map_values(|e: (PlayerId, String)| obj_view(e)) =~= Seq::<
                (u128, Seq<char>),
            >::empty());
        }
        Some((out, pos))
    } else {
        let head = dec_obj_exec(s, pos);
        match head {
            None => None,
            Some((e, pos1)) => {
                let rest = dec_objs_n(s, pos1, n - 1);
                match rest {
                    None => None,
                    Some((mut items, pos2)) => {
                        let ghost pre = items@;
                        items.insert(0, e);
                        proof {
                            let view = |x: (PlayerId, String)| obj_view(x);
                            assert(items@ =~= seq![e] + pre);
                            assert(items@.map_values(view) =~= seq![obj_view(e)] + pre.map_values(
                                view,
                            ));
                        }
                        Some((items, pos2))
                    },
                }
            },
        }
    }
}

/// Read `n` ballot entries at `pos`.
fn dec_ballot_n(s: &Vec<char>, pos: usize, n: u64) -> (r: Option<(Vec<(PlayerId, u8)>, usize)>)
    requires
        pos <= s@.len(),
    ensures
        match r {
            Some(v) => dec_items(
                s@.skip(pos as int),
                n as nat,
                |t: Seq<char>| dec_ballot_entry(t),
            ) == Some(
                (v.0@.map_values(|e: (PlayerId, u8)| ballot_entry_view(e)), s@.skip(v.1 as int)),
            ) && pos <= v.1 <= s@.len(),
            None => dec_items(s@.skip(pos as int), n as nat, |t: Seq<char>| dec_ballot_entry(t))
                is None,
        },
    decreases n,
{
    if n == 0 {
        let out: Vec<(PlayerId, u8)> = Vec::new();
        proof {
            assert(out@.map_values(|e: (PlayerId, u8)| ballot_entry_view(e)) =~= Seq::<
                (u128, u8),
            >::empty());
        }
        Some((out, pos))
    } else {
        let head = dec_ballot_entry_exec(s, pos);
        match head {
            None => None,
            Some((e, pos1)) => {
                let rest = dec_ballot_n(s, pos1, n - 1);
                match rest {
                    None => None,
                    Some((mut items, pos2)) => {
                        let ghost pre = items@;
                        items.insert(0, e);
                        proof {
                            let view = |x: (PlayerId, u8)| ballot_entry_view(x);
                            assert(items@ =~= seq![e] + pre);
                            assert(items@.map_values(view) =~= seq![ballot_entry_view(e)]
                                + pre.map_values(view));
                        }
                        Some((items, pos2))
                    },
                }
            },
        }
    }
}

/// Read one vote-store entry at `pos`.
fn dec_vote_exec(s: &Vec<char>, pos: usize) -> (r: Option<
    ((PlayerId, Vec<(PlayerId, u8)>), usize),
>)
    requires
        pos <= s@.len(),
    ensures
        match r {
            Some(v) => dec_vote(s@.skip(pos as int)) == Some(
                (vote_view(v.0), s@.skip(v.1 as int)),
            ) && pos <= v.1 <= s@.len(),
            None => dec_vote(s@.skip(pos as int)) is None,
        },
{
    proof {
        lemma_pow16_widths();
    }
    let ip = dec_nat_exec(s, pos, 32);
    match ip {
        None => None,
        Some((bits, pos1)) => {
            let header = dec_nat_exec(s, pos1, 16);
            match header {
                None => None,
                Some((count, pos2)) => {
                    let bp = dec_ballot_n(s, pos2, count as u64);
                    match bp {
                        None => None,
                        Some((ballot, pos3)) => Some(
                            ((PlayerId::from_bits(bits), ballot), pos3),
                        ),
                    }
                },
            }
        },
    }
}

/// Read `n` vote-store entries at `pos`.
fn dec_votes_n(s: &Vec<char>, pos: usize, n: u64) -> (r: Option<
    (Vec<(PlayerId, Vec<(PlayerId, u8)>)>, usize),
>)
    requires
        pos <= s@.len(),
    ensures
        match r {
            Some(v) => dec_items(s@.skip(pos as int), n as nat, |t: Seq<char>| dec_vote(t))
                == Some(
                (
                    v.0@.map_values(|e: (PlayerId, Vec<(PlayerId, u8)>)| vote_view(e)),
                    s@.skip(v.1 as int),
                ),
            ) && pos <= v.1 <= s@.len(),
            None => dec_items(s@.skip(pos as int), n as nat, |t: Seq<char>| dec_vote(t)) is None,
        },
    decreases n,
{
    if n == 0 {
        let out: Vec<(PlayerId, Vec<(PlayerId, u8)>)> = Vec::new();
        proof {
            assert(out@.map_values(|e: (PlayerId, Vec<(PlayerId, u8)>)| vote_view(e)) =~= Seq::<
                (u128, Seq<(u128, u8)>),
            >::empty());
        }
        Some((out, pos))
    } else {
        let head = dec_vote_exec(s, pos);
        match head {
            None => None,
            Some((e, pos1)) => {
                let rest = dec_votes_n(s, pos1, n - 1);
                match rest {
                    None => None,
                    Some((mut items, pos2)) => {
                        let ghost pre = items@;
                        items.insert(0, e);
                        proof {
                            let view = |x: (PlayerId, Vec<(PlayerId, u8)>)| vote_view(x);
                            assert(items@ =~= seq![e] + pre);
                            assert(items@.map_values(view) =~= seq![vote_view(e)]
                                + pre.map_values(view));
                        }
                        Some((items, pos2))
                    },
                }
            },
        }
    }
}

/// Read `n` identifiers at `pos`.
fn dec_ids_n(s: &Vec<char>, pos: usize, n: u64) -> (r: Option<(Vec<PlayerId>, usize)>)
    requires
        pos <= s@.len(),
    ensures
        match r {
            Some(v) => dec_items(s@.skip(pos as int), n as nat, |t: Seq<char>| dec_id(t)) == Some(
                (v.0@.map_values(|x: PlayerId| x@), s@.skip(v.1 as int)),
            ) && pos <= v.1 <= s@.len(),
            None => dec_items(s@.skip(pos as int), n as nat, |t: Seq<char>| dec_id(t)) is None,
        },
    decreases n,
{
    if n == 0 {
        let out: Vec<PlayerId> = Vec::new();
        proof {
            assert(out@.map_values(|x: PlayerId| x@) =~= Seq::<u128>::empty());
        }
        Some((out, pos))
    } else {
        let head = dec_nat_exec(s, pos, 32);
        match head {
            None => None,
            Some((bits, pos1)) => {
                let pid = PlayerId::from_bits(bits);
                let rest = dec_ids_n(s, pos1, n - 1);
                match rest {
                    None => None,
                    Some((mut items, pos2)) => {
                        let ghost pre = items@;
                        items.insert(0, pid);
                        proof {
                            let view = |x: PlayerId| x@;
                            assert(items@ =~= seq![pid] + pre);
                            assert(items@.map_values(view) =~= seq![pid@] + pre.map_values(view));
                        }
                        Some((items, pos2))
                    },
                }
            },
        }
    }
}

/// Read `n` option texts at `pos`.
fn dec_strs_n(s: &Vec<char>, pos: usize, n: u64) -> (r: Option<(Vec<String>, usize)>)
    requires
        pos <= s@.len(),
    ensures
        match r {
            Some(v) => dec_items(s@.skip(pos as int), n as nat, |t: Seq<char>| dec_str(t))
                == Some((v.0@.map_values(|t: String| t@), s@.skip(v.1 as int))) && pos <= v.1
                <= s@.len(),
            None => dec_items(s@.skip(pos as int), n as nat, |t: Seq<char>| dec_str(t)) is None,
        },
    decreases n,
{
    if n == 0 {
        let out: Vec<String> = Vec::new();
        proof {
            assert(out@.map_values(|t: String| t@) =~= Seq::<Seq<char>>::empty());
        }
        Some((out, pos))
    } else {
        let head = dec_str_exec(s, pos);
        match head {
            None => None,
            Some((t, pos1)) => {
                let rest = dec_strs_n(s, pos1, n - 1);
                match rest {
                    None => None,
                    Some((mut items, pos2)) => {
                        let ghost pre = items@;
                        items.insert(0, t);
                        proof {
                            let view = |x: String| x@;
                            assert(items@ =~= seq![t] + pre);
                            assert(items@.map_values(view) =~= seq![t@] + pre.map_values(view));
                        }
                        Some((items, pos2))
                    },
                }
            },
        }
    }
}


/// Read a whole game state at `pos`.
#[verifier::rlimit(100)]
#[verifier::spinoff_prover]
fn dec_game_exec(s: &Vec<char>, pos: usize) -> (r: Option<(GameState, usize)>)
    requires
        pos <= s@.len(),
    ensures
        match r {
            Some(v) => dec_game(s@.skip(pos as int)) == Some(
                (game_view(v.0), s@.skip(v.1 as int)),
            ) && pos <= v.1 <= s@.len(),
            None => dec_game(s@.skip(pos as int)) is None,
        },
{
    proof {
        reveal(dec_game);
        lemma_pow16_widths();
    }
    let goal = match dec_str_exec(s, pos) {
        Some(v) => v,
        None => {
            return None;
        },
    };
    let cg = match dec_str_exec(s, goal.1) {
        Some(v) => v,
        None => {
            return None;
        },
    };
    let si = match dec_str_exec(s, cg.1) {
        Some(v) => v,
        None => {
            return None;
        },
    };
    let ci = match dec_str_exec(s, si.1) {
        Some(v) => v,
        None => {
            return None;
        },
    };
    let so_count = match dec_nat_exec(s, ci.1, 16) {
        Some(v) => v,
        None => {
            return None;
        },
    };
    let so = match dec_objs_n(s, so_count.1, so_count.0 as u64) {
        Some(v) => v,
        None => {
            return None;
        },
    };
    let co_count = match dec_nat_exec(s, so.1, 16) {
        Some(v) => v,
        None => {
            return None;
        },
    };
    let co = match dec_objs_n(s, co_count.1, co_count.0 as u64) {
        Some(v) => v,
        None => {
            return None;
        },
    };
    let st = match dec_stage_exec(s, co.1) {
        Some(v) => v,
        None => {
            return None;
        },
    };
    let po_count = match dec_nat_exec(s, st.1, 16) {
        Some(v) => v,
        None => {
            return None;
        },
    };
    let po = match dec_ids_n(s, po_count.1, po_count.0 as u64) {
        Some(v) => v,
        None => {
            return None;
        },
    };
    let ti = match dec_nat_exec(s, po.1, 16) {
        Some(v) => v,
        None => {
            return None;
        },
    };
    if ti.0 > usize::MAX as u128 {
        return None;
    }
    let mr = match dec_nat_exec(s, ti.1, 8) {
        Some(v) => v,
        None => {
            return None;
        },
    };
    let cr = match dec_nat_exec(s, mr.1, 8) {
        Some(v) => v,
        None => {
            return None;
        },
    };
    let ac_count = match dec_nat_exec(s, cr.1, 16) {
        Some(v) => v,
        None => {
            return None;
        },
    };
    let ac = match dec_actions_n(s, ac_count.1, ac_count.0 as u64) {
        Some(v) => v,
        None => {
            return None;
        },
    };
    let oo_count = match dec_nat_exec(s, ac.1, 16) {
        Some(v) => v,
        None => {
            return None;
        },
    };
    let oo = match dec_strs_n(s, oo_count.1, oo_count.0 as u64) {
        Some(v) => v,
        None => {
            return None;
        },
    };
    let ts = match dec_opt_u64_exec(s, oo.1) {
        Some(v) => v,
        None => {
            return None;
        },
    };
    let vo_count = match dec_nat_exec(s, ts.1, 16) {
        Some(v) => v,
        None => {
            return None;
        },
    };
    let vo = match dec_votes_n(s, vo_count.1, vo_count.0 as u64) {
        Some(v) => v,
        None => {
            return None;
        },
    };
    let pv_count = match dec_nat_exec(s, vo.1, 16) {
        Some(v) => v,
        None => {
            return None;
        },
    };
    let pv = match dec_ids_n(s, pv_count.1, pv_count.0 as u64) {
        Some(v) => v,
        None => {
            return None;
        },
    };
    let ss = match dec_nat_exec(s, pv.1, 16) {
        Some(v) => v,
        None => {
            return None;
        },
    };
    let game = GameState {
        goal_image: ImageId::new(goal.0.as_str()),
        communal_goal: cg.0,
        starting_image: ImageId::new(si.0.as_str()),
        current_image: ImageId::new(ci.0.as_str()),
        player_starting_objects: so.0,
        player_current_objects: co.0,
        stage: st.0,
        players_in_order: po.0,
        current_turn_index: ti.0 as usize,
        max_rounds: mr.0 as u32,
        current_round: cr.0 as u32,
        actions: ac.0,
        current_options: oo.0,
        turn_start_time: ts.0,
        votes: vo.0,
        players_who_voted: pv.0,
        stage_start_time: ss.0 as u64,
    };
    Some((game, ss.1))
}

/// Read `n` recorded actions at `pos`.
fn dec_actions_n(s: &Vec<char>, pos: usize, n: u64) -> (r: Option<(Vec<PlayerAction>, usize)>)
    requires
        pos <= s@.len(),
    ensures
        match r {
            Some(v) => dec_items(s@.skip(pos as int), n as nat, |t: Seq<char>| dec_action(t))
                == Some(
                (v.0@.map_values(|a: PlayerAction| action_view(a)), s@.skip(v.1 as int)),
            ) && pos <= v.1 <= s@.len(),
            None => dec_items(s@.skip(pos as int), n as nat, |t: Seq<char>| dec_action(t))
                is None,
        },
    decreases n,
{
    if n == 0 {
        let out: Vec<PlayerAction> = Vec::new();
        proof {
            assert(out@.map_values(|a: PlayerAction| action_view(a)) =~= Seq::<ActionV>::empty());
        }
        Some((out, pos))
    } else {
        let head = dec_action_exec(s, pos);
        match head {
            None => None,
            Some((a, pos1)) => {
                let rest = dec_actions_n(s, pos1, n - 1);
                match rest {
                    None => None,
                    Some((mut items, pos2)) => {
                        let ghost pre = items@;
                        items.insert(0, a);
                        proof {
                            let view = |x: PlayerAction| action_view(x);
                            assert(items@ =~= seq![a] + pre);
                            assert(items@.map_values(view) =~= seq![action_view(a)]
                                + pre.map_values(view));
                        }
                        Some((items, pos2))
                    },
                }
            },
        }
    }
}

/// Read a whole room at `pos`.
#[verifier::spinoff_prover]
fn dec_room_exec(s: &Vec<char>, pos: usize) -> (r: Option<(Room, usize)>)
    requires
        pos <= s@.len(),
    ensures
        match r {
            Some(v) => dec_room(s@.skip(pos as int)) == Some(
                (room_view(v.0), s@.skip(v.1 as int)),
            ) && pos <= v.1 <= s@.len(),
            None => dec_room(s@.skip(pos as int)) is None,
        },
{
    proof {
        lemma_pow16_widths();
    }
    let ip = match dec_nat_exec(s, pos, 32) {
        Some(v) => v,
        None => {
            return None;
        },
    };
    let cp = match dec_str_exec(s, ip.1) {
        Some(v) => v,
        None => {
            return None;
        },
    };
    let pl_count = match dec_nat_exec(s, cp.1, 16) {
        Some(v) => v,
        None => {
            return None;
        },
    };
    let pl = match dec_players_n(s, pl_count.1, pl_count.0 as u64) {
        Some(v) => v,
        None => {
            return None;
        },
    };
    let sp = match dec_state_exec(s, pl.1) {
        Some(v) => v,
        None => {
            return None;
        },
    };
    let flag = match dec_bool_exec(s, sp.1) {
        Some(v) => v,
        None => {
            return None;
        },
    };
    if !flag.0 {
        let room = Room {
            id: RoomId::from_bits(ip.0 as u128),
            code: cp.0,
            players: pl.0,
            state: sp.0,
            game: None,
        };
        return Some((room, flag.1));
    }
    let gp = match dec_game_exec(s, flag.1) {
        Some(v) => v,
        None => {
            return None;
        },
    };
    let room = Room {
        id: RoomId::from_bits(ip.0 as u128),
        code: cp.0,
        players: pl.0,
        state: sp.0,
        game: Some(gp.0),
    };
    Some((room, gp.1))
}

/// Deserialize a player record from text; `None` unless the whole text
/// is one well-formed encoding.
pub fn decode_player(s: &str) -> (r: Option<Player>)
    ensures
        match r {
            Some(p) => dec_player(s@) == Some((player_view(p), s@.skip(s@.len() as int))),
            None => dec_player(s@) matches Some(pr) ==> pr.1.len() != 0,
        },
{
    let chars = crate::text::string_to_chars(s);
    proof {
        assert(chars@.skip(0) =~= s@);
    }
    let parsed = dec_player_exec(&chars, 0);
    match parsed {
        None => None,
        Some((p, pos)) => {
            if pos == chars.len() {
                Some(p)
            } else {
                None
            }
        },
    }
}

/// Deserialize a game state from text; `None` unless the whole text is
/// one well-formed encoding.
pub fn decode_game_state(s: &str) -> (r: Option<GameState>)
    ensures
        match r {
            Some(g) => dec_game(s@) == Some((game_view(g), s@.skip(s@.len() as int))),
            None => dec_game(s@) matches Some(gr) ==> gr.1.len() != 0,
        },
{
    let chars = crate::text::string_to_chars(s);
    proof {
        assert(chars@.skip(0) =~= s@);
    }
    let parsed = dec_game_exec(&chars, 0);
    match parsed {
        None => None,
        Some((g, pos)) => {
            if pos == chars.len() {
                Some(g)
            } else {
                None
            }
        },
    }
}

/// Deserialize a room from text; `None` unless the whole text is one
/// well-formed encoding.
pub fn decode_room(s: &str) -> (r: Option<Room>)
    ensures
        match r {
            Some(room) => dec_room(s@) == Some((room_view(room), s@.skip(s@.len() as int))),
            None => dec_room(s@) matches Some(rr) ==> rr.1.len() != 0,
        },
{
    let chars = crate::text::string_to_chars(s);
    proof {
        assert(chars@.skip(0) =~= s@);
    }
    let parsed = dec_room_exec(&chars, 0);
    match parsed {
        None => None,
        Some((room, pos)) => {
            if pos == chars.len() {
                Some(room)
            } else {
                None
            }
        },
    }
}


/// The mathematical content of a registry error.
pub ghost enum RoomErrorV {
    /// No room with the given code.
    NotFound(Seq<char>),
    /// No room with the given identifier.
    RoomNotFound,
    /// The identified room is full.
    Full(u128),
    /// The room is full.
    RoomFull,
    /// The identified room's game already started.
    AlreadyStarted(u128),
    /// The game already started.
    GameAlreadyStarted,
    /// The identified player is not in the identified room.
    PlayerNotFound(u128, u128),
    /// The player is not in the room.
    PlayerNotFoundSimple,
    /// The nickname is taken in the identified room.
    NicknameTaken(Seq<char>, u128),
    /// The identified room has too few players.
    NotEnoughPlayers(u128),
    /// The given room code is not valid.
    InvalidCode(Seq<char>),
    /// An internal invariant violation.
    Internal(Seq<char>),
}

/// The view of a registry error.
pub open spec fn room_error_view(e: RoomError) -> RoomErrorV {
    match e {
        RoomError::NotFound(code) => RoomErrorV::NotFound(code@),
        RoomError::RoomNotFound => RoomErrorV::RoomNotFound,
        RoomError::Full(id) => RoomErrorV::Full(id@),
        RoomError::RoomFull => RoomErrorV::RoomFull,
        RoomError::AlreadyStarted(id) => RoomErrorV::AlreadyStarted(id@),
        RoomError::GameAlreadyStarted => RoomErrorV::GameAlreadyStarted,
        RoomError::PlayerNotFound(p, r) => RoomErrorV::PlayerNotFound(p@, r@),
        RoomError::PlayerNotFoundSimple => RoomErrorV::PlayerNotFoundSimple,
        RoomError::NicknameTaken(name, id) => RoomErrorV::NicknameTaken(name@, id@),
        RoomError::NotEnoughPlayers(id) => RoomErrorV::NotEnoughPlayers(id@),
        RoomError::InvalidCode(code) => RoomErrorV::InvalidCode(code@),
        RoomError::Internal(msg) => RoomErrorV::Internal(msg@),
    }
}

/// Whether a registry error's texts fit the encoding's widths.
pub open spec fn room_error_encodable(e: RoomError) -> bool {
    match e {
        RoomError::NotFound(code) => code@.len() < pow16(16),
        RoomError::NicknameTaken(name, _) => name@.len() < pow16(16),
        RoomError::InvalidCode(code) => code@.len() < pow16(16),
        RoomError::Internal(msg) => msg@.len() < pow16(16),
        _ => true,
    }
}

/// A registry error as a tag followed by its payloads.
pub open spec fn enc_room_error(e: RoomError) -> Seq<char> {
    match e {
        RoomError::NotFound(code) => enc_nat(0, 1) + enc_str(code@),
        RoomError::RoomNotFound => enc_nat(1, 1),
        RoomError::Full(id) => enc_nat(2, 1) + enc_nat(id@ as int, 32),
        RoomError::RoomFull => enc_nat(3, 1),
        RoomError::AlreadyStarted(id) => enc_nat(4, 1) + enc_nat(id@ as int, 32),
        RoomError::GameAlreadyStarted => enc_nat(5, 1),
        RoomError::PlayerNotFound(p, r) => enc_nat(6, 1) + enc_nat(p@ as int, 32) + enc_nat(
            r@ as int,
            32,
        ),
        RoomError::PlayerNotFoundSimple => enc_nat(7, 1),
        RoomError::NicknameTaken(name, id) => enc_nat(8, 1) + enc_str(name@) + enc_nat(
            id@ as int,
            32,
        ),
        RoomError::NotEnoughPlayers(id) => enc_nat(9, 1) + enc_nat(id@ as int, 32),
        RoomError::InvalidCode(code) => enc_nat(10, 1) + enc_str(code@),
        RoomError::Internal(msg) => enc_nat(11, 1) + enc_str(msg@),
    }
}

/// Read a registry error off the front of `s`.
pub open spec fn dec_room_error(s: Seq<char>) -> Option<(RoomErrorV, Seq<char>)> {
    match dec_nat(s, 1) {
        Some(tag) => {
            if tag.0 == 0 {
                match dec_str(tag.1) {
                    Some(p) => Some((RoomErrorV::NotFound(p.0), p.1)),
                    None => None,
                }
            } else if tag.0 == 1 {
                Some((RoomErrorV::RoomNotFound, tag.1))
            } else if tag.0 == 2 {
                match dec_nat(tag.1, 32) {
                    Some(p) => Some((RoomErrorV::Full(p.0 as u128), p.1)),
                    None => None,
                }
            } else if tag.0 == 3 {
                Some((RoomErrorV::RoomFull, tag.1))
            } else if tag.0 == 4 {
                match dec_nat(tag.1, 32) {
                    Some(p) => Some((RoomErrorV::AlreadyStarted(p.0 as u128), p.1)),
                    None => None,
                }
            } else if tag.0 == 5 {
                Some((RoomErrorV::GameAlreadyStarted, tag.1))
            } else if tag.0 == 6 {
                match dec_nat(tag.1, 32) {
                    Some(p) => match dec_nat(p.1, 32) {
                        Some(q) => Some(
                            (RoomErrorV::PlayerNotFound(p.0 as u128, q.0 as u128), q.1),
                        ),
                        None => None,
                    },
                    None => None,
                }
            } else if tag.0 == 7 {
                Some((RoomErrorV::PlayerNotFoundSimple, tag.1))
            } else if tag.0 == 8 {
                match dec_str(tag.1) {
                    Some(p) => match dec_nat(p.1, 32) {
                        Some(q) => Some((RoomErrorV::NicknameTaken(p.0, q.0 as u128), q.1)),
                        None => None,
                    },
                    None => None,
                }
            } else if tag.0 == 9 {
                match dec_nat(tag.1, 32) {
                    Some(p) => Some((RoomErrorV::NotEnoughPlayers(p.0 as u128), p.1)),
                    None => None,
                }
            } else if tag.0 == 10 {
                match dec_str(tag.1) {
                    Some(p) => Some((RoomErrorV::InvalidCode(p.0), p.1)),
                    None => None,
                }
            } else if tag.0 == 11 {
                match dec_str(tag.1) {
                    Some(p) => Some((RoomErrorV::Internal(p.0), p.1)),
                    None => None,
                }
            } else {
                None
            }
        },
        None => None,
    }
}

/// Decoding an encoded registry error gives back its view.
pub proof fn lemma_room_error_round_trip(e: RoomError, tail: Seq<char>)
    requires
        room_error_encodable(e),
    ensures
        dec_room_error(enc_room_error(e) + tail) == Some((room_error_view(e), tail)),
{
    lemma_pow16_widths();
    assert(pow16(0) == 1);
    assert(pow16(1) == 16);
    match e {
        RoomError::NotFound(code) => {
            assert(enc_room_error(e) + tail =~= enc_nat(0, 1) + (enc_str(code@) + tail));
            lemma_nat_round_trip(0, 1, enc_str(code@) + tail);
            lemma_str_round_trip(code@, tail);
        },
        RoomError::RoomNotFound => {
            lemma_nat_round_trip(1, 1, tail);
        },
        RoomError::Full(id) => {
            assert(enc_room_error(e) + tail =~= enc_nat(2, 1) + (enc_nat(id@ as int, 32)
                + tail));
            lemma_nat_round_trip(2, 1, enc_nat(id@ as int, 32) + tail);
            lemma_nat_round_trip(id@ as int, 32, tail);
        },
        RoomError::RoomFull => {
            lemma_nat_round_trip(3, 1, tail);
        },
        RoomError::AlreadyStarted(id) => {
            assert(enc_room_error(e) + tail =~= enc_nat(4, 1) + (enc_nat(id@ as int, 32)
                + tail));
            lemma_nat_round_trip(4, 1, enc_nat(id@ as int, 32) + tail);
            lemma_nat_round_trip(id@ as int, 32, tail);
        },
        RoomError::GameAlreadyStarted => {
            lemma_nat_round_trip(5, 1, tail);
        },
        RoomError::PlayerNotFound(p, r) => {
            let t1 = enc_nat(r@ as int, 32) + tail;
            let t0 = enc_nat(p@ as int, 32) + t1;
            assert(enc_room_error(e) + tail =~= enc_nat(6, 1) + t0);
            lemma_nat_round_trip(6, 1, t0);
            lemma_nat_round_trip(p@ as int, 32, t1);
            lemma_nat_round_trip(r@ as int, 32, tail);
        },
        RoomError::PlayerNotFoundSimple => {
            lemma_nat_round_trip(7, 1, tail);
        },
        RoomError::NicknameTaken(name, id) => {
            let t1 = enc_nat(id@ as int, 32) + tail;
            let t0 = enc_str(name@) + t1;
            assert(enc_room_error(e) + tail =~= enc_nat(8, 1) + t0);
            lemma_nat_round_trip(8, 1, t0);
            lemma_str_round_trip(name@, t1);
            lemma_nat_round_trip(id@ as int, 32, tail);
        },
        RoomError::NotEnoughPlayers(id) => {
            assert(enc_room_error(e) + tail =~= enc_nat(9, 1) + (enc_nat(id@ as int, 32)
                + tail));
            lemma_nat_round_trip(9, 1, enc_nat(id@ as int, 32) + tail);
            lemma_nat_round_trip(id@ as int, 32, tail);
        },
        RoomError::InvalidCode(code) => {
            assert(enc_room_error(e) + tail =~= enc_nat(10, 1) + (enc_str(code@) + tail));
            lemma_nat_round_trip(10, 1, enc_str(code@) + tail);
            lemma_str_round_trip(code@, tail);
        },
        RoomError::Internal(msg) => {
            assert(enc_room_error(e) + tail =~= enc_nat(11, 1) + (enc_str(msg@) + tail));
            lemma_nat_round_trip(11, 1, enc_str(msg@) + tail);
            lemma_str_round_trip(msg@, tail);
        },
    }
}

/// A join error as its tag.
pub open spec fn enc_join_error(e: JoinError) -> Seq<char> {
    match e {
        JoinError::RoomNotFound => enc_nat(0, 1),
        JoinError::RoomFull => enc_nat(1, 1),
        JoinError::GameInProgress => enc_nat(2, 1),
        JoinError::DuplicateNickname => enc_nat(3, 1),
        JoinError::InvalidNickname => enc_nat(4, 1),
    }
}

/// Read a join error off the front of `s`.
pub open spec fn dec_join_error(s: Seq<char>) -> Option<(JoinError, Seq<char>)> {
    match dec_nat(s, 1) {
        Some(tag) => {
            if tag.0 == 0 {
                Some((JoinError::RoomNotFound, tag.1))
            } else if tag.0 == 1 {
                Some((JoinError::RoomFull, tag.1))
            } else if tag.0 == 2 {
                Some((JoinError::GameInProgress, tag.1))
            } else if tag.0 == 3 {
                Some((JoinError::DuplicateNickname, tag.1))
            } else if tag.0 == 4 {
                Some((JoinError::InvalidNickname, tag.1))
            } else {
                None
            }
        },
        None => None,
    }
}

/// Decoding an encoded join error gives it back.
pub proof fn lemma_join_error_round_trip(e: JoinError, tail: Seq<char>)
    ensures
        dec_join_error(enc_join_error(e) + tail) == Some((e, tail)),
{
    assert(pow16(0) == 1);
    assert(pow16(1) == 16);
    match e {
        JoinError::RoomNotFound => lemma_nat_round_trip(0, 1, tail),
        JoinError::RoomFull => lemma_nat_round_trip(1, 1, tail),
        JoinError::GameInProgress => lemma_nat_round_trip(2, 1, tail),
        JoinError::DuplicateNickname => lemma_nat_round_trip(3, 1, tail),
        JoinError::InvalidNickname => lemma_nat_round_trip(4, 1, tail),
    }
}

/// Serialize a registry error to text.
pub fn encode_room_error(e: &RoomError) -> (r: String)
    ensures
        r@ == enc_room_error(*e),
{
    let mut out: Vec<char>;
    match e {
        RoomError::NotFound(code) => {
            out = enc_nat_exec(0, 1);
            let mut p = enc_str_exec(code.as_str());
            out.append(&mut p);
        },
        RoomError::RoomNotFound => {
            out = enc_nat_exec(1, 1);
        },
        RoomError::Full(id) => {
            out = enc_nat_exec(2, 1);
            let mut p = enc_nat_exec(id.as_bits(), 32);
            out.append(&mut p);
        },
        RoomError::RoomFull => {
            out = enc_nat_exec(3, 1);
        },
        RoomError::AlreadyStarted(id) => {
            out = enc_nat_exec(4, 1);
            let mut p = enc_nat_exec(id.as_bits(), 32);
            out.append(&mut p);
        },
        RoomError::GameAlreadyStarted => {
            out = enc_nat_exec(5, 1);
        },
        RoomError::PlayerNotFound(p_id, r_id) => {
            out = enc_nat_exec(6, 1);
            let mut p = enc_nat_exec(p_id.as_bits(), 32);
            out.append(&mut p);
            let mut q = enc_nat_exec(r_id.as_bits(), 32);
            out.append(&mut q);
        },
        RoomError::PlayerNotFoundSimple => {
            out = enc_nat_exec(7, 1);
        },
        RoomError::NicknameTaken(name, id) => {
            out = enc_nat_exec(8, 1);
            let mut p = enc_str_exec(name.as_str());
            out.append(&mut p);
            let mut q = enc_nat_exec(id.as_bits(), 32);
            out.append(&mut q);
        },
        RoomError::NotEnoughPlayers(id) => {
            out = enc_nat_exec(9, 1);
            let mut p = enc_nat_exec(id.as_bits(), 32);
            out.append(&mut p);
        },
        RoomError::InvalidCode(code) => {
            out = enc_nat_exec(10, 1);
            let mut p = enc_str_exec(code.as_str());
            out.append(&mut p);
        },
        RoomError::Internal(msg) => {
            out = enc_nat_exec(11, 1);
            let mut p = enc_str_exec(msg.as_str());
            out.append(&mut p);
        },
    }
    crate::text::chars_to_string(&out)
}

/// Deserialize a registry error from text; `None` unless the whole text
/// is one well-formed encoding.
pub fn decode_room_error(s: &str) -> (r: Option<RoomError>)
    ensures
        match r {
            Some(e) => dec_room_error(s@) == Some((room_error_view(e), s@.skip(s@.len() as int))),
            None => dec_room_error(s@) matches Some(er) ==> er.1.len() != 0,
        },
{
    proof {
        lemma_pow16_widths();
    }
    let chars = crate::text::string_to_chars(s);
    proof {
        assert(chars@.skip(0) =~= s@);
    }
    let tag = match dec_nat_exec(&chars, 0, 1) {
        Some(v) => v,
        None => {
            return None;
        },
    };
    let parsed: Option<(RoomError, usize)> = if tag.0 == 0 {
        match dec_str_exec(&chars, tag.1) {
            Some(p) => Some((RoomError::NotFound(p.0), p.1)),
            None => None,
        }
    } else if tag.0 == 1 {
        Some((RoomError::RoomNotFound, tag.1))
    } else if tag.0 == 2 {
        match dec_nat_exec(&chars, tag.1, 32) {
            Some(p) => Some((RoomError::Full(RoomId::from_bits(p.0)), p.1)),
            None => None,
        }
    } else if tag.0 == 3 {
        Some((RoomError::RoomFull, tag.1))
    } else if tag.0 == 4 {
        match dec_nat_exec(&chars, tag.1, 32) {
            Some(p) => Some((RoomError::AlreadyStarted(RoomId::from_bits(p.0)), p.1)),
            None => None,
        }
    } else if tag.0 == 5 {
        Some((RoomError::GameAlreadyStarted, tag.1))
    } else if tag.0 == 6 {
        match dec_nat_exec(&chars, tag.1, 32) {
            Some(p) => {
                match dec_nat_exec(&chars, p.1, 32) {
                    Some(q) => Some(
                        (
                            RoomError::PlayerNotFound(
                                PlayerId::from_bits(p.0),
                                RoomId::from_bits(q.0),
                            ),
                            q.1,
                        ),
                    ),
                    None => None,
                }
            },
            None => None,
        }
    } else if tag.0 == 7 {
        Some((RoomError::PlayerNotFoundSimple, tag.1))
    } else if tag.0 == 8 {
        match dec_str_exec(&chars, tag.1) {
            Some(p) => {
                match dec_nat_exec(&chars, p.1, 32) {
                    Some(q) => Some(
                        (RoomError::NicknameTaken(p.0, RoomId::from_bits(q.0)), q.1),
                    ),
                    None => None,
                }
            },
            None => None,
        }
    } else if tag.0 == 9 {
        match dec_nat_exec(&chars, tag.1, 32) {
            Some(p) => Some((RoomError::NotEnoughPlayers(RoomId::from_bits(p.0)), p.1)),
            None => None,
        }
    } else if tag.0 == 10 {
        match dec_str_exec(&chars, tag.1) {
            Some(p) => Some((RoomError::InvalidCode(p.0), p.1)),
            None => None,
        }
    } else if tag.0 == 11 {
        match dec_str_exec(&chars, tag.1) {
            Some(p) => Some((RoomError::Internal(p.0), p.1)),
            None => None,
        }
    } else {
        None
    };
    match parsed {
        None => None,
        Some((e, pos)) => {
            if pos == chars.len() {
                Some(e)
            } else {
                None
            }
        },
    }
}

/// Serialize a join error to text.
pub fn encode_join_error(e: &JoinError) -> (r: String)
    ensures
        r@ == enc_join_error(*e),
{
    let tag: u128 = match e {
        JoinError::RoomNotFound => 0,
        JoinError::RoomFull => 1,
        JoinError::GameInProgress => 2,
        JoinError::DuplicateNickname => 3,
        JoinError::InvalidNickname => 4,
    };
    let out = enc_nat_exec(tag, 1);
    crate::text::chars_to_string(&out)
}

/// Deserialize a join error from text; `None` unless the whole text is
/// one well-formed encoding.
pub fn decode_join_error(s: &str) -> (r: Option<JoinError>)
    ensures
        match r {
            Some(e) => dec_join_error(s@) == Some((e, s@.skip(s@.len() as int))),
            None => dec_join_error(s@) matches Some(er) ==> er.1.len() != 0,
        },
{
    let chars = crate::text::string_to_chars(s);
    proof {
        assert(chars@.skip(0) =~= s@);
    }
    let tag = match dec_nat_exec(&chars, 0, 1) {
        Some(v) => v,
        None => {
            return None;
        },
    };
    let parsed: Option<JoinError> = if tag.0 == 0 {
        Some(JoinError::RoomNotFound)
    } else if tag.0 == 1 {
        Some(JoinError::RoomFull)
    } else if tag.0 == 2 {
        Some(JoinError::GameInProgress)
    } else if tag.0 == 3 {
        Some(JoinError::DuplicateNickname)
    } else if tag.0 == 4 {
        Some(JoinError::InvalidNickname)
    } else {
        None
    };
    match parsed {
        None => None,
        Some(e) => {
            if tag.1 == chars.len() {
                Some(e)
            } else {
                None
            }
        },
    }
}

} // verus!
