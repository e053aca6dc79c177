//! Equal-tempered frequency ratios, quantised to an integer part and a
//! fractional part in hundredths, both truncated.

use vstd::prelude::*;

verus! {

/// The twelfth power of `k`.
pub open spec fn pow12(k: int) -> int {
    let c = k * k * k;
    (c * c) * (c * c)
}

/// Two raised to `e`.
pub open spec fn two_pow(e: nat) -> int
    decreases e,
{
    if e == 0 {
        1
    } else {
        2 * two_pow((e - 1) as nat)
    }
}

/// `k` is `100 * 2^(o/12)` truncated to an integer: the ratio of `o`
/// semitones above the root, in hundredths. Written with twelfth powers so
/// that it stays in integers: `k^12 <= 100^12 * 2^o < (k+1)^12`.
pub open spec fn is_hundredths_ratio(o: nat, k: int) -> bool {
    &&& 0 <= k
    &&& pow12(k) <= pow12(100) * two_pow(o)
    &&& pow12(100) * two_pow(o) < pow12(k + 1)
}

/// `100 * 128 * 2^(s/12)`, truncated, for the twelve semitones of one octave.
pub open spec fn octave_base(s: nat) -> int {
    if s == 0 { 12800 }
    else if s == 1 { 13561 }
    else if s == 2 { 14367 }
    else if s == 3 { 15221 }
    else if s == 4 { 16126 }
    else if s == 5 { 17085 }
    else if s == 6 { 18101 }
    else if s == 7 { 19178 }
    else if s == 8 { 20318 }
    else if s == 9 { 21526 }
    else if s == 10 { 22807 }
    else { 24163 }
}

proof fn lemma_two_pow_add(a: nat, b: nat)
    ensures
        two_pow(a + b) == two_pow(a) * two_pow(b),
    decreases a,
{
    if a > 0 {
        lemma_two_pow_add((a - 1) as nat, b);
        assert(two_pow(a + b) == 2 * two_pow((a - 1 + b) as nat));
        assert(2 * (two_pow((a - 1) as nat) * two_pow(b)) == (2 * two_pow((a - 1) as nat))
            * two_pow(b)) by (nonlinear_arith);
    }
}

proof fn lemma_two_pow_positive(e: nat)
    ensures
        two_pow(e) > 0,
    decreases e,
{
    if e > 0 {
        lemma_two_pow_positive((e - 1) as nat);
    }
}

proof fn lemma_pow12_mul(a: int, b: int)
    ensures
        pow12(a * b) == pow12(a) * pow12(b),
{
    let ca = a * a * a;
    let cb = b * b * b;
    assert((a * b) * (a * b) * (a * b) == ca * cb) by (nonlinear_arith)
        requires ca == a * a * a, cb == b * b * b;
    let c = ca * cb;
    assert((c * c) * (c * c) == ((ca * ca) * (ca * ca)) * ((cb * cb) * (cb * cb))) by (nonlinear_arith)
        requires c == ca * cb;
}

proof fn lemma_pow12_le(a: int, b: int)
    requires
        0 <= a <= b,
    ensures
        0 <= pow12(a) <= pow12(b),
{
    let ca = a * a * a;
    let cb = b * b * b;
    assert(0 <= ca <= cb) by (nonlinear_arith)
        requires ca == a * a * a, cb == b * b * b, 0 <= a <= b;
    assert(0 <= ca * ca <= cb * cb) by (nonlinear_arith)
        requires 0 <= ca <= cb;
    let sa = ca * ca;
    let sb = cb * cb;
    assert(0 <= sa * sa <= sb * sb) by (nonlinear_arith)
        requires 0 <= sa <= sb;
}

proof fn lemma_pow12_lt(a: int, b: int)
    requires
        0 <= a < b,
    ensures
        pow12(a) < pow12(b),
{
    let ca = a * a * a;
    let cb = b * b * b;
    assert(0 <= ca < cb) by (nonlinear_arith)
        requires ca == a * a * a, cb == b * b * b, 0 <= a < b;
    assert(0 <= ca * ca < cb * cb) by (nonlinear_arith)
        requires 0 <= ca < cb;
    let sa = ca * ca;
    let sb = cb * cb;
    assert(0 <= sa * sa < sb * sb) by (nonlinear_arith)
        requires 0 <= sa < sb;
}

proof fn lemma_pow12_two_pow(m: nat)
    ensures
        pow12(two_pow(m)) == two_pow(12 * m),
    decreases m,
{
    if m > 0 {
        let p = two_pow((m - 1) as nat);
        lemma_pow12_two_pow((m - 1) as nat);
        assert(two_pow(m) == 2 * p);
        lemma_pow12_mul(2, p);
        assert(2 * 2 * 2 == 8) by (nonlinear_arith);
        assert(8 * 8 == 64) by (nonlinear_arith);
        lemma_pow12_of(2, 8, 64);
        reveal_with_fuel(two_pow, 13);
        assert(two_pow(12) == 4096);
        assert(12 + 12 * (m - 1) == 12 * m) by (nonlinear_arith)
            requires m > 0;
        lemma_two_pow_add(12, (12 * (m - 1)) as nat);
    }
}

/// The twelfth power of `k` from its cube `c` and the cube's square `sq`.
proof fn lemma_pow12_of(k: int, c: int, sq: int)
    requires
        c == k * k * k,
        sq == c * c,
    ensures
        pow12(k) == sq * sq,
{
}

/// The twelve octave values are exact truncations.
proof fn lemma_octave_base(s: nat)
    requires
        s < 12,
    ensures
        pow12(octave_base(s)) <= pow12(12800) * two_pow(s) < pow12(octave_base(s) + 1),
{
    reveal_with_fuel(two_pow, 13);
    assert(12800 * 12800 * 12800 == 2097152000000) by (nonlinear_arith);
    assert(2097152000000 * 2097152000000 == 4398046511104000000000000) by (nonlinear_arith);
    lemma_pow12_of(12800, 2097152000000, 4398046511104000000000000);
    if s == 0 {
        assert(two_pow(0) == 1);
        assert(12801 * 12801 * 12801 == 2097643558401) by (nonlinear_arith);
        assert(2097643558401 * 2097643558401 == 4400108498101209497676801) by (nonlinear_arith);
        lemma_pow12_of(12801, 2097643558401, 4400108498101209497676801);
    } else if s == 1 {
        assert(two_pow(1) == 2);
        assert(13561 * 13561 * 13561 == 2493877677481) by (nonlinear_arith);
        assert(2493877677481 * 2493877677481 == 6219425870238026654505361) by (nonlinear_arith);
        lemma_pow12_of(13561, 2493877677481, 6219425870238026654505361);
        assert(13562 * 13562 * 13562 == 2494429420328) by (nonlinear_arith);
        assert(2494429420328 * 2494429420328 == 6222178132997882099627584) by (nonlinear_arith);
        lemma_pow12_of(13562, 2494429420328, 6222178132997882099627584);
    } else if s == 2 {
        assert(two_pow(2) == 4);
        assert(14367 * 14367 * 14367 == 2965502368863) by (nonlinear_arith);
        assert(2965502368863 * 2965502368863 == 8794204299732064511912769) by (nonlinear_arith);
        lemma_pow12_of(14367, 2965502368863, 8794204299732064511912769);
        assert(14368 * 14368 * 14368 == 2966121644032) by (nonlinear_arith);
        assert(2966121644032 * 2966121644032 == 8797877607195094521217024) by (nonlinear_arith);
        lemma_pow12_of(14368, 2966121644032, 8797877607195094521217024);
    } else if s == 3 {
        assert(two_pow(3) == 8);
        assert(15221 * 15221 * 15221 == 3526383638861) by (nonlinear_arith);
        assert(3526383638861 * 3526383638861 == 12435381568426547669377321) by (nonlinear_arith);
        lemma_pow12_of(15221, 3526383638861, 12435381568426547669377321);
        assert(15222 * 15222 * 15222 == 3527078721048) by (nonlinear_arith);
        assert(3527078721048 * 3527078721048 == 12440284304469595398218304) by (nonlinear_arith);
        lemma_pow12_of(15222, 3527078721048, 12440284304469595398218304);
    } else if s == 4 {
        assert(two_pow(4) == 16);
        assert(16126 * 16126 * 16126 == 4193532048376) by (nonlinear_arith);
        assert(4193532048376 * 4193532048376 == 17585711040756610404237376) by (nonlinear_arith);
        lemma_pow12_of(16126, 4193532048376, 17585711040756610404237376);
        assert(16127 * 16127 * 16127 == 4194312240383) by (nonlinear_arith);
        assert(4194312240383 * 4194312240383 == 17592255169826660775986689) by (nonlinear_arith);
        lemma_pow12_of(16127, 4194312240383, 17592255169826660775986689);
    } else if s == 5 {
        assert(two_pow(5) == 32);
        assert(17085 * 17085 * 17085 == 4987064089125) by (nonlinear_arith);
        assert(4987064089125 * 4987064089125 == 24870808229040165943265625) by (nonlinear_arith);
        lemma_pow12_of(17085, 4987064089125, 24870808229040165943265625);
        assert(17086 * 17086 * 17086 == 4987939832056) by (nonlinear_arith);
        assert(4987939832056 * 4987939832056 == 24879543768210837485187136) by (nonlinear_arith);
        lemma_pow12_of(17086, 4987939832056, 24879543768210837485187136);
    } else if s == 6 {
        assert(two_pow(6) == 64);
        assert(18101 * 18101 * 18101 == 5930723884301) by (nonlinear_arith);
        assert(5930723884301 * 5930723884301 == 35173485791818341234258601) by (nonlinear_arith);
        lemma_pow12_of(18101, 5930723884301, 35173485791818341234258601);
        assert(18102 * 18102 * 18102 == 5931706877208) by (nonlinear_arith);
        assert(5931706877208 * 5931706877208 == 35185146477116683189875264) by (nonlinear_arith);
        lemma_pow12_of(18102, 5931706877208, 35185146477116683189875264);
    } else if s == 7 {
        assert(two_pow(7) == 128);
        assert(19178 * 19178 * 19178 == 7053585627752) by (nonlinear_arith);
        assert(7053585627752 * 7053585627752 == 49753070208029575912573504) by (nonlinear_arith);
        lemma_pow12_of(19178, 7053585627752, 49753070208029575912573504);
        assert(19179 * 19179 * 19179 == 7054689072339) by (nonlinear_arith);
        assert(7054689072339 * 7054689072339 == 49768637907379300374930921) by (nonlinear_arith);
        lemma_pow12_of(19179, 7054689072339, 49768637907379300374930921);
    } else if s == 8 {
        assert(two_pow(8) == 256);
        assert(20318 * 20318 * 20318 == 8387699597432) by (nonlinear_arith);
        assert(8387699597432 * 8387699597432 == 70353504536760934860994624) by (nonlinear_arith);
        lemma_pow12_of(20318, 8387699597432, 70353504536760934860994624);
        assert(20319 * 20319 * 20319 == 8388938121759) by (nonlinear_arith);
        assert(8388938121759 * 8388938121759 == 70374282810701418709254081) by (nonlinear_arith);
        lemma_pow12_of(20319, 8388938121759, 70374282810701418709254081);
    } else if s == 9 {
        assert(two_pow(9) == 512);
        assert(21526 * 21526 * 21526 == 9974474119576) by (nonlinear_arith);
        assert(9974474119576 * 9974474119576 == 99490133962091420346419776) by (nonlinear_arith);
        lemma_pow12_of(21526, 9974474119576, 99490133962091420346419776);
        assert(21527 * 21527 * 21527 == 9975864290183) by (nonlinear_arith);
        assert(9975864290183 * 9975864290183 == 99517868336148370430173489) by (nonlinear_arith);
        lemma_pow12_of(21527, 9975864290183, 99517868336148370430173489);
    } else if s == 10 {
        assert(two_pow(10) == 1024);
        assert(22807 * 22807 * 22807 == 11863271991943) by (nonlinear_arith);
        assert(11863271991943 * 11863271991943 == 140737222354819235056915249) by (nonlinear_arith);
        lemma_pow12_of(22807, 11863271991943, 140737222354819235056915249);
        assert(22808 * 22808 * 22808 == 11864832538112) by (nonlinear_arith);
        assert(11864832538112 * 11864832538112 == 140774251157441243932524544) by (nonlinear_arith);
        lemma_pow12_of(22808, 11864832538112, 140774251157441243932524544);
    } else {
        assert(two_pow(11) == 2048);
        assert(24163 * 24163 * 24163 == 14107581298747) by (nonlinear_arith);
        assert(14107581298747 * 14107581298747 == 199023850100756091263770009) by (nonlinear_arith);
        lemma_pow12_of(24163, 14107581298747, 199023850100756091263770009);
        assert(24164 * 24164 * 24164 == 14109332922944) by (nonlinear_arith);
        assert(14109332922944 * 14109332922944 == 199073275530471478641627136) by (nonlinear_arith);
        lemma_pow12_of(24164, 14109332922944, 199073275530471478641627136);
    }
}

/// The number of semitones `o = 12 q + s` is `octave_base(s)` scaled down by
/// the `7 - q` octaves that separate it from the table's seventh octave.
proof fn lemma_hundredths_from_table(o: nat)
    requires
        o < 96,
    ensures
        is_hundredths_ratio(o, octave_base(o % 12) / two_pow((7 - o / 12) as nat)),
{
    let q: nat = o / 12;
    let s: nat = o % 12;
    let m: nat = (7 - q) as nat;
    let t = octave_base(s);
    let d = two_pow(m);
    let k = t / d;
    lemma_octave_base(s);
    reveal_with_fuel(two_pow, 8);
    assert(two_pow(7) == 128);
    lemma_pow12_mul(100, 128);
    lemma_pow12_two_pow(7);
    lemma_pow12_two_pow(m);
    let p = two_pow(12 * m);
    lemma_two_pow_add(12 * m, 12 * q);
    assert(12 * m + 12 * q == 84);
    lemma_two_pow_add(12 * q, s);
    assert(12 * q + s == o);
    lemma_two_pow_positive(m);
    lemma_two_pow_positive(12 * m);
    let x = pow12(100) * two_pow(o);
    let tq = two_pow(12 * q);
    let ts = two_pow(s);
    assert(pow12(12800) * ts == p * x) by (nonlinear_arith)
        requires
            pow12(12800) == pow12(100) * pow12(128),
            pow12(128) == two_pow(84),
            two_pow(84) == p * tq,
            two_pow(o) == tq * ts,
            x == pow12(100) * two_pow(o);
    assert(k * d <= t < (k + 1) * d && 0 <= k) by (nonlinear_arith)
        requires
            k == t / d,
            d > 0,
            t >= 0;
    lemma_pow12_mul(k, d);
    lemma_pow12_mul(k + 1, d);
    lemma_pow12_le(k * d, t);
    lemma_pow12_le(t + 1, (k + 1) * d);
    assert(pow12(k) <= x) by (nonlinear_arith)
        requires
            pow12(k) * p <= p * x,
            p > 0;
    assert(x < pow12(k + 1)) by (nonlinear_arith)
        requires
            p * x < pow12(k + 1) * p,
            p > 0;
}

/// The ratio of `o` semitones in hundredths has one value.
pub proof fn lemma_hundredths_ratio_unique(o: nat, k1: int, k2: int)
    requires
        is_hundredths_ratio(o, k1),
        is_hundredths_ratio(o, k2),
    ensures
        k1 == k2,
{
    if k1 < k2 {
        lemma_pow12_le(k1 + 1, k2);
    } else if k2 < k1 {
        lemma_pow12_le(k2 + 1, k1);
    }
}

/// The seventh-octave value of one of the twelve semitones.
fn octave_base_of(s: usize) -> (r: u32)
    requires
        s < 12,
    ensures
        r == octave_base(s as nat),
        r <= 24163,
{
    match s {
        0 => 12800,
        1 => 13561,
        2 => 14367,
        3 => 15221,
        4 => 16126,
        5 => 17085,
        6 => 18101,
        7 => 19178,
        8 => 20318,
        9 => 21526,
        10 => 22807,
        _ => 24163,
    }
}

/// Two raised to the number of octaves between `q` and the seventh.
fn octave_divisor(q: usize) -> (r: u32)
    requires
        q < 8,
    ensures
        r == two_pow((7 - q) as nat),
        r >= 1,
{
    reveal_with_fuel(two_pow, 8);
    match q {
        0 => 128,
        1 => 64,
        2 => 32,
        3 => 16,
        4 => 8,
        5 => 4,
        6 => 2,
        _ => 1,
    }
}

/// Quantises the frequency ratio `2^(o/12)` of `o` semitones into an integer
/// ratio and a fine part in hundredths, both truncated: `(1, 49)` for a fifth.
pub fn quantize_ratio(o: usize) -> (r: (u8, u8))
    requires
        o < 96,
    ensures
        is_hundredths_ratio(o as nat, 100 * r.0 + r.1),
        r.1 < 100,
{
    let q = o / 12;
    let s = o % 12;
    let t = octave_base_of(s);
    let d = octave_divisor(q);
    let k = t / d;
    proof {
        lemma_hundredths_from_table(o as nat);
    }
    let ratio = (k / 100) as u8;
    let fine = (k % 100) as u8;
    assert(100 * ratio + fine == k);
    (ratio, fine)
}

} // verus!
