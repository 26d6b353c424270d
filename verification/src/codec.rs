//! The JSON wire codec of the device protocol.
//!
//! The device exchanges one fixed shape:
//! `{"numberOfLights":<int>,"lights":[{"on":<int>,"brightness":<int>,"temperature":<int>}, ...]}`.
//! The encoder produces exactly that shape with no whitespace; the
//! decoder accepts it back, with unsigned integer fields of up to seven
//! digits, and rejects anything else.

use vstd::prelude::*;

verus! {

/// Decimal digits of `n`, most significant first (empty for negatives).
pub open spec fn spec_dec(n: int) -> Seq<u8>
    decreases n,
{
    if n < 0 {
        Seq::empty()
    } else if n < 10 {
        seq![(48 + n) as u8]
    } else {
        spec_dec(n / 10).push((48 + n % 10) as u8)
    }
}

/// The opening of the wrapper object, up to the light count:
/// `{"numberOfLights":`.
pub open spec fn lit_header() -> Seq<u8> {
    seq![
        '{' as u8, '"' as u8, 'n' as u8, 'u' as u8, 'm' as u8, 'b' as u8, 'e' as u8, 'r' as u8,
        'O' as u8, 'f' as u8, 'L' as u8, 'i' as u8, 'g' as u8, 'h' as u8, 't' as u8, 's' as u8,
        '"' as u8, ':' as u8,
    ]
}

/// The lights key and the opening of its array: `,"lights":[`.
pub open spec fn lit_lights() -> Seq<u8> {
    seq![
        ',' as u8, '"' as u8, 'l' as u8, 'i' as u8, 'g' as u8, 'h' as u8, 't' as u8, 's' as u8,
        '"' as u8, ':' as u8, '[' as u8,
    ]
}

/// The opening of one light object, up to the power value: `{"on":`.
pub open spec fn lit_on() -> Seq<u8> {
    seq!['{' as u8, '"' as u8, 'o' as u8, 'n' as u8, '"' as u8, ':' as u8]
}

/// The brightness key: `,"brightness":`.
pub open spec fn lit_brightness() -> Seq<u8> {
    seq![
        ',' as u8, '"' as u8, 'b' as u8, 'r' as u8, 'i' as u8, 'g' as u8, 'h' as u8, 't' as u8,
        'n' as u8, 'e' as u8, 's' as u8, 's' as u8, '"' as u8, ':' as u8,
    ]
}

/// The temperature key: `,"temperature":`.
pub open spec fn lit_temperature() -> Seq<u8> {
    seq![
        ',' as u8, '"' as u8, 't' as u8, 'e' as u8, 'm' as u8, 'p' as u8, 'e' as u8, 'r' as u8,
        'a' as u8, 't' as u8, 'u' as u8, 'r' as u8, 'e' as u8, '"' as u8, ':' as u8,
    ]
}

/// One serialized light object: `{"on":<on>,"brightness":<b>,"temperature":<t>}`.
pub open spec fn spec_encode_light(on: int, brightness: int, temperature: int) -> Seq<u8> {
    lit_on() + spec_dec(on) + lit_brightness() + spec_dec(brightness) + lit_temperature()
        + spec_dec(temperature) + seq![('}' as u8)]
}

/// The full push payload: the wrapper around exactly one light, with
/// power encoded as the integer 1 or 0.
pub open spec fn spec_encode_lights(on: bool, brightness: int, temperature: int) -> Seq<u8> {
    lit_header() + spec_dec(1) + lit_lights()
        + spec_encode_light(if on { 1 } else { 0 }, brightness, temperature)
        + seq![(']' as u8), ('}' as u8)]
}

/// Append the wrapper opening to `v`.
fn push_lit_header(v: &mut Vec<u8>)
    ensures
        final(v)@ == old(v)@ + lit_header(),
{
    v.push('{' as u8);
    v.push('"' as u8);
    v.push('n' as u8);
    v.push('u' as u8);
    v.push('m' as u8);
    v.push('b' as u8);
    v.push('e' as u8);
    v.push('r' as u8);
    v.push('O' as u8);
    v.push('f' as u8);
    v.push('L' as u8);
    v.push('i' as u8);
    v.push('g' as u8);
    v.push('h' as u8);
    v.push('t' as u8);
    v.push('s' as u8);
    v.push('"' as u8);
    v.push(':' as u8);
    proof {
        assert(v@ =~= old(v)@ + lit_header());
    }
}

/// Append the lights key and array opening to `v`.
fn push_lit_lights(v: &mut Vec<u8>)
    ensures
        final(v)@ == old(v)@ + lit_lights(),
{
    v.push(',' as u8);
    v.push('"' as u8);
    v.push('l' as u8);
    v.push('i' as u8);
    v.push('g' as u8);
    v.push('h' as u8);
    v.push('t' as u8);
    v.push('s' as u8);
    v.push('"' as u8);
    v.push(':' as u8);
    v.push('[' as u8);
    proof {
        assert(v@ =~= old(v)@ + lit_lights());
    }
}

/// Append the light-object opening to `v`.
fn push_lit_on(v: &mut Vec<u8>)
    ensures
        final(v)@ == old(v)@ + lit_on(),
{
    v.push('{' as u8);
    v.push('"' as u8);
    v.push('o' as u8);
    v.push('n' as u8);
    v.push('"' as u8);
    v.push(':' as u8);
    proof {
        assert(v@ =~= old(v)@ + lit_on());
    }
}

/// Append the brightness key to `v`.
fn push_lit_brightness(v: &mut Vec<u8>)
    ensures
        final(v)@ == old(v)@ + lit_brightness(),
{
    v.push(',' as u8);
    v.push('"' as u8);
    v.push('b' as u8);
    v.push('r' as u8);
    v.push('i' as u8);
    v.push('g' as u8);
    v.push('h' as u8);
    v.push('t' as u8);
    v.push('n' as u8);
    v.push('e' as u8);
    v.push('s' as u8);
    v.push('s' as u8);
    v.push('"' as u8);
    v.push(':' as u8);
    proof {
        assert(v@ =~= old(v)@ + lit_brightness());
    }
}

/// Append the temperature key to `v`.
fn push_lit_temperature(v: &mut Vec<u8>)
    ensures
        final(v)@ == old(v)@ + lit_temperature(),
{
    v.push(',' as u8);
    v.push('"' as u8);
    v.push('t' as u8);
    v.push('e' as u8);
    v.push('m' as u8);
    v.push('p' as u8);
    v.push('e' as u8);
    v.push('r' as u8);
    v.push('a' as u8);
    v.push('t' as u8);
    v.push('u' as u8);
    v.push('r' as u8);
    v.push('e' as u8);
    v.push('"' as u8);
    v.push(':' as u8);
    proof {
        assert(v@ =~= old(v)@ + lit_temperature());
    }
}

/// Append the decimal digits of `n` (at most three) to `v`.
fn push_dec(v: &mut Vec<u8>, n: u32)
    requires
        n < 1000,
    ensures
        final(v)@ == old(v)@ + spec_dec(n as int),
{
    if n >= 100 {
        let d2 = n / 10;
        v.push((48 + d2 / 10) as u8);
        v.push((48 + d2 % 10) as u8);
        v.push((48 + n % 10) as u8);
        proof {
            assert(d2 / 10 < 10);
            assert(spec_dec(n as int) == spec_dec(d2 as int).push((48 + n as int % 10) as u8));
            assert(spec_dec(d2 as int) == spec_dec(d2 as int / 10).push(
                (48 + d2 as int % 10) as u8,
            ));
            assert(v@ =~= old(v)@ + spec_dec(n as int));
        }
    } else if n >= 10 {
        v.push((48 + n / 10) as u8);
        v.push((48 + n % 10) as u8);
        proof {
            assert(spec_dec(n as int) == spec_dec(n as int / 10).push((48 + n as int % 10) as u8));
            assert(v@ =~= old(v)@ + spec_dec(n as int));
        }
    } else {
        v.push((48 + n) as u8);
        proof {
            assert(v@ =~= old(v)@ + spec_dec(n as int));
        }
    }
}

/// Serialize a light state into the push payload, exactly the shape
/// `spec_encode_lights` describes.
pub fn encode_lights(on: bool, brightness: i32, temperature: i32) -> (r: Vec<u8>)
    requires
        0 <= brightness <= 100,
        143 <= temperature <= 344,
    ensures
        r@ == spec_encode_lights(on, brightness as int, temperature as int),
{
    let mut v: Vec<u8> = Vec::new();
    push_lit_header(&mut v);
    push_dec(&mut v, 1);
    push_lit_lights(&mut v);
    push_lit_on(&mut v);
    push_dec(&mut v, if on { 1 } else { 0 });
    push_lit_brightness(&mut v);
    push_dec(&mut v, brightness as u32);
    push_lit_temperature(&mut v);
    push_dec(&mut v, temperature as u32);
    v.push('}' as u8);
    v.push(']' as u8);
    v.push('}' as u8);
    proof {
        assert(v@ =~= spec_encode_lights(on, brightness as int, temperature as int));
    }
    v
}

/// An ASCII decimal digit.
pub open spec fn is_digit(c: u8) -> bool {
    48 <= c <= 57
}

/// Succeeds when `pat` occurs in `s` at position `i`; the result is the
/// position just past it.
pub open spec fn spec_match(s: Seq<u8>, i: int, pat: Seq<u8>) -> Option<int> {
    if 0 <= i && i + pat.len() <= s.len() && s.subrange(i, i + pat.len() as int) == pat {
        Some(i + pat.len())
    } else {
        None
    }
}

/// Accumulate decimal digits of a number starting from `acc`. The value
/// must stay below ten million; a longer number fails to decode.
pub open spec fn spec_parse_num_loop(s: Seq<u8>, i: int, acc: int) -> Option<(int, int)>
    decreases s.len() - i,
{
    if 0 <= i && i < s.len() && is_digit(s[i]) {
        if acc * 10 + (s[i] - 48) >= 10000000 {
            None
        } else {
            spec_parse_num_loop(s, i + 1, acc * 10 + (s[i] - 48))
        }
    } else {
        Some((acc, i))
    }
}

/// Parse an unsigned decimal number at position `i`: at least one
/// digit, value below ten million.
pub open spec fn spec_parse_num(s: Seq<u8>, i: int) -> Option<(int, int)> {
    if 0 <= i && i < s.len() && is_digit(s[i]) {
        spec_parse_num_loop(s, i, 0)
    } else {
        None
    }
}

/// Parse one light object
/// `{"on":<int>,"brightness":<int>,"temperature":<int>}` at position `i`.
pub open spec fn spec_parse_light(s: Seq<u8>, i: int) -> Option<((int, int, int), int)> {
    match spec_match(s, i, lit_on()) {
        Some(j1) => match spec_parse_num(s, j1) {
            Some((on, j2)) => match spec_match(s, j2, lit_brightness()) {
                Some(j3) => match spec_parse_num(s, j3) {
                    Some((b, j4)) => match spec_match(s, j4, lit_temperature()) {
                        Some(j5) => match spec_parse_num(s, j5) {
                            Some((t, j6)) => if 0 <= j6 && j6 < s.len() && s[j6] == '}' as u8 {
                                Some(((on, b, t), j6 + 1))
                            } else {
                                None
                            },
                            None => None,
                        },
                        None => None,
                    },
                    None => None,
                },
                None => None,
            },
            None => None,
        },
        None => None,
    }
}

/// Parse a non-empty comma-separated run of light objects followed by
/// the closing `]` of the array.
pub open spec fn spec_parse_items(s: Seq<u8>, i: int) -> Option<(Seq<(int, int, int)>, int)>
    decreases s.len() - i,
{
    match spec_parse_light(s, i) {
        Some((l, j)) => if i < j && j < s.len() {
            if s[j] == ',' as u8 {
                match spec_parse_items(s, j + 1) {
                    Some((rest, k)) => Some((seq![l] + rest, k)),
                    None => None,
                }
            } else if s[j] == ']' as u8 {
                Some((seq![l], j + 1))
            } else {
                None
            }
        } else {
            None
        },
        None => None,
    }
}

/// Parse the contents of the lights array after its opening `[`: either
/// an immediate `]` or a run of light objects.
pub open spec fn spec_parse_list(s: Seq<u8>, i: int) -> Option<(Seq<(int, int, int)>, int)> {
    if 0 <= i && i < s.len() && s[i] == ']' as u8 {
        Some((Seq::empty(), i + 1))
    } else {
        spec_parse_items(s, i)
    }
}

/// Decode a whole response body: the wrapper object with its light
/// count and its array of lights. The entire input must be consumed.
pub open spec fn spec_decode_lights(s: Seq<u8>) -> Option<(int, Seq<(int, int, int)>)> {
    match spec_match(s, 0, lit_header()) {
        Some(j1) => match spec_parse_num(s, j1) {
            Some((nol, j2)) => match spec_match(s, j2, lit_lights()) {
                Some(j3) => match spec_parse_list(s, j3) {
                    Some((ls, j4)) => if j4 + 1 == s.len() && s[j4] == '}' as u8 {
                        Some((nol, ls))
                    } else {
                        None
                    },
                    None => None,
                },
                None => None,
            },
            None => None,
        },
        None => None,
    }
}

/// The digits `spec_dec` produces for a value of at most three digits:
/// between one and three bytes, all of them ASCII digits.
proof fn lemma_dec_small(n: int)
    requires
        0 <= n <= 999,
    ensures
        1 <= spec_dec(n).len() <= 3,
        forall|k: int| 0 <= k < spec_dec(n).len() ==> is_digit(#[trigger] spec_dec(n)[k]),
{
    if n < 10 {
        assert(spec_dec(n) == seq![(48 + n) as u8]);
    } else if n < 100 {
        assert(spec_dec(n) == spec_dec(n / 10).push((48 + n % 10) as u8));
        assert(spec_dec(n / 10) == seq![(48 + n / 10) as u8]);
    } else {
        assert(spec_dec(n) == spec_dec(n / 10).push((48 + n % 10) as u8));
        assert(spec_dec(n / 10) == spec_dec(n / 10 / 10).push((48 + (n / 10) % 10) as u8));
        assert(1 <= n / 10 / 10 < 10);
        assert(spec_dec(n / 10 / 10) == seq![(48 + n / 10 / 10) as u8]);
    }
}

/// Parsing back the digits of `n` yields `n`, provided the byte after
/// them (if any) is not a digit.
proof fn lemma_parse_dec(s: Seq<u8>, i: int, n: int)
    requires
        0 <= n <= 999,
        0 <= i,
        i + spec_dec(n).len() <= s.len(),
        s.subrange(i, i + spec_dec(n).len() as int) == spec_dec(n),
        i + spec_dec(n).len() == s.len() || !is_digit(s[i + spec_dec(n).len()]),
    ensures
        spec_parse_num(s, i) == Some((n, i + spec_dec(n).len())),
{
    lemma_dec_small(n);
    let d = spec_dec(n);
    let len = d.len() as int;
    if n < 10 {
        assert(d == seq![(48 + n) as u8]);
        assert(s[i] == d[0]) by {
            assert(s.subrange(i, i + len)[0] == s[i]);
        };
        assert(spec_parse_num_loop(s, i, 0) == spec_parse_num_loop(s, i + 1, n));
        assert(spec_parse_num_loop(s, i + 1, n) == Some((n, i + 1)));
    } else if n < 100 {
        vstd::arithmetic::div_mod::lemma_fundamental_div_mod(n, 10);
        assert(d == spec_dec(n / 10).push((48 + n % 10) as u8));
        assert(spec_dec(n / 10) == seq![(48 + n / 10) as u8]);
        assert(d == seq![(48 + n / 10) as u8, (48 + n % 10) as u8]) by {
            assert(d =~= seq![(48 + n / 10) as u8, (48 + n % 10) as u8]);
        };
        assert(s[i] == d[0] && s[i + 1] == d[1]) by {
            assert(s.subrange(i, i + len)[0] == s[i]);
            assert(s.subrange(i, i + len)[1] == s[i + 1]);
        };
        assert(spec_parse_num_loop(s, i, 0) == spec_parse_num_loop(s, i + 1, n / 10));
        assert((n / 10) * 10 + (n % 10) == n);
        assert(spec_parse_num_loop(s, i + 1, n / 10) == spec_parse_num_loop(s, i + 2, n));
        assert(spec_parse_num_loop(s, i + 2, n) == Some((n, i + 2)));
    } else {
        vstd::arithmetic::div_mod::lemma_fundamental_div_mod(n, 10);
        vstd::arithmetic::div_mod::lemma_fundamental_div_mod(n / 10, 10);
        assert(d == spec_dec(n / 10).push((48 + n % 10) as u8));
        assert(spec_dec(n / 10) == spec_dec(n / 10 / 10).push((48 + (n / 10) % 10) as u8));
        assert(spec_dec(n / 10 / 10) == seq![(48 + n / 10 / 10) as u8]);
        assert(d == seq![
            (48 + n / 10 / 10) as u8,
            (48 + (n / 10) % 10) as u8,
            (48 + n % 10) as u8,
        ]) by {
            assert(d =~= seq![
                (48 + n / 10 / 10) as u8,
                (48 + (n / 10) % 10) as u8,
                (48 + n % 10) as u8,
            ]);
        };
        assert(s[i] == d[0] && s[i + 1] == d[1] && s[i + 2] == d[2]) by {
            assert(s.subrange(i, i + len)[0] == s[i]);
            assert(s.subrange(i, i + len)[1] == s[i + 1]);
            assert(s.subrange(i, i + len)[2] == s[i + 2]);
        };
        assert(spec_parse_num_loop(s, i, 0) == spec_parse_num_loop(s, i + 1, n / 10 / 10));
        assert((n / 10 / 10) * 10 + ((n / 10) % 10) == n / 10);
        assert(spec_parse_num_loop(s, i + 1, n / 10 / 10) == spec_parse_num_loop(s, i + 2, n / 10));
        assert((n / 10) * 10 + (n % 10) == n);
        assert(spec_parse_num_loop(s, i + 2, n / 10) == spec_parse_num_loop(s, i + 3, n));
        assert(spec_parse_num_loop(s, i + 3, n) == Some((n, i + 3)));
    }
}

/// An encoded light object embedded in a longer string parses back to
/// exactly the values it was built from.
#[verifier::rlimit(60)]
proof fn lemma_parse_light_at(pre: Seq<u8>, o: int, b: int, t: int, post: Seq<u8>)
    requires
        0 <= o <= 999,
        0 <= b <= 999,
        0 <= t <= 999,
    ensures
        spec_parse_light(pre + spec_encode_light(o, b, t) + post, pre.len() as int) == Some((
            (o, b, t),
            pre.len() + spec_encode_light(o, b, t).len() as int,
        )),
{
    let s = pre + spec_encode_light(o, b, t) + post;
    let lo = lit_on();
    let dn = spec_dec(o);
    let lb = lit_brightness();
    let db = spec_dec(b);
    let lt = lit_temperature();
    let dt = spec_dec(t);
    lemma_dec_small(o);
    lemma_dec_small(b);
    lemma_dec_small(t);
    let q0 = pre.len() as int;
    let q1 = q0 + lo.len();
    let q2 = q1 + dn.len();
    let q3 = q2 + lb.len();
    let q4 = q3 + db.len();
    let q5 = q4 + lt.len();
    let q6 = q5 + dt.len();
    let q7 = q6 + 1;
    assert(q7 == q0 + spec_encode_light(o, b, t).len());
    assert(s.subrange(q0, q1) =~= lo);
    assert(spec_match(s, q0, lo) == Some(q1));
    assert(s.subrange(q1, q2) =~= dn);
    assert(s.subrange(q2, q3) =~= lb);
    assert(s[q2] == ',' as u8) by {
        assert(s.subrange(q2, q3)[0] == s[q2]);
    };
    lemma_parse_dec(s, q1, o);
    assert(spec_parse_num(s, q1) == Some((o, q2)));
    assert(spec_match(s, q2, lb) == Some(q3));
    assert(s.subrange(q3, q4) =~= db);
    assert(s.subrange(q4, q5) =~= lt);
    assert(s[q4] == ',' as u8) by {
        assert(s.subrange(q4, q5)[0] == s[q4]);
    };
    lemma_parse_dec(s, q3, b);
    assert(spec_parse_num(s, q3) == Some((b, q4)));
    assert(spec_match(s, q4, lt) == Some(q5));
    assert(s.subrange(q5, q6) =~= dt);
    assert(s[q6] == '}' as u8);
    lemma_parse_dec(s, q5, t);
    assert(spec_parse_num(s, q5) == Some((t, q6)));
    assert(spec_parse_light(s, q0) == Some(((o, b, t), q7)));
}

/// Round trip: decoding an encoded push payload yields back exactly the
/// wrapper it was built from — a light count of one and a single light
/// holding the encoded state, power as the integer 1 or 0.
#[verifier::rlimit(100)]
#[verifier::spinoff_prover]
pub proof fn lemma_encode_decode_roundtrip(on: bool, brightness: int, temperature: int)
    requires
        0 <= brightness <= 100,
        143 <= temperature <= 344,
    ensures
        spec_decode_lights(spec_encode_lights(on, brightness, temperature)) == Some((
            1int,
            seq![((if on { 1int } else { 0int }), brightness, temperature)],
        )),
{
    let o = if on { 1int } else { 0int };
    let s = spec_encode_lights(on, brightness, temperature);
    let h = lit_header();
    let d1 = spec_dec(1);
    let ll = lit_lights();
    let light = spec_encode_light(o, brightness, temperature);
    let tail = seq![(']' as u8), ('}' as u8)];
    let pre = h + d1 + ll;
    assert(s == pre + light + tail);
    lemma_dec_small(1);
    lemma_dec_small(o);
    let p1 = h.len() as int;
    let p2 = p1 + d1.len();
    let p3 = p2 + ll.len();
    let p10 = p3 + light.len();
    let p11 = p10 + 1;
    assert(s.len() == p11 + 1);

    // The wrapper opening and the light count.
    assert(s.subrange(0, p1) =~= h);
    assert(spec_match(s, 0, h) == Some(p1));
    assert(s.subrange(p1, p2) =~= d1);
    assert(s.subrange(p2, p3) =~= ll);
    assert(s[p2] == ',' as u8) by {
        assert(s.subrange(p2, p3)[0] == s[p2]);
    };
    lemma_parse_dec(s, p1, 1);
    assert(spec_parse_num(s, p1) == Some((1int, p2)));
    assert(spec_match(s, p2, ll) == Some(p3));

    // The single light object, then the array and the wrapper close.
    lemma_parse_light_at(pre, o, brightness, temperature, tail);
    assert(spec_parse_light(s, p3) == Some(((o, brightness, temperature), p10)));
    assert(s[p3] == '{' as u8) by {
        assert(s.subrange(p3, p3 + lit_on().len() as int) =~= lit_on());
        assert(s.subrange(p3, p3 + lit_on().len() as int)[0] == s[p3]);
    };
    assert(s[p10] == ']' as u8);
    assert(spec_parse_items(s, p3) == Some((seq![(o, brightness, temperature)], p11)));
    assert(spec_parse_list(s, p3) == Some((seq![(o, brightness, temperature)], p11)));
    assert(s[p11] == '}' as u8);
}

/// Match `pat` against `v` at position `i`.
fn match_at(v: &Vec<u8>, i: usize, pat: &Vec<u8>) -> (r: Option<usize>)
    ensures
        (match r {
            Some(j) => spec_match(v@, i as int, pat@) == Some(j as int) && i <= j <= v.len(),
            None => spec_match(v@, i as int, pat@) is None,
        }),
{
    if i > v.len() || pat.len() > v.len() - i {
        return None;
    }
    let mut k: usize = 0;
    while k < pat.len()
        invariant
            i + pat.len() <= v.len(),
            k <= pat.len(),
            forall|m: int| 0 <= m < k ==> v@[i + m] == pat@[m],
        decreases pat.len() - k,
    {
        if v[i + k] != pat[k] {
            proof {
                assert(v@.subrange(i as int, i + pat@.len() as int)[k as int] == v@[i + k]);
            }
            return None;
        }
        k += 1;
    }
    proof {
        assert(v@.subrange(i as int, i + pat@.len() as int) =~= pat@);
    }
    Some(i + pat.len())
}

/// Accumulate decimal digits, mirroring `spec_parse_num_loop`.
fn parse_num_loop(v: &Vec<u8>, i: usize, acc: u32) -> (r: Option<(u32, usize)>)
    requires
        i <= v.len(),
        acc < 10000000,
    ensures
        (match r {
            Some((n, j)) => spec_parse_num_loop(v@, i as int, acc as int)
                == Some((n as int, j as int)) && i <= j <= v.len() && n < 10000000,
            None => spec_parse_num_loop(v@, i as int, acc as int) is None,
        }),
    decreases v.len() - i,
{
    if i < v.len() && 48 <= v[i] && v[i] <= 57 {
        let next = acc * 10 + (v[i] - 48) as u32;
        if next >= 10000000 {
            None
        } else {
            parse_num_loop(v, i + 1, next)
        }
    } else {
        Some((acc, i))
    }
}

/// Parse an unsigned decimal number, mirroring `spec_parse_num`.
fn parse_num(v: &Vec<u8>, i: usize) -> (r: Option<(u32, usize)>)
    requires
        i <= v.len(),
    ensures
        (match r {
            Some((n, j)) => spec_parse_num(v@, i as int) == Some((n as int, j as int))
                && i <= j <= v.len() && n < 10000000,
            None => spec_parse_num(v@, i as int) is None,
        }),
{
    if i < v.len() && 48 <= v[i] && v[i] <= 57 {
        parse_num_loop(v, i, 0)
    } else {
        None
    }
}

/// Parse one light object, mirroring `spec_parse_light`.
fn parse_light(v: &Vec<u8>, i: usize) -> (r: Option<(crate::keylight::Light, usize)>)
    requires
        i <= v.len(),
    ensures
        (match r {
            Some((l, j)) => spec_parse_light(v@, i as int) == Some((l@, j as int))
                && i < j <= v.len(),
            None => spec_parse_light(v@, i as int) is None,
        }),
{
    let mut pat_on: Vec<u8> = Vec::new();
    push_lit_on(&mut pat_on);
    let mut pat_b: Vec<u8> = Vec::new();
    push_lit_brightness(&mut pat_b);
    let mut pat_t: Vec<u8> = Vec::new();
    push_lit_temperature(&mut pat_t);
    match match_at(v, i, &pat_on) {
        Some(j1) => match parse_num(v, j1) {
            Some((on, j2)) => match match_at(v, j2, &pat_b) {
                Some(j3) => match parse_num(v, j3) {
                    Some((b, j4)) => match match_at(v, j4, &pat_t) {
                        Some(j5) => match parse_num(v, j5) {
                            Some((t, j6)) => {
                                if j6 < v.len() && v[j6] == '}' as u8 {
                                    let l = crate::keylight::Light {
                                        on: on as i32,
                                        brightness: b as i32,
                                        temperature: t as i32,
                                    };
                                    Some((l, j6 + 1))
                                } else {
                                    None
                                }
                            },
                            None => None,
                        },
                        None => None,
                    },
                    None => None,
                },
                None => None,
            },
            None => None,
        },
        None => None,
    }
}

/// Parse a non-empty run of light objects up to and including the
/// closing `]`, mirroring `spec_parse_items`.
fn parse_items(v: &Vec<u8>, i: usize) -> (r: Option<(Vec<crate::keylight::Light>, usize)>)
    requires
        i <= v.len(),
    ensures
        (match r {
            Some((ls, j)) => spec_parse_items(v@, i as int)
                == Some((ls@.map_values(|l: crate::keylight::Light| l@), j as int))
                && i < j <= v.len(),
            None => spec_parse_items(v@, i as int) is None,
        }),
    decreases v.len() - i,
{
    match parse_light(v, i) {
        Some((l, j)) => {
            if j < v.len() && v[j] == ',' as u8 {
                match parse_items(v, j + 1) {
                    Some((rest, k)) => {
                        let mut ls = rest;
                        ls.insert(0, l);
                        proof {
                            assert(ls@.map_values(|x: crate::keylight::Light| x@) =~= seq![l@]
                                + rest@.map_values(|x: crate::keylight::Light| x@));
                        }
                        Some((ls, k))
                    },
                    None => None,
                }
            } else if j < v.len() && v[j] == ']' as u8 {
                let mut ls: Vec<crate::keylight::Light> = Vec::new();
                ls.push(l);
                proof {
                    assert(ls@.map_values(|x: crate::keylight::Light| x@) =~= seq![l@]);
                }
                Some((ls, j + 1))
            } else {
                None
            }
        },
        None => None,
    }
}

/// Parse the lights array contents, mirroring `spec_parse_list`.
fn parse_list(v: &Vec<u8>, i: usize) -> (r: Option<(Vec<crate::keylight::Light>, usize)>)
    requires
        i <= v.len(),
    ensures
        (match r {
            Some((ls, j)) => spec_parse_list(v@, i as int)
                == Some((ls@.map_values(|l: crate::keylight::Light| l@), j as int))
                && i <= j <= v.len(),
            None => spec_parse_list(v@, i as int) is None,
        }),
{
    if i < v.len() && v[i] == ']' as u8 {
        let ls: Vec<crate::keylight::Light> = Vec::new();
        proof {
            assert(ls@.map_values(|x: crate::keylight::Light| x@) =~= Seq::<(int, int, int)>::empty());
        }
        Some((ls, i + 1))
    } else {
        parse_items(v, i)
    }
}

/// Decode a whole response body into the wrapper shape, exactly as
/// `spec_decode_lights` describes: `None` on any input that is not the
/// expected shape.
pub fn decode_lights(v: &Vec<u8>) -> (r: Option<crate::keylight::Lights>)
    ensures
        (match r {
            Some(ls) => spec_decode_lights(v@) == Some((
                ls.number_of_lights as int,
                ls.lights@.map_values(|l: crate::keylight::Light| l@),
            )),
            None => spec_decode_lights(v@) is None,
        }),
{
    let mut pat_header: Vec<u8> = Vec::new();
    push_lit_header(&mut pat_header);
    let mut pat_lights: Vec<u8> = Vec::new();
    push_lit_lights(&mut pat_lights);
    match match_at(v, 0, &pat_header) {
        Some(j1) => match parse_num(v, j1) {
            Some((nol, j2)) => match match_at(v, j2, &pat_lights) {
                Some(j3) => match parse_list(v, j3) {
                    Some((ls, j4)) => {
                        if j4 < v.len() && v[j4] == '}' as u8 && j4 + 1 == v.len() {
                            Some(crate::keylight::Lights {
                                number_of_lights: nol as i32,
                                lights: ls,
                            })
                        } else {
                            None
                        }
                    },
                    None => None,
                },
                None => None,
            },
            None => None,
        },
        None => None,
    }
}

} // verus!
