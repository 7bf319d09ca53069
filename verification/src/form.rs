use vstd::prelude::*;

verus! {

/// Byte values of the characters that shape a form-encoded body.
pub const AMP: u8 = 38; // '&'
pub const EQS: u8 = 61; // '='
pub const PLUS: u8 = 43; // '+'
pub const PERCENT: u8 = 37; // '%'
pub const SPACE: u8 = 32; // ' '
pub const ZERO: u8 = 48; // '0'
pub const NINE: u8 = 57; // '9'

/// Index of the first occurrence of `b` in `s`, or `s.len()` if absent.
pub open spec fn find(s: Seq<u8>, b: u8) -> nat
    decreases s.len(),
{
    if s.len() == 0 {
        0
    } else if s[0] == b {
        0
    } else {
        1 + find(s.drop_first(), b)
    }
}

pub proof fn lemma_find(s: Seq<u8>, b: u8)
    ensures
        find(s, b) <= s.len(),
        find(s, b) < s.len() ==> s[find(s, b) as int] == b,
        forall|j: int| 0 <= j < find(s, b) ==> s[j] != b,
    decreases s.len(),
{
    if s.len() > 0 && s[0] != b {
        lemma_find(s.drop_first(), b);
        assert forall|j: int| 0 <= j < find(s, b) implies s[j] != b by {
            if j > 0 {
                assert(s.drop_first()[j - 1] == s[j]);
            }
        }
    }
}

/// `find` is the unique index whose earlier bytes all differ from `b` and
/// which holds `b` itself unless it is the end.
pub proof fn lemma_find_is(s: Seq<u8>, b: u8, n: nat)
    requires
        n <= s.len(),
        forall|j: int| 0 <= j < n ==> s[j] != b,
        n < s.len() ==> s[n as int] == b,
    ensures
        find(s, b) == n,
    decreases s.len(),
{
    if s.len() > 0 && s[0] != b {
        assert(s[0 as int] != b);
        assert forall|j: int| 0 <= j < n - 1 implies s.drop_first()[j] != b by {
            assert(s.drop_first()[j] == s[j + 1]);
        }
        lemma_find_is(s.drop_first(), b, (n - 1) as nat);
    }
}

/// The raw (still encoded) value of the first `key=value` pair of `body`
/// whose key is exactly `key`; pairs are separated by '&', and a pair
/// without '=' has an empty value.
pub open spec fn lookup_raw(body: Seq<u8>, key: Seq<u8>) -> Option<Seq<u8>>
    decreases body.len(),
    via lookup_raw_dec
{
    let n = find(body, AMP);
    let pair = body.take(n as int);
    let e = find(pair, EQS);
    if pair.take(e as int) == key {
        if e == pair.len() {
            Some(Seq::empty())
        } else {
            Some(pair.skip(e as int + 1))
        }
    } else if n == body.len() {
        None
    } else {
        lookup_raw(body.skip(n as int + 1), key)
    }
}

#[via_fn]
proof fn lookup_raw_dec(body: Seq<u8>, key: Seq<u8>) {
    lemma_find(body, AMP);
}

/// Is `b` the byte of an ASCII hexadecimal digit?
pub open spec fn is_hex(b: u8) -> bool {
    (ZERO <= b <= NINE) || (65 <= b <= 70) || (97 <= b <= 102)
}

/// Numeric value of one ASCII hexadecimal digit.
pub open spec fn hex_val(b: u8) -> u8 {
    if ZERO <= b <= NINE {
        (b - ZERO) as u8
    } else if 65 <= b <= 70 {
        (b - 65 + 10) as u8
    } else if 97 <= b <= 102 {
        (b - 97 + 10) as u8
    } else {
        0
    }
}

/// Decoding of a raw form value: '+' stands for a space, '%' must head two
/// hexadecimal digits that give one byte, anything else stands for itself.
/// A '%' not followed by two hexadecimal digits makes the value malformed.
pub open spec fn decode(s: Seq<u8>) -> Option<Seq<u8>>
    decreases s.len(),
{
    if s.len() == 0 {
        Some(Seq::empty())
    } else if s[0] == PLUS {
        match decode(s.drop_first()) {
            Some(t) => Some(seq![SPACE] + t),
            None => None,
        }
    } else if s[0] == PERCENT {
        if s.len() >= 3 && is_hex(s[1]) && is_hex(s[2]) {
            match decode(s.skip(3)) {
                Some(t) => Some(seq![(hex_val(s[1]) * 16 + hex_val(s[2])) as u8] + t),
                None => None,
            }
        } else {
            None
        }
    } else {
        match decode(s.drop_first()) {
            Some(t) => Some(seq![s[0]] + t),
            None => None,
        }
    }
}

/// The decoded value of field `key` in `body`: `None` when the field is
/// absent or its raw value is malformed.
pub open spec fn field_value(body: Seq<u8>, key: Seq<u8>) -> Option<Seq<u8>> {
    match lookup_raw(body, key) {
        Some(raw) => decode(raw),
        None => None,
    }
}



/// Every byte of `s` is an ASCII decimal digit.
pub open spec fn is_digits(s: Seq<u8>) -> bool {
    forall|j: int| 0 <= j < s.len() ==> ZERO <= #[trigger] s[j] <= NINE
}

/// The number that the decimal digits of `s` denote.
pub open spec fn dec_value(s: Seq<u8>) -> nat
    decreases s.len(),
{
    if s.len() == 0 {
        0
    } else {
        dec_value(s.drop_last()) * 10 + (if s.last() >= ZERO {
            (s.last() - ZERO) as nat
        } else {
            0
        })
    }
}

/// A digit string never denotes less than any of its prefixes.
pub proof fn lemma_dec_value_prefix(s: Seq<u8>, i: int)
    requires
        0 <= i <= s.len(),
    ensures
        dec_value(s.take(i)) <= dec_value(s),
    decreases s.len(),
{
    if i < s.len() {
        assert(s.drop_last().take(i) =~= s.take(i));
        lemma_dec_value_prefix(s.drop_last(), i);
    } else {
        assert(s.take(i) =~= s);
    }
}

/// The identifier that the `id` field of `body` denotes: present only when
/// the field is there, well formed, all digits, non-empty, and within range.
pub open spec fn parse_num(v: Seq<u8>) -> Option<u32> {
    if v.len() > 0 && is_digits(v) && dec_value(v) <= u32::MAX {
        Some(dec_value(v) as u32)
    } else {
        None
    }
}

/// Byte sequence of the field name "text".
pub open spec fn key_text() -> Seq<u8> {
    seq![116u8, 101u8, 120u8, 116u8]
}

/// Byte sequence of the field name "id".
pub open spec fn key_id() -> Seq<u8> {
    seq![105u8, 100u8]
}

/// The decoded `text` field of an add request's body.
pub open spec fn spec_add_text(body: Seq<u8>) -> Option<Seq<u8>> {
    field_value(body, key_text())
}

/// The identifier named by the `id` field of a delete request's body.
pub open spec fn spec_delete_id(body: Seq<u8>) -> Option<u32> {
    match field_value(body, key_id()) {
        Some(v) => parse_num(v),
        None => None,
    }
}

/// First occurrence of `b` in `s[lo..hi]`, as an absolute index.
fn find_range(s: &[u8], lo: usize, hi: usize, b: u8) -> (r: usize)
    requires
        lo <= hi <= s@.len(),
    ensures
        lo <= r <= hi,
        r - lo == find(s@.subrange(lo as int, hi as int), b),
        r < hi ==> s@[r as int] == b,
        forall|j: int| lo <= j < r ==> s@[j] != b,
{
    let mut i = lo;
    while i < hi && s[i] != b
        invariant
            lo <= i <= hi <= s@.len(),
            forall|j: int| lo <= j < i ==> s@[j] != b,
        decreases hi - i,
    {
        i += 1;
    }
    proof {
        let sub = s@.subrange(lo as int, hi as int);
        assert forall|j: int| 0 <= j < i - lo implies sub[j] != b by {
            assert(sub[j] == s@[lo + j]);
        }
        assert(i < hi ==> sub[i - lo] == b);
        lemma_find_is(sub, b, (i - lo) as nat);
    }
    i
}

/// Does `s[lo..hi]` hold exactly the bytes of `t`?
fn bytes_eq_range(s: &[u8], lo: usize, hi: usize, t: &[u8]) -> (r: bool)
    requires
        lo <= hi <= s@.len(),
    ensures
        r <==> s@.subrange(lo as int, hi as int) == t@,
{
    if hi - lo != t.len() {
        proof {
            assert(s@.subrange(lo as int, hi as int).len() != t@.len());
        }
        return false;
    }
    let mut i: usize = 0;
    while i < t.len()
        invariant
            lo <= hi <= s@.len(),
            hi - lo == t@.len(),
            i <= t@.len(),
            forall|j: int| 0 <= j < i ==> s@[lo + j] == t@[j],
        decreases t@.len() - i,
    {
        if s[lo + i] != t[i] {
            proof {
                assert(s@.subrange(lo as int, hi as int)[i as int] == s@[lo + i]);
            }
            return false;
        }
        i += 1;
    }
    proof {
        assert(s@.subrange(lo as int, hi as int) =~= t@);
    }
    true
}

/// Numeric value of a hexadecimal digit byte.
fn hex_digit(b: u8) -> (r: u8)
    requires
        is_hex(b),
    ensures
        r == hex_val(b),
        r <= 15,
{
    if ZERO <= b && b <= NINE {
        b - ZERO
    } else if 65 <= b && b <= 70 {
        b - 65 + 10
    } else {
        b - 97 + 10
    }
}

/// Decode the raw form value held in `s[lo..hi]`.
fn decode_range(s: &[u8], lo: usize, hi: usize) -> (r: Option<Vec<u8>>)
    requires
        lo <= hi <= s@.len(),
    ensures
        match r {
            Some(v) => decode(s@.subrange(lo as int, hi as int)) == Some(v@),
            None => decode(s@.subrange(lo as int, hi as int)) is None,
        },
{
    let ghost whole = s@.subrange(lo as int, hi as int);
    let mut out: Vec<u8> = Vec::new();
    let mut i = lo;
    while i < hi
        invariant
            lo <= i <= hi <= s@.len(),
            whole == s@.subrange(lo as int, hi as int),
            decode(whole) == match decode(s@.subrange(i as int, hi as int)) {
                Some(t) => Some(out@ + t),
                None => None::<Seq<u8>>,
            },
        decreases hi - i,
    {
        let ghost rem = s@.subrange(i as int, hi as int);
        let b = s[i];
        if b == PLUS {
            proof {
                assert(rem.drop_first() =~= s@.subrange(i as int + 1, hi as int));
            }
            out.push(SPACE);
            proof {
                match decode(s@.subrange(i as int + 1, hi as int)) {
                    Some(t) => {
                        assert(out@ + t =~= (out@.drop_last() + (seq![SPACE] + t)));
                    },
                    None => {},
                }
            }
            i += 1;
        } else if b == PERCENT {
            if hi - i < 3 || !(is_hex_byte(s[i + 1]) && is_hex_byte(s[i + 2])) {
                proof {
                    assert(rem[0] == PERCENT);
                    assert(rem.len() >= 3 ==> rem[1] == s@[i as int + 1] && rem[2] == s@[i as int + 2]);
                    assert(decode(rem) is None);
                }
                return None;
            }
            proof {
                assert(rem[1] == s@[i as int + 1]);
                assert(rem[2] == s@[i as int + 2]);
                assert(rem.skip(3) =~= s@.subrange(i as int + 3, hi as int));
            }
            let v = hex_digit(s[i + 1]) * 16 + hex_digit(s[i + 2]);
            out.push(v);
            proof {
                match decode(s@.subrange(i as int + 3, hi as int)) {
                    Some(t) => {
                        assert(out@ + t =~= (out@.drop_last() + (seq![v] + t)));
                    },
                    None => {},
                }
            }
            i += 3;
        } else {
            proof {
                assert(rem.drop_first() =~= s@.subrange(i as int + 1, hi as int));
            }
            out.push(b);
            proof {
                match decode(s@.subrange(i as int + 1, hi as int)) {
                    Some(t) => {
                        assert(out@ + t =~= (out@.drop_last() + (seq![b] + t)));
                    },
                    None => {},
                }
            }
            i += 1;
        }
    }
    proof {
        assert(s@.subrange(i as int, hi as int) =~= Seq::<u8>::empty());
        assert(out@ + Seq::<u8>::empty() =~= out@);
    }
    Some(out)
}

/// Is `b` an ASCII hexadecimal digit?
fn is_hex_byte(b: u8) -> (r: bool)
    ensures
        r == is_hex(b),
{
    (ZERO <= b && b <= NINE) || (65 <= b && b <= 70) || (97 <= b && b <= 102)
}



/// Decoded value of the first pair of `body[pos..]` whose key is `key`:
/// the scan that the spec `lookup_raw` describes, pair by pair.
fn field_from(body: &[u8], key: &[u8]) -> (r: Option<Vec<u8>>)
    ensures
        (match r {
            Some(v) => field_value(body@, key@) == Some(v@),
            None => field_value(body@, key@) is None,
        }),
{
    let mut pos: usize = 0;
    proof {
        assert(body@.skip(0) =~= body@);
    }
    loop
        invariant
            pos <= body@.len(),
            lookup_raw(body@, key@) == lookup_raw(body@.skip(pos as int), key@),
        decreases body@.len() - pos,
    {
        let ghost rest = body@.skip(pos as int);
        let n = find_range(body, pos, body.len(), AMP);
        let ghost pair = rest.take(n - pos);
        proof {
            assert(body@.subrange(pos as int, body@.len() as int) =~= rest);
            assert(pair =~= body@.subrange(pos as int, n as int));
            assert(find(rest, AMP) == n - pos);
        }
        let e = find_range(body, pos, n, EQS);
        proof {
            assert(body@.subrange(pos as int, n as int) =~= pair);
            assert(find(pair, EQS) == e - pos);
            assert(pair.take(e - pos) =~= body@.subrange(pos as int, e as int));
        }
        if bytes_eq_range(body, pos, e, key) {
            // This pair's key matches: its raw value decides the result.
            let start = if e < n {
                e + 1
            } else {
                n
            };
            proof {
                if e < n {
                    assert(pair.skip(e - pos + 1) =~= body@.subrange(e as int + 1, n as int));
                } else {
                    assert(Seq::<u8>::empty() =~= body@.subrange(n as int, n as int));
                }
                assert(lookup_raw(rest, key@) == Some(body@.subrange(start as int, n as int)));
            }
            return decode_range(body, start, n);
        }
        if n == body.len() {
            proof {
                assert(lookup_raw(rest, key@) is None);
            }
            return None;
        }
        proof {
            assert(lookup_raw(rest, key@) == lookup_raw(rest.skip(n - pos + 1), key@));
            assert(rest.skip(n - pos + 1) =~= body@.skip(n as int + 1));
        }
        pos = n + 1;
    }
}

/// The number denoted by the decimal digits in `v`, if `v` is a non-empty
/// string of digits whose value fits a 32-bit identifier.
fn parse_u32(v: &Vec<u8>) -> (r: Option<u32>)
    ensures
        r == parse_num(v@),
{
    if v.len() == 0 {
        return None;
    }
    let mut acc: u64 = 0;
    let mut i: usize = 0;
    while i < v.len()
        invariant
            i <= v@.len(),
            is_digits(v@.take(i as int)),
            acc == dec_value(v@.take(i as int)),
            acc <= u32::MAX,
        decreases v@.len() - i,
    {
        let b = v[i];
        if b < ZERO || b > NINE {
            proof {
                assert(!is_digits(v@));
            }
            return None;
        }
        let next: u64 = acc * 10 + (b - ZERO) as u64;
        proof {
            assert(v@.take(i as int + 1).drop_last() =~= v@.take(i as int));
            assert(v@.take(i as int + 1).last() == b);
            assert(next == dec_value(v@.take(i as int + 1)));
        }
        if next > u32::MAX as u64 {
            proof {
                lemma_dec_value_prefix(v@, i as int + 1);
                assert(dec_value(v@) > u32::MAX);
            }
            return None;
        }
        acc = next;
        i += 1;
    }
    proof {
        assert(v@.take(v@.len() as int) =~= v@);
    }
    Some(acc as u32)
}

/// Bytes of the field name "text".
fn text_key() -> (r: Vec<u8>)
    ensures
        r@ == key_text(),
{
    let mut k: Vec<u8> = Vec::new();
    k.push(116);
    k.push(101);
    k.push(120);
    k.push(116);
    proof {
        assert(k@ =~= key_text());
    }
    k
}

/// Bytes of the field name "id".
fn id_key() -> (r: Vec<u8>)
    ensures
        r@ == key_id(),
{
    let mut k: Vec<u8> = Vec::new();
    k.push(105);
    k.push(100);
    proof {
        assert(k@ =~= key_id());
    }
    k
}

/// The decoded `text` field of an add request's form-encoded body, or
/// `None` when the body carries no well-formed `text` field.
pub fn add_text(body: &[u8]) -> (r: Option<Vec<u8>>)
    ensures
        (match r {
            Some(v) => spec_add_text(body@) == Some(v@),
            None => spec_add_text(body@) is None,
        }),
{
    let key = text_key();
    field_from(body, key.as_slice())
}

/// The identifier of the `id` field of a delete request's form-encoded
/// body, or `None` when the field is absent, malformed or out of range.
pub fn delete_id(body: &[u8]) -> (r: Option<u32>)
    ensures
        r == spec_delete_id(body@),
{
    let key = id_key();
    match field_from(body, key.as_slice()) {
        Some(v) => parse_u32(&v),
        None => None,
    }
}

} // verus!
