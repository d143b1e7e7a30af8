//! The shape of the shared conformance fixtures, and the reading of the
//! values they hold: codepoints are written as `0x`-prefixed hex, varint
//! values in decimal, and encodings as lowercase hex byte strings.
use crate::buf::string_from_utf8;
use vstd::prelude::*;
use vstd::string::StrSliceExecFns;
use vstd::utf8::{decode_utf8, encode_utf8, is_ascii_chars, valid_utf8};

verus! {

broadcast use {
    vstd::utf8::encode_utf8_decode_utf8,
    vstd::utf8::encode_utf8_valid_utf8,
    vstd::utf8::is_ascii_chars_encode_utf8,
};

/// The key this crate is listed under in a fixture's `pending` markers.
pub const LANG: &'static str = "rs";

/// One codepoint in a fixture: a name, a value, and whether a stack is exempt yet.
#[derive(Debug)]
pub struct Entry {
    pub name: String,
    /// Hex string, e.g. `"0x50"`. Use [`Entry::codepoint`] rather than parsing it again.
    pub value: String,
    pub reserved: bool,
    /// Per stack, the issue that will make it conform.
    pub pending: Vec<(String, u64)>,
    pub notes: Option<String>,
    pub stream: Option<String>,
    pub scope: Option<String>,
    pub spec: Option<String>,
}

/// A registry: the draft's table, plus what each stack still gets wrong.
#[derive(Debug)]
pub struct Registry {
    pub source: String,
    pub entries: Vec<Entry>,
    /// Codepoints a stack still defines that the draft does not.
    pub not_in_draft: Vec<Entry>,
    /// Deliberate, permanent divergence. Never asserted against the draft.
    pub local_extensions: Vec<Entry>,
}

#[derive(Debug)]
pub struct ParameterTypes {
    pub setup_options: Registry,
    pub message_parameters: Registry,
}

/// `property_types.json`: the draft's own table, plus the provisional registrations
/// other moq drafts hold in the same number space.
#[derive(Debug)]
pub struct PropertyTypes {
    pub registry: Registry,
    pub provisional: Registry,
}

#[derive(Debug)]
pub struct Varint {
    pub vectors: Section<Vector>,
    pub boundaries: Section<Boundary>,
    pub non_minimal: Section<NonMinimal>,
    pub prefix_shapes: Section<PrefixShape>,
    pub roundtrip_values: Section<String>,
    pub truncated: Section<Truncated>,
}

#[derive(Debug)]
pub struct Section<T> {
    pub entries: Vec<T>,
}

#[derive(Debug)]
pub struct Vector {
    pub encoding: String,
    pub value: String,
    pub minimal: bool,
}

#[derive(Debug)]
pub struct Boundary {
    pub value: String,
    pub length: usize,
    pub encoding: String,
}

#[derive(Debug)]
pub struct NonMinimal {
    pub encoding: String,
    pub value: String,
}

#[derive(Debug)]
pub struct PrefixShape {
    pub value: String,
    pub mask: String,
    pub prefix: String,
}

#[derive(Debug)]
pub struct Truncated {
    pub encoding: String,
    pub reason: String,
}

/// The value of a hex digit, either case.
pub open spec fn hex_digit(c: char) -> Option<nat> {
    if '0' <= c && c <= '9' {
        Some((c as u32 - '0' as u32) as nat)
    } else if 'a' <= c && c <= 'f' {
        Some((c as u32 - 'a' as u32 + 10) as nat)
    } else if 'A' <= c && c <= 'F' {
        Some((c as u32 - 'A' as u32 + 10) as nat)
    } else {
        None
    }
}

/// The value of a decimal digit.
pub open spec fn dec_digit(c: char) -> Option<nat> {
    if '0' <= c && c <= '9' {
        Some((c as u32 - '0' as u32) as nat)
    } else {
        None
    }
}

/// Every character is a digit of the given base (16 or 10).
pub open spec fn all_digits(cs: Seq<char>, base: nat) -> bool {
    forall|i: int| 0 <= i < cs.len() ==> #[trigger] digit_of(cs[i], base) is Some
}

pub open spec fn digit_of(c: char, base: nat) -> Option<nat> {
    if base == 16 {
        hex_digit(c)
    } else {
        dec_digit(c)
    }
}

/// The number the digits spell in the given base, most significant first.
pub open spec fn digits_value(cs: Seq<char>, base: nat) -> nat
    decreases cs.len(),
{
    if cs.len() == 0 {
        0
    } else {
        digits_value(cs.drop_last(), base) * base + digit_of(cs.last(), base)->Some_0
    }
}

/// The digits of a number as the standard parser reads them: an optional
/// leading `+`, then the digits.
pub open spec fn unsigned_digits(s: Seq<char>) -> Seq<char> {
    if s.len() > 0 && s[0] == '+' {
        s.skip(1)
    } else {
        s
    }
}

/// A number the standard parser accepts: at least one digit of the base,
/// all of them digits, and a value that fits in 64 bits.
pub open spec fn parses_as_u64(s: Seq<char>, base: nat) -> bool {
    &&& unsigned_digits(s).len() > 0
    &&& all_digits(unsigned_digits(s), base)
    &&& digits_value(unsigned_digits(s), base) <= u64::MAX
}

/// A fixture codepoint: `0x` or `0X`, then a hex number.
pub open spec fn is_fixture_hex(s: Seq<char>) -> bool {
    &&& s.len() >= 2
    &&& s[0] == '0'
    &&& (s[1] == 'x' || s[1] == 'X')
    &&& parses_as_u64(s.skip(2), 16)
}

/// Reads a number in the given base from `s`, which the caller has checked.
fn parse_unsigned(s: &str, from: usize, base: u64) -> (v: u64)
    requires
        base == 16 || base == 10,
        from <= s@.len(),
        parses_as_u64(s@.skip(from as int), base as nat),
    ensures
        v == digits_value(unsigned_digits(s@.skip(from as int)), base as nat),
{
    let n = s.unicode_len();
    let ghost t = s@.skip(from as int);
    let ghost d = unsigned_digits(t);
    let mut i = from;
    if i < n && s.get_char(i) == '+' {
        i = i + 1;
    }
    let start = i;
    proof {
        assert(d =~= s@.subrange(start as int, n as int));
        assert(d.take(0) =~= Seq::<char>::empty());
    }
    let mut v: u64 = 0;
    while i < n
        invariant
            start <= i <= n,
            n == s@.len(),
            base == 16 || base == 10,
            d == s@.subrange(start as int, n as int),
            all_digits(d, base as nat),
            digits_value(d, base as nat) <= u64::MAX,
            v == digits_value(d.take(i - start), base as nat),
        decreases n - i,
    {
        let c = s.get_char(i);
        let ghost k = (i - start) as int;
        proof {
            assert(d[k] == c);
            assert(digit_of(c, base as nat) is Some);
            assert(d.take(k + 1).drop_last() =~= d.take(k));
            assert(d.take(k + 1).last() == c);
            lemma_prefix_value_bounded(d, base as nat, k + 1);
        }
        let digit: u64 = if '0' <= c && c <= '9' {
            (c as u32 - '0' as u32) as u64
        } else if 'a' <= c && c <= 'f' {
            (c as u32 - 'a' as u32 + 10) as u64
        } else {
            (c as u32 - 'A' as u32 + 10) as u64
        };
        v = v * base + digit;
        i = i + 1;
    }
    proof {
        assert(d.take(n - start) =~= d);
    }
    v
}

/// A prefix of digits is worth no more than the whole.
proof fn lemma_prefix_value_bounded(d: Seq<char>, base: nat, k: int)
    requires
        base == 16 || base == 10,
        0 <= k <= d.len(),
        all_digits(d, base),
    ensures
        digits_value(d.take(k), base) <= digits_value(d, base),
    decreases d.len() - k,
{
    if k < d.len() {
        lemma_prefix_value_bounded(d, base, k + 1);
        assert(d.take(k + 1).drop_last() =~= d.take(k));
        assert(digit_of(d[k], base) is Some);
        assert(digits_value(d.take(k + 1), base) == digits_value(d.take(k), base) * base + digit_of(
            d[k],
            base,
        )->Some_0);
        assert(digits_value(d.take(k), base) <= digits_value(d.take(k), base) * base) by (nonlinear_arith)
            requires
                base >= 1,
        ;
    } else {
        assert(d.take(k) =~= d);
    }
}

/// Parses a `"0x2F00"`-style fixture value.
pub fn parse_hex(s: &str) -> (v: u64)
    requires
        is_fixture_hex(s@),
    ensures
        v == digits_value(unsigned_digits(s@.skip(2)), 16),
{
    parse_unsigned(s, 2, 16)
}

/// Parses a decimal fixture value. Varint values are strings because 2^64-1
/// does not survive a JSON number.
pub fn parse_u64(s: &str) -> (v: u64)
    requires
        parses_as_u64(s@, 10),
    ensures
        v == digits_value(unsigned_digits(s@), 10),
{
    proof {
        assert(s@.skip(0) =~= s@);
    }
    parse_unsigned(s, 0, 10)
}

/// One byte of a hex byte string as the standard parser reads a pair of
/// characters: two hex digits, or `+` and one.
pub open spec fn hex_pair(c0: char, c1: char) -> Option<u8> {
    if c0 == '+' {
        match hex_digit(c1) {
            Some(d) => Some(d as u8),
            None => None,
        }
    } else {
        match (hex_digit(c0), hex_digit(c1)) {
            (Some(h), Some(l)) => Some((h * 16 + l) as u8),
            _ => None,
        }
    }
}

/// A hex byte string the parser accepts: an even number of characters, each
/// pair a byte.
pub open spec fn is_hex_bytes(s: Seq<char>) -> bool {
    &&& s.len() % 2 == 0
    &&& forall|i: int| 0 <= i < s.len() / 2 ==> #[trigger] hex_pair(s[2 * i], s[2 * i + 1]) is Some
}

/// The bytes a hex byte string stands for.
pub open spec fn hex_bytes(s: Seq<char>) -> Seq<u8> {
    Seq::new(s.len() / 2, |i: int| hex_pair(s[2 * i], s[2 * i + 1])->Some_0)
}

fn hex_digit_exec(c: char) -> (d: u8)
    requires
        hex_digit(c) is Some,
    ensures
        d == hex_digit(c)->Some_0,
{
    if '0' <= c && c <= '9' {
        (c as u32 - '0' as u32) as u8
    } else if 'a' <= c && c <= 'f' {
        (c as u32 - 'a' as u32 + 10) as u8
    } else {
        (c as u32 - 'A' as u32 + 10) as u8
    }
}

/// Decodes a lowercase-hex fixture byte sequence.
pub fn parse_bytes(hex: &str) -> (v: Vec<u8>)
    requires
        is_hex_bytes(hex@),
    ensures
        v@ == hex_bytes(hex@),
{
    let n = hex.unicode_len();
    let mut out: Vec<u8> = Vec::new();
    let mut i: usize = 0;
    while i < n / 2
        invariant
            n == hex@.len(),
            i <= n / 2,
            is_hex_bytes(hex@),
            out@ == hex_bytes(hex@).take(i as int),
        decreases n / 2 - i,
    {
        let ghost k = i as int;
        assert(hex_pair(hex@[2 * k], hex@[2 * k + 1]) is Some);
        let c0 = hex.get_char(2 * i);
        let c1 = hex.get_char(2 * i + 1);
        let b: u8 = if c0 == '+' {
            hex_digit_exec(c1)
        } else {
            let h = hex_digit_exec(c0);
            let l = hex_digit_exec(c1);
            h * 16 + l
        };
        out.push(b);
        i = i + 1;
        proof {
            assert(out@ =~= hex_bytes(hex@).take(i as int));
        }
    }
    proof {
        assert(hex_bytes(hex@).take((n / 2) as int) =~= hex_bytes(hex@));
    }
    out
}

/// Whether two strings hold the same characters.
fn str_eq(a: &str, b: &str) -> (r: bool)
    ensures
        r == (a@ == b@),
{
    let n = a.unicode_len();
    if n != b.unicode_len() {
        return false;
    }
    let mut i: usize = 0;
    while i < n
        invariant
            n == a@.len() == b@.len(),
            i <= n,
            a@.take(i as int) == b@.take(i as int),
        decreases n - i,
    {
        if a.get_char(i) != b.get_char(i) {
            return false;
        }
        i = i + 1;
        proof {
            assert(a@.take(i as int) =~= a@.take(i - 1).push(a@[i - 1]));
            assert(b@.take(i as int) =~= b@.take(i - 1).push(b@[i - 1]));
        }
    }
    proof {
        assert(a@.take(n as int) =~= a@);
        assert(b@.take(n as int) =~= b@);
    }
    true
}

/// The pending markers as keys and issues.
pub open spec fn pending_view(p: Seq<(String, u64)>) -> Seq<(Seq<char>, u64)> {
    p.map_values(|e: (String, u64)| (e.0@, e.1))
}

/// The issue listed under `key`, the first one if there are several.
pub open spec fn spec_lookup(p: Seq<(Seq<char>, u64)>, key: Seq<char>) -> Option<u64>
    decreases p.len(),
{
    if p.len() == 0 {
        None
    } else if p[0].0 == key {
        Some(p[0].1)
    } else {
        spec_lookup(p.skip(1), key)
    }
}

impl Entry {
    /// The codepoint as a number.
    pub fn codepoint(&self) -> (v: u64)
        requires
            is_fixture_hex(self.value@),
        ensures
            v == digits_value(unsigned_digits(self.value@.skip(2)), 16),
    {
        parse_hex(self.value.as_str())
    }

    /// The issue that will make this crate conform, or `None` if it must conform now.
    pub fn pending_issue(&self) -> (r: Option<u64>)
        ensures
            r == spec_lookup(pending_view(self.pending@), LANG@),
    {
        let ghost p = pending_view(self.pending@);
        let mut i: usize = 0;
        proof {
            assert(p.skip(0) =~= p);
        }
        while i < self.pending.len()
            invariant
                i <= self.pending@.len(),
                p == pending_view(self.pending@),
                spec_lookup(p, LANG@) == spec_lookup(p.skip(i as int), LANG@),
            decreases self.pending.len() - i,
        {
            proof {
                assert(p.skip(i as int)[0] == p[i as int]);
                assert(p.skip(i as int).skip(1) =~= p.skip(i + 1));
            }
            if str_eq(self.pending[i].0.as_str(), LANG) {
                return Some(self.pending[i].1);
            }
            i = i + 1;
        }
        None
    }
}

/// An ASCII letter in upper case, anything else unchanged.
pub open spec fn ascii_upper(c: char) -> char {
    if 'a' <= c && c <= 'z' {
        ((c as u32) - 32) as char
    } else {
        c
    }
}

/// An ASCII letter in lower case, anything else unchanged.
pub open spec fn ascii_lower(c: char) -> char {
    if 'A' <= c && c <= 'Z' {
        ((c as u32) + 32) as char
    } else {
        c
    }
}

/// One part of a name: its first letter upper-cased, the rest lower-cased.
pub open spec fn pascal_part(p: Seq<char>) -> Seq<char> {
    if p.len() == 0 {
        Seq::empty()
    } else {
        seq![ascii_upper(p[0])] + p.skip(1).map_values(|c: char| ascii_lower(c))
    }
}

/// The parts of `s` between underscores, the first continuing `cur`, each
/// put in PascalCase and joined.
pub open spec fn spec_pascal(s: Seq<char>, cur: Seq<char>) -> Seq<char>
    decreases s.len(),
{
    if s.len() == 0 {
        pascal_part(cur)
    } else if s[0] == '_' {
        pascal_part(cur) + spec_pascal(s.skip(1), Seq::empty())
    } else {
        spec_pascal(s.skip(1), cur.push(s[0]))
    }
}

proof fn lemma_ascii_case(c: char)
    requires
        '\0' <= c <= '\u{7f}',
    ensures
        '\0' <= ascii_upper(c) <= '\u{7f}',
        '\0' <= ascii_lower(c) <= '\u{7f}',
{
}

/// Appends the PascalCase form of `name[from..to]` as ASCII bytes.
fn push_pascal_part(out: &mut Vec<u8>, name: &str, from: usize, to: usize)
    requires
        from <= to <= name@.len(),
        is_ascii_chars(name@),
    ensures
        final(out)@ == old(out)@ + pascal_part(name@.subrange(from as int, to as int)).map_values(
            |c: char| c as u8,
        ),
        is_ascii_chars(pascal_part(name@.subrange(from as int, to as int))),
{
    let ghost part = name@.subrange(from as int, to as int);
    let ghost before = out@;
    let mut j = from;
    proof {
        assert(part.take(0) =~= Seq::<char>::empty());
        assert(pascal_part(part.take(0)).map_values(|c: char| c as u8) =~= Seq::<u8>::empty());
    }
    while j < to
        invariant
            from <= j <= to <= name@.len(),
            is_ascii_chars(name@),
            part == name@.subrange(from as int, to as int),
            out@ == before + pascal_part(part.take(j - from)).map_values(|c: char| c as u8),
        decreases to - j,
    {
        let c = name.get_char(j);
        proof {
            lemma_ascii_case(c);
        }
        let code = c as u32;
        let b: u8 = if j == from {
            if 97 <= code && code <= 122 {
                (code - 32) as u8
            } else {
                code as u8
            }
        } else if 65 <= code && code <= 90 {
            (code + 32) as u8
        } else {
            code as u8
        };
        out.push(b);
        proof {
            let k = (j - from) as int;
            let q = part.take(k + 1);
            assert(q.drop_last() =~= part.take(k));
            assert(part[k] == c);
            if k == 0 {
                assert(pascal_part(q) =~= seq![ascii_upper(c)]);
                assert(pascal_part(part.take(k)) =~= Seq::<char>::empty());
            } else {
                assert(pascal_part(q) =~= pascal_part(part.take(k)).push(ascii_lower(c)));
            }
            assert(out@ =~= before + pascal_part(q).map_values(|c: char| c as u8));
        }
        j = j + 1;
    }
    proof {
        assert(part.take(to - from) =~= part);
        let pp = pascal_part(part);
        assert forall|x: int| 0 <= x < pp.len() implies '\0' <= #[trigger] pp[x] <= '\u{7f}' by {
            lemma_ascii_case(part[x]);
        }
    }
}

/// `SUBSCRIBE_NAMESPACE` -> `SubscribeNamespace`, this crate's identifier
/// convention for the ASCII names the fixtures use.
pub fn pascal(name: &str) -> (r: String)
    requires
        is_ascii_chars(name@),
    ensures
        r@ == spec_pascal(name@, Seq::empty()),
{
    let n = name.unicode_len();
    let mut out: Vec<u8> = Vec::new();
    let mut part_start: usize = 0;
    let ghost mut done: Seq<char> = Seq::empty();
    let mut i: usize = 0;
    proof {
        assert(name@.skip(0) =~= name@);
        assert(name@.subrange(0, 0) =~= Seq::<char>::empty());
        assert(out@ =~= done.map_values(|c: char| c as u8));
    }
    while i < n
        invariant
            n == name@.len(),
            part_start <= i <= n,
            is_ascii_chars(name@),
            is_ascii_chars(done),
            out@ == done.map_values(|c: char| c as u8),
            spec_pascal(name@, Seq::empty()) == done + spec_pascal(
                name@.skip(i as int),
                name@.subrange(part_start as int, i as int),
            ),
        decreases n - i,
    {
        let c = name.get_char(i);
        if c == '_' {
            let ghost part = name@.subrange(part_start as int, i as int);
            push_pascal_part(&mut out, name, part_start, i);
            proof {
                assert(name@.skip(i as int)[0] == '_');
                assert(name@.skip(i as int).skip(1) =~= name@.skip(i + 1));
                assert(name@.subrange(i + 1, i + 1) =~= Seq::<char>::empty());
                assert(done + (pascal_part(part) + spec_pascal(name@.skip(i + 1), Seq::empty())) =~= (done
                    + pascal_part(part)) + spec_pascal(name@.skip(i + 1), Seq::empty()));
                done = done + pascal_part(part);
                assert(out@ =~= done.map_values(|c: char| c as u8));
            }
            part_start = i + 1;
        } else {
            proof {
                assert(name@.skip(i as int)[0] == name@[i as int]);
                assert(name@.skip(i as int).skip(1) =~= name@.skip(i + 1));
                assert(name@.subrange(part_start as int, i as int).push(name@[i as int]) =~= name@.subrange(
                    part_start as int,
                    i + 1,
                ));
            }
        }
        i = i + 1;
    }
    let ghost part = name@.subrange(part_start as int, n as int);
    push_pascal_part(&mut out, name, part_start, n);
    proof {
        assert(name@.skip(n as int) =~= Seq::<char>::empty());
        done = done + pascal_part(part);
        assert(out@ =~= done.map_values(|c: char| c as u8));
        assert(done == spec_pascal(name@, Seq::empty()));
        vstd::utf8::is_ascii_chars_encode_utf8(done);
        assert forall|x: int| 0 <= x < out@.len() implies out@[x] == encode_utf8(done)[x] by {
            assert(out@[x] == done[x] as u8);
        }
        assert(encode_utf8(done) =~= out@);
    }
    let ghost bytes = out@;
    match string_from_utf8(out) {
        Some(s) => {
            proof {
                assert(decode_utf8(encode_utf8(s@)) == s@);
                assert(decode_utf8(encode_utf8(done)) == done);
            }
            s
        },
        None => {
            proof {
                assert(valid_utf8(encode_utf8(done)));
            }
            String::new()
        },
    }
}

} // verus!
