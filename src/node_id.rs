//! Node identities: 64-bit values built from a numeric literal or from a
//! hashed name, and the registry that remembers which name gave which value.

use vstd::prelude::*;
use crate::error::LoadError;
use crate::assoc::{keys_unique, has_key, assoc_map, lemma_assoc_get, lemma_assoc_push};

verus! {

/// Identities below this value are left to numeric literals and index slots.
pub const RESERVED_LIMIT: u64 = 65536;

/// How many zero bytes a name's hash input may be padded with before the
/// identity is lifted out of the reserved range directly.
pub const PERTURB_LIMIT: u64 = 64;

/// The identity of one node of a graph.
#[derive(Debug, Clone, Copy, PartialEq, Eq, Structural, Hash)]
pub struct NodeId(pub u64);

// ---------------------------------------------------------------------
// Numeric literals
// ---------------------------------------------------------------------

/// The value of `c` as a digit in `radix` (2, 8, 10 or 16).
pub open spec fn digit_of(c: char, radix: nat) -> Option<nat> {
    let d: int = if '0' <= c && c <= '9' {
        c as int - '0' as int
    } else if 'a' <= c && c <= 'f' {
        c as int - 'a' as int + 10
    } else if 'A' <= c && c <= 'F' {
        c as int - 'A' as int + 10
    } else {
        -1
    };
    if 0 <= d && d < radix {
        Some(d as nat)
    } else {
        None
    }
}

pub open spec fn all_digits(s: Seq<char>, radix: nat) -> bool {
    forall|i: int| 0 <= i < s.len() ==> (#[trigger] digit_of(s[i], radix)).is_some()
}

/// The number that the digits `s` write in `radix`, most significant first.
pub open spec fn digits_value(s: Seq<char>, radix: nat) -> nat
    decreases s.len(),
{
    if s.len() == 0 {
        0
    } else {
        digits_value(s.drop_last(), radix) * radix + digit_of(s.last(), radix).unwrap_or(0)
    }
}

/// The radix that a literal's prefix selects and the length of that prefix.
pub open spec fn literal_radix(s: Seq<char>) -> (nat, nat) {
    if s.len() >= 2 && s[0] == '0' && s[1] == 'x' {
        (16, 2)
    } else if s.len() >= 2 && s[0] == '0' && s[1] == 'o' {
        (8, 2)
    } else if s.len() >= 2 && s[0] == '0' && s[1] == 'b' {
        (2, 2)
    } else {
        (10, 0)
    }
}

/// The number a literal text denotes: `0x` hexadecimal, `0o` octal,
/// `0b` binary, otherwise decimal; at least one digit after the prefix.
pub open spec fn literal_value(s: Seq<char>) -> Option<nat> {
    let body = s.skip(literal_radix(s).1 as int);
    if body.len() > 0 && all_digits(body, literal_radix(s).0) {
        Some(digits_value(body, literal_radix(s).0))
    } else {
        None
    }
}

/// The lower-case digit for `d < 16`.
pub open spec fn digit_char(d: nat) -> char {
    if d < 10 {
        ('0' as nat + d) as char
    } else {
        ('a' as nat + d - 10) as char
    }
}

/// The digits of `n` in `radix`, most significant first, without leading
/// zeros.
pub open spec fn digits_of(n: nat, radix: nat) -> Seq<char>
    decreases n
    via digits_of_decreases
{
    if radix < 2 || n < radix {
        seq![digit_char(n)]
    } else {
        digits_of(n / radix, radix).push(digit_char(n % radix))
    }
}

/// A literal for `n`: the prefix of the radix (none for decimal) and the
/// digits.
pub open spec fn literal_text(n: nat, radix: nat) -> Seq<char> {
    if radix == 16 {
        "0x"@ + digits_of(n, 16)
    } else if radix == 8 {
        "0o"@ + digits_of(n, 8)
    } else if radix == 2 {
        "0b"@ + digits_of(n, 2)
    } else {
        digits_of(n, 10)
    }
}

#[via_fn]
proof fn digits_of_decreases(n: nat, radix: nat) {
    if !(radix < 2 || n < radix) {
        assert(n / radix < n) by (nonlinear_arith)
            requires n >= radix, radix >= 2;
    }
}

proof fn lemma_digit_char(d: nat, radix: nat)
    requires
        d < radix <= 16,
    ensures
        digit_of(digit_char(d), radix) == Some(d),
        radix <= 10 ==> '0' <= digit_char(d) <= '9',
{
}

proof fn lemma_digits_of(n: nat, radix: nat)
    requires
        radix == 2 || radix == 8 || radix == 10 || radix == 16,
    ensures
        digits_of(n, radix).len() > 0,
        all_digits(digits_of(n, radix), radix),
        digits_value(digits_of(n, radix), radix) == n,
        radix == 10 ==> forall|i: int| 0 <= i < digits_of(n, radix).len() ==> '0' <= #[trigger] digits_of(n, radix)[i] <= '9',
    decreases n,
{
    let d = digits_of(n, radix);
    if n < radix {
        lemma_digit_char(n, radix);
        assert(d.drop_last() =~= Seq::<char>::empty());
        assert(d.last() == digit_char(n));
        assert(digits_value(d, radix) == digits_value(Seq::<char>::empty(), radix) * radix + n);
    } else {
        let q = n / radix;
        let r = n % radix;
        assert(q < n) by (nonlinear_arith)
            requires n >= radix, radix >= 2, q == n / radix;
        lemma_digits_of(q, radix);
        lemma_digit_char(r, radix);
        let p = digits_of(q, radix);
        assert(d == p.push(digit_char(r)));
        assert(d.drop_last() =~= p);
        assert(n == q * radix + r) by (nonlinear_arith)
            requires q == n / radix, r == n % radix, radix > 0;
        assert(digits_value(d, radix) == digits_value(p, radix) * radix + r);
        assert forall|i: int| 0 <= i < d.len() implies (#[trigger] digit_of(d[i], radix)).is_some() by {
            if i < p.len() {
                assert(d[i] == p[i]);
            }
        }
    }
}

/// Every decimal, hexadecimal, octal or binary rendering of a 64-bit value
/// reads back as that value.
pub proof fn law_literal_round_trip(n: u64, radix: nat)
    requires
        radix == 2 || radix == 8 || radix == 10 || radix == 16,
    ensures
        literal_value(literal_text(n as nat, radix)) == Some(n as nat),
{
    lemma_digits_of(n as nat, radix);
    let d = digits_of(n as nat, radix);
    let s = literal_text(n as nat, radix);
    if radix == 10 {
        if s.len() >= 2 {
            assert('0' <= s[1] <= '9');
        }
        assert(s.skip(0) =~= d);
    } else {
        reveal_strlit("0x");
        reveal_strlit("0o");
        reveal_strlit("0b");
        assert(s.skip(2) =~= d);
    }
}

/// `k` zero digits.
pub open spec fn zeros(k: nat) -> Seq<char> {
    Seq::new(k, |i: int| '0')
}

proof fn lemma_zeros_value(k: nat, radix: nat)
    requires
        radix == 2 || radix == 8 || radix == 10 || radix == 16,
    ensures
        digits_value(zeros(k), radix) == 0,
        all_digits(zeros(k), radix),
    decreases k,
{
    if k > 0 {
        assert(zeros(k).drop_last() =~= zeros((k - 1) as nat));
        lemma_zeros_value((k - 1) as nat, radix);
    }
}

proof fn lemma_leading_zeros(k: nat, d: Seq<char>, radix: nat)
    requires
        radix == 2 || radix == 8 || radix == 10 || radix == 16,
    ensures
        digits_value(zeros(k) + d, radix) == digits_value(d, radix),
    decreases d.len(),
{
    if d.len() == 0 {
        assert(zeros(k) + d =~= zeros(k));
        lemma_zeros_value(k, radix);
    } else {
        assert((zeros(k) + d).drop_last() =~= zeros(k) + d.drop_last());
        assert((zeros(k) + d).last() == d.last());
        lemma_leading_zeros(k, d.drop_last(), radix);
    }
}

/// Leading zeros change nothing: every decimal, hexadecimal, octal or
/// binary rendering of a 64-bit value, padded with `k` zeros after its
/// prefix, reads back as that value.
pub proof fn law_literal_round_trip_padded(n: u64, radix: nat, k: nat)
    requires
        radix == 2 || radix == 8 || radix == 10 || radix == 16,
    ensures
        literal_value(literal_prefix(radix) + zeros(k) + digits_of(n as nat, radix)) == Some(n as nat),
{
    lemma_digits_of(n as nat, radix);
    lemma_zeros_value(k, radix);
    lemma_leading_zeros(k, digits_of(n as nat, radix), radix);
    let d = zeros(k) + digits_of(n as nat, radix);
    let s = literal_prefix(radix) + d;
    assert(all_digits(d, radix)) by {
        assert forall|i: int| 0 <= i < d.len() implies (#[trigger] digit_of(d[i], radix)).is_some() by {
            if i >= k {
                assert(d[i] == digits_of(n as nat, radix)[i - k]);
            }
        }
    }
    assert(literal_prefix(radix) + zeros(k) + digits_of(n as nat, radix) =~= s);
    reveal_strlit("0x");
    reveal_strlit("0o");
    reveal_strlit("0b");
    if radix == 10 {
        assert(literal_prefix(radix) =~= Seq::<char>::empty());
        assert(s =~= d);
        if s.len() >= 2 {
            assert(digit_of(d[1], 10).is_some());
        }
        assert(s.skip(0) =~= d);
    } else {
        assert(s.skip(2) =~= d);
    }
}

/// The prefix that selects a radix; none for decimal.
pub open spec fn literal_prefix(radix: nat) -> Seq<char> {
    if radix == 16 {
        "0x"@
    } else if radix == 8 {
        "0o"@
    } else if radix == 2 {
        "0b"@
    } else {
        Seq::empty()
    }
}

proof fn lemma_digits_prefix_le(s: Seq<char>, radix: nat, k: int)
    requires
        0 <= k <= s.len(),
        radix >= 2,
    ensures
        digits_value(s.subrange(0, k), radix) <= digits_value(s, radix),
    decreases s.len(),
{
    if k < s.len() {
        let t = s.drop_last();
        assert(s.subrange(0, k) =~= t.subrange(0, k));
        lemma_digits_prefix_le(t, radix, k);
        let a = digits_value(t, radix);
        assert(a <= a * radix) by (nonlinear_arith)
            requires radix >= 2;
    } else {
        assert(s.subrange(0, k) =~= s);
    }
}

fn digit_exec(c: char, radix: u64) -> (r: Option<u64>)
    requires
        radix == 2 || radix == 8 || radix == 10 || radix == 16,
    ensures
        match r {
            Some(d) => digit_of(c, radix as nat) == Some(d as nat) && d < radix,
            None => digit_of(c, radix as nat).is_none(),
        },
{
    let d: u64 = if '0' <= c && c <= '9' {
        (c as u64) - ('0' as u64)
    } else if 'a' <= c && c <= 'f' {
        (c as u64) - ('a' as u64) + 10
    } else if 'A' <= c && c <= 'F' {
        (c as u64) - ('A' as u64) + 10
    } else {
        return None;
    };
    if d < radix {
        Some(d)
    } else {
        None
    }
}

impl NodeId {
    /// Reads an identity from a numeric literal (`0x..`, `0o..`, `0b..` or
    /// decimal). Fails when the text is no literal or its value does not
    /// fit in 64 bits.
    pub fn from_literal(text: &str) -> (r: Result<NodeId, LoadError>)
        ensures
            match r {
                Ok(id) => literal_value(text@) == Some(id.0 as nat),
                Err(e) => e == LoadError::ParseError && match literal_value(text@) {
                    Some(v) => v > u64::MAX,
                    None => true,
                },
            },
    {
        let n = text.unicode_len();
        let mut radix: u64 = 10;
        let mut start: usize = 0;
        if n >= 2 && text.get_char(0) == '0' {
            let c1 = text.get_char(1);
            if c1 == 'x' {
                radix = 16;
                start = 2;
            } else if c1 == 'o' {
                radix = 8;
                start = 2;
            } else if c1 == 'b' {
                radix = 2;
                start = 2;
            }
        }
        let ghost s = text@;
        let ghost body = s.skip(start as int);
        assert(literal_radix(s) == (radix as nat, start as nat));
        if start >= n {
            return Err(LoadError::ParseError);
        }
        let mut acc: u64 = 0;
        let mut i: usize = start;
        while i < n
            invariant
                start <= i <= n,
                n == s.len(),
                s == text@,
                body == s.skip(start as int),
                literal_radix(s) == (radix as nat, start as nat),
                radix == 2 || radix == 8 || radix == 10 || radix == 16,
                all_digits(body.subrange(0, i - start), radix as nat),
                acc as nat == digits_value(body.subrange(0, i - start), radix as nat),
            decreases n - i,
        {
            let c = text.get_char(i);
            let ghost k: int = i - start;
            assert(body[k] == c);
            let d = match digit_exec(c, radix) {
                Some(d) => d,
                None => {
                    assert(!all_digits(body, radix as nat));
                    return Err(LoadError::ParseError);
                },
            };
            let ghost prefix = body.subrange(0, k + 1);
            assert(prefix.drop_last() =~= body.subrange(0, k));
            assert(digits_value(prefix, radix as nat) == acc * radix + d);
            let lim = (u64::MAX - d) / radix;
            let ghost top: int = u64::MAX - d;
            if acc > lim {
                proof {
                    assert(acc * radix + d > u64::MAX) by (nonlinear_arith)
                        requires
                            acc > lim,
                            lim == top / (radix as int),
                            top == u64::MAX - d,
                            radix > 0,
                    ;
                    if all_digits(body, radix as nat) {
                        lemma_digits_prefix_le(body, radix as nat, k + 1);
                    }
                }
                return Err(LoadError::ParseError);
            }
            proof {
                assert(acc * radix + d <= u64::MAX) by (nonlinear_arith)
                    requires
                        acc <= lim,
                        lim == top / (radix as int),
                        top == u64::MAX - d,
                        radix > 0,
                ;
                assert forall|j: int| 0 <= j < k + 1 implies (#[trigger] digit_of(prefix[j], radix as nat)).is_some() by {
                    if j < k {
                        assert(prefix[j] == body.subrange(0, k)[j]);
                    }
                }
            }
            acc = acc * radix + d;
            i = i + 1;
        }
        assert(body.subrange(0, n - start) =~= body);
        Ok(NodeId(acc))
    }
}

// ---------------------------------------------------------------------
// Names
// ---------------------------------------------------------------------

/// The characters with Unicode's White_Space property, which
/// `char::is_whitespace` tests for.
pub open spec fn is_white_space(c: char) -> bool {
    ('\u{9}' <= c && c <= '\u{d}') || c == ' ' || c == '\u{85}' || c == '\u{a0}' || c == '\u{1680}'
        || ('\u{2000}' <= c && c <= '\u{200a}') || c == '\u{2028}' || c == '\u{2029}' || c == '\u{202f}'
        || c == '\u{205f}' || c == '\u{3000}'
}

/// How many white-space characters `s` starts with.
pub open spec fn leading_space(s: Seq<char>) -> nat
    decreases s.len(),
{
    if s.len() > 0 && is_white_space(s[0]) {
        1 + leading_space(s.skip(1))
    } else {
        0
    }
}

/// How many white-space characters `s` ends with.
pub open spec fn trailing_space(s: Seq<char>) -> nat
    decreases s.len(),
{
    if s.len() > 0 && is_white_space(s.last()) {
        1 + trailing_space(s.drop_last())
    } else {
        0
    }
}

/// `s` without its leading and trailing white space.
pub open spec fn trim_of(s: Seq<char>) -> Seq<char> {
    let rest = s.skip(leading_space(s) as int);
    rest.subrange(0, rest.len() - trailing_space(rest))
}

/// What std's `DefaultHasher` yields after being fed exactly these bytes.
pub uninterp spec fn hash_of(bytes: Seq<u8>) -> u64;

/// Relies on `str::trim`: the text without its leading and trailing
/// characters of Unicode's White_Space property.
#[verifier::external_body]
fn trim_text(s: &str) -> (r: &str)
    ensures
        r@ == trim_of(s@),
{
    s.trim()
}

/// Relies on std's `DefaultHasher` (`new`, `write`, `finish`): SipHash with
/// fixed keys, so the value depends on the bytes alone.
#[verifier::external_body]
fn hash_bytes(bytes: &[u8]) -> (r: u64)
    ensures
        r == hash_of(bytes@),
{
    let mut h = std::collections::hash_map::DefaultHasher::new();
    std::hash::Hasher::write(&mut h, bytes);
    std::hash::Hasher::finish(&h)
}

/// Relies on `String::push`: the character is appended at the end.
pub assume_specification[ String::push ](s: &mut String, ch: char)
    ensures
        final(s)@ == old(s)@.push(ch),
;

/// `b` followed by `k` zero bytes.
pub open spec fn zero_padded(b: Seq<u8>, k: nat) -> Seq<u8> {
    b + Seq::new(k, |i: int| 0u8)
}

/// The identity for hash input `b` once `k` zero bytes have been appended:
/// the first hash at or above the reserved range, appending one more zero
/// byte each time; past the padding limit the hash is lifted directly.
pub open spec fn perturbed_id(b: Seq<u8>, k: nat) -> u64
    decreases PERTURB_LIMIT - k,
{
    let h = hash_of(zero_padded(b, k));
    if h >= RESERVED_LIMIT {
        h
    } else if k >= PERTURB_LIMIT {
        (h + RESERVED_LIMIT) as u64
    } else {
        perturbed_id(b, k + 1)
    }
}

/// The identity that a node name is given.
pub open spec fn name_id(name: Seq<char>) -> u64 {
    perturbed_id(vstd::utf8::encode_utf8(trim_of(name)), 0)
}

pub proof fn lemma_perturbed_above_reserved(b: Seq<u8>, k: nat)
    ensures
        perturbed_id(b, k) >= RESERVED_LIMIT,
    decreases PERTURB_LIMIT - k,
{
    let h = hash_of(zero_padded(b, k));
    if h < RESERVED_LIMIT && k < PERTURB_LIMIT {
        lemma_perturbed_above_reserved(b, k + 1);
    }
}

/// An identity made from a name never falls in the range reserved for
/// numeric literals and index slots.
pub proof fn law_name_id_above_reserved(name: Seq<char>)
    ensures
        name_id(name) >= RESERVED_LIMIT,
{
    lemma_perturbed_above_reserved(vstd::utf8::encode_utf8(trim_of(name)), 0);
}

/// Two names that read the same once trimmed get the same identity.
pub proof fn law_name_id_deterministic(a: Seq<char>, b: Seq<char>)
    requires
        trim_of(a) == trim_of(b),
    ensures
        name_id(a) == name_id(b),
{
}

/// Remembers, for identities made from names, the trimmed name that gave
/// each.
pub struct NameRegistry {
    entries: Vec<(u64, String)>,
}

pub open spec fn entry_view(p: (u64, String)) -> (u64, Seq<char>) {
    (p.0, p.1@)
}

impl NameRegistry {
    pub closed spec fn entries_view(&self) -> Seq<(u64, Seq<char>)> {
        self.entries@.map_values(|p: (u64, String)| entry_view(p))
    }

    /// The registered names, by identity.
    pub closed spec fn view(&self) -> Map<u64, Seq<char>> {
        assoc_map(self.entries_view())
    }

    pub closed spec fn wf(&self) -> bool {
        keys_unique(self.entries_view())
    }

    pub fn new() -> (r: NameRegistry)
        ensures
            r.wf(),
            r@ == Map::<u64, Seq<char>>::empty(),
    {
        let r = NameRegistry { entries: Vec::new() };
        assert(r.entries_view() =~= Seq::<(u64, Seq<char>)>::empty());
        r
    }

    /// The name registered for `id`, if any.
    pub fn lookup(&self, id: u64) -> (r: Option<&String>)
        requires
            self.wf(),
        ensures
            match r {
                Some(name) => self@.contains_key(id) && self@[id] == name@,
                None => !self@.contains_key(id),
            },
    {
        let ghost ev = self.entries_view();
        proof {
            lemma_assoc_get(ev, id);
        }
        let mut i: usize = 0;
        while i < self.entries.len()
            invariant
                ev == self.entries_view(),
                ev.len() == self.entries@.len(),
                i <= ev.len(),
                forall|j: int| 0 <= j < i ==> ev[j].0 != id,
                assoc_map(ev).contains_key(id) <==> has_key(ev, id),
                forall|j: int| 0 <= j < ev.len() && ev[j].0 == id ==> assoc_map(ev)[id] == ev[j].1,
            decreases self.entries.len() - i,
        {
            assert(ev[i as int] == entry_view(self.entries@[i as int]));
            if self.entries[i].0 == id {
                return Some(&self.entries[i].1);
            }
            i = i + 1;
        }
        None
    }

    /// Records `name` for `id` unless a name is already recorded for it.
    pub fn register(&mut self, id: u64, name: &str)
        requires
            old(self).wf(),
        ensures
            final(self).wf(),
            final(self)@ == if old(self)@.contains_key(id) {
                old(self)@
            } else {
                old(self)@.insert(id, name@)
            },
    {
        if self.lookup(id).is_none() {
            let ghost ev = self.entries_view();
            proof {
                lemma_assoc_get(ev, id);
                lemma_assoc_push(ev, id, name@);
            }
            self.entries.push((id, name.to_owned()));
            assert(self.entries_view() =~= ev.push((id, name@)));
        }
    }
}

impl NodeId {
    /// The identity for a node name: the trimmed name is hashed and, while
    /// the hash falls in the reserved range, rehashed with a zero byte
    /// appended. The name is recorded in `registry`.
    pub fn from_name(name: &str, registry: &mut NameRegistry) -> (r: NodeId)
        requires
            old(registry).wf(),
        ensures
            r.0 == name_id(name@),
            r.0 >= RESERVED_LIMIT,
            final(registry).wf(),
            final(registry)@ == if old(registry)@.contains_key(r.0) {
                old(registry)@
            } else {
                old(registry)@.insert(r.0, trim_of(name@))
            },
    {
        let trimmed = trim_text(name);
        let id = NodeId::hash_name(trimmed);
        registry.register(id, trimmed);
        proof {
            law_name_id_above_reserved(name@);
        }
        NodeId(id)
    }

    /// The identity for a node name, as `from_name` gives it, without
    /// recording the name.
    pub fn of_name(name: &str) -> (r: NodeId)
        ensures
            r.0 == name_id(name@),
    {
        NodeId(NodeId::hash_name(trim_text(name)))
    }

    /// The identity for an already trimmed name, without recording it.
    fn hash_name(trimmed: &str) -> (r: u64)
        ensures
            r == perturbed_id(vstd::utf8::encode_utf8(trimmed@), 0),
    {
        let bytes = trimmed.as_bytes();
        let ghost b = bytes@;
        let mut buf: Vec<u8> = Vec::new();
        let mut i: usize = 0;
        while i < bytes.len()
            invariant
                b == bytes@,
                b == vstd::utf8::encode_utf8(trimmed@),
                i <= b.len(),
                buf@ == b.subrange(0, i as int),
            decreases b.len() - i,
        {
            buf.push(bytes[i]);
            i = i + 1;
            assert(buf@ =~= b.subrange(0, i as int));
        }
        assert(buf@ =~= zero_padded(b, 0));
        let mut k: u64 = 0;
        loop
            invariant
                b == vstd::utf8::encode_utf8(trimmed@),
                k <= PERTURB_LIMIT,
                buf@ == zero_padded(b, k as nat),
                perturbed_id(b, k as nat) == perturbed_id(b, 0),
            decreases PERTURB_LIMIT - k,
        {
            let h = hash_bytes(buf.as_slice());
            if h >= RESERVED_LIMIT {
                return h;
            }
            if k >= PERTURB_LIMIT {
                return h + RESERVED_LIMIT;
            }
            buf.push(0u8);
            assert(buf@ =~= zero_padded(b, (k + 1) as nat));
            k = k + 1;
        }
    }

    /// The registered name of this identity, or its fixed-width form
    /// `NodeID(0x%016X)`.
    pub fn name_or_id(&self, registry: &NameRegistry) -> (r: String)
        requires
            registry.wf(),
        ensures
            r@ == if registry@.contains_key(self.0) {
                registry@[self.0]
            } else {
                id_text(self.0)
            },
    {
        match registry.lookup(self.0) {
            Some(name) => name.clone(),
            None => self.to_text(),
        }
    }

    /// The identity written as `NodeID(0x%016X)`.
    pub fn to_text(&self) -> (r: String)
        ensures
            r@ == id_text(self.0),
    {
        let mut out = String::new();
        out.push('N');
        out.push('o');
        out.push('d');
        out.push('e');
        out.push('I');
        out.push('D');
        out.push('(');
        out.push('0');
        out.push('x');
        push_hex_digits(&mut out, self.0);
        out.push(')');
        proof {
            reveal_strlit("NodeID(0x");
        }
        assert(out@ =~= id_text(self.0));
        out
    }
}

/// Appends the sixteen hexadecimal digits of `v`.
pub fn push_hex_digits(out: &mut String, v: u64)
    ensures
        final(out)@ == old(out)@ + hex_digits(v),
{
    let ghost head = out@;
    proof {
        reveal_with_fuel(pow16, 16);
    }
    let mut p: u64 = 0x1000_0000_0000_0000;
    let mut i: u64 = 0;
    while i < 16
        invariant
            i <= 16,
            p as nat == pow16((15 - i) as nat) || (i == 16 && p == 0),
            out@ == head + hex_digits(v).subrange(0, i as int),
        decreases 16 - i,
    {
        proof {
            lemma_pow16_step((15 - i) as nat);
        }
        let d = (v / p) % 16;
        out.push(hex_char(d));
        assert(out@ =~= head + hex_digits(v).subrange(0, i + 1));
        if i < 15 {
            p = p / 16;
        } else {
            p = 0;
        }
        i = i + 1;
    }
    assert(hex_digits(v).subrange(0, 16) =~= hex_digits(v));
}

pub open spec fn pow16(n: nat) -> nat
    decreases n,
{
    if n == 0 {
        1
    } else {
        16 * pow16((n - 1) as nat)
    }
}

proof fn lemma_pow16_le(n: nat)
    requires
        n <= 15,
    ensures
        0 < pow16(n) <= pow16(15),
    decreases 15 - n,
{
    if n < 15 {
        lemma_pow16_le(n + 1);
        assert(pow16(n + 1) == 16 * pow16(n));
    } else {
        lemma_pow16_positive(n);
    }
}

proof fn lemma_pow16_positive(n: nat)
    ensures
        pow16(n) > 0,
    decreases n,
{
    if n > 0 {
        lemma_pow16_positive((n - 1) as nat);
    }
}

proof fn lemma_pow16_step(n: nat)
    requires
        n <= 15,
    ensures
        pow16(n) <= 0x1000_0000_0000_0000,
        pow16(n) > 0,
        n > 0 ==> pow16(n) / 16 == pow16((n - 1) as nat),
{
    reveal_with_fuel(pow16, 16);
    lemma_pow16_le(n);
}

/// The upper-case hexadecimal digit for `d < 16`.
pub open spec fn hex_digit_char(d: nat) -> char {
    if d < 10 {
        ('0' as nat + d) as char
    } else {
        ('A' as nat + d - 10) as char
    }
}

fn hex_char(d: u64) -> (c: char)
    requires
        d < 16,
    ensures
        c == hex_digit_char(d as nat),
{
    if d < 10 {
        (('0' as u8) + (d as u8)) as char
    } else {
        (('A' as u8) + (d as u8) - 10) as char
    }
}

/// The sixteen hexadecimal digits of `v`, most significant first.
pub open spec fn hex_digits(v: u64) -> Seq<char> {
    Seq::new(16, |i: int| hex_digit_char(((v as nat) / pow16((15 - i) as nat)) % 16))
}

/// The text form of an identity: `NodeID(0x` and sixteen digits and `)`.
pub open spec fn id_text(v: u64) -> Seq<char> {
    "NodeID(0x"@ + hex_digits(v) + seq![')']
}

} // verus!
