//! Cross-process context propagation: a span identity is written into, and
//! read back out of, a flat mapping of header names to string values — the
//! only thing allowed to cross the wire.

use vstd::prelude::*;
use crate::hex::all_hex;
use crate::hex::encode_hex;
use crate::hex::hex_char;
use crate::hex::hex_digits;
use crate::hex::hex_val;
use crate::hex::hex_value;
use crate::hex::is_hex_digit;
use crate::hex::lemma_hex_digits_all_hex;
use crate::hex::lemma_hex_digits_len;
use crate::hex::lemma_hex_value_bound;
use crate::hex::lemma_hex_value_of_digits;
use crate::hex::lemma_pow16_values;
use crate::hex::parse_hex;
use crate::ids::SpanContext;
use crate::ids::SpanId;
use crate::ids::TraceId;

verus! {

/// A carrier of header names and values: what a request or response carries
/// across the wire. Keys are unique.
pub struct Carrier {
    pub entries: Vec<(String, String)>,
}

impl Carrier {
    /// Well-formed: no two entries share a key.
    pub open spec fn wf(self) -> bool {
        forall|i: int, j: int|
            0 <= i < j < self.entries@.len() ==> (#[trigger] self.entries@[i]).0@ != (
            #[trigger] self.entries@[j]).0@
    }

    /// Whether some entry has key `k`.
    pub open spec fn spec_has(self, k: Seq<char>) -> bool {
        exists|i: int| 0 <= i < self.entries@.len() && (#[trigger] self.entries@[i]).0@ == k
    }

    /// The value stored under key `k` (meaningful when `spec_has(k)` and the
    /// carrier is well-formed).
    pub open spec fn spec_get(self, k: Seq<char>) -> Seq<char> {
        let i = choose|i: int|
            0 <= i < self.entries@.len() && (#[trigger] self.entries@[i]).0@ == k;
        self.entries@[i].1@
    }

    /// An empty carrier, holding no headers at all.
    pub fn new() -> (r: Carrier)
        ensures
            r.wf(),
            r.entries@.len() == 0,
            forall|k: Seq<char>| !r.spec_has(k),
    {
        Carrier { entries: Vec::new() }
    }

    /// Looks a key up; `None` exactly when no entry has it.
    pub fn get<'a>(&'a self, key: &String) -> (r: Option<&'a String>)
        requires
            self.wf(),
        ensures
            match r {
                Some(v) => self.spec_has(key@) && v@ == self.spec_get(key@),
                None => !self.spec_has(key@),
            },
    {
        let n = self.entries.len();
        let mut i: usize = 0;
        while i < n
            invariant
                i <= n,
                n == self.entries@.len(),
                self.wf(),
                forall|j: int| 0 <= j < i ==> (#[trigger] self.entries@[j]).0@ != key@,
            decreases n - i,
        {
            if self.entries[i].0 == *key {
                proof {
                    lemma_get_at(*self, key@, i as int);
                }
                return Some(&self.entries[i].1);
            }
            i = i + 1;
        }
        None
    }

    /// Stores `value` under `key`, replacing any entry that had the key;
    /// every other key keeps its value.
    pub fn insert(&mut self, key: String, value: String)
        requires
            old(self).wf(),
        ensures
            final(self).wf(),
            final(self).spec_has(key@),
            final(self).spec_get(key@) == value@,
            forall|k: Seq<char>|
                k != key@ ==> final(self).spec_has(k) == old(self).spec_has(k),
            forall|k: Seq<char>|
                k != key@ && old(self).spec_has(k) ==> final(self).spec_get(k) == old(
                    self,
                ).spec_get(k),
    {
        let ghost before = *self;
        let n = self.entries.len();
        let mut i: usize = 0;
        let mut found: bool = false;
        while i < n && !found
            invariant
                i <= n,
                n == self.entries@.len(),
                *self == before,
                before.wf(),
                !found ==> forall|j: int| 0 <= j < i ==> (#[trigger] self.entries@[j]).0@ != key@,
                found ==> i < n && self.entries@[i as int].0@ == key@,
            decreases n - i + (if found { 0int } else { 1int }),
        {
            if self.entries[i].0 == key {
                found = true;
            } else {
                i = i + 1;
            }
        }
        if found {
            self.entries.remove(i);
            proof {
                lemma_remove_key(before, *self, key@, i as int);
            }
        }
        let ghost mid = *self;
        assert(!mid.spec_has(key@));
        assert(mid.wf());
        self.entries.push((key, value));
        proof {
            lemma_push_key(mid, *self, key@, value@);
            assert forall|k: Seq<char>| k != key@ implies final(self).spec_has(k) == before.spec_has(
                k,
            ) by {
                if found {
                } else {
                    assert(mid == before);
                }
            }
        }
    }
}

/// In a well-formed carrier the value looked up at a key is the value of any
/// entry that carries the key.
pub proof fn lemma_get_at(c: Carrier, k: Seq<char>, i: int)
    requires
        c.wf(),
        0 <= i < c.entries@.len(),
        c.entries@[i].0@ == k,
    ensures
        c.spec_has(k),
        c.spec_get(k) == c.entries@[i].1@,
{
    assert(c.spec_has(k));
    let j = choose|j: int| 0 <= j < c.entries@.len() && (#[trigger] c.entries@[j]).0@ == k;
    if i != j {
        assert(c.entries@[i].0@ != c.entries@[j].0@);
    }
}

proof fn lemma_remove_key(before: Carrier, after: Carrier, k: Seq<char>, i: int)
    requires
        before.wf(),
        0 <= i < before.entries@.len(),
        before.entries@[i].0@ == k,
        after.entries@ == before.entries@.remove(i),
    ensures
        after.wf(),
        !after.spec_has(k),
        forall|k2: Seq<char>| k2 != k ==> after.spec_has(k2) == before.spec_has(k2),
        forall|k2: Seq<char>|
            k2 != k && before.spec_has(k2) ==> after.spec_get(k2) == before.spec_get(k2),
{
    assert forall|p: int, q: int| 0 <= p < q < after.entries@.len() implies (
    #[trigger] after.entries@[p]).0@ != (#[trigger] after.entries@[q]).0@ by {
        let p0 = if p < i { p } else { p + 1 };
        let q0 = if q < i { q } else { q + 1 };
        assert(after.entries@[p] == before.entries@[p0]);
        assert(after.entries@[q] == before.entries@[q0]);
    }
    assert forall|j: int| 0 <= j < after.entries@.len() implies (#[trigger] after.entries@[j]).0@
        != k by {
        let j0 = if j < i { j } else { j + 1 };
        assert(after.entries@[j] == before.entries@[j0]);
        if j0 != i {
            assert(before.entries@[j0].0@ != before.entries@[i].0@);
        }
    }
    assert forall|k2: Seq<char>| k2 != k implies after.spec_has(k2) == before.spec_has(k2) by {
        if before.spec_has(k2) {
            let j0 = choose|j0: int|
                0 <= j0 < before.entries@.len() && (#[trigger] before.entries@[j0]).0@ == k2;
            let j = if j0 < i { j0 } else { j0 - 1 };
            assert(j0 != i);
            assert(after.entries@[j] == before.entries@[j0]);
            assert(after.spec_has(k2));
        }
        if after.spec_has(k2) {
            let j = choose|j: int|
                0 <= j < after.entries@.len() && (#[trigger] after.entries@[j]).0@ == k2;
            let j0 = if j < i { j } else { j + 1 };
            assert(after.entries@[j] == before.entries@[j0]);
            assert(before.spec_has(k2));
        }
    }
    assert forall|k2: Seq<char>| k2 != k && before.spec_has(k2) implies after.spec_get(k2)
        == before.spec_get(k2) by {
        let j0 = choose|j0: int|
            0 <= j0 < before.entries@.len() && (#[trigger] before.entries@[j0]).0@ == k2;
        let j = if j0 < i { j0 } else { j0 - 1 };
        assert(j0 != i);
        assert(after.entries@[j] == before.entries@[j0]);
        lemma_get_at(before, k2, j0);
        lemma_get_at(after, k2, j);
    }
}

proof fn lemma_push_key(before: Carrier, after: Carrier, k: Seq<char>, v: Seq<char>)
    requires
        before.wf(),
        !before.spec_has(k),
        after.entries@.len() == before.entries@.len() + 1,
        after.entries@ == before.entries@.push(after.entries@.last()),
        after.entries@.last().0@ == k,
        after.entries@.last().1@ == v,
    ensures
        after.wf(),
        after.spec_has(k),
        after.spec_get(k) == v,
        forall|k2: Seq<char>| k2 != k ==> after.spec_has(k2) == before.spec_has(k2),
        forall|k2: Seq<char>|
            k2 != k && before.spec_has(k2) ==> after.spec_get(k2) == before.spec_get(k2),
{
    let m = before.entries@.len() as int;
    assert forall|p: int, q: int| 0 <= p < q < after.entries@.len() implies (
    #[trigger] after.entries@[p]).0@ != (#[trigger] after.entries@[q]).0@ by {
        if q < m {
            assert(after.entries@[p] == before.entries@[p]);
            assert(after.entries@[q] == before.entries@[q]);
        } else {
            assert(after.entries@[p] == before.entries@[p]);
            if after.entries@[p].0@ == k {
                assert(before.spec_has(k));
            }
        }
    }
    lemma_get_at(after, k, m);
    assert forall|k2: Seq<char>| k2 != k implies after.spec_has(k2) == before.spec_has(k2) by {
        if before.spec_has(k2) {
            let j = choose|j: int|
                0 <= j < before.entries@.len() && (#[trigger] before.entries@[j]).0@ == k2;
            assert(after.entries@[j] == before.entries@[j]);
            assert(after.spec_has(k2));
        }
        if after.spec_has(k2) {
            let j = choose|j: int|
                0 <= j < after.entries@.len() && (#[trigger] after.entries@[j]).0@ == k2;
            assert(j < m);
            assert(after.entries@[j] == before.entries@[j]);
            assert(before.spec_has(k2));
        }
    }
    assert forall|k2: Seq<char>| k2 != k && before.spec_has(k2) implies after.spec_get(k2)
        == before.spec_get(k2) by {
        let j = choose|j: int|
            0 <= j < before.entries@.len() && (#[trigger] before.entries@[j]).0@ == k2;
        assert(after.entries@[j] == before.entries@[j]);
        lemma_get_at(before, k2, j);
        lemma_get_at(after, k2, j);
    }
}

/// The well-known header key that carries the propagated context.
pub open spec fn traceparent_key() -> Seq<char> {
    "traceparent"@
}

/// The header key as an owned string.
pub fn traceparent() -> (r: String)
    ensures
        r@ == traceparent_key(),
{
    String::from_str("traceparent")
}

/// The character that encodes the sampling flag.
pub open spec fn flag_char(sampled: bool) -> char {
    if sampled {
        '1'
    } else {
        '0'
    }
}

/// The deterministic, versioned text encoding of a span context: a version
/// byte, the trace id, the span id and a flags byte, as fixed-width lowercase
/// hex fields separated by dashes.
pub open spec fn encode_ctx(c: SpanContext) -> Seq<char> {
    seq!['0', '0', '-'] + hex_digits(c.trace_id.0 as nat, 32) + seq!['-'] + hex_digits(
        c.span_id.0 as nat,
        16,
    ) + seq!['-'] + seq!['0', flag_char(c.sampled)]
}

/// What extraction makes of one header value: a context exactly when the
/// value has the fixed shape — supported version, three dashes in place,
/// all-hex ids and flags, and ids that are not all-zero.
pub open spec fn parse_ctx(s: Seq<char>) -> Option<SpanContext> {
    if s.len() == 55 && s[0] == '0' && s[1] == '0' && s[2] == '-' && s[35] == '-' && s[52] == '-'
        && all_hex(s.subrange(3, 35)) && all_hex(s.subrange(36, 52)) && all_hex(
        s.subrange(53, 55),
    ) && hex_value(s.subrange(3, 35)) != 0 && hex_value(s.subrange(36, 52)) != 0 {
        Some(
            SpanContext {
                trace_id: TraceId(hex_value(s.subrange(3, 35)) as u128),
                span_id: SpanId(hex_value(s.subrange(36, 52)) as u64),
                sampled: hex_value(s.subrange(53, 55)) % 2 == 1,
            },
        )
    } else {
        None
    }
}

/// A parsed context is always valid: its ids are not all-zero.
pub proof fn lemma_parse_ctx_valid(s: Seq<char>)
    ensures
        parse_ctx(s) matches Some(c) ==> c.is_valid(),
{
    if parse_ctx(s) is Some {
        lemma_hex_value_bound(s.subrange(3, 35));
        lemma_hex_value_bound(s.subrange(36, 52));
        lemma_pow16_values();
    }
}

/// Round trip: the encoding of a valid context parses back to exactly that
/// context.
pub proof fn lemma_parse_encode(c: SpanContext)
    requires
        c.is_valid(),
    ensures
        parse_ctx(encode_ctx(c)) == Some(c),
{
    let t = hex_digits(c.trace_id.0 as nat, 32);
    let p = hex_digits(c.span_id.0 as nat, 16);
    let f = seq!['0', flag_char(c.sampled)];
    let s = encode_ctx(c);
    lemma_hex_digits_len(c.trace_id.0 as nat, 32);
    lemma_hex_digits_len(c.span_id.0 as nat, 16);
    assert(s.len() == 55);
    assert(s.subrange(3, 35) =~= t);
    assert(s.subrange(36, 52) =~= p);
    assert(s.subrange(53, 55) =~= f);
    lemma_hex_digits_all_hex(c.trace_id.0 as nat, 32);
    lemma_hex_digits_all_hex(c.span_id.0 as nat, 16);
    assert(is_hex_digit(f[0]) && is_hex_digit(f[1]));
    assert(all_hex(f));
    lemma_pow16_values();
    lemma_hex_value_of_digits(c.trace_id.0 as nat, 32);
    lemma_hex_value_of_digits(c.span_id.0 as nat, 16);
    assert(f.drop_last() =~= seq!['0']);
    assert(seq!['0'].drop_last() =~= Seq::<char>::empty());
    assert(hex_value(Seq::<char>::empty()) == 0);
    assert(seq!['0'].last() == '0');
    assert(hex_val('0') == 0);
    assert(hex_value(seq!['0']) == hex_value(Seq::<char>::empty()) * 16 + hex_val('0'));
    assert(hex_value(f) == hex_value(seq!['0']) * 16 + hex_val(flag_char(c.sampled)));
    assert(hex_value(f) == if c.sampled { 1nat } else { 0nat });
    assert(parse_ctx(s) == Some(c));
}

/// Writes the encoding of `ctx` into the carrier under the well-known key.
/// Every other header keeps its value.
pub fn inject(ctx: &SpanContext, carrier: &mut Carrier)
    requires
        old(carrier).wf(),
    ensures
        final(carrier).wf(),
        final(carrier).spec_has(traceparent_key()),
        final(carrier).spec_get(traceparent_key()) == encode_ctx(*ctx),
        forall|k: Seq<char>|
            k != traceparent_key() ==> final(carrier).spec_has(k) == old(carrier).spec_has(k),
        forall|k: Seq<char>|
            k != traceparent_key() && old(carrier).spec_has(k) ==> final(carrier).spec_get(k)
                == old(carrier).spec_get(k),
{
    let mut s = String::new();
    s.append(crate::hex::hex_digit_str(0));
    s.append(crate::hex::hex_digit_str(0));
    s.append(dash());
    let trace_hex = encode_hex(ctx.trace_id.0, 32);
    s.append(trace_hex.as_str());
    s.append(dash());
    let span_hex = encode_hex(ctx.span_id.0 as u128, 16);
    s.append(span_hex.as_str());
    s.append(dash());
    s.append(crate::hex::hex_digit_str(0));
    s.append(crate::hex::hex_digit_str(if ctx.sampled { 1 } else { 0 }));
    proof {
        assert(hex_char(0) == '0' && hex_char(1) == '1');
        assert(s@ =~= encode_ctx(*ctx));
    }
    carrier.insert(traceparent(), s);
}

/// The field separator of the wire encoding.
fn dash() -> (r: &'static str)
    ensures
        r@ =~= seq!['-'],
{
    proof {
        reveal_strlit("-");
    }
    "-"
}

/// Parses one header value as a propagated context; `None` exactly when the
/// value does not have the wire shape.
pub fn parse_traceparent(s: &str) -> (r: Option<SpanContext>)
    ensures
        r == parse_ctx(s@),
{
    let n = s.unicode_len();
    if n != 55 {
        return None;
    }
    if !(s.get_char(0) == '0' && s.get_char(1) == '0' && s.get_char(2) == '-' && s.get_char(35)
        == '-' && s.get_char(52) == '-') {
        return None;
    }
    let trace_str = s.substring_char(3, 35);
    let trace = match parse_hex(trace_str) {
        Some(v) => v,
        None => {
            return None;
        },
    };
    let span_str = s.substring_char(36, 52);
    let span = match parse_hex(span_str) {
        Some(v) => v,
        None => {
            return None;
        },
    };
    let flags_str = s.substring_char(53, 55);
    let flags = match parse_hex(flags_str) {
        Some(v) => v,
        None => {
            return None;
        },
    };
    if trace == 0 || span == 0 {
        return None;
    }
    proof {
        lemma_hex_value_bound(span_str@);
        lemma_hex_value_bound(trace_str@);
        lemma_pow16_values();
    }
    Some(
        SpanContext {
            trace_id: TraceId(trace),
            span_id: SpanId(span as u64),
            sampled: flags % 2 == 1,
        },
    )
}

/// Reads the propagated context back out of a carrier. Absence of the header
/// or a malformed value degrades to "no parent found"; extraction never
/// fails the request.
pub fn extract(carrier: &Carrier) -> (r: Option<SpanContext>)
    requires
        carrier.wf(),
    ensures
        carrier.spec_has(traceparent_key()) ==> r == parse_ctx(
            carrier.spec_get(traceparent_key()),
        ),
        !carrier.spec_has(traceparent_key()) ==> r is None,
        r matches Some(c) ==> c.is_valid(),
{
    let key = traceparent();
    let r = match carrier.get(&key) {
        None => None,
        Some(value) => parse_traceparent(value.as_str()),
    };
    proof {
        if carrier.spec_has(traceparent_key()) {
            lemma_parse_ctx_valid(carrier.spec_get(traceparent_key()));
        }
    }
    r
}

} // verus!
