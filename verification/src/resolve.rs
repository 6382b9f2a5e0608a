//! Default resolver: after validation, fills every absent optional section
//! with its documented default, so that the synthesizer finds each section
//! it consumes.

use vstd::prelude::*;
use crate::keyword::Keyword;
use crate::table::{
    AttributeTable,
    table_has,
    table_payload,
    lemma_table_has_append,
    lemma_table_payload_at,
    lemma_table_payload_prefix,
    lemma_table_payload_skip,
};
use crate::text::{bytes_of, clone_bytes, str_to_vec};

verus! {

/// The fixed default payload of an optional keyword: empty text bodies, a
/// 100 ms poll interval, the platform thread-spawn primitive.
pub open spec fn default_payload(kw: Keyword) -> Seq<u8> {
    match kw {
        Keyword::TickInterval => bytes_of("100"),
        Keyword::Spawner => bytes_of("std::thread::spawn"),
        _ => Seq::empty(),
    }
}

/// `b` is an ASCII decimal digit.
pub open spec fn is_ascii_digit(b: u8) -> bool {
    48 <= b && b <= 57
}

/// The position of the first decimal digit at or after `i`.
pub open spec fn first_digit(s: Seq<u8>, i: int) -> Option<int>
    decreases s.len() - i,
{
    if i < 0 || i >= s.len() {
        None
    } else if is_ascii_digit(s[i]) {
        Some(i)
    } else {
        first_digit(s, i + 1)
    }
}

/// The value of the digit run starting at `i`, folded onto `acc`.
pub open spec fn digit_run_value(s: Seq<u8>, i: int, acc: nat) -> nat
    decreases s.len() - i,
    when 0 <= i <= s.len()
{
    if i < s.len() && is_ascii_digit(s[i]) {
        digit_run_value(s, i + 1, (acc * 10 + (s[i] - 48)) as nat)
    } else {
        acc
    }
}

/// The tick rate written in a `tick_rate` payload: the value of its first
/// digit run, if any digit occurs.
pub open spec fn spec_rate_value(s: Seq<u8>) -> Option<nat> {
    match first_digit(s, 0) {
        Some(i) => Some(digit_run_value(s, i, 0)),
        None => None,
    }
}

/// The decimal spelling of `n`.
pub open spec fn spec_decimal(n: nat) -> Seq<u8>
    decreases n,
{
    if n < 10 {
        seq![(48 + n) as u8]
    } else {
        spec_decimal(n / 10) + seq![(48 + n % 10) as u8]
    }
}

/// A `tick_rate` payload converted to a milliseconds payload: 1000 divided
/// by the rate, rounded down; the 10-ticks-per-second default (100 ms) when
/// no rate can be read or the rate is zero.
pub open spec fn spec_rate_to_interval(s: Seq<u8>) -> Seq<u8> {
    match spec_rate_value(s) {
        None => bytes_of("100"),
        Some(v) => if v == 0 {
            bytes_of("100")
        } else {
            spec_decimal((1000 as nat) / v)
        },
    }
}

/// The entry the resolver appends for an absent optional keyword.
pub open spec fn default_entry(m: Seq<(Keyword, Seq<u8>)>, kw: Keyword) -> Seq<(Keyword, Seq<u8>)> {
    if table_has(m, kw) {
        Seq::empty()
    } else {
        seq![(kw, default_payload(kw))]
    }
}

/// The entry that copies a `gets` payload under the canonical `input`
/// keyword when only the alias was written.
pub open spec fn alias_entry(m: Seq<(Keyword, Seq<u8>)>) -> Seq<(Keyword, Seq<u8>)> {
    if !table_has(m, Keyword::Input) && table_has(m, Keyword::Gets) {
        seq![(Keyword::Input, table_payload(m, Keyword::Gets))]
    } else {
        Seq::empty()
    }
}

/// The entry that resolves the loop timing: an explicit `tick_interval`
/// stands; otherwise a `tick_rate` is converted to milliseconds; otherwise
/// the 100 ms default.
pub open spec fn timing_entry(m: Seq<(Keyword, Seq<u8>)>) -> Seq<(Keyword, Seq<u8>)> {
    if table_has(m, Keyword::TickInterval) {
        Seq::empty()
    } else if table_has(m, Keyword::TickRate) {
        seq![(Keyword::TickInterval, spec_rate_to_interval(table_payload(m, Keyword::TickRate)))]
    } else {
        seq![(Keyword::TickInterval, bytes_of("100"))]
    }
}

/// The resolved table: the original entries, then one appended entry for
/// each absent optional section. Present payloads are never replaced.
pub open spec fn spec_resolve(m: Seq<(Keyword, Seq<u8>)>) -> Seq<(Keyword, Seq<u8>)> {
    m + alias_entry(m) + default_entry(m, Keyword::Data) + default_entry(m, Keyword::OnInit)
        + timing_entry(m) + default_entry(m, Keyword::OnTick) + default_entry(m, Keyword::OnStop)
        + default_entry(m, Keyword::Spawner) + default_entry(m, Keyword::CustomCode)
}

/// The decimal spelling of `n`, digit by digit.
pub fn u64_to_decimal(n: u64) -> (r: Vec<u8>)
    ensures
        r@ == spec_decimal(n as nat),
    decreases n,
{
    if n < 10 {
        let mut v: Vec<u8> = Vec::new();
        v.push(48 + n as u8);
        proof {
            assert(v@ =~= seq![(48 + n as nat) as u8]);
        }
        v
    } else {
        let mut v = u64_to_decimal(n / 10);
        v.push(48 + (n % 10) as u8);
        proof {
            assert(v@ =~= spec_decimal((n / 10) as nat) + seq![(48 + (n as nat) % 10) as u8]);
        }
        v
    }
}

/// Reads the first digit run of a `tick_rate` payload and renders the
/// matching milliseconds payload.
pub fn rate_to_interval(s: &[u8]) -> (r: Vec<u8>)
    ensures
        r@ == spec_rate_to_interval(s@),
{
    let n: usize = s.len();
    let mut i: usize = 0;
    while i < n && !(s[i] >= 48 && s[i] <= 57)
        invariant
            0 <= i <= n,
            n == s@.len(),
            first_digit(s@, 0) == first_digit(s@, i as int),
        decreases n - i,
    {
        i = i + 1;
    }
    if i >= n {
        return str_to_vec("100");
    }
    let ghost start: int = i as int;
    assert(first_digit(s@, 0) == Some(start));
    let mut acc: u64 = 0;
    let ghost mut gacc: nat = 0;
    while i < n && s[i] >= 48 && s[i] <= 57
        invariant
            0 <= start <= i <= n,
            n == s@.len(),
            digit_run_value(s@, start, 0) == digit_run_value(s@, i as int, gacc),
            gacc <= 1000 ==> acc == gacc,
            gacc > 1000 ==> acc == 1001,
        decreases n - i,
    {
        proof {
            gacc = (gacc * 10 + (s@[i as int] - 48)) as nat;
        }
        if acc <= 1000 {
            acc = acc * 10 + (s[i] - 48) as u64;
            if acc > 1000 {
                acc = 1001;
            }
        }
        i = i + 1;
    }
    assert(digit_run_value(s@, i as int, gacc) == gacc);
    assert(spec_rate_value(s@) == Some(gacc));
    if acc == 0 {
        return str_to_vec("100");
    }
    if acc > 1000 {
        assert((1000 as nat) / gacc == 0) by (nonlinear_arith)
            requires
                gacc > 1000,
        ;
        return u64_to_decimal(0);
    }
    let q: u64 = 1000 / acc;
    assert((q as nat) == (1000 as nat) / gacc);
    u64_to_decimal(q)
}

/// Appends one entry to the table.
fn push_entry(t: &mut AttributeTable, kw: Keyword, payload: Vec<u8>)
    ensures
        final(t).model() == old(t).model() + seq![(kw, payload@)],
{
    let ghost p = payload@;
    t.entries.push((kw, payload));
    proof {
        assert(t.model() =~= old(t).model() + seq![(kw, p)]);
    }
}

/// Fills every absent optional section of `t` with its default.
#[verifier::rlimit(50)]
pub fn resolve(t: AttributeTable) -> (r: AttributeTable)
    ensures
        r.model() == spec_resolve(t.model()),
{
    let ghost m0 = t.model();
    let mut t = t;
    let alias: Option<Vec<u8>> = if t.get(Keyword::Input).is_none() {
        match t.get(Keyword::Gets) {
            Some(p) => Some(clone_bytes(p)),
            None => None,
        }
    } else {
        None
    };
    let timing: Option<Vec<u8>> = if t.get(Keyword::TickInterval).is_some() {
        None
    } else {
        match t.get(Keyword::TickRate) {
            Some(p) => Some(rate_to_interval(p.as_slice())),
            None => Some(str_to_vec("100")),
        }
    };
    let has_data = t.get(Keyword::Data).is_some();
    let has_on_init = t.get(Keyword::OnInit).is_some();
    let has_on_tick = t.get(Keyword::OnTick).is_some();
    let has_on_stop = t.get(Keyword::OnStop).is_some();
    let has_spawner = t.get(Keyword::Spawner).is_some();
    let has_custom_code = t.get(Keyword::CustomCode).is_some();
    let ghost m1 = m0 + alias_entry(m0);
    match alias {
        Some(p) => {
            push_entry(&mut t, Keyword::Input, p);
        },
        None => {},
    }
    assert(t.model() =~= m1);
    let ghost m2 = m1 + default_entry(m0, Keyword::Data);
    if !has_data {
        push_entry(&mut t, Keyword::Data, Vec::new());
    }
    assert(t.model() =~= m2);
    let ghost m3 = m2 + default_entry(m0, Keyword::OnInit);
    if !has_on_init {
        push_entry(&mut t, Keyword::OnInit, Vec::new());
    }
    assert(t.model() =~= m3);
    let ghost m4 = m3 + timing_entry(m0);
    match timing {
        Some(p) => {
            push_entry(&mut t, Keyword::TickInterval, p);
        },
        None => {},
    }
    assert(t.model() =~= m4);
    let ghost m5 = m4 + default_entry(m0, Keyword::OnTick);
    if !has_on_tick {
        push_entry(&mut t, Keyword::OnTick, Vec::new());
    }
    assert(t.model() =~= m5);
    let ghost m6 = m5 + default_entry(m0, Keyword::OnStop);
    if !has_on_stop {
        push_entry(&mut t, Keyword::OnStop, Vec::new());
    }
    assert(t.model() =~= m6);
    let ghost m7 = m6 + default_entry(m0, Keyword::Spawner);
    if !has_spawner {
        push_entry(&mut t, Keyword::Spawner, str_to_vec("std::thread::spawn"));
    }
    assert(t.model() =~= m7);
    let ghost m8 = m7 + default_entry(m0, Keyword::CustomCode);
    if !has_custom_code {
        push_entry(&mut t, Keyword::CustomCode, Vec::new());
    }
    assert(t.model() =~= m8);
    assert(m8 == spec_resolve(m0));
    t
}

/// Law: resolving never substitutes a default for a present section — for
/// every keyword present in the table, the resolved payload is exactly the
/// original payload.
pub proof fn lemma_resolve_keeps_present(m: Seq<(Keyword, Seq<u8>)>, kw: Keyword)
    requires
        table_has(m, kw),
    ensures
        table_has(spec_resolve(m), kw),
        table_payload(spec_resolve(m), kw) == table_payload(m, kw),
{
    let s1 = m + alias_entry(m);
    let s2 = s1 + default_entry(m, Keyword::Data);
    let s3 = s2 + default_entry(m, Keyword::OnInit);
    let s4 = s3 + timing_entry(m);
    let s5 = s4 + default_entry(m, Keyword::OnTick);
    let s6 = s5 + default_entry(m, Keyword::OnStop);
    let s7 = s6 + default_entry(m, Keyword::Spawner);
    lemma_table_payload_prefix(m, alias_entry(m), kw);
    lemma_table_payload_prefix(s1, default_entry(m, Keyword::Data), kw);
    lemma_table_payload_prefix(s2, default_entry(m, Keyword::OnInit), kw);
    lemma_table_payload_prefix(s3, timing_entry(m), kw);
    lemma_table_payload_prefix(s4, default_entry(m, Keyword::OnTick), kw);
    lemma_table_payload_prefix(s5, default_entry(m, Keyword::OnStop), kw);
    lemma_table_payload_prefix(s6, default_entry(m, Keyword::Spawner), kw);
    lemma_table_payload_prefix(s7, default_entry(m, Keyword::CustomCode), kw);
}

/// A piece whose entries are all keyed `k` has no entry for another
/// keyword.
proof fn lemma_no_key_in_piece(e: Seq<(Keyword, Seq<u8>)>, k: Keyword, kw: Keyword)
    requires
        forall|i: int| 0 <= i < e.len() ==> (#[trigger] e[i]).0 == k,
        k != kw,
    ensures
        !table_has(e, kw),
{
    if table_has(e, kw) {
        let i = choose|i: int| 0 <= i < e.len() && (#[trigger] e[i]).0 == kw;
    }
}

/// Every appended piece carries a single keyword.
proof fn lemma_piece_keys(m: Seq<(Keyword, Seq<u8>)>)
    ensures
        forall|i: int|
            0 <= i < alias_entry(m).len() ==> (#[trigger] alias_entry(m)[i]).0 == Keyword::Input,
        forall|i: int|
            0 <= i < timing_entry(m).len() ==> (#[trigger] timing_entry(m)[i]).0
                == Keyword::TickInterval,
        forall|kw: Keyword, i: int|
            0 <= i < default_entry(m, kw).len() ==> (#[trigger] default_entry(m, kw)[i]).0 == kw,
{
}

/// The payload a keyword gets from the piece inserted for it.
proof fn lemma_piece_lookup(e: Seq<(Keyword, Seq<u8>)>, kw: Keyword, p: Seq<u8>)
    requires
        e == seq![(kw, p)],
    ensures
        table_has(e, kw),
        table_payload(e, kw) == p,
{
    assert(e[0].0 == kw);
    lemma_table_payload_at(e, kw, 0);
}

/// Where each optional keyword's inserted entry lands in the resolved
/// table, when the keyword is absent: skip the pieces before it, read its
/// own piece, and carry the result through the pieces after it.
#[verifier::rlimit(50)]
proof fn lemma_resolve_inserted(m: Seq<(Keyword, Seq<u8>)>, kw: Keyword)
    requires
        kw == Keyword::Data || kw == Keyword::OnInit || kw == Keyword::TickInterval || kw
            == Keyword::OnTick || kw == Keyword::OnStop || kw == Keyword::Spawner || kw
            == Keyword::CustomCode,
        !table_has(m, kw),
        kw == Keyword::TickInterval ==> !table_has(m, Keyword::TickRate),
    ensures
        table_has(spec_resolve(m), kw),
        table_payload(spec_resolve(m), kw) == default_payload(kw),
{
    let a = alias_entry(m);
    let e2 = default_entry(m, Keyword::Data);
    let e3 = default_entry(m, Keyword::OnInit);
    let e4 = timing_entry(m);
    let e5 = default_entry(m, Keyword::OnTick);
    let e6 = default_entry(m, Keyword::OnStop);
    let e7 = default_entry(m, Keyword::Spawner);
    let e8 = default_entry(m, Keyword::CustomCode);
    let s1 = m + a;
    let s2 = s1 + e2;
    let s3 = s2 + e3;
    let s4 = s3 + e4;
    let s5 = s4 + e5;
    let s6 = s5 + e6;
    let s7 = s6 + e7;
    lemma_piece_keys(m);
    lemma_no_key_in_piece(a, Keyword::Input, kw);
    lemma_table_has_append(m, a, kw);
    if kw == Keyword::Data {
        lemma_table_payload_skip(s1, e2, kw);
        lemma_piece_lookup(e2, kw, default_payload(kw));
        lemma_table_has_append(s1, e2, kw);
        lemma_table_payload_prefix(s2, e3, kw);
        lemma_table_payload_prefix(s3, e4, kw);
    } else {
        lemma_no_key_in_piece(e2, Keyword::Data, kw);
        lemma_table_has_append(s1, e2, kw);
        if kw == Keyword::OnInit {
            lemma_table_payload_skip(s2, e3, kw);
            lemma_piece_lookup(e3, kw, default_payload(kw));
            lemma_table_has_append(s2, e3, kw);
            lemma_table_payload_prefix(s3, e4, kw);
        } else {
            lemma_no_key_in_piece(e3, Keyword::OnInit, kw);
            lemma_table_has_append(s2, e3, kw);
            if kw == Keyword::TickInterval {
                lemma_table_payload_skip(s3, e4, kw);
                lemma_piece_lookup(e4, kw, bytes_of("100"));
                lemma_table_has_append(s3, e4, kw);
            } else {
                lemma_no_key_in_piece(e4, Keyword::TickInterval, kw);
                lemma_table_has_append(s3, e4, kw);
                if kw == Keyword::OnTick {
                    lemma_table_payload_skip(s4, e5, kw);
                    lemma_piece_lookup(e5, kw, default_payload(kw));
                    lemma_table_has_append(s4, e5, kw);
                } else {
                    lemma_no_key_in_piece(e5, Keyword::OnTick, kw);
                    lemma_table_has_append(s4, e5, kw);
                    if kw == Keyword::OnStop {
                        lemma_table_payload_skip(s5, e6, kw);
                        lemma_piece_lookup(e6, kw, default_payload(kw));
                        lemma_table_has_append(s5, e6, kw);
                    } else {
                        lemma_no_key_in_piece(e6, Keyword::OnStop, kw);
                        lemma_table_has_append(s5, e6, kw);
                        if kw == Keyword::Spawner {
                            lemma_table_payload_skip(s6, e7, kw);
                            lemma_piece_lookup(e7, kw, default_payload(kw));
                            lemma_table_has_append(s6, e7, kw);
                        } else {
                            lemma_no_key_in_piece(e7, Keyword::Spawner, kw);
                            lemma_table_has_append(s6, e7, kw);
                            lemma_table_payload_skip(s7, e8, kw);
                            lemma_piece_lookup(e8, kw, default_payload(kw));
                            lemma_table_has_append(s7, e8, kw);
                        }
                    }
                }
            }
        }
    }
    if kw != Keyword::CustomCode {
        if kw != Keyword::Spawner {
            if kw != Keyword::OnStop {
                if kw != Keyword::OnTick {
                    lemma_table_payload_prefix(s4, e5, kw);
                }
                lemma_table_payload_prefix(s5, e6, kw);
            }
            lemma_table_payload_prefix(s6, e7, kw);
        }
        lemma_table_payload_prefix(s7, e8, kw);
    }
}

/// Law: for every optional section absent from the table, the resolver
/// inserts exactly the documented default — empty text bodies for `data`,
/// `on_init`, `on_tick`, `on_stop` and `custom_code`, the platform spawn
/// primitive for `spawner`, and the 100 ms / 10-ticks-per-second timing;
/// an absent `tick_interval` with a written `tick_rate` becomes that rate
/// converted to milliseconds; and a `gets` list alone is carried over as
/// the canonical `input` list.
pub proof fn lemma_resolve_defaults(m: Seq<(Keyword, Seq<u8>)>)
    ensures
        !table_has(m, Keyword::Data) ==> table_has(spec_resolve(m), Keyword::Data)
            && table_payload(spec_resolve(m), Keyword::Data) == Seq::<u8>::empty(),
        !table_has(m, Keyword::OnInit) ==> table_has(spec_resolve(m), Keyword::OnInit)
            && table_payload(spec_resolve(m), Keyword::OnInit) == Seq::<u8>::empty(),
        !table_has(m, Keyword::OnTick) ==> table_has(spec_resolve(m), Keyword::OnTick)
            && table_payload(spec_resolve(m), Keyword::OnTick) == Seq::<u8>::empty(),
        !table_has(m, Keyword::OnStop) ==> table_has(spec_resolve(m), Keyword::OnStop)
            && table_payload(spec_resolve(m), Keyword::OnStop) == Seq::<u8>::empty(),
        !table_has(m, Keyword::CustomCode) ==> table_has(spec_resolve(m), Keyword::CustomCode)
            && table_payload(spec_resolve(m), Keyword::CustomCode) == Seq::<u8>::empty(),
        !table_has(m, Keyword::Spawner) ==> table_has(spec_resolve(m), Keyword::Spawner)
            && table_payload(spec_resolve(m), Keyword::Spawner) == bytes_of("std::thread::spawn"),
        (!table_has(m, Keyword::TickInterval) && !table_has(m, Keyword::TickRate)) ==> table_has(
            spec_resolve(m),
            Keyword::TickInterval,
        ) && table_payload(spec_resolve(m), Keyword::TickInterval) == bytes_of("100"),
        (!table_has(m, Keyword::TickInterval) && table_has(m, Keyword::TickRate)) ==> table_has(
            spec_resolve(m),
            Keyword::TickInterval,
        ) && table_payload(spec_resolve(m), Keyword::TickInterval) == spec_rate_to_interval(
            table_payload(m, Keyword::TickRate),
        ),
        (!table_has(m, Keyword::Input) && table_has(m, Keyword::Gets)) ==> table_has(
            spec_resolve(m),
            Keyword::Input,
        ) && table_payload(spec_resolve(m), Keyword::Input) == table_payload(m, Keyword::Gets),
{
    if !table_has(m, Keyword::Data) {
        lemma_resolve_inserted(m, Keyword::Data);
    }
    if !table_has(m, Keyword::OnInit) {
        lemma_resolve_inserted(m, Keyword::OnInit);
    }
    if !table_has(m, Keyword::OnTick) {
        lemma_resolve_inserted(m, Keyword::OnTick);
    }
    if !table_has(m, Keyword::OnStop) {
        lemma_resolve_inserted(m, Keyword::OnStop);
    }
    if !table_has(m, Keyword::CustomCode) {
        lemma_resolve_inserted(m, Keyword::CustomCode);
    }
    if !table_has(m, Keyword::Spawner) {
        lemma_resolve_inserted(m, Keyword::Spawner);
    }
    if !table_has(m, Keyword::TickInterval) && !table_has(m, Keyword::TickRate) {
        lemma_resolve_inserted(m, Keyword::TickInterval);
    }
    if !table_has(m, Keyword::TickInterval) && table_has(m, Keyword::TickRate) {
        lemma_resolve_timing_from_rate(m);
    }
    if !table_has(m, Keyword::Input) && table_has(m, Keyword::Gets) {
        lemma_resolve_alias(m);
    }
}

/// An absent `tick_interval` with a written `tick_rate` resolves to the
/// converted rate.
#[verifier::rlimit(50)]
proof fn lemma_resolve_timing_from_rate(m: Seq<(Keyword, Seq<u8>)>)
    requires
        !table_has(m, Keyword::TickInterval),
        table_has(m, Keyword::TickRate),
    ensures
        table_has(spec_resolve(m), Keyword::TickInterval),
        table_payload(spec_resolve(m), Keyword::TickInterval) == spec_rate_to_interval(
            table_payload(m, Keyword::TickRate),
        ),
{
    let kw = Keyword::TickInterval;
    let a = alias_entry(m);
    let e2 = default_entry(m, Keyword::Data);
    let e3 = default_entry(m, Keyword::OnInit);
    let e4 = timing_entry(m);
    let e5 = default_entry(m, Keyword::OnTick);
    let e6 = default_entry(m, Keyword::OnStop);
    let e7 = default_entry(m, Keyword::Spawner);
    let e8 = default_entry(m, Keyword::CustomCode);
    let s1 = m + a;
    let s2 = s1 + e2;
    let s3 = s2 + e3;
    let s4 = s3 + e4;
    let s5 = s4 + e5;
    let s6 = s5 + e6;
    let s7 = s6 + e7;
    lemma_piece_keys(m);
    lemma_no_key_in_piece(a, Keyword::Input, kw);
    lemma_table_has_append(m, a, kw);
    lemma_no_key_in_piece(e2, Keyword::Data, kw);
    lemma_table_has_append(s1, e2, kw);
    lemma_no_key_in_piece(e3, Keyword::OnInit, kw);
    lemma_table_has_append(s2, e3, kw);
    lemma_table_payload_skip(s3, e4, kw);
    lemma_piece_lookup(e4, kw, spec_rate_to_interval(table_payload(m, Keyword::TickRate)));
    lemma_table_has_append(s3, e4, kw);
    lemma_table_payload_prefix(s4, e5, kw);
    lemma_table_payload_prefix(s5, e6, kw);
    lemma_table_payload_prefix(s6, e7, kw);
    lemma_table_payload_prefix(s7, e8, kw);
}

/// A `gets` list alone is carried over as the canonical `input` list.
#[verifier::rlimit(50)]
proof fn lemma_resolve_alias(m: Seq<(Keyword, Seq<u8>)>)
    requires
        !table_has(m, Keyword::Input),
        table_has(m, Keyword::Gets),
    ensures
        table_has(spec_resolve(m), Keyword::Input),
        table_payload(spec_resolve(m), Keyword::Input) == table_payload(m, Keyword::Gets),
{
    let kw = Keyword::Input;
    let a = alias_entry(m);
    let e2 = default_entry(m, Keyword::Data);
    let e3 = default_entry(m, Keyword::OnInit);
    let e4 = timing_entry(m);
    let e5 = default_entry(m, Keyword::OnTick);
    let e6 = default_entry(m, Keyword::OnStop);
    let e7 = default_entry(m, Keyword::Spawner);
    let s1 = m + a;
    let s2 = s1 + e2;
    let s3 = s2 + e3;
    let s4 = s3 + e4;
    let s5 = s4 + e5;
    let s6 = s5 + e6;
    let s7 = s6 + e7;
    lemma_table_payload_skip(m, a, kw);
    lemma_piece_lookup(a, kw, table_payload(m, Keyword::Gets));
    lemma_table_has_append(m, a, kw);
    lemma_table_payload_prefix(s1, e2, kw);
    lemma_table_payload_prefix(s2, e3, kw);
    lemma_table_payload_prefix(s3, e4, kw);
    lemma_table_payload_prefix(s4, e5, kw);
    lemma_table_payload_prefix(s5, e6, kw);
    lemma_table_payload_prefix(s6, e7, kw);
    lemma_table_payload_prefix(s7, default_entry(m, Keyword::CustomCode), kw);
}

} // verus!
