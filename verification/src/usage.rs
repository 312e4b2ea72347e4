//! Local ledger of the estimated spend per transcription. The spend is
//! estimated locally — audio minutes × rate per minute — and never asked to a
//! billing API. It accumulates per key (provider, model, local month
//! `YYYY-MM`).
//!
//! Amounts are exact integers: audio in milliseconds, rates in micro-USD per
//! minute of audio, and the accumulated cost in units of 1/60 000 000 000 USD
//! (milliseconds × micro-USD per minute), so that accumulating never rounds.

use chrono::Datelike;
use vstd::prelude::*;

use crate::text::{concat_str, decimal, spec_decimal, str_eq};

verus! {

/// Version of the ledger schema (independent of the settings schema).
pub const CURRENT_SCHEMA_VERSION: u32 = 1;

/// Units of the accumulated cost in one USD.
pub const COST_UNITS_PER_USD: u128 = 60_000_000_000;

/// Default rates in micro-USD per minute of audio, per (provider, model).
/// The users can override them in their settings: prices change.
pub const DEFAULT_RATES: [(&'static str, &'static str, u64); 6] = [
    ("openai", "gpt-4o-mini-transcribe", 3_000),
    ("openai", "gpt-4o-transcribe", 6_000),
    ("openai", "whisper-1", 6_000),
    ("groq", "whisper-large-v3-turbo", 670),
    ("groq", "whisper-large-v3", 1_850),
    ("groq", "distil-whisper-large-v3-en", 330),
];

/// First rate of the table for (provider, model).
pub open spec fn find_rate(t: Seq<(&'static str, &'static str, u64)>, p: Seq<char>, m: Seq<char>) -> Option<u64>
    decreases t.len(),
{
    if t.len() == 0 {
        None
    } else if t[0].0@ == p && t[0].1@ == m {
        Some(t[0].2)
    } else {
        find_rate(t.drop_first(), p, m)
    }
}

/// Default rate of (provider, model); `None` for models without a known
/// price.
pub open spec fn spec_default_rate(p: Seq<char>, m: Seq<char>) -> Option<u64> {
    find_rate(DEFAULT_RATES@, p, m)
}

/// Default rate (micro-USD per minute) shipped in code; `None` for models
/// without a known price (they count seconds at no cost until the user sets
/// a rate).
pub fn default_rate(provider: &str, model: &str) -> (r: Option<u64>)
    ensures
        r == spec_default_rate(provider@, model@),
{
    let table = DEFAULT_RATES;
    let mut i: usize = 0;
    assert(table@.skip(0) =~= table@);
    while i < 6
        invariant
            i <= 6,
            table@ == DEFAULT_RATES@,
            find_rate(table@, provider@, model@) == find_rate(table@.skip(i as int), provider@, model@),
        decreases 6 - i,
    {
        let ghost rest = table@.skip(i as int);
        assert(rest[0] == table@[i as int]);
        assert(rest.drop_first() =~= table@.skip(i + 1));
        let (p, m, rate) = table[i];
        if str_eq(p, provider) && str_eq(m, model) {
            return Some(rate);
        }
        i = i + 1;
    }
    assert(table@.skip(6).len() == 0);
    None
}

/// Key of a rate override: `provider/model`.
pub open spec fn spec_rate_key(p: Seq<char>, m: Seq<char>) -> Seq<char> {
    p + "/"@ + m
}

/// Key of a rate override in the settings: `provider/model`.
pub fn rate_key(provider: &str, model: &str) -> (k: String)
    ensures
        k@ == spec_rate_key(provider@, model@),
{
    let mut k = concat_str(provider, "/");
    k.append(model);
    k
}

/// The chars of each key, with its rate.
pub open spec fn pairs_view(s: Seq<(String, u64)>) -> Seq<(Seq<char>, u64)> {
    s.map_values(|e: (String, u64)| (e.0@, e.1))
}

/// Rate of the first pair whose key is `key`.
pub open spec fn lookup(s: Seq<(Seq<char>, u64)>, key: Seq<char>) -> Option<u64>
    decreases s.len(),
{
    if s.len() == 0 {
        None
    } else if s[0].0 == key {
        Some(s[0].1)
    } else {
        lookup(s.drop_first(), key)
    }
}

/// Looks a key up among user overrides.
pub fn lookup_override(rates: &Vec<(String, u64)>, key: &str) -> (r: Option<u64>)
    ensures
        r == lookup(pairs_view(rates@), key@),
{
    let ghost all = pairs_view(rates@);
    let mut i: usize = 0;
    assert(all.skip(0) =~= all);
    while i < rates.len()
        invariant
            i <= rates@.len(),
            all == pairs_view(rates@),
            lookup(all, key@) == lookup(all.skip(i as int), key@),
        decreases rates@.len() - i,
    {
        let ghost rest = all.skip(i as int);
        assert(rest[0] == all[i as int]);
        assert(rest.drop_first() =~= all.skip(i + 1));
        if str_eq(rates[i].0.as_str(), key) {
            return Some(rates[i].1);
        }
        i = i + 1;
    }
    assert(all.skip(rates@.len() as int).len() == 0);
    None
}

/// Effective rate: the user's override, else the default in code, else 0.
pub open spec fn spec_effective_rate(rates: Seq<(Seq<char>, u64)>, p: Seq<char>, m: Seq<char>) -> u64 {
    match lookup(rates, spec_rate_key(p, m)) {
        Some(r) => r,
        None => match spec_default_rate(p, m) {
            Some(r) => r,
            None => 0,
        },
    }
}

/// Effective rate (micro-USD per minute): the user's override (keyed
/// `provider/model`) wins over the default in code; unknown models cost 0.
pub fn effective_rate(rates: &Vec<(String, u64)>, provider: &str, model: &str) -> (r: u64)
    ensures
        r == spec_effective_rate(pairs_view(rates@), provider@, model@),
{
    let key = rate_key(provider, model);
    match lookup_override(rates, key.as_str()) {
        Some(r) => r,
        None => match default_rate(provider, model) {
            Some(r) => r,
            None => 0,
        },
    }
}

} // verus!

verus! {

/// Accumulated usage of one key (provider, model, month) of the ledger.
#[derive(Debug, Clone)]
pub struct UsageEntry {
    pub provider: String,
    pub model: String,
    /// Local month `YYYY-MM` of the dictations.
    pub month: String,
    pub transcriptions: u32,
    /// Audio transcribed, in milliseconds.
    pub audio_ms: u64,
    /// Estimated cost, in units of 1/60 000 000 000 USD, computed with the
    /// rate in force at each dictation (editing a rate does not rewrite the
    /// past).
    pub estimated_cost: u128,
}

/// An entry as a mathematical value.
pub struct EntryView {
    pub provider: Seq<char>,
    pub model: Seq<char>,
    pub month: Seq<char>,
    pub transcriptions: u32,
    pub audio_ms: u64,
    pub estimated_cost: u128,
}

impl View for UsageEntry {
    type V = EntryView;

    open spec fn view(&self) -> EntryView {
        EntryView {
            provider: self.provider@,
            model: self.model@,
            month: self.month@,
            transcriptions: self.transcriptions,
            audio_ms: self.audio_ms,
            estimated_cost: self.estimated_cost,
        }
    }
}

impl UsageEntry {
    /// A copy of the entry.
    pub fn duplicate(&self) -> (e: UsageEntry)
        ensures
            e@ == self@,
    {
        UsageEntry {
            provider: self.provider.clone(),
            model: self.model.clone(),
            month: self.month.clone(),
            transcriptions: self.transcriptions,
            audio_ms: self.audio_ms,
            estimated_cost: self.estimated_cost,
        }
    }
}

/// The whole ledger.
#[derive(Debug, Clone)]
pub struct UsageLedger {
    pub schema_version: u32,
    pub entries: Vec<UsageEntry>,
}

/// The entries as mathematical values.
pub open spec fn entries_view(s: Seq<UsageEntry>) -> Seq<EntryView> {
    s.map_values(|e: UsageEntry| e@)
}

impl Default for UsageLedger {
    fn default() -> (l: Self)
        ensures
            l.schema_version == CURRENT_SCHEMA_VERSION,
            l.entries@.len() == 0,
    {
        UsageLedger { schema_version: CURRENT_SCHEMA_VERSION, entries: Vec::new() }
    }
}

/// A ledger read from disk is kept unless it comes from a newer schema, in
/// which case an empty ledger is used (usage data never stops the
/// application).
pub fn accept_loaded(ledger: UsageLedger) -> (l: UsageLedger)
    ensures
        if ledger.schema_version <= CURRENT_SCHEMA_VERSION {
            l.schema_version == ledger.schema_version && entries_view(l.entries@) == entries_view(
                ledger.entries@,
            )
        } else {
            l.schema_version == CURRENT_SCHEMA_VERSION && l.entries@.len() == 0
        },
{
    if ledger.schema_version <= CURRENT_SCHEMA_VERSION {
        ledger
    } else {
        UsageLedger::default()
    }
}

/// Cost of `audio_ms` of audio at `rate` micro-USD per minute, in ledger
/// units.
pub open spec fn spec_cost(audio_ms: u64, rate: u64) -> u128 {
    (audio_ms as u128 * rate as u128) as u128
}

/// Saturating sum.
pub open spec fn sat_add_u64(a: u64, b: u64) -> u64 {
    if a + b > u64::MAX { u64::MAX } else { (a + b) as u64 }
}

/// Saturating sum.
pub open spec fn sat_add_u128(a: u128, b: u128) -> u128 {
    if a + b > u128::MAX { u128::MAX } else { (a + b) as u128 }
}

/// Saturating increment.
pub open spec fn sat_inc_u32(a: u32) -> u32 {
    if a == u32::MAX { u32::MAX } else { (a + 1) as u32 }
}

/// `e` is the entry of the key (provider, model, month).
pub open spec fn has_key(e: EntryView, p: Seq<char>, m: Seq<char>, month: Seq<char>) -> bool {
    e.provider == p && e.model == m && e.month == month
}

/// The entries after recording one transcription of `audio_ms` at `rate`
/// for the key: the first entry of the key accumulates one transcription,
/// the audio and the cost; without one, a new entry is appended.
pub open spec fn spec_record(
    s: Seq<EntryView>,
    p: Seq<char>,
    m: Seq<char>,
    month: Seq<char>,
    audio_ms: u64,
    rate: u64,
) -> Seq<EntryView> {
    if exists|k: int| 0 <= k < s.len() && has_key(#[trigger] s[k], p, m, month) {
        let k = choose|k: int|
            0 <= k < s.len() && has_key(#[trigger] s[k], p, m, month) && forall|j: int|
                0 <= j < k ==> !has_key(#[trigger] s[j], p, m, month);
        s.update(
            k,
            EntryView {
                transcriptions: sat_inc_u32(s[k].transcriptions),
                audio_ms: sat_add_u64(s[k].audio_ms, audio_ms),
                estimated_cost: sat_add_u128(s[k].estimated_cost, spec_cost(audio_ms, rate)),
                ..s[k]
            },
        )
    } else {
        s.push(
            EntryView {
                provider: p,
                model: m,
                month,
                transcriptions: 1,
                audio_ms,
                estimated_cost: spec_cost(audio_ms, rate),
            },
        )
    }
}

/// Records one successful transcription in the ledger for the key
/// (provider, model, month).
pub fn record(
    ledger: &mut UsageLedger,
    provider: &str,
    model: &str,
    month: &str,
    audio_ms: u64,
    rate: u64,
)
    ensures
        final(ledger).schema_version == old(ledger).schema_version,
        entries_view(final(ledger).entries@) == spec_record(
            entries_view(old(ledger).entries@),
            provider@,
            model@,
            month@,
            audio_ms,
            rate,
        ),
{
    let ghost s = entries_view(ledger.entries@);
    assert((audio_ms as u128) * (rate as u128) <= u128::MAX) by (nonlinear_arith)
        requires
            audio_ms <= u64::MAX,
            rate <= u64::MAX,
    ;
    let cost: u128 = (audio_ms as u128) * (rate as u128);
    let mut i: usize = 0;
    while i < ledger.entries.len()
        invariant
            i <= ledger.entries@.len(),
            s == entries_view(ledger.entries@),
            ledger.schema_version == old(ledger).schema_version,
            s == entries_view(old(ledger).entries@),
            cost == spec_cost(audio_ms, rate),
            forall|j: int| 0 <= j < i ==> !has_key(#[trigger] s[j], provider@, model@, month@),
        decreases ledger.entries@.len() - i,
    {
        let hit = str_eq(ledger.entries[i].provider.as_str(), provider) && str_eq(
            ledger.entries[i].model.as_str(),
            model,
        ) && str_eq(ledger.entries[i].month.as_str(), month);
        if hit {
            let mut e = ledger.entries[i].duplicate();
            assert(s[i as int] == ledger.entries@[i as int]@);
            e.transcriptions = e.transcriptions.saturating_add(1);
            e.audio_ms = e.audio_ms.saturating_add(audio_ms);
            e.estimated_cost = e.estimated_cost.saturating_add(cost);
            ledger.entries.set(i, e);
            proof {
                assert(has_key(s[i as int], provider@, model@, month@));
                let k = choose|k: int|
                    0 <= k < s.len() && has_key(#[trigger] s[k], provider@, model@, month@)
                        && forall|j: int|
                        0 <= j < k ==> !has_key(#[trigger] s[j], provider@, model@, month@);
                if k < i {
                } else if k > i {
                    assert(!has_key(s[i as int], provider@, model@, month@));
                }
                assert(k == i);
                assert(entries_view(ledger.entries@) =~= spec_record(
                    s,
                    provider@,
                    model@,
                    month@,
                    audio_ms,
                    rate,
                ));
            }
            return;
        }
        i = i + 1;
    }
    let entry = UsageEntry {
        provider: String::from_str(provider),
        model: String::from_str(model),
        month: String::from_str(month),
        transcriptions: 1,
        audio_ms,
        estimated_cost: cost,
    };
    ledger.entries.push(entry);
    assert(entries_view(ledger.entries@) =~= spec_record(s, provider@, model@, month@, audio_ms, rate));
}

/// Keeps the entries of every provider but `p`.
pub open spec fn other_provider(p: Seq<char>) -> spec_fn(EntryView) -> bool {
    |e: EntryView| e.provider != p
}

/// Clears the accumulated usage: of one provider, or all of it. The rates
/// are not touched (they live in the settings).
pub fn reset(ledger: &mut UsageLedger, provider: Option<&str>)
    ensures
        final(ledger).schema_version == old(ledger).schema_version,
        entries_view(final(ledger).entries@) == match provider {
            Some(p) => entries_view(old(ledger).entries@).filter(other_provider(p@)),
            None => Seq::<EntryView>::empty(),
        },
{
    match provider {
        None => {
            ledger.entries = Vec::new();
            assert(entries_view(ledger.entries@) =~= Seq::<EntryView>::empty());
        },
        Some(p) => {
            let ghost s = entries_view(ledger.entries@);
            let ghost keep = other_provider(p@);
            let mut kept: Vec<UsageEntry> = Vec::new();
            let mut i: usize = 0;
            while i < ledger.entries.len()
                invariant
                    i <= ledger.entries@.len(),
                    s == entries_view(ledger.entries@),
                    keep == other_provider(p@),
                    entries_view(kept@) == s.take(i as int).filter(keep),
                decreases ledger.entries@.len() - i,
            {
                proof {
                    reveal_with_fuel(Seq::filter, 1);
                    assert(s.take(i + 1).drop_last() =~= s.take(i as int));
                    assert(s.take(i + 1).last() == ledger.entries@[i as int]@);
                }
                if !str_eq(ledger.entries[i].provider.as_str(), p) {
                    kept.push(ledger.entries[i].duplicate());
                    assert(entries_view(kept@) =~= s.take(i + 1).filter(keep));
                } else {
                    assert(entries_view(kept@) =~= s.take(i + 1).filter(keep));
                }
                i = i + 1;
            }
            assert(s.take(s.len() as int) =~= s);
            ledger.entries = kept;
        },
    }
}

} // verus!

verus! {

/// Recording a transcription only touches the entry of its own key: every
/// entry of another key keeps its place and value; the ledger grows by one
/// entry exactly when the key had none, and then that entry counts one
/// transcription at the recorded cost.
pub proof fn law_record_touches_only_its_key(
    s: Seq<EntryView>,
    p: Seq<char>,
    m: Seq<char>,
    month: Seq<char>,
    audio_ms: u64,
    rate: u64,
)
    ensures
        forall|k: int|
            0 <= k < s.len() && !has_key(#[trigger] s[k], p, m, month) ==> spec_record(
                s,
                p,
                m,
                month,
                audio_ms,
                rate,
            )[k] == s[k],
        (exists|k: int| 0 <= k < s.len() && has_key(#[trigger] s[k], p, m, month)) ==> spec_record(
            s,
            p,
            m,
            month,
            audio_ms,
            rate,
        ).len() == s.len(),
        !(exists|k: int| 0 <= k < s.len() && has_key(#[trigger] s[k], p, m, month)) ==> {
            let r = spec_record(s, p, m, month, audio_ms, rate);
            &&& r.len() == s.len() + 1
            &&& has_key(r[s.len() as int], p, m, month)
            &&& r[s.len() as int].transcriptions == 1
            &&& r[s.len() as int].audio_ms == audio_ms
            &&& r[s.len() as int].estimated_cost == spec_cost(audio_ms, rate)
        },
{
    if exists|k: int| 0 <= k < s.len() && has_key(#[trigger] s[k], p, m, month) {
        let k0 = choose|k: int| 0 <= k < s.len() && has_key(#[trigger] s[k], p, m, month);
        lemma_first_key_exists(s, p, m, month, k0);
    }
}

/// Recording for (provider `p`, model `m`, month `month`), stated on the
/// fields of the entries: an entry whose provider, model or month differs
/// keeps its place and value; with no entry carrying all three, the ledger
/// grows by exactly one entry with those three fields, one transcription,
/// the audio and its cost `audio_ms * rate`; with one, the ledger keeps its
/// length and the first such entry gains one transcription.
pub proof fn law_record_by_fields(
    s: Seq<EntryView>,
    p: Seq<char>,
    m: Seq<char>,
    month: Seq<char>,
    audio_ms: u64,
    rate: u64,
)
    ensures
        ({
            let r = spec_record(s, p, m, month, audio_ms, rate);
            &&& forall|k: int|
                0 <= k < s.len() && ((#[trigger] s[k]).provider != p || s[k].model != m
                    || s[k].month != month) ==> r[k] == s[k]
            &&& (forall|k: int|
                0 <= k < s.len() ==> !((#[trigger] s[k]).provider == p && s[k].model == m
                    && s[k].month == month)) ==> r == s.push(
                EntryView {
                    provider: p,
                    model: m,
                    month: month,
                    transcriptions: 1,
                    audio_ms: audio_ms,
                    estimated_cost: (audio_ms as u128 * rate as u128) as u128,
                },
            )
            &&& (exists|k: int|
                0 <= k < s.len() && (#[trigger] s[k]).provider == p && s[k].model == m
                    && s[k].month == month) ==> r.len() == s.len() && exists|k: int|
                0 <= k < s.len() && (#[trigger] r[k]).provider == p && r[k].model == m
                    && r[k].month == month && r[k].transcriptions == (if s[k].transcriptions
                    == u32::MAX {
                    u32::MAX as int
                } else {
                    s[k].transcriptions + 1
                })
        }),
{
    let r = spec_record(s, p, m, month, audio_ms, rate);
    if exists|k: int| 0 <= k < s.len() && has_key(#[trigger] s[k], p, m, month) {
        let k0 = choose|k: int| 0 <= k < s.len() && has_key(#[trigger] s[k], p, m, month);
        lemma_first_key_exists(s, p, m, month, k0);
        let k = choose|k: int|
            0 <= k < s.len() && has_key(#[trigger] s[k], p, m, month) && forall|j: int|
                0 <= j < k ==> !has_key(#[trigger] s[j], p, m, month);
        assert(r[k].provider == p && r[k].model == m && r[k].month == month);
    } else {
        assert forall|k: int|
            0 <= k < s.len() implies !((#[trigger] s[k]).provider == p && s[k].model == m
                && s[k].month == month) by {
            assert(!has_key(s[k], p, m, month));
        }
    }
}

/// With an entry of the key present, a first one exists.
proof fn lemma_first_key_exists(s: Seq<EntryView>, p: Seq<char>, m: Seq<char>, month: Seq<char>, k0: int)
    requires
        0 <= k0 < s.len(),
        has_key(s[k0], p, m, month),
    ensures
        exists|k: int|
            0 <= k < s.len() && has_key(#[trigger] s[k], p, m, month) && forall|j: int|
                0 <= j < k ==> !has_key(#[trigger] s[j], p, m, month),
    decreases k0,
{
    if exists|j: int| 0 <= j < k0 && has_key(#[trigger] s[j], p, m, month) {
        let j = choose|j: int| 0 <= j < k0 && has_key(#[trigger] s[j], p, m, month);
        lemma_first_key_exists(s, p, m, month, j);
    } else {
        assert(forall|j: int| 0 <= j < k0 ==> !has_key(#[trigger] s[j], p, m, month));
    }
}

/// Recording into the entry of an existing key adds one transcription and
/// accumulates the audio and the cost (saturating at the integer limits).
pub proof fn law_record_accumulates(
    s: Seq<EntryView>,
    p: Seq<char>,
    m: Seq<char>,
    month: Seq<char>,
    audio_ms: u64,
    rate: u64,
    k: int,
)
    requires
        0 <= k < s.len(),
        has_key(s[k], p, m, month),
        forall|j: int| 0 <= j < k ==> !has_key(#[trigger] s[j], p, m, month),
    ensures
        spec_record(s, p, m, month, audio_ms, rate)[k].transcriptions == sat_inc_u32(
            s[k].transcriptions,
        ),
        spec_record(s, p, m, month, audio_ms, rate)[k].audio_ms == sat_add_u64(
            s[k].audio_ms,
            audio_ms,
        ),
        spec_record(s, p, m, month, audio_ms, rate)[k].estimated_cost == sat_add_u128(
            s[k].estimated_cost,
            spec_cost(audio_ms, rate),
        ),
        has_key(spec_record(s, p, m, month, audio_ms, rate)[k], p, m, month),
{
    let c = choose|c: int|
        0 <= c < s.len() && has_key(#[trigger] s[c], p, m, month) && forall|j: int|
            0 <= j < c ==> !has_key(#[trigger] s[j], p, m, month);
    if c < k {
        assert(!has_key(s[c], p, m, month));
    } else if c > k {
        assert(!has_key(s[k], p, m, month));
    }
}

/// Resetting one provider removes all of its entries and keeps every entry
/// of the other providers.
pub proof fn law_reset_keeps_other_providers(s: Seq<EntryView>, p: Seq<char>)
    ensures
        forall|i: int|
            0 <= i < s.filter(other_provider(p)).len() ==> (#[trigger] s.filter(
                other_provider(p),
            )[i]).provider != p,
        forall|k: int|
            0 <= k < s.len() && (#[trigger] s[k]).provider != p ==> s.filter(
                other_provider(p),
            ).contains(s[k]),
{
    broadcast use vstd::seq_lib::group_filter_ensures;

    assert forall|k: int| 0 <= k < s.len() && (#[trigger] s[k]).provider != p implies s.filter(
        other_provider(p),
    ).contains(s[k]) by {
        s.lemma_filter_contains(other_provider(p), k);
    }
}

/// A user override of (provider, model) always wins; without one the
/// default in code applies, and an unknown model costs nothing.
pub proof fn law_override_wins(rates: Seq<(Seq<char>, u64)>, p: Seq<char>, m: Seq<char>)
    ensures
        lookup(rates, spec_rate_key(p, m)) matches Some(r) ==> spec_effective_rate(rates, p, m)
            == r,
        lookup(rates, spec_rate_key(p, m)) is None ==> spec_effective_rate(rates, p, m) == match spec_default_rate(p, m) {
            Some(d) => d,
            None => 0,
        },
{
}

} // verus!

verus! {

/// `n` in decimal, left-padded with zeros to at least four digits.
pub open spec fn spec_pad4(n: nat) -> Seq<char> {
    if n < 10 {
        "000"@ + spec_decimal(n)
    } else if n < 100 {
        "00"@ + spec_decimal(n)
    } else if n < 1000 {
        "0"@ + spec_decimal(n)
    } else {
        spec_decimal(n)
    }
}

/// A year as the `%Y` of date formatting writes it: four digits, zero
/// padded, for years 0 to 9999; with an explicit sign outside that range.
pub open spec fn spec_year_text(y: int) -> Seq<char> {
    if 0 <= y <= 9999 {
        spec_pad4(y as nat)
    } else if y > 9999 {
        "+"@ + spec_decimal(y as nat)
    } else {
        "-"@ + spec_pad4((-y) as nat)
    }
}

/// A month (1 to 12) in two digits.
pub open spec fn spec_month_digits(m: int) -> Seq<char> {
    if m < 10 {
        "0"@ + spec_decimal(m as nat)
    } else {
        spec_decimal(m as nat)
    }
}

/// The month key `YYYY-MM` of the ledger.
pub open spec fn spec_month_text(y: int, m: int) -> Seq<char> {
    spec_year_text(y) + "-"@ + spec_month_digits(m)
}

fn pad4(n: u64) -> (s: String)
    ensures
        s@ == spec_pad4(n as nat),
{
    let d = decimal(n);
    if n < 10 {
        concat_str("000", d.as_str())
    } else if n < 100 {
        concat_str("00", d.as_str())
    } else if n < 1000 {
        concat_str("0", d.as_str())
    } else {
        d
    }
}

/// Formats a year and a month as the ledger's month key `YYYY-MM`.
pub fn format_month(year: i32, month: u32) -> (s: String)
    requires
        1 <= month <= 12,
    ensures
        s@ == spec_month_text(year as int, month as int),
{
    let mut s = if 0 <= year && year <= 9999 {
        pad4(year as u64)
    } else if year > 9999 {
        let d = decimal(year as u64);
        concat_str("+", d.as_str())
    } else {
        let magnitude: u64 = (-(year as i64)) as u64;
        let p = pad4(magnitude);
        concat_str("-", p.as_str())
    };
    s.append("-");
    let md = decimal(month as u64);
    if month < 10 {
        s.append("0");
    }
    s.append(md.as_str());
    s
}

/// Trusted: `chrono::Local::now`, read through `Datelike::year` and
/// `Datelike::month`: the year and the month of the local date at the time
/// of the call. chrono documents the month as ranging from 1 to 12; the
/// date itself depends on the clock and the time zone, so nothing more is
/// stated.
#[verifier::external_body]
fn local_year_month() -> (ym: (i32, u32))
    ensures
        1 <= ym.1 <= 12,
{
    let now = chrono::Local::now();
    (now.year(), now.month())
}

/// The current local month `YYYY-MM` (providers bill by monthly cycles; the
/// breakdown uses the same unit).
pub fn current_month() -> (s: String)
    ensures
        exists|y: i32, m: u32| 1 <= m <= 12 && s@ == spec_month_text(y as int, m as int),
{
    let (y, m) = local_year_month();
    format_month(y, m)
}

} // verus!

verus! {

/// The default table keyed `provider/model`.
pub open spec fn default_pairs() -> Seq<(Seq<char>, u64)> {
    DEFAULT_RATES@.map_values(
        |t: (&'static str, &'static str, u64)| (spec_rate_key(t.0@, t.1@), t.2),
    )
}

/// The rate in force for a key: the user's override, else the default.
pub open spec fn merged_rate(rates: Seq<(Seq<char>, u64)>, key: Seq<char>) -> Option<u64> {
    match lookup(rates, key) {
        Some(r) => Some(r),
        None => lookup(default_pairs(), key),
    }
}

/// `s` has a pair with key `k`.
pub open spec fn has_pair_key(s: Seq<(Seq<char>, u64)>, k: Seq<char>) -> bool {
    exists|i: int| 0 <= i < s.len() && (#[trigger] s[i]).0 == k
}

proof fn lemma_lookup_first(s: Seq<(Seq<char>, u64)>, k: Seq<char>, j: int)
    requires
        0 <= j < s.len(),
        s[j].0 == k,
        forall|i: int| 0 <= i < j ==> (#[trigger] s[i]).0 != k,
    ensures
        lookup(s, k) == Some(s[j].1),
    decreases j,
{
    if j > 0 {
        let t = s.drop_first();
        assert forall|i: int| 0 <= i < j - 1 implies (#[trigger] t[i]).0 != k by {
            assert(t[i] == s[i + 1]);
        }
        assert(s[0].0 != k);
        lemma_lookup_first(t, k, j - 1);
    }
}

proof fn lemma_lookup_none(s: Seq<(Seq<char>, u64)>, k: Seq<char>)
    requires
        !has_pair_key(s, k),
    ensures
        lookup(s, k) is None,
    decreases s.len(),
{
    if s.len() > 0 {
        let t = s.drop_first();
        assert(s[0].0 != k);
        assert(!has_pair_key(t, k)) by {
            if has_pair_key(t, k) {
                let i = choose|i: int| 0 <= i < t.len() && (#[trigger] t[i]).0 == k;
                assert(s[i + 1].0 == k);
            }
        }
        lemma_lookup_none(t, k);
    }
}

proof fn lemma_lookup_some(s: Seq<(Seq<char>, u64)>, k: Seq<char>)
    requires
        has_pair_key(s, k),
    ensures
        lookup(s, k) is Some,
    decreases s.len(),
{
    if s[0].0 != k {
        let t = s.drop_first();
        let i = choose|i: int| 0 <= i < s.len() && (#[trigger] s[i]).0 == k;
        assert(t[i - 1] == s[i]);
        lemma_lookup_some(t, k);
    }
}

/// No char of `s` is a slash.
pub open spec fn no_slash(s: Seq<char>) -> bool {
    forall|i: int| 0 <= i < s.len() ==> s[i] != '/'
}

/// A key `a/b` of two slash-free parts splits one way only.
proof fn lemma_split_unique(a: Seq<char>, b: Seq<char>, p: Seq<char>, m: Seq<char>)
    requires
        no_slash(a),
        no_slash(b),
        spec_rate_key(a, b) == spec_rate_key(p, m),
    ensures
        a == p,
        b == m,
{
    let k = spec_rate_key(a, b);
    reveal_strlit("/");
    assert(k == spec_rate_key(p, m));
    assert(k.len() == a.len() + 1 + b.len());
    assert(k.len() == p.len() + 1 + m.len());
    if p.len() < a.len() {
        assert(k[p.len() as int] == a[p.len() as int]);
        assert(spec_rate_key(p, m)[p.len() as int] == '/');
    } else if p.len() > a.len() {
        let x = p.len() - a.len() - 1;
        assert(k[p.len() as int] == b[x]);
        assert(spec_rate_key(p, m)[p.len() as int] == '/');
    } else {
        assert(a =~= k.subrange(0, a.len() as int));
        assert(p =~= spec_rate_key(p, m).subrange(0, p.len() as int));
        assert(b =~= k.subrange(a.len() as int + 1, k.len() as int));
        assert(m =~= spec_rate_key(p, m).subrange(p.len() as int + 1, k.len() as int));
    }
}

/// The provider and model names of the default table have no slash.
proof fn lemma_defaults_without_slash()
    ensures
        forall|j: int|
            0 <= j < DEFAULT_RATES@.len() ==> no_slash((#[trigger] DEFAULT_RATES@[j]).0@)
                && no_slash(DEFAULT_RATES@[j].1@),
{
    reveal_strlit("openai");
    reveal_strlit("groq");
    reveal_strlit("gpt-4o-mini-transcribe");
    reveal_strlit("gpt-4o-transcribe");
    reveal_strlit("whisper-1");
    reveal_strlit("whisper-large-v3-turbo");
    reveal_strlit("whisper-large-v3");
    reveal_strlit("distil-whisper-large-v3-en");
}

/// Looking a `provider/model` key up in a keyed table of slash-free names
/// finds the rate of that provider and model.
proof fn lemma_keyed_lookup(t: Seq<(&'static str, &'static str, u64)>, p: Seq<char>, m: Seq<char>)
    requires
        forall|j: int| 0 <= j < t.len() ==> no_slash((#[trigger] t[j]).0@) && no_slash(t[j].1@),
    ensures
        lookup(
            t.map_values(|e: (&'static str, &'static str, u64)| (spec_rate_key(e.0@, e.1@), e.2)),
            spec_rate_key(p, m),
        ) == find_rate(t, p, m),
    decreases t.len(),
{
    let f = |e: (&'static str, &'static str, u64)| (spec_rate_key(e.0@, e.1@), e.2);
    if t.len() > 0 {
        let keyed = t.map_values(f);
        assert(keyed.drop_first() =~= t.drop_first().map_values(f));
        assert(no_slash(t[0].0@) && no_slash(t[0].1@));
        if keyed[0].0 == spec_rate_key(p, m) {
            lemma_split_unique(t[0].0@, t[0].1@, p, m);
        }
        assert forall|j: int| 0 <= j < t.drop_first().len() implies no_slash(
            (#[trigger] t.drop_first()[j]).0@,
        ) && no_slash(t.drop_first()[j].1@) by {
            assert(t.drop_first()[j] == t[j + 1]);
        }
        lemma_keyed_lookup(t.drop_first(), p, m);
    }
}

/// Each entry of the merged rate table gives, for its `provider/model`,
/// exactly the effective rate of that provider and model; and the table
/// has an entry for a provider and model exactly when the user overrides
/// it or the code has a default for it.
pub proof fn law_rate_table_is_effective_rate(
    rates: Seq<(Seq<char>, u64)>,
    p: Seq<char>,
    m: Seq<char>,
)
    ensures
        (has_pair_key(rates, spec_rate_key(p, m)) || has_pair_key(
            default_pairs(),
            spec_rate_key(p, m),
        )) <==> (lookup(rates, spec_rate_key(p, m)) is Some || spec_default_rate(p, m) is Some),
        merged_rate(rates, spec_rate_key(p, m)) is Some <==> (lookup(rates, spec_rate_key(p, m)) is Some
            || spec_default_rate(p, m) is Some),
        merged_rate(rates, spec_rate_key(p, m)) matches Some(r) ==> r == spec_effective_rate(
            rates,
            p,
            m,
        ),
{
    let k = spec_rate_key(p, m);
    lemma_defaults_without_slash();
    lemma_keyed_lookup(DEFAULT_RATES@, p, m);
    if has_pair_key(rates, k) {
        lemma_lookup_some(rates, k);
    } else {
        lemma_lookup_none(rates, k);
    }
    if has_pair_key(default_pairs(), k) {
        lemma_lookup_some(default_pairs(), k);
    } else {
        lemma_lookup_none(default_pairs(), k);
    }
}

/// Whether `out` already has the key.
fn pairs_have(out: &Vec<(String, u64)>, key: &str) -> (r: bool)
    ensures
        r == has_pair_key(pairs_view(out@), key@),
{
    let mut i: usize = 0;
    while i < out.len()
        invariant
            i <= out@.len(),
            forall|q: int| 0 <= q < i ==> (#[trigger] pairs_view(out@)[q]).0 != key@,
        decreases out@.len() - i,
    {
        if str_eq(out[i].0.as_str(), key) {
            assert(pairs_view(out@)[i as int].0 == key@);
            return true;
        }
        i = i + 1;
    }
    false
}

/// Table of effective rates for the user interface, keyed `provider/model`:
/// the defaults in code merged with the user's overrides (which win). Each
/// key appears once.
pub fn effective_rates(rates: &Vec<(String, u64)>) -> (out: Vec<(String, u64)>)
    ensures
        forall|p: int, q: int|
            0 <= p < q < out@.len() ==> (#[trigger] pairs_view(out@)[p]).0 != (
            #[trigger] pairs_view(out@)[q]).0,
        forall|k: Seq<char>|
            has_pair_key(pairs_view(out@), k) <==> (has_pair_key(pairs_view(rates@), k)
                || has_pair_key(default_pairs(), k)),
        forall|i: int|
            0 <= i < out@.len() ==> merged_rate(pairs_view(rates@), (#[trigger] pairs_view(
                out@,
            )[i]).0) == Some(pairs_view(out@)[i].1),
        forall|p: Seq<char>, m: Seq<char>|
            #[trigger] has_pair_key(pairs_view(out@), spec_rate_key(p, m)) <==> (lookup(
                pairs_view(rates@),
                spec_rate_key(p, m),
            ) is Some || spec_default_rate(p, m) is Some),
        forall|i: int, p: Seq<char>, m: Seq<char>|
            #![trigger pairs_view(out@)[i], spec_rate_key(p, m)]
            0 <= i < out@.len() && pairs_view(out@)[i].0 == spec_rate_key(p, m)
                ==> pairs_view(out@)[i].1 == spec_effective_rate(pairs_view(rates@), p, m),
{
    let ghost ov = pairs_view(rates@);
    let ghost dp = default_pairs();
    let table = DEFAULT_RATES;
    let mut out: Vec<(String, u64)> = Vec::new();
    let mut t: usize = 0;
    while t < 6
        invariant
            t <= 6,
            table@ == DEFAULT_RATES@,
            ov == pairs_view(rates@),
            dp == default_pairs(),
            dp.len() == 6,
            forall|p: int, q: int|
                0 <= p < q < out@.len() ==> (#[trigger] pairs_view(out@)[p]).0 != (
                #[trigger] pairs_view(out@)[q]).0,
            forall|k: Seq<char>|
                #![trigger has_pair_key(pairs_view(out@), k)]
                #![trigger has_pair_key(dp.take(t as int), k)]
                has_pair_key(pairs_view(out@), k) <==> has_pair_key(dp.take(t as int), k),
            forall|i: int|
                0 <= i < out@.len() ==> merged_rate(ov, (#[trigger] pairs_view(out@)[i]).0)
                    == Some(pairs_view(out@)[i].1),
        decreases 6 - t,
    {
        let (p, m, rate) = table[t];
        let key = rate_key(p, m);
        let ghost kv = key@;
        assert(dp[t as int] == (kv, rate));
        let ghost before = pairs_view(out@);
        if !pairs_have(&out, key.as_str()) {
            proof {
                assert forall|i: int| 0 <= i < t implies (#[trigger] dp[i]).0 != kv by {
                    if dp[i].0 == kv {
                        assert(dp.take(t as int)[i] == dp[i]);
                        assert(has_pair_key(dp.take(t as int), kv));
                    }
                }
                lemma_lookup_first(dp, kv, t as int);
            }
            let value = match lookup_override(rates, key.as_str()) {
                Some(r) => r,
                None => rate,
            };
            out.push((key, value));
            assert(pairs_view(out@) =~= before.push((kv, value)));
        } else {
            assert(pairs_view(out@) == before);
        }
        proof {
            let now = pairs_view(out@);
            assert forall|k: Seq<char>| has_pair_key(now, k) <==> has_pair_key(
                dp.take(t + 1),
                k,
            ) by {
                if has_pair_key(dp.take(t + 1), k) {
                    let i = choose|i: int| 0 <= i < dp.take(t + 1).len() && (#[trigger] dp.take(
                        t + 1,
                    )[i]).0 == k;
                    if i < t {
                        assert(dp.take(t as int)[i] == dp.take(t + 1)[i]);
                        assert(has_pair_key(dp.take(t as int), k));
                        assert(has_pair_key(before, k));
                        let b = choose|b: int| 0 <= b < before.len() && (#[trigger] before[b]).0 == k;
                        assert(now[b] == before[b]);
                    } else {
                        assert(k == kv);
                        if now.len() > before.len() {
                            assert(now[before.len() as int].0 == kv);
                        } else {
                            let b = choose|b: int| 0 <= b < before.len() && (#[trigger] before[b]).0 == k;
                            assert(now[b] == before[b]);
                        }
                    }
                }
                if has_pair_key(now, k) {
                    let i = choose|i: int| 0 <= i < now.len() && (#[trigger] now[i]).0 == k;
                    if i < before.len() {
                        assert(now[i] == before[i]);
                        assert(has_pair_key(before, k));
                        let d = choose|d: int| 0 <= d < dp.take(t as int).len() && (#[trigger] dp.take(
                            t as int,
                        )[d]).0 == k;
                        assert(dp.take(t + 1)[d] == dp.take(t as int)[d]);
                    } else {
                        assert(dp.take(t + 1)[t as int].0 == k);
                    }
                }
            }
        }
        t = t + 1;
    }
    assert(dp.take(6) =~= dp);
    assert forall|k: Seq<char>| !has_pair_key(ov.take(0), k) by {}
    let mut j: usize = 0;
    while j < rates.len()
        invariant
            j <= rates@.len(),
            ov == pairs_view(rates@),
            dp == default_pairs(),
            forall|p: int, q: int|
                0 <= p < q < out@.len() ==> (#[trigger] pairs_view(out@)[p]).0 != (
                #[trigger] pairs_view(out@)[q]).0,
            forall|k: Seq<char>|
                #![trigger has_pair_key(pairs_view(out@), k)]
                #![trigger has_pair_key(ov.take(j as int), k)]
                #![trigger has_pair_key(dp, k)]
                has_pair_key(pairs_view(out@), k) <==> (has_pair_key(dp, k) || has_pair_key(
                    ov.take(j as int),
                    k,
                )),
            forall|i: int|
                0 <= i < out@.len() ==> merged_rate(ov, (#[trigger] pairs_view(out@)[i]).0)
                    == Some(pairs_view(out@)[i].1),
        decreases rates@.len() - j,
    {
        let ghost before = pairs_view(out@);
        let ghost kv = ov[j as int].0;
        assert(rates@[j as int].0@ == kv);
        if !pairs_have(&out, rates[j].0.as_str()) {
            proof {
                assert forall|i: int| 0 <= i < j implies (#[trigger] ov[i]).0 != kv by {
                    if ov[i].0 == kv {
                        assert(ov.take(j as int)[i] == ov[i]);
                        assert(has_pair_key(ov.take(j as int), kv));
                        assert(has_pair_key(before, kv));
                    }
                }
                lemma_lookup_first(ov, kv, j as int);
            }
            out.push((rates[j].0.clone(), rates[j].1));
            assert(pairs_view(out@) =~= before.push((kv, ov[j as int].1)));
        } else {
            assert(pairs_view(out@) == before);
        }
        proof {
            let now = pairs_view(out@);
            assert forall|k: Seq<char>| has_pair_key(now, k) <==> (has_pair_key(dp, k)
                || has_pair_key(ov.take(j + 1), k)) by {
                if has_pair_key(ov.take(j + 1), k) {
                    let i = choose|i: int| 0 <= i < ov.take(j + 1).len() && (#[trigger] ov.take(
                        j + 1,
                    )[i]).0 == k;
                    if i < j {
                        assert(ov.take(j as int)[i] == ov.take(j + 1)[i]);
                        assert(has_pair_key(ov.take(j as int), k));
                        assert(has_pair_key(before, k));
                        let b = choose|b: int| 0 <= b < before.len() && (#[trigger] before[b]).0 == k;
                        assert(now[b] == before[b]);
                    } else {
                        assert(k == kv);
                        if now.len() > before.len() {
                            assert(now[before.len() as int].0 == kv);
                        } else {
                            let b = choose|b: int| 0 <= b < before.len() && (#[trigger] before[b]).0 == k;
                            assert(now[b] == before[b]);
                        }
                    }
                }
                if has_pair_key(dp, k) {
                    assert(has_pair_key(before, k));
                    let b = choose|b: int| 0 <= b < before.len() && (#[trigger] before[b]).0 == k;
                    assert(now[b] == before[b]);
                }
                if has_pair_key(now, k) {
                    let i = choose|i: int| 0 <= i < now.len() && (#[trigger] now[i]).0 == k;
                    if i < before.len() {
                        assert(now[i] == before[i]);
                        assert(has_pair_key(before, k));
                        if has_pair_key(ov.take(j as int), k) {
                            let d = choose|d: int| 0 <= d < ov.take(j as int).len() && (#[trigger] ov.take(
                                j as int,
                            )[d]).0 == k;
                            assert(ov.take(j + 1)[d] == ov.take(j as int)[d]);
                        }
                    } else {
                        assert(ov.take(j + 1)[j as int].0 == k);
                    }
                }
            }
        }
        j = j + 1;
    }
    assert(ov.take(rates@.len() as int) =~= ov);
    assert forall|k: Seq<char>|
        has_pair_key(pairs_view(out@), k) <==> (has_pair_key(pairs_view(rates@), k)
            || has_pair_key(default_pairs(), k)) by {
        assert(has_pair_key(pairs_view(out@), k) <==> (has_pair_key(dp, k) || has_pair_key(
            ov.take(rates@.len() as int),
            k,
        )));
    }
    assert forall|p: Seq<char>, m: Seq<char>|
        #[trigger] has_pair_key(pairs_view(out@), spec_rate_key(p, m)) <==> (lookup(
            pairs_view(rates@),
            spec_rate_key(p, m),
        ) is Some || spec_default_rate(p, m) is Some) by {
        law_rate_table_is_effective_rate(ov, p, m);
    }
    assert forall|i: int, p: Seq<char>, m: Seq<char>|
        #![trigger pairs_view(out@)[i], spec_rate_key(p, m)]
        0 <= i < out@.len() && pairs_view(out@)[i].0 == spec_rate_key(p, m) implies pairs_view(
            out@,
        )[i].1 == spec_effective_rate(pairs_view(rates@), p, m) by {
        law_rate_table_is_effective_rate(ov, p, m);
    }
    out
}

} // verus!

