//! Silence cut of the voice detector. The detector classifies each chunk of
//! 512 samples at 16 kHz (32 ms) as speech or not; this gate accumulates the
//! continuous silence and fires once when it reaches the hangover. It only
//! cuts the end: the cut is armed once speech has been heard, so an initial
//! pause to think never closes the dictation.

use vstd::prelude::*;

verus! {

/// Samples per chunk of the speech model at 16 kHz.
pub const CHUNK_SAMPLES: usize = 512;

/// Duration of one chunk in ms (512 samples at 16 kHz).
pub const CHUNK_MS: u64 = 32;

/// What a buffer of audio changed.
#[derive(Debug, PartialEq, Eq, Structural, Clone, Copy)]
pub struct VadUpdate {
    /// `Some(state)` when the speaking / silent state changed.
    pub speaking_changed: Option<bool>,
    /// `Some(ms)` when the sustained silence reached the hangover (once per
    /// recording).
    pub silence_cut_ms: Option<u64>,
}

impl Default for VadUpdate {
    fn default() -> (u: Self)
        ensures
            u == (VadUpdate { speaking_changed: None, silence_cut_ms: None }),
    {
        VadUpdate { speaking_changed: None, silence_cut_ms: None }
    }
}

/// Silence accounting of one recording.
#[derive(Debug)]
pub struct SilenceGate {
    hangover_ms: u64,
    silence_ms: u64,
    speaking: bool,
    heard_speech: bool,
    fired: bool,
}

/// The silence accounting as a mathematical value.
pub struct GateView {
    pub hangover_ms: u64,
    pub silence_ms: u64,
    pub speaking: bool,
    pub heard_speech: bool,
    pub fired: bool,
}

impl View for SilenceGate {
    type V = GateView;

    closed spec fn view(&self) -> GateView {
        GateView {
            hangover_ms: self.hangover_ms,
            silence_ms: self.silence_ms,
            speaking: self.speaking,
            heard_speech: self.heard_speech,
            fired: self.fired,
        }
    }
}

/// Silence after one more chunk (saturating at `u64::MAX`).
pub open spec fn next_silence(g: GateView, is_speech: bool) -> u64 {
    if is_speech {
        0
    } else if g.heard_speech {
        if g.silence_ms + CHUNK_MS > u64::MAX {
            u64::MAX
        } else {
            (g.silence_ms + CHUNK_MS) as u64
        }
    } else {
        g.silence_ms
    }
}

/// One chunk classified as speech (`true`) or not: speech resets the
/// silence and arms the cut; silence after speech grows by one chunk; a
/// change of speaking state is reported; the cut fires, once, when the
/// armed silence reaches the hangover.
pub open spec fn spec_process_chunk(g: GateView, is_speech: bool, u: VadUpdate) -> (GateView, VadUpdate) {
    let heard = g.heard_speech || is_speech;
    let silence = next_silence(g, is_speech);
    let changed = is_speech != g.speaking;
    let cut = heard && !g.fired && silence >= g.hangover_ms;
    (
        GateView {
            hangover_ms: g.hangover_ms,
            silence_ms: silence,
            speaking: is_speech,
            heard_speech: heard,
            fired: g.fired || cut,
        },
        VadUpdate {
            speaking_changed: if changed {
                Some(is_speech)
            } else {
                u.speaking_changed
            },
            silence_cut_ms: if cut {
                Some(silence)
            } else {
                u.silence_cut_ms
            },
        },
    )
}

/// Feeding a run of chunk classifications from `g`: chunks are processed
/// in order and processing stops right after the chunk that fires the cut.
pub open spec fn spec_feed_from(g: GateView, flags: Seq<bool>, u: VadUpdate) -> (GateView, VadUpdate)
    decreases flags.len(),
{
    if flags.len() == 0 || u.silence_cut_ms is Some {
        (g, u)
    } else {
        let (g2, u2) = spec_process_chunk(g, flags[0], u);
        spec_feed_from(g2, flags.drop_first(), u2)
    }
}

/// Feeding a buffer: nothing happens once the cut has fired.
pub open spec fn spec_feed(g: GateView, flags: Seq<bool>) -> (GateView, VadUpdate) {
    let none = VadUpdate { speaking_changed: None, silence_cut_ms: None };
    if g.fired {
        (g, none)
    } else {
        spec_feed_from(g, flags, none)
    }
}

impl SilenceGate {
    /// A gate for one recording with the given hangover.
    pub fn new(hangover_ms: u64) -> (g: Self)
        ensures
            g@ == (GateView {
                hangover_ms,
                silence_ms: 0,
                speaking: false,
                heard_speech: false,
                fired: false,
            }),
    {
        SilenceGate { hangover_ms, silence_ms: 0, speaking: false, heard_speech: false, fired: false }
    }

    /// Whether the cut has already fired.
    pub fn fired(&self) -> (r: bool)
        ensures
            r == self@.fired,
    {
        self.fired
    }

    /// Processes one chunk classified as speech or not, recording the
    /// changes in `update`.
    pub fn process_chunk(&mut self, is_speech: bool, update: &mut VadUpdate)
        ensures
            (final(self)@, *final(update)) == spec_process_chunk(old(self)@, is_speech, *old(update)),
    {
        if is_speech {
            self.heard_speech = true;
            self.silence_ms = 0;
        } else if self.heard_speech {
            self.silence_ms = self.silence_ms.saturating_add(CHUNK_MS);
        }
        if is_speech != self.speaking {
            self.speaking = is_speech;
            update.speaking_changed = Some(is_speech);
        }
        if self.heard_speech && !self.fired && self.silence_ms >= self.hangover_ms {
            self.fired = true;
            update.silence_cut_ms = Some(self.silence_ms);
        }
    }

    /// Feeds the classifications of the chunks of one buffer, in order, and
    /// returns what changed.
    pub fn feed(&mut self, flags: &Vec<bool>) -> (u: VadUpdate)
        ensures
            (final(self)@, u) == spec_feed(old(self)@, flags@),
    {
        let mut update = VadUpdate::default();
        if self.fired {
            return update;
        }
        let ghost g0 = self@;
        assert(flags@.skip(0) =~= flags@);
        let mut i: usize = 0;
        while i < flags.len() && update.silence_cut_ms.is_none()
            invariant
                i <= flags@.len(),
                !g0.fired,
                spec_feed_from(g0, flags@, VadUpdate { speaking_changed: None, silence_cut_ms: None })
                    == spec_feed_from(self@, flags@.skip(i as int), update),
            decreases flags@.len() - i,
        {
            let ghost rest = flags@.skip(i as int);
            assert(rest[0] == flags@[i as int]);
            assert(rest.drop_first() =~= flags@.skip(i + 1));
            self.process_chunk(flags[i], &mut update);
            i = i + 1;
        }
        update
    }
}

} // verus!

verus! {

/// A run of chunks without speech.
pub open spec fn all_silent(flags: Seq<bool>) -> bool {
    forall|k: int| 0 <= k < flags.len() ==> !flags[k]
}

proof fn lemma_silence_before_speech(g: GateView, flags: Seq<bool>, u: VadUpdate)
    requires
        !g.heard_speech,
        all_silent(flags),
        u.silence_cut_ms is None,
    ensures
        spec_feed_from(g, flags, u).1.silence_cut_ms is None,
        !spec_feed_from(g, flags, u).0.heard_speech,
    decreases flags.len(),
{
    if flags.len() > 0 {
        let (g2, u2) = spec_process_chunk(g, flags[0], u);
        assert(all_silent(flags.drop_first())) by {
            assert forall|k: int| 0 <= k < flags.drop_first().len() implies !flags.drop_first()[k] by {
                assert(flags.drop_first()[k] == flags[k + 1]);
            }
        }
        lemma_silence_before_speech(g2, flags.drop_first(), u2);
    }
}

/// Before any speech has been heard, no amount of silence cuts the
/// recording (an initial pause to think never closes the dictation).
pub proof fn law_no_cut_before_speech(g: GateView, flags: Seq<bool>)
    requires
        !g.heard_speech,
        all_silent(flags),
    ensures
        spec_feed(g, flags).1.silence_cut_ms is None,
{
    if !g.fired {
        lemma_silence_before_speech(
            g,
            flags,
            VadUpdate { speaking_changed: None, silence_cut_ms: None },
        );
    }
}

/// The cut fires at most once per recording: once it has fired, feeding
/// more audio changes nothing and reports nothing.
pub proof fn law_cut_fires_once(g: GateView, flags: Seq<bool>)
    requires
        g.fired,
    ensures
        spec_feed(g, flags) == (g, VadUpdate { speaking_changed: None, silence_cut_ms: None }),
{
}

/// Speech resets the silence; silence after speech grows by one chunk
/// (32 ms); and the cut fires exactly when, after speech, the silence
/// reaches the hangover for the first time.
pub proof fn law_silence_accounting(g: GateView, is_speech: bool, u: VadUpdate)
    requires
        g.silence_ms + CHUNK_MS <= u64::MAX,
    ensures
        is_speech ==> spec_process_chunk(g, is_speech, u).0.silence_ms == 0,
        !is_speech && g.heard_speech ==> spec_process_chunk(g, is_speech, u).0.silence_ms
            == g.silence_ms + CHUNK_MS,
        spec_process_chunk(g, is_speech, u).0.fired == (g.fired || ((g.heard_speech || is_speech)
            && spec_process_chunk(g, is_speech, u).0.silence_ms >= g.hangover_ms)),
        (spec_process_chunk(g, is_speech, u).1.silence_cut_ms != u.silence_cut_ms) ==> !g.fired,
{
}

proof fn lemma_silence_grows(g: GateView, flags: Seq<bool>, u: VadUpdate)
    requires
        g.heard_speech,
        !g.fired,
        g.speaking == false,
        all_silent(flags),
        u.silence_cut_ms is None,
        g.silence_ms + CHUNK_MS * flags.len() < g.hangover_ms,
    ensures
        spec_feed_from(g, flags, u).1.silence_cut_ms is None,
        spec_feed_from(g, flags, u).0.silence_ms == g.silence_ms + CHUNK_MS * flags.len(),
        !spec_feed_from(g, flags, u).0.fired,
    decreases flags.len(),
{
    if flags.len() > 0 {
        let (g2, u2) = spec_process_chunk(g, flags[0], u);
        assert(all_silent(flags.drop_first())) by {
            assert forall|k: int| 0 <= k < flags.drop_first().len() implies !flags.drop_first()[k] by {
                assert(flags.drop_first()[k] == flags[k + 1]);
            }
        }
        assert(g2.silence_ms == g.silence_ms + CHUNK_MS);
        lemma_silence_grows(g2, flags.drop_first(), u2);
    }
}

/// After speech, a pause shorter than the hangover does not cut: each
/// silent chunk adds 32 ms and nothing fires while the total stays below the
/// hangover.
pub proof fn law_short_pause_does_not_cut(g: GateView, flags: Seq<bool>)
    requires
        g.heard_speech,
        !g.fired,
        !g.speaking,
        all_silent(flags),
        g.silence_ms + CHUNK_MS * flags.len() < g.hangover_ms,
    ensures
        spec_feed(g, flags).1.silence_cut_ms is None,
        spec_feed(g, flags).0.silence_ms == g.silence_ms + CHUNK_MS * flags.len(),
{
    lemma_silence_grows(g, flags, VadUpdate { speaking_changed: None, silence_cut_ms: None });
}

} // verus!

verus! {

/// Whether one of the first `k` chunks was speech.
pub open spec fn heard_upto(f: Seq<bool>, k: int) -> bool
    decreases k,
{
    if k <= 0 {
        false
    } else {
        heard_upto(f, k - 1) || f[k - 1]
    }
}

/// The silence (ms) after the first `k` chunks, counted from the last
/// speech chunk; 0 before any speech.
pub open spec fn silence_upto(f: Seq<bool>, k: int) -> int
    decreases k,
{
    if k <= 0 {
        0
    } else if f[k - 1] {
        0
    } else if heard_upto(f, k - 1) {
        silence_upto(f, k - 1) + CHUNK_MS
    } else {
        0
    }
}

/// Whether chunk `j` is one at which, after speech, the silence has reached
/// the hangover `h`.
pub open spec fn cuts_at(f: Seq<bool>, j: int, h: int) -> bool {
    heard_upto(f, j + 1) && silence_upto(f, j + 1) >= h
}

/// The silence reported at the first chunk of `[k, e)` that cuts, if any.
pub open spec fn first_cut_in(f: Seq<bool>, k: int, e: int, h: int) -> Option<int>
    decreases e - k,
{
    if k >= e {
        None
    } else if cuts_at(f, k, h) {
        Some(silence_upto(f, k + 1))
    } else {
        first_cut_in(f, k + 1, e, h)
    }
}

/// Number of silent chunks after speech that reach a hangover of `h` ms:
/// `ceil(h / 32)`.
pub open spec fn chunks_to_cut(h: int) -> int {
    (h + CHUNK_MS - 1) / (CHUNK_MS as int)
}

/// Some speech chunk is followed by `n` consecutive silent chunks.
pub open spec fn speech_then_silence(f: Seq<bool>, n: int) -> bool {
    exists|i: int|
        0 <= i && i + n < f.len() && #[trigger] f[i] && forall|k: int| i < k <= i + n ==> !f[k]
}

/// Silence accounting of a new recording with hangover `h`.
pub open spec fn fresh_gate(h: u64) -> GateView {
    GateView { hangover_ms: h, silence_ms: 0, speaking: false, heard_speech: false, fired: false }
}

/// The updates returned by feeding the buffers one after the other.
pub open spec fn feed_all(g: GateView, bufs: Seq<Seq<bool>>) -> Seq<VadUpdate>
    decreases bufs.len(),
{
    if bufs.len() == 0 {
        Seq::empty()
    } else {
        let (g1, u1) = spec_feed(g, bufs[0]);
        seq![u1] + feed_all(g1, bufs.drop_first())
    }
}

/// `g` is the accounting after the first `k` chunks of `f`, the cut not fired.
spec fn tracks(g: GateView, f: Seq<bool>, k: int) -> bool {
    &&& !g.fired
    &&& g.heard_speech == heard_upto(f, k)
    &&& g.silence_ms == silence_upto(f, k)
    &&& heard_upto(f, k) ==> silence_upto(f, k) < g.hangover_ms
    &&& !heard_upto(f, k) ==> silence_upto(f, k) == 0
}

proof fn lemma_run(g: GateView, f: Seq<bool>, k: int, e: int, u: VadUpdate)
    requires
        0 <= k <= e <= f.len(),
        tracks(g, f, k),
        g.hangover_ms <= u64::MAX - CHUNK_MS,
        u.silence_cut_ms is None,
    ensures
        ({
            let r = spec_feed_from(g, f.subrange(k, e), u);
            match first_cut_in(f, k, e, g.hangover_ms as int) {
                Some(v) => r.1.silence_cut_ms == Some(v as u64) && r.0.fired,
                None => r.1.silence_cut_ms is None && tracks(r.0, f, e) && r.0.hangover_ms
                    == g.hangover_ms,
            }
        }),
    decreases e - k,
{
    let h = g.hangover_ms as int;
    let sub = f.subrange(k, e);
    if k < e {
        assert(sub[0] == f[k]);
        let (g2, u2) = spec_process_chunk(g, f[k], u);
        assert(heard_upto(f, k + 1) == (heard_upto(f, k) || f[k]));
        assert(g2.heard_speech == heard_upto(f, k + 1));
        assert(g2.silence_ms == silence_upto(f, k + 1));
        assert(sub.drop_first() =~= f.subrange(k + 1, e));
        if cuts_at(f, k, h) {
            assert(u2.silence_cut_ms is Some);
        } else {
            lemma_run(g2, f, k + 1, e, u2);
        }
    }
}

proof fn lemma_first_cut_split(f: Seq<bool>, k: int, e: int, n: int, h: int)
    requires
        k <= e <= n,
    ensures
        first_cut_in(f, k, n, h) == match first_cut_in(f, k, e, h) {
            Some(v) => Some(v),
            None => first_cut_in(f, e, n, h),
        },
    decreases e - k,
{
    if k < e {
        lemma_first_cut_split(f, k + 1, e, n, h);
    }
}

proof fn lemma_fired_stays_silent(g: GateView, bufs: Seq<Seq<bool>>)
    requires
        g.fired,
    ensures
        feed_all(g, bufs).len() == bufs.len(),
        forall|i: int| 0 <= i < bufs.len() ==> (#[trigger] feed_all(g, bufs)[i]).silence_cut_ms is None,
    decreases bufs.len(),
{
    if bufs.len() > 0 {
        lemma_fired_stays_silent(g, bufs.drop_first());
        assert forall|i: int| 0 <= i < bufs.len() implies (#[trigger] feed_all(
            g,
            bufs,
        )[i]).silence_cut_ms is None by {
            if i > 0 {
                assert(feed_all(g, bufs)[i] == feed_all(g, bufs.drop_first())[i - 1]);
            }
        }
    }
}

proof fn lemma_feed_all(g: GateView, f: Seq<bool>, k: int, bufs: Seq<Seq<bool>>)
    requires
        0 <= k <= f.len(),
        tracks(g, f, k),
        g.hangover_ms <= u64::MAX - CHUNK_MS,
        bufs.flatten() == f.subrange(k, f.len() as int),
    ensures
        ({
            let us = feed_all(g, bufs);
            let c = first_cut_in(f, k, f.len() as int, g.hangover_ms as int);
            &&& us.len() == bufs.len()
            &&& forall|i: int, j: int|
                0 <= i < j < us.len() ==> !((#[trigger] us[i]).silence_cut_ms is Some && (
                #[trigger] us[j]).silence_cut_ms is Some)
            &&& (exists|i: int| 0 <= i < us.len() && (#[trigger] us[i]).silence_cut_ms is Some)
                <==> c is Some
            &&& forall|i: int|
                0 <= i < us.len() && (#[trigger] us[i]).silence_cut_ms is Some ==> (c matches Some(
                    v,
                ) && us[i].silence_cut_ms == Some(v as u64))
        }),
    decreases bufs.len(),
{
    let h = g.hangover_ms as int;
    let n = f.len() as int;
    let us = feed_all(g, bufs);
    if bufs.len() == 0 {
        assert(f.subrange(k, n).len() == 0);
        assert(k == n);
    } else {
        let a = bufs[0];
        let rest = bufs.drop_first();
        let e = k + a.len();
        assert(bufs.flatten() == a + rest.flatten());
        assert(f.subrange(k, n) == a + rest.flatten());
        assert(e <= n) by {
            assert((a + rest.flatten()).len() == a.len() + rest.flatten().len());
        }
        assert(f.subrange(k, e) =~= a) by {
            assert forall|x: int| 0 <= x < a.len() implies f.subrange(k, e)[x] == a[x] by {
                assert(f.subrange(k, n)[x] == (a + rest.flatten())[x]);
            }
        }
        assert(f.subrange(e, n) =~= rest.flatten()) by {
            assert forall|x: int| 0 <= x < n - e implies f.subrange(e, n)[x] == rest.flatten()[x] by {
                assert(f.subrange(k, n)[a.len() + x] == (a + rest.flatten())[a.len() + x]);
            }
        }
        let none = VadUpdate { speaking_changed: None, silence_cut_ms: None };
        let (g1, u1) = spec_feed(g, a);
        assert(spec_feed(g, a) == spec_feed_from(g, f.subrange(k, e), none));
        lemma_run(g, f, k, e, none);
        lemma_first_cut_split(f, k, e, n, h);
        assert(us[0] == u1);
        assert(forall|i: int| 1 <= i < us.len() ==> us[i] == feed_all(g1, rest)[i - 1]);
        if first_cut_in(f, k, e, h) is Some {
            lemma_fired_stays_silent(g1, rest);
            assert forall|i: int| 1 <= i < us.len() implies (#[trigger] us[i]).silence_cut_ms is None by {
                assert(us[i] == feed_all(g1, rest)[i - 1]);
            }
        } else {
            lemma_feed_all(g1, f, e, rest);
            let vs = feed_all(g1, rest);
            assert forall|i: int| 1 <= i < us.len() implies (#[trigger] us[i]) == vs[i - 1] by {}
            if exists|i: int| 0 <= i < vs.len() && (#[trigger] vs[i]).silence_cut_ms is Some {
                let i = choose|i: int| 0 <= i < vs.len() && (#[trigger] vs[i]).silence_cut_ms is Some;
                assert(us[i + 1] == vs[i]);
            }
            assert forall|i: int, j: int|
                0 <= i < j < us.len() implies !((#[trigger] us[i]).silence_cut_ms is Some && (
                #[trigger] us[j]).silence_cut_ms is Some) by {
                if i > 0 {
                    assert(us[i] == vs[i - 1]);
                    assert(us[j] == vs[j - 1]);
                }
            }
            assert forall|i: int|
                0 <= i < us.len() && (#[trigger] us[i]).silence_cut_ms is Some implies (
                first_cut_in(f, k, n, h) matches Some(v) && us[i].silence_cut_ms == Some(
                    v as u64,
                )) by {
                assert(us[i] == vs[i - 1]);
            }
            if first_cut_in(f, k, n, h) is Some {
                let i = choose|i: int| 0 <= i < vs.len() && (#[trigger] vs[i]).silence_cut_ms is Some;
                assert(us[i + 1] == vs[i]);
            }
        }
    }
}

/// Index of the last speech chunk among the first `k`, or -1.
pub open spec fn last_speech(f: Seq<bool>, k: int) -> int
    decreases k,
{
    if k <= 0 {
        -1
    } else if f[k - 1] {
        k - 1
    } else {
        last_speech(f, k - 1)
    }
}

proof fn lemma_last_speech(f: Seq<bool>, k: int)
    requires
        0 <= k <= f.len(),
    ensures
        -1 <= last_speech(f, k) < k,
        heard_upto(f, k) <==> last_speech(f, k) >= 0,
        last_speech(f, k) >= 0 ==> f[last_speech(f, k)],
        forall|x: int| last_speech(f, k) < x < k ==> !f[x],
        heard_upto(f, k) ==> silence_upto(f, k) == CHUNK_MS * (k - 1 - last_speech(f, k)),
        !heard_upto(f, k) ==> silence_upto(f, k) == 0,
    decreases k,
{
    if k > 0 {
        lemma_last_speech(f, k - 1);
    }
}

proof fn lemma_first_cut_is_first(f: Seq<bool>, k: int, e: int, h: int)
    ensures
        first_cut_in(f, k, e, h) matches Some(v) ==> exists|j: int|
            k <= j < e && #[trigger] cuts_at(f, j, h) && v == silence_upto(f, j + 1) && forall|
                x: int,
            | k <= x < j ==> !cuts_at(f, x, h),
        (exists|j: int| k <= j < e && #[trigger] cuts_at(f, j, h)) ==> first_cut_in(
            f,
            k,
            e,
            h,
        ) is Some,
    decreases e - k,
{
    if k < e {
        lemma_first_cut_is_first(f, k + 1, e, h);
        if first_cut_in(f, k, e, h) is Some && !cuts_at(f, k, h) {
            let j = choose|j: int|
                k + 1 <= j < e && #[trigger] cuts_at(f, j, h) && first_cut_in(f, k, e, h)->0
                    == silence_upto(f, j + 1) && forall|x: int| k + 1 <= x < j ==> !cuts_at(f, x, h);
            assert(forall|x: int| k <= x < j ==> !cuts_at(f, x, h));
        }
        if exists|j: int| k <= j < e && #[trigger] cuts_at(f, j, h) {
            if !cuts_at(f, k, h) {
                let j = choose|j: int| k <= j < e && #[trigger] cuts_at(f, j, h);
                assert(k + 1 <= j);
            }
        }
    }
}

proof fn lemma_cut_value(f: Seq<bool>, h: int)
    requires
        h >= 0,
    ensures
        first_cut_in(f, 0, f.len() as int, h) is Some <==> speech_then_silence(
            f,
            chunks_to_cut(h),
        ),
        first_cut_in(f, 0, f.len() as int, h) matches Some(v) ==> v == CHUNK_MS * chunks_to_cut(h),
{
    let len = f.len() as int;
    let n = chunks_to_cut(h);
    lemma_first_cut_is_first(f, 0, len, h);
    if first_cut_in(f, 0, len, h) is Some {
        let v = first_cut_in(f, 0, len, h)->0;
        let j = choose|j: int|
            0 <= j < len && #[trigger] cuts_at(f, j, h) && v == silence_upto(f, j + 1) && forall|
                x: int,
            | 0 <= x < j ==> !cuts_at(f, x, h);
        lemma_last_speech(f, j + 1);
        let l = last_speech(f, j + 1);
        assert(v == CHUNK_MS * (j - l));
        if l < j {
            lemma_last_speech(f, j);
            assert(last_speech(f, j) == l);
            assert(!cuts_at(f, j - 1, h));
            assert(silence_upto(f, j) == CHUNK_MS * (j - 1 - l));
        }
        assert(j - l == n);
        assert(forall|x: int| l < x <= l + n ==> !f[x]);
        assert(f[l]);
        assert(speech_then_silence(f, n));
    }
    if speech_then_silence(f, n) {
        let i = choose|i: int|
            0 <= i && i + n < f.len() && #[trigger] f[i] && forall|k: int| i < k <= i + n ==> !f[k];
        let j = i + n;
        lemma_last_speech(f, j + 1);
        let l = last_speech(f, j + 1);
        if l < i {
            assert(!f[i]);
        }
        if l > i {
            assert(!f[l]);
        }
        assert(l == i);
        assert(cuts_at(f, j, h));
    }
}

/// Where the silence cut falls, over a whole recording fed buffer by
/// buffer from a new gate with hangover `h`, whatever the buffer sizes: the
/// cut is reported in at most one update; it is reported exactly when some
/// speech chunk is followed by `ceil(h / 32)` consecutive silent chunks (a
/// speech chunk resets the run; without speech it never comes); and the
/// silence it reports is `32 * ceil(h / 32)` ms.
pub proof fn law_cut_point(h: u64, bufs: Seq<Seq<bool>>)
    requires
        h <= u64::MAX - CHUNK_MS,
    ensures
        ({
            let us = feed_all(fresh_gate(h), bufs);
            let n = chunks_to_cut(h as int);
            &&& us.len() == bufs.len()
            &&& forall|i: int, j: int|
                0 <= i < j < us.len() ==> !((#[trigger] us[i]).silence_cut_ms is Some && (
                #[trigger] us[j]).silence_cut_ms is Some)
            &&& (exists|i: int| 0 <= i < us.len() && (#[trigger] us[i]).silence_cut_ms is Some)
                <==> speech_then_silence(bufs.flatten(), n)
            &&& forall|i: int|
                0 <= i < us.len() && (#[trigger] us[i]).silence_cut_ms is Some ==> us[i].silence_cut_ms
                    == Some((CHUNK_MS * n) as u64)
        }),
{
    let f = bufs.flatten();
    assert(f.subrange(0, f.len() as int) =~= f);
    lemma_feed_all(fresh_gate(h), f, 0, bufs);
    lemma_cut_value(f, h as int);
}

} // verus!
