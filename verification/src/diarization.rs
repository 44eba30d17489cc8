//! Speaker labelling for live transcription.
//!
//! Each capture source (microphone or system audio) keeps its own roster of
//! up to six speakers. A chunk of audio is attributed to the closest known
//! voice, or opens a new speaker when it is clearly different and long
//! enough. The voice fingerprints themselves are floating-point audio
//! features kept by the caller, one per roster slot, in the same order; the
//! roster tells the caller how to update them.

use vstd::prelude::*;
use crate::text::{decimal, push_decimal, push_str};

verus! {

broadcast use vstd::string::group_string_axioms;

/// The capture source of a chunk of audio.
#[derive(Clone, Copy, Debug)]
pub enum RecordingDeviceType {
    Microphone,
    System,
}

/// The speaker a chunk of audio is attributed to.
#[derive(Clone, Debug)]
pub struct SpeakerAssignment {
    pub speaker: String,
    pub speaker_id: String,
}

/// One speaker of a source's roster.
#[derive(Debug)]
pub struct SpeakerSlot {
    pub id: String,
    pub label: String,
    /// Number of chunks attributed to the speaker (saturating).
    pub segments: u64,
}

/// The roster of one capture source.
#[derive(Debug)]
pub struct SourceProfiles {
    pub speakers: Vec<SpeakerSlot>,
    pub last_speaker_id: Option<String>,
}

/// The rosters of both capture sources.
#[derive(Debug)]
pub struct SpeakerDiarizer {
    pub microphone: SourceProfiles,
    pub system: SourceProfiles,
}

/// What the caller measured of a chunk of audio.
#[derive(Clone, Copy, Debug)]
pub enum Voice {
    /// No usable voice fingerprint (too little or too quiet audio).
    Unusable,
    /// A fingerprint was taken. `nearest` is the roster index of the closest
    /// known voice (the first of equally close ones) and `far` tells whether
    /// its distance exceeds the new-speaker threshold; both are ignored
    /// while the roster is empty.
    Heard { nearest: usize, far: bool },
}

/// What the caller does with its fingerprints after an assignment.
#[derive(Clone, Copy, Debug)]
pub enum FingerprintUpdate {
    /// Nothing changes.
    Keep,
    /// The new fingerprint is appended for the new speaker.
    Append,
    /// The fingerprint at `index` moves toward the new one by
    /// `weight_percent` percent.
    Blend { index: usize, weight_percent: u32 },
}

/// Most speakers kept per source.
pub const MAX_SPEAKERS_PER_SOURCE: usize = 6;

/// Blend weight, in percent, while a speaker has fewer than three chunks.
pub const EARLY_BLEND_PERCENT: u32 = 35;

/// Blend weight, in percent, once a speaker is established.
pub const UPDATE_BLEND_PERCENT: u32 = 18;

/// A speaker as seen in specifications: id, label and chunk count.
pub type SlotView = (Seq<char>, Seq<char>, u64);

/// A roster as seen in specifications: its speakers and the id of the
/// last one assigned.
pub type RosterView = (Seq<SlotView>, Option<Seq<char>>);

/// An assignment as seen in specifications: label and id.
pub type AssignmentView = (Seq<char>, Seq<char>);

impl SpeakerSlot {
    pub open spec fn view_of(self) -> SlotView {
        (self.id@, self.label@, self.segments)
    }
}

impl SourceProfiles {
    pub open spec fn roster(self) -> RosterView {
        (
            self.speakers@.map_values(|s: SpeakerSlot| s.view_of()),
            match self.last_speaker_id {
                Some(id) => Some(id@),
                None => None,
            },
        )
    }
}

impl SpeakerAssignment {
    pub open spec fn view_of(self) -> AssignmentView {
        (self.speaker@, self.speaker_id@)
    }
}

/// The id of the `n`-th speaker of a source.
pub open spec fn speaker_id_text(source: RecordingDeviceType, n: nat) -> Seq<char> {
    match source {
        RecordingDeviceType::Microphone => "local-speaker-"@ + decimal(n),
        RecordingDeviceType::System => "remote-speaker-"@ + decimal(n),
    }
}

/// The label of the `n`-th speaker of a source.
pub open spec fn speaker_label_text(source: RecordingDeviceType, n: nat) -> Seq<char> {
    match source {
        RecordingDeviceType::Microphone => if n == 1 {
            "Local speaker"@
        } else {
            "Local speaker "@ + decimal(n)
        },
        RecordingDeviceType::System => "Remote speaker "@ + decimal(n),
    }
}

/// The first roster index holding the speaker id.
pub open spec fn find_slot(slots: Seq<SlotView>, id: Seq<char>) -> Option<int>
    decreases slots.len(),
{
    if slots.len() == 0 {
        None
    } else if slots[0].0 == id {
        Some(0)
    } else {
        match find_slot(slots.drop_first(), id) {
            Some(k) => Some(k + 1),
            None => None,
        }
    }
}

/// The speaker assigned last, when it is still in the roster.
pub open spec fn last_assignment_of(r: RosterView) -> Option<AssignmentView> {
    match r.1 {
        None => None,
        Some(id) => match find_slot(r.0, id) {
            Some(k) => Some((r.0[k].1, r.0[k].0)),
            None => None,
        },
    }
}

/// The speaker assumed for a source before any voice was heard.
pub open spec fn default_assignment_of(source: RecordingDeviceType) -> AssignmentView {
    match source {
        RecordingDeviceType::Microphone => ("Local speaker"@, "local-speaker-1"@),
        RecordingDeviceType::System => ("Remote speaker 1"@, "remote-speaker-1"@),
    }
}

/// The roster after a new speaker joins, and that speaker's assignment.
pub open spec fn with_new_speaker(source: RecordingDeviceType, r: RosterView) -> (RosterView, AssignmentView) {
    let n = (r.0.len() + 1) as nat;
    let id = speaker_id_text(source, n);
    let label = speaker_label_text(source, n);
    ((r.0.push((id, label, 1u64)), Some(id)), (label, id))
}

/// The roster after a chunk is attributed to speaker `k`.
pub open spec fn with_chunk_for(r: RosterView, k: int) -> RosterView {
    let s = r.0[k];
    let count = if s.2 == u64::MAX {
        s.2
    } else {
        (s.2 + 1) as u64
    };
    (r.0.update(k, (s.0, s.1, count)), Some(s.0))
}

/// The blend weight for a speaker with `segments` chunks so far.
pub open spec fn blend_percent(segments: u64) -> u32 {
    if segments < 3 {
        EARLY_BLEND_PERCENT
    } else {
        UPDATE_BLEND_PERCENT
    }
}

/// A chunk shorter than three quarters of a second (in exact arithmetic;
/// a zero sample rate counts as no audio).
pub open spec fn is_short(sample_count: nat, sample_rate: nat) -> bool {
    sample_rate == 0 || 4 * sample_count < 3 * sample_rate
}

/// One step of speaker assignment on a source's roster: the next roster,
/// the assignment and the update of the caller's fingerprints.
pub open spec fn assign_step(source: RecordingDeviceType, r: RosterView, short: bool, voice: Voice) -> (
    RosterView,
    AssignmentView,
    FingerprintUpdate,
) {
    let last = last_assignment_of(r);
    if short && last is Some {
        (r, last->0, FingerprintUpdate::Keep)
    } else {
        match voice {
            Voice::Unusable => match last {
                Some(a) => (r, a, FingerprintUpdate::Keep),
                None => (r, default_assignment_of(source), FingerprintUpdate::Keep),
            },
            Voice::Heard { nearest, far } => if r.0.len() == 0 || (far && r.0.len()
                < MAX_SPEAKERS_PER_SOURCE && !short) {
                let (next, a) = with_new_speaker(source, r);
                (next, a, FingerprintUpdate::Append)
            } else {
                (
                    with_chunk_for(r, nearest as int),
                    (r.0[nearest as int].1, r.0[nearest as int].0),
                    FingerprintUpdate::Blend {
                        index: nearest,
                        weight_percent: blend_percent(r.0[nearest as int].2),
                    },
                )
            },
        }
    }
}

/// The roster of a source is well formed: at most six speakers, the `k`-th
/// (counting from one) carrying that number's id and label and at least
/// one chunk, and the last assigned id naming one of them.
pub open spec fn roster_wf(source: RecordingDeviceType, r: RosterView) -> bool {
    &&& r.0.len() <= MAX_SPEAKERS_PER_SOURCE
    &&& forall|k: int|
        0 <= k < r.0.len() ==> {
            &&& (#[trigger] r.0[k]).0 == speaker_id_text(source, (k + 1) as nat)
            &&& r.0[k].1 == speaker_label_text(source, (k + 1) as nat)
            &&& r.0[k].2 >= 1
        }
    &&& (r.1 matches Some(id) ==> find_slot(r.0, id) is Some)
}

/// The caller's measurement fits the roster: a nearest voice is an index
/// of the roster whenever the roster has speakers.
pub open spec fn voice_fits(r: RosterView, voice: Voice) -> bool {
    voice matches Voice::Heard { nearest, far } ==> (r.0.len() == 0 || nearest < r.0.len())
}

/// A speaker id is found at the first index that holds it.
pub proof fn lemma_find_slot(slots: Seq<SlotView>, k: int)
    requires
        0 <= k < slots.len(),
    ensures
        find_slot(slots, slots[k].0) matches Some(j) && 0 <= j <= k && slots[j].0 == slots[k].0,
    decreases slots.len(),
{
    if slots[0].0 != slots[k].0 {
        lemma_find_slot(slots.drop_first(), k - 1);
    }
}

/// Whatever `find_slot` returns is an index holding the id.
pub proof fn lemma_find_slot_sound(slots: Seq<SlotView>, id: Seq<char>)
    ensures
        find_slot(slots, id) matches Some(j) ==> 0 <= j < slots.len() && slots[j].0 == id,
    decreases slots.len(),
{
    if slots.len() > 0 && slots[0].0 != id {
        lemma_find_slot_sound(slots.drop_first(), id);
    }
}

/// Every assignment step keeps a source's roster well formed.
pub proof fn lemma_assign_keeps_roster_wf(
    source: RecordingDeviceType,
    r: RosterView,
    short: bool,
    voice: Voice,
)
    requires
        roster_wf(source, r),
        voice_fits(r, voice),
    ensures
        roster_wf(source, assign_step(source, r, short, voice).0),
{
    let next = assign_step(source, r, short, voice).0;
    if next != r {
        if next.0.len() == r.0.len() + 1 {
            let n = next.0.len() - 1;
            assert(next.0[n].0 == speaker_id_text(source, (n + 1) as nat));
            lemma_find_slot(next.0, n);
        } else {
            let k = voice->nearest as int;
            assert(next == with_chunk_for(r, k));
            lemma_find_slot(next.0, k);
        }
    }
}

/// A short chunk heard after some assignment goes to the same speaker and
/// changes nothing.
pub proof fn lemma_short_chunk_repeats_last(
    source: RecordingDeviceType,
    r: RosterView,
    voice: Voice,
)
    requires
        last_assignment_of(r) is Some,
    ensures
        assign_step(source, r, true, voice) == (r, last_assignment_of(r)->0, FingerprintUpdate::Keep),
{
}

/// A chunk without a usable voice fingerprint changes no roster and stays
/// with the speaker assigned last, whichever of the roster's speakers that
/// is; only when nothing was assigned yet does it go to the source's first
/// speaker.
pub proof fn lemma_unusable_voice_keeps_last_speaker(
    source: RecordingDeviceType,
    r: RosterView,
    short: bool,
)
    requires
        roster_wf(source, r),
    ensures
        assign_step(source, r, short, Voice::Unusable).0 == r,
        assign_step(source, r, short, Voice::Unusable).2 == FingerprintUpdate::Keep,
        forall|k: int|
            0 <= k < r.0.len() && r.1 == Some(#[trigger] r.0[k].0) ==> assign_step(
                source,
                r,
                short,
                Voice::Unusable,
            ).1 == (r.0[k].1, r.0[k].0),
        r.1 matches Some(id) ==> assign_step(source, r, short, Voice::Unusable).1.1 == id,
        r.1 is None ==> assign_step(source, r, short, Voice::Unusable).1 == default_assignment_of(
            source,
        ),
{
    if r.1 is Some {
        let id = r.1->0;
        lemma_find_slot_sound(r.0, id);
        let j = find_slot(r.0, id)->0;
        assert forall|k: int|
            0 <= k < r.0.len() && r.1 == Some(#[trigger] r.0[k].0) implies assign_step(
            source,
            r,
            short,
            Voice::Unusable,
        ).1 == (r.0[k].1, r.0[k].0) by {
            if j != k {
                assert(r.0[j].0 == speaker_id_text(source, (j + 1) as nat));
                assert(r.0[k].0 == speaker_id_text(source, (k + 1) as nat));
                lemma_distinct_ids(source, j + 1, k + 1);
            }
        }
    }
}

/// A short chunk heard after some assignment stays with the speaker
/// assigned last, whichever of the roster's speakers that is, whatever its
/// voice, and changes nothing.
pub proof fn lemma_short_chunk_keeps_last_speaker(
    source: RecordingDeviceType,
    r: RosterView,
    voice: Voice,
)
    requires
        roster_wf(source, r),
    ensures
        forall|k: int|
            0 <= k < r.0.len() && r.1 == Some(#[trigger] r.0[k].0) ==> assign_step(
                source,
                r,
                true,
                voice,
            ) == (r, (r.0[k].1, r.0[k].0), FingerprintUpdate::Keep),
{
    if r.1 is Some {
        let id = r.1->0;
        lemma_find_slot_sound(r.0, id);
        let j = find_slot(r.0, id)->0;
        assert forall|k: int|
            0 <= k < r.0.len() && r.1 == Some(#[trigger] r.0[k].0) implies assign_step(
            source,
            r,
            true,
            voice,
        ) == (r, (r.0[k].1, r.0[k].0), FingerprintUpdate::Keep) by {
            if j != k {
                assert(r.0[j].0 == speaker_id_text(source, (j + 1) as nat));
                assert(r.0[k].0 == speaker_id_text(source, (k + 1) as nat));
                lemma_distinct_ids(source, j + 1, k + 1);
            }
        }
    }
}

/// A heard voice that no short chunk settles: on an empty roster, or when
/// the voice is far from every known one, the chunk is long enough and the
/// roster has room, the next numbered speaker joins with one chunk and gets
/// the chunk (its fingerprint appended); otherwise the nearest speaker gets
/// it, its chunk count grows by one (saturating) and its fingerprint is
/// blended by 35 percent while it had fewer than three chunks, 18 after.
/// A full roster never grows.
pub proof fn lemma_heard_voice_cases(
    source: RecordingDeviceType,
    r: RosterView,
    short: bool,
    nearest: usize,
    far: bool,
)
    requires
        roster_wf(source, r),
        voice_fits(r, Voice::Heard { nearest, far }),
        !short || r.1 is None,
    ensures
        ({
            let (next, a, u) = assign_step(source, r, short, Voice::Heard { nearest, far });
            let n = (r.0.len() + 1) as nat;
            let k = nearest as int;
            let s = r.0[k];
            &&& (r.0.len() == 0 || (far && !short && r.0.len() < 6)) ==> {
                &&& next.0 == r.0.push((speaker_id_text(source, n), speaker_label_text(source, n), 1u64))
                &&& next.1 == Some(speaker_id_text(source, n))
                &&& a == (speaker_label_text(source, n), speaker_id_text(source, n))
                &&& u == FingerprintUpdate::Append
            }
            &&& !(r.0.len() == 0 || (far && !short && r.0.len() < 6)) ==> {
                &&& next.0.len() == r.0.len()
                &&& next.0[k] == (s.0, s.1, if s.2 == u64::MAX { s.2 } else { (s.2 + 1) as u64 })
                &&& forall|j: int| 0 <= j < r.0.len() && j != k ==> #[trigger] next.0[j] == r.0[j]
                &&& next.1 == Some(s.0)
                &&& a == (s.1, s.0)
                &&& u == FingerprintUpdate::Blend {
                    index: nearest,
                    weight_percent: if s.2 < 3 { 35u32 } else { 18u32 },
                }
            }
            &&& r.0.len() == 6 ==> next.0.len() == 6
        }),
{
    if r.1 is Some {
        lemma_find_slot_sound(r.0, r.1->0);
    }
}

/// After a voice is heard on a well-formed roster, the assigned speaker is
/// in the new roster under the returned id and label, and is the last one
/// assigned.
pub proof fn lemma_heard_voice_is_on_roster(
    source: RecordingDeviceType,
    r: RosterView,
    short: bool,
    voice: Voice,
)
    requires
        roster_wf(source, r),
        voice_fits(r, voice),
        voice is Heard,
    ensures
        ({
            let (next, a, _u) = assign_step(source, r, short, voice);
            last_assignment_of(next) == Some(a)
        }),
{
    let (next, a, u) = assign_step(source, r, short, voice);
    lemma_assign_keeps_roster_wf(source, r, short, voice);
    if short && last_assignment_of(r) is Some {
        let id = r.1->0;
        lemma_find_slot_sound(r.0, id);
    } else {
        let id = next.1->0;
        lemma_find_slot_sound(next.0, id);
        if next.0.len() == r.0.len() + 1 {
            let n = r.0.len() as int;
            lemma_find_slot(next.0, n);
            assert(next.0[n].0 == a.1);
            let j = find_slot(next.0, id)->0;
            if j != n {
                assert(next.0[j].0 == speaker_id_text(source, (j + 1) as nat));
                lemma_distinct_ids(source, j + 1, n + 1);
            }
        } else {
            let k = voice->nearest as int;
            lemma_find_slot(next.0, k);
            let j = find_slot(next.0, id)->0;
            if j != k {
                assert(next.0[j].0 == speaker_id_text(source, (j + 1) as nat));
                assert(next.0[k].0 == speaker_id_text(source, (k + 1) as nat));
                lemma_distinct_ids(source, j + 1, k + 1);
            }
        }
    }
}

/// Every assignment names a speaker of its source by number: the id and
/// label of the `k`-th speaker for some `k` from 1 to 6 (the first speaker
/// of a source also stands in before any voice was heard).
pub proof fn lemma_assignment_is_numbered_speaker(
    source: RecordingDeviceType,
    r: RosterView,
    short: bool,
    voice: Voice,
)
    requires
        roster_wf(source, r),
        voice_fits(r, voice),
    ensures
        exists|k: int|
            1 <= k <= MAX_SPEAKERS_PER_SOURCE && assign_step(source, r, short, voice).1 == (
                speaker_label_text(source, k as nat),
                #[trigger] speaker_id_text(source, k as nat),
            ),
{
    let (next, a, u) = assign_step(source, r, short, voice);
    let last = last_assignment_of(r);
    if last is Some && (short || voice is Unusable) {
        let id = r.1->0;
        lemma_find_slot_sound(r.0, id);
        let j = find_slot(r.0, id)->0;
        assert(a == (speaker_label_text(source, (j + 1) as nat), speaker_id_text(source, (j + 1) as nat)));
    } else if voice is Unusable {
        reveal_strlit("local-speaker-1");
        reveal_strlit("remote-speaker-1");
        reveal_strlit("Local speaker");
        reveal_strlit("Remote speaker 1");
        reveal_strlit("local-speaker-");
        reveal_strlit("remote-speaker-");
        reveal_strlit("Remote speaker ");
        assert(decimal(1) == seq!['1']);
        assert(a == (speaker_label_text(source, 1), speaker_id_text(source, 1)));
    } else if next.0.len() == r.0.len() + 1 {
        let n = r.0.len() + 1;
        assert(a == (speaker_label_text(source, n as nat), speaker_id_text(source, n as nat)));
    } else {
        let j = voice->nearest as int;
        assert(a == (speaker_label_text(source, (j + 1) as nat), speaker_id_text(source, (j + 1) as nat)));
    }
}

/// The number of the speaker one assignment step names.
pub open spec fn step_number(source: RecordingDeviceType, r: RosterView, short: bool, voice: Voice) -> int {
    let last = last_assignment_of(r);
    if last is Some && (short || voice is Unusable) {
        find_slot(r.0, r.1->0)->0 + 1
    } else {
        match voice {
            Voice::Unusable => 1,
            Voice::Heard { nearest, far } => if r.0.len() == 0 || (far && r.0.len()
                < MAX_SPEAKERS_PER_SOURCE && !short) {
                r.0.len() + 1int
            } else {
                nearest + 1int
            },
        }
    }
}

proof fn lemma_step_number(source: RecordingDeviceType, r: RosterView, short: bool, voice: Voice)
    requires
        roster_wf(source, r),
        voice_fits(r, voice),
    ensures
        ({
            let k = step_number(source, r, short, voice);
            &&& 1 <= k <= MAX_SPEAKERS_PER_SOURCE
            &&& assign_step(source, r, short, voice).1 == (
                speaker_label_text(source, k as nat),
                speaker_id_text(source, k as nat),
            )
            &&& k > 1 ==> k - 1 <= r.0.len()
        }),
{
    let last = last_assignment_of(r);
    if last is Some && (short || voice is Unusable) {
        let id = r.1->0;
        lemma_find_slot_sound(r.0, id);
    } else if voice is Unusable {
        reveal_strlit("local-speaker-1");
        reveal_strlit("remote-speaker-1");
        reveal_strlit("Local speaker");
        reveal_strlit("Remote speaker 1");
        reveal_strlit("local-speaker-");
        reveal_strlit("remote-speaker-");
        reveal_strlit("Remote speaker ");
        assert(decimal(1) == seq!['1']);
    }
}

/// The roster reached from `r` through a run of steps, each a chunk's
/// shortness and voice, and the speakers assigned on the way.
pub open spec fn run_steps(source: RecordingDeviceType, r: RosterView, steps: Seq<(bool, Voice)>) -> (
    RosterView,
    Seq<AssignmentView>,
)
    decreases steps.len(),
{
    if steps.len() == 0 {
        (r, Seq::empty())
    } else {
        let (mid, outs) = run_steps(source, r, steps.drop_last());
        let (next, a, _u) = assign_step(source, mid, steps.last().0, steps.last().1);
        (next, outs.push(a))
    }
}

/// Every step of the run meets the caller's measurement condition on the
/// roster it is taken on.
pub open spec fn run_fits(source: RecordingDeviceType, r: RosterView, steps: Seq<(bool, Voice)>) -> bool {
    forall|i: int|
        0 <= i < steps.len() ==> voice_fits(run_steps(source, r, steps.take(i)).0, #[trigger] steps[i].1)
}

/// An empty roster.
pub open spec fn empty_roster() -> RosterView {
    (Seq::empty(), None)
}

/// Over any run of assignments on a source, starting from an empty
/// roster: every speaker assigned is the `k`-th speaker of that source for
/// some `k` from 1 to 6, and a speaker `k` above the first is assigned
/// only after speaker `k - 1` was. (The other source's roster is never
/// touched: see [`SpeakerDiarizer::assign`].)
pub proof fn lemma_speakers_appear_in_order(source: RecordingDeviceType, steps: Seq<(bool, Voice)>)
    requires
        run_fits(source, empty_roster(), steps),
    ensures
        ({
            let (roster, outs) = run_steps(source, empty_roster(), steps);
            &&& roster_wf(source, roster)
            &&& outs.len() == steps.len()
            &&& forall|t: int|
                #![trigger outs[t]]
                0 <= t < outs.len() ==> exists|k: int|
                    1 <= k <= MAX_SPEAKERS_PER_SOURCE && outs[t] == (
                        speaker_label_text(source, k as nat),
                        #[trigger] speaker_id_text(source, k as nat),
                    )
            &&& forall|t: int, k: int|
                #![trigger outs[t], speaker_id_text(source, k as nat)]
                0 <= t < outs.len() && 1 < k <= MAX_SPEAKERS_PER_SOURCE && outs[t].1
                    == speaker_id_text(source, k as nat) ==> exists|u: int|
                    0 <= u < t && #[trigger] outs[u].1 == speaker_id_text(source, (k - 1) as nat)
        }),
{
    lemma_run_invariant(source, steps);
}

proof fn lemma_run_invariant(source: RecordingDeviceType, steps: Seq<(bool, Voice)>)
    requires
        run_fits(source, empty_roster(), steps),
    ensures
        ({
            let (roster, outs) = run_steps(source, empty_roster(), steps);
            &&& roster_wf(source, roster)
            &&& outs.len() == steps.len()
            &&& (roster.1 is None ==> roster.0.len() == 0)
            &&& forall|j: int|
                0 <= j < roster.0.len() ==> exists|u: int|
                    0 <= u < outs.len() && #[trigger] outs[u].1 == (#[trigger] roster.0[j]).0
            &&& forall|t: int|
                #![trigger outs[t]]
                0 <= t < outs.len() ==> exists|k: int|
                    1 <= k <= MAX_SPEAKERS_PER_SOURCE && outs[t] == (
                        speaker_label_text(source, k as nat),
                        #[trigger] speaker_id_text(source, k as nat),
                    )
            &&& forall|t: int, k: int|
                #![trigger outs[t], speaker_id_text(source, k as nat)]
                0 <= t < outs.len() && 1 < k <= MAX_SPEAKERS_PER_SOURCE && outs[t].1
                    == speaker_id_text(source, k as nat) ==> exists|u: int|
                    0 <= u < t && #[trigger] outs[u].1 == speaker_id_text(source, (k - 1) as nat)
        }),
    decreases steps.len(),
{
    let r0 = empty_roster();
    if steps.len() > 0 {
        let front = steps.drop_last();
        assert forall|i: int| 0 <= i < front.len() implies voice_fits(
            run_steps(source, r0, front.take(i)).0,
            #[trigger] front[i].1,
        ) by {
            assert(front.take(i) == steps.take(i));
            assert(front[i] == steps[i]);
        }
        lemma_run_invariant(source, front);
        let (mid, outs0) = run_steps(source, r0, front);
        let (short, voice) = steps.last();
        assert(steps.take(steps.len() - 1) == front);
        assert(voice_fits(mid, voice)) by {
            assert(steps[steps.len() - 1] == steps.last());
        }
        let (next, a, u) = assign_step(source, mid, short, voice);
        let outs = outs0.push(a);
        assert(run_steps(source, r0, steps) == (next, outs));
        lemma_assign_keeps_roster_wf(source, mid, short, voice);
        lemma_step_number(source, mid, short, voice);
        let k0 = step_number(source, mid, short, voice);
        let n = outs0.len() as int;
        assert(outs[n] == a);
        // every roster speaker was assigned at some time
        assert forall|j: int| 0 <= j < next.0.len() implies exists|u: int|
            0 <= u < outs.len() && #[trigger] outs[u].1 == (#[trigger] next.0[j]).0 by {
            assert(next.0[j].0 == speaker_id_text(source, (j + 1) as nat));
            if j < mid.0.len() {
                assert(mid.0[j].0 == speaker_id_text(source, (j + 1) as nat));
                let w = choose|w: int| 0 <= w < outs0.len() && #[trigger] outs0[w].1 == (#[trigger] mid.0[j]).0;
                assert(outs[w] == outs0[w]);
            } else {
                assert(next.0.len() == mid.0.len() + 1);
                assert(a.1 == speaker_id_text(source, (j + 1) as nat));
            }
        }
        assert forall|t: int| #![trigger outs[t]] 0 <= t < outs.len() implies exists|k: int|
            1 <= k <= MAX_SPEAKERS_PER_SOURCE && outs[t] == (
                speaker_label_text(source, k as nat),
                #[trigger] speaker_id_text(source, k as nat),
            ) by {
            if t < n {
                assert(outs[t] == outs0[t]);
            } else {
                assert(outs[t] == (speaker_label_text(source, k0 as nat), speaker_id_text(source, k0 as nat)));
            }
        }
        assert forall|t: int, k: int|
            #![trigger outs[t], speaker_id_text(source, k as nat)]
            0 <= t < outs.len() && 1 < k <= MAX_SPEAKERS_PER_SOURCE && outs[t].1
                == speaker_id_text(source, k as nat) implies exists|w: int|
            0 <= w < t && #[trigger] outs[w].1 == speaker_id_text(source, (k - 1) as nat) by {
            if t < n {
                assert(outs[t] == outs0[t]);
                let w = choose|w: int|
                    0 <= w < t && #[trigger] outs0[w].1 == speaker_id_text(source, (k - 1) as nat);
                assert(outs[w] == outs0[w]);
            } else {
                if k != k0 {
                    lemma_distinct_ids(source, k, k0);
                }
                assert(k - 1 <= mid.0.len());
                let j = k - 2;
                assert(mid.0[j].0 == speaker_id_text(source, (j + 1) as nat));
                let w = choose|w: int| 0 <= w < outs0.len() && #[trigger] outs0[w].1 == (#[trigger] mid.0[j]).0;
                assert(outs[w] == outs0[w]);
            }
        }
    }
}

proof fn lemma_decimal_single(n: nat)
    requires
        1 <= n <= 9,
    ensures
        decimal(n) == seq![crate::text::digit_char(n as int)],
{
}

/// Different speaker numbers up to the roster limit give different ids.
proof fn lemma_distinct_ids(source: RecordingDeviceType, a: int, b: int)
    requires
        1 <= a <= 6,
        1 <= b <= 6,
        a != b,
    ensures
        speaker_id_text(source, a as nat) != speaker_id_text(source, b as nat),
{
    lemma_decimal_single(a as nat);
    lemma_decimal_single(b as nat);
    let pa = speaker_id_text(source, a as nat);
    let pb = speaker_id_text(source, b as nat);
    assert(pa.len() == pb.len());
    assert(pa.last() != pb.last());
}

fn speaker_number_text(prefix: &str, n: u64) -> (s: String)
    ensures
        s@ == prefix@ + decimal(n as nat),
{
    let mut s = String::new();
    push_str(&mut s, prefix);
    push_decimal(&mut s, n);
    s
}

fn assignment(label: &String, id: &String) -> (a: SpeakerAssignment)
    ensures
        a.view_of() == (label@, id@),
{
    SpeakerAssignment { speaker: label.clone(), speaker_id: id.clone() }
}

impl SourceProfiles {
    /// An empty roster.
    pub fn new() -> (p: Self)
        ensures
            p.roster().0.len() == 0,
            p.roster().1 is None,
    {
        SourceProfiles { speakers: Vec::new(), last_speaker_id: None }
    }

    fn slot_index(&self, id: &String) -> (r: Option<usize>)
        ensures
            r matches Some(k) ==> k < self.speakers.len() && find_slot(self.roster().0, id@) == Some(
                k as int,
            ),
            r is None ==> find_slot(self.roster().0, id@) is None,
    {
        let ghost slots = self.roster().0;
        let mut k: usize = 0;
        while k < self.speakers.len()
            invariant
                k <= self.speakers.len(),
                slots == self.roster().0,
                forall|j: int| 0 <= j < k ==> slots[j].0 != id@,
            decreases self.speakers.len() - k,
        {
            if self.speakers[k].id == *id {
                proof {
                    lemma_find_slot(slots, k as int);
                    let j = find_slot(slots, id@)->0;
                    assert(j == k) by {
                        if j < k {
                            assert(slots[j].0 != id@);
                        }
                    }
                }
                return Some(k);
            }
            k = k + 1;
        }
        proof {
            lemma_find_slot_sound(slots, id@);
        }
        None
    }

    /// The speaker assigned last, when it is still in the roster.
    pub fn last_assignment(&self) -> (r: Option<SpeakerAssignment>)
        ensures
            r matches Some(a) ==> last_assignment_of(self.roster()) == Some(a.view_of()),
            r is None ==> last_assignment_of(self.roster()) is None,
    {
        match &self.last_speaker_id {
            None => None,
            Some(id) => match self.slot_index(id) {
                Some(k) => {
                    let slot = &self.speakers[k];
                    Some(assignment(&slot.label, &slot.id))
                },
                None => None,
            },
        }
    }

    /// The last assignment, or the source's default speaker.
    pub fn default_assignment(&self, source: RecordingDeviceType) -> (a: SpeakerAssignment)
        ensures
            a.view_of() == match last_assignment_of(self.roster()) {
                Some(x) => x,
                None => default_assignment_of(source),
            },
    {
        if let Some(existing) = self.last_assignment() {
            return existing;
        }
        proof {
            reveal_strlit("Local speaker");
            reveal_strlit("local-speaker-1");
            reveal_strlit("Remote speaker 1");
            reveal_strlit("remote-speaker-1");
        }
        match source {
            RecordingDeviceType::Microphone => SpeakerAssignment {
                speaker: String::from_str("Local speaker"),
                speaker_id: String::from_str("local-speaker-1"),
            },
            RecordingDeviceType::System => SpeakerAssignment {
                speaker: String::from_str("Remote speaker 1"),
                speaker_id: String::from_str("remote-speaker-1"),
            },
        }
    }

    /// Adds the next speaker of the source and assigns the chunk to it.
    pub fn create_speaker(&mut self, source: RecordingDeviceType) -> (a: SpeakerAssignment)
        requires
            old(self).speakers.len() < MAX_SPEAKERS_PER_SOURCE,
        ensures
            (final(self).roster(), a.view_of()) == with_new_speaker(source, old(self).roster()),
    {
        let number: u64 = self.speakers.len() as u64 + 1;
        let id = match source {
            RecordingDeviceType::Microphone => speaker_number_text("local-speaker-", number),
            RecordingDeviceType::System => speaker_number_text("remote-speaker-", number),
        };
        let label = match source {
            RecordingDeviceType::Microphone => if number == 1 {
                proof {
                    reveal_strlit("Local speaker");
                }
                String::from_str("Local speaker")
            } else {
                speaker_number_text("Local speaker ", number)
            },
            RecordingDeviceType::System => speaker_number_text("Remote speaker ", number),
        };
        let ghost before = self.roster();
        let result = assignment(&label, &id);
        self.speakers.push(SpeakerSlot { id: id.clone(), label, segments: 1 });
        self.last_speaker_id = Some(id);
        proof {
            let expected = with_new_speaker(source, before);
            assert(self.roster().0 =~= expected.0.0);
        }
        result
    }

    /// Attributes the chunk to speaker `index`; returns the assignment and
    /// the blend weight for its fingerprint.
    pub fn update_speaker(&mut self, index: usize) -> (r: (SpeakerAssignment, u32))
        requires
            index < old(self).speakers.len(),
        ensures
            final(self).roster() == with_chunk_for(old(self).roster(), index as int),
            r.0.view_of() == (old(self).roster().0[index as int].1, old(self).roster().0[index as int].0),
            r.1 == blend_percent(old(self).roster().0[index as int].2),
    {
        let ghost before = self.roster();
        let weight = if self.speakers[index].segments < 3 {
            EARLY_BLEND_PERCENT
        } else {
            UPDATE_BLEND_PERCENT
        };
        let count = self.speakers[index].segments;
        let next = if count == u64::MAX {
            count
        } else {
            count + 1
        };
        let id = self.speakers[index].id.clone();
        let label = self.speakers[index].label.clone();
        let result = assignment(&label, &id);
        self.speakers.set(index, SpeakerSlot { id: id.clone(), label, segments: next });
        self.last_speaker_id = Some(id);
        proof {
            assert(self.roster().0 =~= with_chunk_for(before, index as int).0);
        }
        (result, weight)
    }

    /// One assignment step on this source's roster, as [`assign_step`]
    /// states it.
    pub fn assign_chunk(&mut self, source: RecordingDeviceType, short: bool, voice: Voice) -> (r: (
        SpeakerAssignment,
        FingerprintUpdate,
    ))
        requires
            old(self).speakers.len() <= MAX_SPEAKERS_PER_SOURCE,
            voice_fits(old(self).roster(), voice),
        ensures
            ({
                let (next, a, u) = assign_step(source, old(self).roster(), short, voice);
                &&& final(self).roster() == next
                &&& r.0.view_of() == a
                &&& r.1 == u
            }),
            voice is Unusable ==> final(self).roster() == old(self).roster(),
            voice is Unusable && roster_wf(source, old(self).roster()) ==> (old(
                self,
            ).roster().1 matches Some(id) ==> r.0.speaker_id@ == id),
    {
        proof {
            if roster_wf(source, old(self).roster()) {
                lemma_unusable_voice_keeps_last_speaker(source, old(self).roster(), short);
            }
        }
        if short {
            if let Some(existing) = self.last_assignment() {
                return (existing, FingerprintUpdate::Keep);
            }
        }
        match voice {
            Voice::Unusable => (self.default_assignment(source), FingerprintUpdate::Keep),
            Voice::Heard { nearest, far } => {
                let count = self.speakers.len();
                if count == 0 || (far && count < MAX_SPEAKERS_PER_SOURCE && !short) {
                    let a = self.create_speaker(source);
                    (a, FingerprintUpdate::Append)
                } else {
                    let (a, weight) = self.update_speaker(nearest);
                    (a, FingerprintUpdate::Blend { index: nearest, weight_percent: weight })
                }
            },
        }
    }
}

/// Whether a chunk of `sample_count` samples at `sample_rate` is shorter
/// than three quarters of a second.
pub fn short_chunk(sample_count: usize, sample_rate: u32) -> (b: bool)
    ensures
        b == is_short(sample_count as nat, sample_rate as nat),
{
    sample_rate == 0 || (sample_count as u128) * 4 < (sample_rate as u128) * 3
}

impl SpeakerDiarizer {
    /// A diarizer with empty rosters.
    pub fn new() -> (d: Self)
        ensures
            d.microphone.roster().0.len() == 0,
            d.microphone.roster().1 is None,
            d.system.roster().0.len() == 0,
            d.system.roster().1 is None,
    {
        SpeakerDiarizer { microphone: SourceProfiles::new(), system: SourceProfiles::new() }
    }

    /// Both rosters are well formed.
    pub open spec fn wf(self) -> bool {
        &&& roster_wf(RecordingDeviceType::Microphone, self.microphone.roster())
        &&& roster_wf(RecordingDeviceType::System, self.system.roster())
    }

    /// The roster of a source.
    pub open spec fn roster_of(self, source: RecordingDeviceType) -> RosterView {
        match source {
            RecordingDeviceType::Microphone => self.microphone.roster(),
            RecordingDeviceType::System => self.system.roster(),
        }
    }

    /// Attributes a chunk of audio from `source`, of `sample_count` samples
    /// at `sample_rate`, to a speaker, given what the caller measured of
    /// its voice. Only that source's roster changes, as [`assign_step`]
    /// states; both rosters stay well formed.
    pub fn assign(
        &mut self,
        source: RecordingDeviceType,
        sample_count: usize,
        sample_rate: u32,
        voice: Voice,
    ) -> (r: (SpeakerAssignment, FingerprintUpdate))
        requires
            old(self).wf(),
            voice_fits(old(self).roster_of(source), voice),
        ensures
            final(self).wf(),
            ({
                let (next, a, u) = assign_step(
                    source,
                    old(self).roster_of(source),
                    is_short(sample_count as nat, sample_rate as nat),
                    voice,
                );
                &&& final(self).roster_of(source) == next
                &&& r.0.view_of() == a
                &&& r.1 == u
            }),
            match source {
                RecordingDeviceType::Microphone => final(self).system.roster() == old(self).system.roster(),
                RecordingDeviceType::System => final(self).microphone.roster() == old(self).microphone.roster(),
            },
            voice is Unusable ==> final(self).roster_of(source) == old(self).roster_of(source),
            voice is Unusable ==> (old(self).roster_of(source).1 matches Some(id) ==> r.0.speaker_id@
                == id),
            voice is Unusable && old(self).roster_of(source).1 is None ==> r.0.view_of()
                == default_assignment_of(source),
    {
        proof {
            lemma_unusable_voice_keeps_last_speaker(
                source,
                self.roster_of(source),
                is_short(sample_count as nat, sample_rate as nat),
            );
        }
        let short = short_chunk(sample_count, sample_rate);
        proof {
            lemma_assign_keeps_roster_wf(source, self.roster_of(source), short, voice);
        }
        match source {
            RecordingDeviceType::Microphone => self.microphone.assign_chunk(source, short, voice),
            RecordingDeviceType::System => self.system.assign_chunk(source, short, voice),
        }
    }
}

} // verus!
