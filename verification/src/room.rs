//! Room bookkeeping for one game tick: the frame counter, the players'
//! scores, the snapshot of the scores and whether it goes out as a baseline
//! or as a delta, and who receives it.
//!
//! Channels, shot decoding and hit validation (floating point) run outside
//! the library.

use vstd::prelude::*;

verus! {

/// Interest bits of the updates a tick produces: every kind.
pub const FULL_DIFF_MASK: u64 = u64::MAX;

/// Unsigned LEB128 ("varint") bytes of `n`: seven bits per byte, least
/// significant group first, the high bit set on every byte but the last.
pub open spec fn varint(n: nat) -> Seq<u8>
    decreases n,
{
    if n < 128 {
        seq![n as u8]
    } else {
        seq![(n % 128 + 128) as u8] + varint(n / 128)
    }
}

/// The varints of the elements of `xs`, one after the other.
pub open spec fn varints(xs: Seq<u32>) -> Seq<u8>
    decreases xs.len(),
{
    if xs.len() == 0 {
        Seq::empty()
    } else {
        varints(xs.drop_last()) + varint(xs.last() as nat)
    }
}

/// The `postcard` encoding of a list of `u32`: the varint of its length,
/// then the varint of each element.
pub open spec fn postcard_u32_list(xs: Seq<u32>) -> Seq<u8> {
    varint(xs.len()) + varints(xs)
}

/// `postcard::to_allocvec(&scores)`: postcard writes a sequence as the varint
/// of its length followed by its elements, and a `u32` as its varint; into a
/// growable vector this cannot fail.
#[verifier::external_body]
fn encode_scores(scores: &Vec<u32>) -> (r: Vec<u8>)
    ensures
        r@ == postcard_u32_list(scores@),
{
    postcard::to_allocvec(scores).unwrap_or_default()
}

/// A snapshot of the world: the frame and the encoded scores.
pub struct Snapshot {
    pub frame: u32,
    pub data: Vec<u8>,
}

/// How a snapshot goes out.
#[derive(Debug, PartialEq, Eq, Structural, Clone, Copy)]
pub enum SnapshotKind {
    /// The whole snapshot.
    Baseline,
    /// The difference from the previous snapshot.
    Delta,
}

/// The next frame number (wrapping at `u32::MAX`).
pub open spec fn next_frame(f: u32) -> u32 {
    if f == u32::MAX {
        0
    } else {
        (f + 1) as u32
    }
}

/// One input received during a tick: the connection it came on, the frame it
/// is for, and whether it is a shot that hits a duck.
pub type TickInput = (usize, u32, bool);

/// Whether input `x` scores for connection `i` in frame `frame`.
pub open spec fn scores_for(x: TickInput, i: int, frame: u32) -> bool {
    x.0 == i && x.1 == frame && x.2
}

/// The number of inputs among `inputs` that score for connection `i` in
/// frame `frame`: hits on that connection for that frame.
pub open spec fn hits_for(inputs: Seq<TickInput>, i: int, frame: u32) -> nat
    decreases inputs.len(),
{
    if inputs.len() == 0 {
        0
    } else {
        hits_for(inputs.drop_last(), i, frame) + if scores_for(inputs.last(), i, frame) {
            1nat
        } else {
            0nat
        }
    }
}

/// The scores after counting the hits among `inputs` for frame `frame`.
pub open spec fn scores_after(scores: Seq<u32>, inputs: Seq<TickInput>, frame: u32) -> Seq<u32> {
    Seq::new(scores.len(), |i: int| (scores[i] + hits_for(inputs, i, frame)) as u32)
}

/// Whether no score overflows when the hits among `inputs` for frame `frame`
/// are counted.
pub open spec fn hits_fit(scores: Seq<u32>, inputs: Seq<TickInput>, frame: u32) -> bool {
    forall|i: int| 0 <= i < scores.len() ==> #[trigger] scores[i] + hits_for(inputs, i, frame) <= u32::MAX
}

proof fn lemma_hits_prefix(inputs: Seq<TickInput>, i: int, frame: u32, k: int)
    requires
        0 <= k < inputs.len(),
    ensures
        hits_for(inputs.take(k + 1), i, frame) == hits_for(inputs.take(k), i, frame) + if scores_for(
            inputs[k],
            i,
            frame,
        ) {
            1nat
        } else {
            0nat
        },
{
    assert(inputs.take(k + 1).drop_last() =~= inputs.take(k));
}

proof fn lemma_hits_monotone(inputs: Seq<TickInput>, i: int, frame: u32, k: int)
    requires
        0 <= k <= inputs.len(),
    ensures
        hits_for(inputs.take(k), i, frame) <= hits_for(inputs, i, frame),
    decreases inputs.len() - k,
{
    if k < inputs.len() {
        lemma_hits_prefix(inputs, i, frame, k);
        lemma_hits_monotone(inputs, i, frame, k + 1);
    } else {
        assert(inputs.take(k) =~= inputs);
    }
}

/// An input counts only for its own connection, for the frame it names, and
/// when it hits: any other input leaves every count unchanged.
pub proof fn law_input_counts_only_its_own_hit(inputs: Seq<TickInput>, x: TickInput, i: int, frame: u32)
    ensures
        hits_for(inputs.push(x), i, frame) == hits_for(inputs, i, frame) + if x.0 == i && x.1 == frame
            && x.2 {
            1nat
        } else {
            0nat
        },
{
    assert(inputs.push(x).drop_last() =~= inputs);
}

/// Counting a tick's hits never lowers a score, and keeps one score per
/// connection.
pub proof fn law_scores_never_drop(scores: Seq<u32>, inputs: Seq<TickInput>, frame: u32)
    requires
        hits_fit(scores, inputs, frame),
    ensures
        scores_after(scores, inputs, frame).len() == scores.len(),
        forall|i: int| 0 <= i < scores.len() ==> #[trigger] scores_after(scores, inputs, frame)[i] >= scores[i],
{
    assert forall|i: int| 0 <= i < scores.len() implies #[trigger] scores_after(scores, inputs, frame)[i] >= scores[i] by {
        assert(scores[i] + hits_for(inputs, i, frame) <= u32::MAX);
    }
}

/// The state of a room.
pub struct Room {
    frame: u32,
    scores: Vec<u32>,
    masks: Vec<u64>,
    last_snapshot: Option<Snapshot>,
}

impl Room {
    pub closed spec fn frame(&self) -> u32 {
        self.frame
    }

    /// One score per player, in joining order.
    pub closed spec fn scores(&self) -> Seq<u32> {
        self.scores@
    }

    /// Interest mask of each connection, in joining order.
    pub closed spec fn masks(&self) -> Seq<u64> {
        self.masks@
    }

    /// Frame and encoded scores of the last snapshot sent.
    pub closed spec fn last_sent(&self) -> Option<(u32, Seq<u8>)> {
        match self.last_snapshot {
            Some(s) => Some((s.frame, s.data@)),
            None => None,
        }
    }

    pub fn new() -> (r: Self)
        ensures
            r.frame() == 0,
            r.scores() == Seq::<u32>::empty(),
            r.masks() == Seq::<u64>::empty(),
            r.last_sent() is None,
    {
        Room { frame: 0, scores: Vec::new(), masks: Vec::new(), last_snapshot: None }
    }

    /// A new connection joins: it wants every update and starts at score 0.
    pub fn add_connector(&mut self)
        ensures
            final(self).frame() == old(self).frame(),
            final(self).scores() == old(self).scores().push(0),
            final(self).masks() == old(self).masks().push(u64::MAX),
            final(self).last_sent() == old(self).last_sent(),
    {
        self.masks.push(u64::MAX);
        self.scores.push(0);
    }

    /// Starts a tick: the frame advances by one.
    pub fn begin_tick(&mut self) -> (f: u32)
        ensures
            f == next_frame(old(self).frame()),
            final(self).frame() == f,
            final(self).scores() == old(self).scores(),
            final(self).masks() == old(self).masks(),
            final(self).last_sent() == old(self).last_sent(),
    {
        self.frame = self.frame.wrapping_add(1);
        self.frame
    }

    /// Only input for the current frame counts.
    pub fn accepts_input(&self, frame: u32) -> (r: bool)
        ensures
            r == (frame == self.frame()),
    {
        frame == self.frame
    }

    /// Whether a hit of player `i` can be counted without the score
    /// overflowing (true for players the room does not know).
    pub fn can_record_hit(&self, i: usize) -> (r: bool)
        ensures
            r == (i < self.scores().len() ==> self.scores()[i as int] < u32::MAX),
    {
        i >= self.scores.len() || self.scores[i] < u32::MAX
    }

    /// Player `i` hit a duck: their score goes up by one. Hits of players the
    /// room does not know are ignored.
    pub fn record_hit(&mut self, i: usize)
        requires
            i < old(self).scores().len() ==> old(self).scores()[i as int] < u32::MAX,
        ensures
            final(self).frame() == old(self).frame(),
            final(self).masks() == old(self).masks(),
            final(self).last_sent() == old(self).last_sent(),
            i < old(self).scores().len() ==> final(self).scores() == old(self).scores().update(
                i as int,
                (old(self).scores()[i as int] + 1) as u32,
            ),
            i >= old(self).scores().len() ==> final(self).scores() == old(self).scores(),
    {
        if i < self.scores.len() {
            let s = self.scores[i];
            self.scores.set(i, s + 1);
        }
    }

    /// Whether counting this tick's `inputs` (see `tick`) leaves every score
    /// within `u32`.
    pub fn inputs_fit(&self, inputs: &Vec<TickInput>) -> (r: bool)
        ensures
            r == hits_fit(self.scores(), inputs@, next_frame(self.frame())),
    {
        let frame: u32 = if self.frame == u32::MAX {
            0
        } else {
            self.frame + 1
        };
        let mut i: usize = 0;
        while i < self.scores.len()
            invariant
                i <= self.scores@.len(),
                frame == next_frame(self.frame()),
                forall|j: int| 0 <= j < i ==> #[trigger] self.scores@[j] + hits_for(inputs@, j, frame) <= u32::MAX,
            decreases self.scores@.len() - i,
        {
            let room: u32 = u32::MAX - self.scores[i];
            let mut count: usize = 0;
            let mut k: usize = 0;
            while k < inputs.len()
                invariant
                    i < self.scores@.len(),
                    frame == next_frame(self.frame()),
                    room == u32::MAX - self.scores@[i as int],
                    k <= inputs@.len(),
                    count == hits_for(inputs@.take(k as int), i as int, frame),
                    count <= room,
                decreases inputs@.len() - k,
            {
                let (c, f, hit) = inputs[k];
                proof {
                    lemma_hits_prefix(inputs@, i as int, frame, k as int);
                }
                if c == i && f == frame && hit {
                    if count == room as usize {
                        proof {
                            lemma_hits_monotone(inputs@, i as int, frame, k + 1);
                            assert(self.scores@[i as int] + hits_for(inputs@, i as int, frame) > u32::MAX);
                            assert(!hits_fit(self.scores(), inputs@, frame));
                        }
                        return false;
                    }
                    count = count + 1;
                }
                k = k + 1;
            }
            assert(inputs@.take(inputs@.len() as int) =~= inputs@);
            i = i + 1;
        }
        true
    }

    /// One tick of the room: the frame advances, and each of `inputs` that is
    /// a hit for the new frame adds one to the score of its connection
    /// (inputs for other frames, misses and unknown connections change
    /// nothing). Returns the new frame and the encoded scores for its
    /// snapshot.
    pub fn tick(&mut self, inputs: &Vec<TickInput>) -> (r: (u32, Vec<u8>))
        requires
            hits_fit(old(self).scores(), inputs@, next_frame(old(self).frame())),
        ensures
            r.0 == next_frame(old(self).frame()),
            final(self).frame() == r.0,
            final(self).scores() == scores_after(old(self).scores(), inputs@, r.0),
            r.1@ == postcard_u32_list(final(self).scores()),
            final(self).masks() == old(self).masks(),
            final(self).last_sent() == old(self).last_sent(),
    {
        let ghost start = self.scores();
        let frame = self.begin_tick();
        let mut k: usize = 0;
        while k < inputs.len()
            invariant
                k <= inputs@.len(),
                frame == self.frame(),
                frame == next_frame(old(self).frame()),
                self.masks() == old(self).masks(),
                self.last_sent() == old(self).last_sent(),
                start == old(self).scores(),
                hits_fit(start, inputs@, frame),
                self.scores() == scores_after(start, inputs@.take(k as int), frame),
            decreases inputs@.len() - k,
        {
            let (c, f, hit) = inputs[k];
            proof {
                assert forall|i: int| 0 <= i < start.len() implies hits_for(inputs@.take(k + 1), i, frame)
                    == hits_for(inputs@.take(k as int), i, frame) + if scores_for(inputs@[k as int], i, frame) {
                        1nat
                    } else {
                        0nat
                    } by {
                    lemma_hits_prefix(inputs@, i, frame, k as int);
                }
                if c < start.len() {
                    lemma_hits_monotone(inputs@, c as int, frame, k + 1);
                    assert(start[c as int] + hits_for(inputs@, c as int, frame) <= u32::MAX);
                }
            }
            if self.accepts_input(f) && hit {
                self.record_hit(c);
            }
            assert(self.scores() =~= scores_after(start, inputs@.take(k + 1), frame));
            k = k + 1;
        }
        assert(inputs@.take(inputs@.len() as int) =~= inputs@);
        let data = self.snapshot_data();
        (frame, data)
    }

    /// The encoded scores for this tick's snapshot.
    pub fn snapshot_data(&self) -> (r: Vec<u8>)
        ensures
            r@ == postcard_u32_list(self.scores()),
    {
        encode_scores(&self.scores)
    }

    /// The last snapshot sent, the base of the next delta.
    pub fn last_snapshot(&self) -> (r: Option<&Snapshot>)
        ensures
            match r {
                Some(s) => self.last_sent() == Some((s.frame, s.data@)),
                None => self.last_sent() is None,
            },
    {
        match &self.last_snapshot {
            Some(s) => Some(s),
            None => None,
        }
    }

    /// Records this tick's snapshot as sent. It goes out as a delta when there
    /// is a previous snapshot and the delta against it could be computed, and
    /// as a baseline otherwise.
    pub fn commit_snapshot(&mut self, data: Vec<u8>, delta_ok: bool) -> (k: SnapshotKind)
        ensures
            k == (if old(self).last_sent() is Some && delta_ok {
                SnapshotKind::Delta
            } else {
                SnapshotKind::Baseline
            }),
            final(self).last_sent() == Some((old(self).frame(), data@)),
            final(self).frame() == old(self).frame(),
            final(self).scores() == old(self).scores(),
            final(self).masks() == old(self).masks(),
    {
        let kind = if self.last_snapshot.is_some() && delta_ok {
            SnapshotKind::Delta
        } else {
            SnapshotKind::Baseline
        };
        self.last_snapshot = Some(Snapshot { frame: self.frame, data });
        kind
    }

    /// The connections that receive this tick's update: those interested in
    /// some of its kinds, in joining order.
    pub fn recipients(&self) -> (r: Vec<usize>)
        ensures
            forall|j: int| 0 <= j < r@.len() ==> #[trigger] r@[j] < self.masks().len(),
            forall|j: int, k: int| 0 <= j < k < r@.len() ==> r@[j] < r@[k],
            forall|i: int| 0 <= i < self.masks().len() ==> (r@.contains(i as usize) <==> #[trigger] self.masks()[i] & FULL_DIFF_MASK != 0),
    {
        let mut out: Vec<usize> = Vec::new();
        let mut i: usize = 0;
        while i < self.masks.len()
            invariant
                i <= self.masks@.len(),
                forall|j: int| 0 <= j < out@.len() ==> #[trigger] out@[j] < i,
                forall|j: int, k: int| 0 <= j < k < out@.len() ==> out@[j] < out@[k],
                forall|p: int| 0 <= p < i ==> (out@.contains(p as usize) <==> #[trigger] self.masks@[p] & FULL_DIFF_MASK != 0),
            decreases self.masks@.len() - i,
        {
            let ghost before = out@;
            if self.masks[i] & FULL_DIFF_MASK != 0 {
                out.push(i);
                proof {
                    assert(out@[before.len() as int] == i);
                    assert forall|p: int| 0 <= p < i + 1 implies (out@.contains(p as usize) <==> #[trigger] self.masks@[p] & FULL_DIFF_MASK != 0) by {
                        if p < i {
                            if out@.contains(p as usize) {
                                let j = choose|j: int| 0 <= j < out@.len() && out@[j] == p as usize;
                                if j < before.len() {
                                    assert(before[j] == p as usize);
                                }
                            }
                            if before.contains(p as usize) {
                                let j = choose|j: int| 0 <= j < before.len() && before[j] == p as usize;
                                assert(out@[j] == p as usize);
                            }
                        }
                    }
                }
            } else {
                proof {
                    assert(!before.contains(i));
                }
            }
            i = i + 1;
        }
        out
    }
}

} // verus!
