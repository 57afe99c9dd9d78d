//! Reassembly of frames into channels.
//!
//! A channel accumulates the frames that share one channel id. The bank keeps
//! every open channel together with the L1 block at which its first frame
//! arrived; a channel whose opening block lies more than the configured
//! maximum duration behind the current origin is evicted and its id is
//! remembered, so a late completing frame can never revive it. A channel is
//! complete once a frame marked last has arrived and every frame number up
//! to it is present; its payload is then the concatenation of the frame
//! payloads in frame-number order, and the channel entry is removed.
//! Completion order is frame-arrival order: the channel that completes is
//! always the one the frame just delivered belongs to.

use vstd::prelude::*;

use crate::types::{Frame, FrameModel};

verus! {

/// One received frame payload, kept under its frame number.
#[derive(PartialEq, Eq, Debug)]
pub struct FramePart {
    pub number: u16,
    pub data: Vec<u8>,
}

/// Mathematical value of a [`FramePart`].
#[verifier::ext_equal]
pub struct PartModel {
    pub number: u16,
    pub data: Seq<u8>,
}

impl View for FramePart {
    type V = PartModel;

    open spec fn view(&self) -> PartModel {
        PartModel { number: self.number, data: self.data@ }
    }
}

impl DeepView for FramePart {
    type V = PartModel;

    open spec fn deep_view(&self) -> PartModel {
        self.view()
    }
}

/// Accumulation of the frames received so far under one channel id.
#[derive(PartialEq, Eq, Debug)]
pub struct Channel {
    pub id: u64,
    /// L1 block number at which the channel's first frame arrived.
    pub open_block: u64,
    /// Frame number of the frame marked last, once one has arrived.
    pub last_number: Option<u16>,
    /// Received parts, in arrival order, one per frame number.
    pub parts: Vec<FramePart>,
}

/// Mathematical value of a [`Channel`].
#[verifier::ext_equal]
pub struct ChannelModel {
    pub id: u64,
    pub open_block: u64,
    pub last_number: Option<u16>,
    pub parts: Seq<PartModel>,
}

impl View for Channel {
    type V = ChannelModel;

    open spec fn view(&self) -> ChannelModel {
        ChannelModel {
            id: self.id,
            open_block: self.open_block,
            last_number: self.last_number,
            parts: self.parts.deep_view(),
        }
    }
}

impl DeepView for Channel {
    type V = ChannelModel;

    open spec fn deep_view(&self) -> ChannelModel {
        self.view()
    }
}

/// The bounded set of open channels, plus the ids of channels evicted by
/// timeout, which never complete.
#[derive(PartialEq, Eq, Debug)]
pub struct ChannelBank {
    pub channels: Vec<Channel>,
    pub evicted: Vec<u64>,
}

/// Mathematical value of a [`ChannelBank`].
#[verifier::ext_equal]
pub struct BankModel {
    pub channels: Seq<ChannelModel>,
    pub evicted: Seq<u64>,
}

impl View for ChannelBank {
    type V = BankModel;

    open spec fn view(&self) -> BankModel {
        BankModel { channels: self.channels.deep_view(), evicted: self.evicted@ }
    }
}

/// Whether a part with frame number `n` has been received.
pub open spec fn parts_have(parts: Seq<PartModel>, n: u16) -> bool {
    exists|i: int| 0 <= i < parts.len() && parts[i].number == n
}

/// Payload of the first-received part with frame number `n`.
pub open spec fn part_data(parts: Seq<PartModel>, n: u16) -> Seq<u8>
    decreases parts.len(),
{
    if parts.len() == 0 {
        Seq::empty()
    } else if parts[0].number == n {
        parts[0].data
    } else {
        part_data(parts.drop_first(), n)
    }
}

/// The channel after one more frame: a duplicate frame number is ignored, a
/// frame numbered past the closing frame is ignored, and the first frame
/// marked last fixes the closing number.
pub open spec fn channel_add_spec(c: ChannelModel, f: FrameModel) -> ChannelModel {
    let keep = !parts_have(c.parts, f.number) && (match c.last_number {
        Option::Some(l) => f.number <= l,
        Option::None => true,
    });
    ChannelModel {
        id: c.id,
        open_block: c.open_block,
        last_number: if f.is_last && c.last_number is None {
            Option::Some(f.number)
        } else {
            c.last_number
        },
        parts: if keep {
            c.parts.push(PartModel { number: f.number, data: f.data })
        } else {
            c.parts
        },
    }
}

/// The channel opened by the first frame carrying a new id.
pub open spec fn open_channel_spec(f: FrameModel, origin: u64) -> ChannelModel {
    ChannelModel {
        id: f.channel_id,
        open_block: origin,
        last_number: if f.is_last {
            Option::Some(f.number)
        } else {
            Option::None
        },
        parts: seq![PartModel { number: f.number, data: f.data }],
    }
}

/// A channel is complete once a frame marked last has arrived and every
/// frame number up to it is present.
pub open spec fn channel_complete(c: ChannelModel) -> bool {
    match c.last_number {
        Option::Some(l) => forall|n: u16| n <= l ==> parts_have(c.parts, n),
        Option::None => false,
    }
}

/// Concatenation of the part payloads for frame numbers below `n`, in
/// frame-number order.
pub open spec fn assemble_upto(parts: Seq<PartModel>, n: int) -> Seq<u8>
    decreases n,
{
    if n <= 0 {
        Seq::empty()
    } else {
        assemble_upto(parts, n - 1) + part_data(parts, (n - 1) as u16)
    }
}

/// The reassembled payload of a complete channel.
pub open spec fn channel_bytes(c: ChannelModel) -> Seq<u8> {
    match c.last_number {
        Option::Some(l) => assemble_upto(c.parts, l as int + 1),
        Option::None => Seq::empty(),
    }
}

/// Result of delivering one frame to the open channels: the channels after,
/// and, when the frame completes its channel, that channel's id and
/// reassembled payload.
pub open spec fn ingest_channels_spec(chs: Seq<ChannelModel>, f: FrameModel, origin: u64) -> (
    Seq<ChannelModel>,
    Option<(u64, Seq<u8>)>,
)
    decreases chs.len(),
{
    if chs.len() == 0 {
        let c0 = open_channel_spec(f, origin);
        if channel_complete(c0) {
            (Seq::<ChannelModel>::empty(), Option::Some((f.channel_id, channel_bytes(c0))))
        } else {
            (seq![c0], Option::<(u64, Seq<u8>)>::None)
        }
    } else if chs[0].id == f.channel_id {
        let c1 = channel_add_spec(chs[0], f);
        if channel_complete(c1) {
            (chs.drop_first(), Option::Some((f.channel_id, channel_bytes(c1))))
        } else {
            (seq![c1] + chs.drop_first(), Option::<(u64, Seq<u8>)>::None)
        }
    } else {
        let r = ingest_channels_spec(chs.drop_first(), f, origin);
        (seq![chs[0]] + r.0, r.1)
    }
}

/// Result of delivering one frame to the bank: a frame for an evicted id is
/// dropped outright.
pub open spec fn bank_ingest_spec(b: BankModel, f: FrameModel, origin: u64) -> (
    BankModel,
    Option<(u64, Seq<u8>)>,
) {
    if b.evicted.contains(f.channel_id) {
        (b, Option::<(u64, Seq<u8>)>::None)
    } else {
        let r = ingest_channels_spec(b.channels, f, origin);
        (BankModel { channels: r.0, evicted: b.evicted }, r.1)
    }
}

/// Channels kept and ids newly evicted when the origin reaches `origin`: a
/// channel open since more than `dur` L1 blocks is dropped.
pub open spec fn evict_channels_spec(chs: Seq<ChannelModel>, origin: u64, dur: u64) -> (
    Seq<ChannelModel>,
    Seq<u64>,
)
    decreases chs.len(),
{
    if chs.len() == 0 {
        (Seq::<ChannelModel>::empty(), Seq::<u64>::empty())
    } else {
        let r = evict_channels_spec(chs.drop_first(), origin, dur);
        if chs[0].open_block + dur < origin {
            (r.0, seq![chs[0].id] + r.1)
        } else {
            (seq![chs[0]] + r.0, r.1)
        }
    }
}

/// The bank after timeout eviction at the given origin.
pub open spec fn bank_evict_spec(b: BankModel, origin: u64, dur: u64) -> BankModel {
    let r = evict_channels_spec(b.channels, origin, dur);
    BankModel { channels: r.0, evicted: b.evicted + r.1 }
}

/// Restricting the search for a part to a suffix that still holds every
/// candidate leaves its payload unchanged.
proof fn lemma_part_data_skip(parts: Seq<PartModel>, n: u16, i: int)
    requires
        0 <= i <= parts.len(),
        forall|j: int| 0 <= j < i ==> parts[j].number != n,
    ensures
        part_data(parts, n) == part_data(parts.skip(i), n),
    decreases i,
{
    if i > 0 {
        assert(parts[0].number != n);
        lemma_part_data_skip(parts.drop_first(), n, i - 1);
        assert(parts.drop_first().skip(i - 1) =~= parts.skip(i));
    } else {
        assert(parts.skip(0) =~= parts);
    }
}

/// Finds the first-received part with frame number `n`.
fn part_lookup(parts: &Vec<FramePart>, n: u16) -> (r: Option<usize>)
    ensures
        match r {
            Option::Some(j) => j < parts@.len() && parts.deep_view()[j as int].number == n
                && parts.deep_view()[j as int].data == part_data(parts.deep_view(), n)
                && parts_have(parts.deep_view(), n),
            Option::None => !parts_have(parts.deep_view(), n),
        },
{
    let mut j: usize = 0;
    while j < parts.len()
        invariant
            j <= parts@.len(),
            forall|m: int| 0 <= m < j ==> parts.deep_view()[m].number != n,
        decreases parts@.len() - j,
    {
        if parts[j].number == n {
            proof {
                lemma_part_data_skip(parts.deep_view(), n, j as int);
                assert(parts.deep_view().skip(j as int)[0] == parts.deep_view()[j as int]);
            }
            return Some(j);
        }
        j = j + 1;
    }
    None
}

/// Appends `src`'s bytes to `dst`.
fn push_bytes(dst: &mut Vec<u8>, src: &Vec<u8>)
    ensures
        final(dst)@ == old(dst)@ + src@,
{
    let ghost pre = dst@;
    let mut i: usize = 0;
    while i < src.len()
        invariant
            i <= src@.len(),
            dst@ == pre + src@.subrange(0, i as int),
        decreases src@.len() - i,
    {
        dst.push(src[i]);
        assert(pre + src@.subrange(0, i + 1) =~= (pre + src@.subrange(0, i as int)).push(
            src@[i as int],
        ));
        i = i + 1;
    }
    assert(pre + src@.subrange(0, src@.len() as int) =~= pre + src@);
}

/// Delivers one frame to the channel it belongs to.
fn channel_add(c: &mut Channel, f: Frame)
    requires
        f@.channel_id == old(c)@.id,
    ensures
        final(c)@ == channel_add_spec(old(c)@, f@),
{
    let Frame { channel_id: _, number: fnum, data: fdata, is_last: flast } = f;
    let dup = match part_lookup(&c.parts, fnum) {
        Option::Some(_) => true,
        Option::None => false,
    };
    let beyond = match c.last_number {
        Option::Some(l) => fnum > l,
        Option::None => false,
    };
    if !dup && !beyond {
        let ghost pre = c.parts.deep_view();
        c.parts.push(FramePart { number: fnum, data: fdata });
        assert(c.parts.deep_view() =~= pre.push(PartModel { number: fnum, data: fdata@ }));
    }
    let close = flast && match c.last_number {
        Option::Some(_) => false,
        Option::None => true,
    };
    if close {
        c.last_number = Some(fnum);
    }
    assert(c@ =~= channel_add_spec(old(c)@, f@));
}

/// Whether every frame number up to the closing one has been received.
fn is_complete(c: &Channel) -> (r: bool)
    ensures
        r == channel_complete(c@),
{
    match c.last_number {
        Option::None => false,
        Option::Some(l) => {
            let lim: u32 = l as u32;
            let mut k: u32 = 0;
            while k <= lim
                invariant
                    c@.last_number == Option::Some(l),
                    lim == l as u32,
                    k <= lim + 1,
                    forall|n: u16| (n as u32) < k ==> parts_have(c@.parts, n),
                decreases lim + 1 - k,
            {
                match part_lookup(&c.parts, k as u16) {
                    Option::None => {
                        assert(!channel_complete(c@)) by {
                            assert((k as u16) <= l && !parts_have(c@.parts, k as u16));
                        }
                        return false;
                    },
                    Option::Some(_) => {},
                }
                k = k + 1;
            }
            assert(channel_complete(c@)) by {
                assert(forall|n: u16| n <= l ==> (n as u32) < k && parts_have(c@.parts, n));
            }
            true
        },
    }
}

/// Reassembles a complete channel's payload, frame-number order.
fn assemble(c: &Channel) -> (r: Vec<u8>)
    requires
        channel_complete(c@),
    ensures
        r@ == channel_bytes(c@),
{
    match c.last_number {
        Option::None => {
            proof {
                assert(false);
            }
            Vec::new()
        },
        Option::Some(l) => {
            let mut out: Vec<u8> = Vec::new();
            let lim: u32 = l as u32;
            let mut k: u32 = 0;
            while k <= lim
                invariant
                    c@.last_number == Option::Some(l),
                    lim == l as u32,
                    k <= lim + 1,
                    channel_complete(c@),
                    out@ == assemble_upto(c@.parts, k as int),
                decreases lim + 1 - k,
            {
                match part_lookup(&c.parts, k as u16) {
                    Option::None => {
                        proof {
                            assert((k as u16) <= l && parts_have(c@.parts, k as u16));
                            assert(false);
                        }
                    },
                    Option::Some(j) => {
                        push_bytes(&mut out, &c.parts[j].data);
                        assert(out@ == assemble_upto(c@.parts, k + 1 as int)) by {
                            assert(c.parts.deep_view()[j as int].data == c.parts@[j as int].data@);
                        }
                    },
                }
                k = k + 1;
            }
            out
        },
    }
}

/// A frame whose id matches no open channel opens a new one at the end.
proof fn lemma_ingest_no_match(chs: Seq<ChannelModel>, f: FrameModel, origin: u64)
    requires
        forall|j: int| 0 <= j < chs.len() ==> chs[j].id != f.channel_id,
    ensures
        ingest_channels_spec(chs, f, origin).0 == chs + ingest_channels_spec(
            Seq::<ChannelModel>::empty(),
            f,
            origin,
        ).0,
        ingest_channels_spec(chs, f, origin).1 == ingest_channels_spec(
            Seq::<ChannelModel>::empty(),
            f,
            origin,
        ).1,
    decreases chs.len(),
{
    let base = ingest_channels_spec(Seq::<ChannelModel>::empty(), f, origin);
    if chs.len() == 0 {
        assert(chs =~= Seq::<ChannelModel>::empty());
        assert(chs + base.0 =~= base.0);
    } else {
        assert(chs[0].id != f.channel_id);
        lemma_ingest_no_match(chs.drop_first(), f, origin);
        assert(seq![chs[0]] + (chs.drop_first() + base.0) =~= chs + base.0);
    }
}

/// A frame whose id first matches the channel at `i` touches that channel
/// alone: it is replaced in place, or removed when the frame completes it.
proof fn lemma_ingest_found(chs: Seq<ChannelModel>, f: FrameModel, origin: u64, i: int)
    requires
        0 <= i < chs.len(),
        chs[i].id == f.channel_id,
        forall|j: int| 0 <= j < i ==> chs[j].id != f.channel_id,
    ensures
        channel_complete(channel_add_spec(chs[i], f)) ==> ingest_channels_spec(chs, f, origin).0
            == chs.take(i) + chs.skip(i + 1) && ingest_channels_spec(chs, f, origin).1
            == Option::Some((f.channel_id, channel_bytes(channel_add_spec(chs[i], f)))),
        !channel_complete(channel_add_spec(chs[i], f)) ==> ingest_channels_spec(chs, f, origin).0
            == chs.update(i, channel_add_spec(chs[i], f)) && ingest_channels_spec(chs, f, origin).1
            is None,
    decreases chs.len(),
{
    let c1 = channel_add_spec(chs[i], f);
    if i == 0 {
        if channel_complete(c1) {
            assert(chs.drop_first() =~= chs.take(0) + chs.skip(1));
        } else {
            assert(seq![c1] + chs.drop_first() =~= chs.update(0, c1));
        }
    } else {
        lemma_ingest_found(chs.drop_first(), f, origin, i - 1);
        assert(chs.drop_first()[i - 1] == chs[i]);
        if channel_complete(c1) {
            assert(seq![chs[0]] + (chs.drop_first().take(i - 1) + chs.drop_first().skip(i))
                =~= chs.take(i) + chs.skip(i + 1));
        } else {
            assert(seq![chs[0]] + chs.drop_first().update(i - 1, c1) =~= chs.update(i, c1));
        }
    }
}

/// Delivering a frame a second time to the channel that already took it
/// changes nothing.
proof fn lemma_channel_add_idempotent(c: ChannelModel, f: FrameModel)
    ensures
        channel_add_spec(channel_add_spec(c, f), f) == channel_add_spec(c, f),
{
    let c1 = channel_add_spec(c, f);
    let keep = !parts_have(c.parts, f.number) && (match c.last_number {
        Option::Some(l) => f.number <= l,
        Option::None => true,
    });
    if keep {
        assert(c1.parts[c.parts.len() as int].number == f.number);
        assert(parts_have(c1.parts, f.number));
    } else {
        assert(c1.parts == c.parts);
    }
    assert(channel_add_spec(c1, f) =~= c1);
}

/// The frame that opened a channel changes nothing when delivered again.
proof fn lemma_open_channel_idempotent(f: FrameModel, origin: u64)
    ensures
        channel_add_spec(open_channel_spec(f, origin), f) == open_channel_spec(f, origin),
{
    let c0 = open_channel_spec(f, origin);
    assert(c0.parts[0].number == f.number);
    assert(parts_have(c0.parts, f.number));
    assert(channel_add_spec(c0, f) =~= c0);
}

/// The first index whose channel carries `id`.
proof fn find_first_match(chs: Seq<ChannelModel>, id: u64) -> (i: int)
    requires
        exists|j: int| 0 <= j < chs.len() && chs[j].id == id,
    ensures
        0 <= i < chs.len() && chs[i].id == id,
        forall|j: int| 0 <= j < i ==> chs[j].id != id,
    decreases chs.len(),
{
    if chs[0].id == id {
        0
    } else {
        let j0 = choose|j: int| 0 <= j < chs.len() && chs[j].id == id;
        assert(chs.drop_first()[j0 - 1] == chs[j0]);
        let r = find_first_match(chs.drop_first(), id);
        assert(forall|j: int| 1 <= j < r + 1 ==> chs[j] == chs.drop_first()[j - 1]);
        r + 1
    }
}

/// Law — frame duplication idempotence: delivering the same frame twice,
/// when the first delivery leaves its channel open, leaves the bank exactly
/// as after one delivery, and the second delivery completes nothing, so the
/// channel's final reassembled payload is unchanged. (A frame whose first
/// delivery completes and removes its channel is outside this statement.)
pub proof fn lemma_frame_duplication_idempotent(b: BankModel, f: FrameModel, origin: u64)
    requires
        bank_ingest_spec(b, f, origin).1 is None,
    ensures
        bank_ingest_spec(bank_ingest_spec(b, f, origin).0, f, origin).0 == bank_ingest_spec(
            b,
            f,
            origin,
        ).0,
        bank_ingest_spec(bank_ingest_spec(b, f, origin).0, f, origin).1 is None,
{
    if b.evicted.contains(f.channel_id) {
    } else {
        let b1 = bank_ingest_spec(b, f, origin).0;
        if exists|j: int| 0 <= j < b.channels.len() && b.channels[j].id == f.channel_id {
            let i = find_first_match(b.channels, f.channel_id);
            let c1 = channel_add_spec(b.channels[i], f);
            lemma_ingest_found(b.channels, f, origin, i);
            assert(!channel_complete(c1));
            assert(b1.channels == b.channels.update(i, c1));
            lemma_channel_add_idempotent(b.channels[i], f);
            assert(b1.channels[i] == c1 && c1.id == f.channel_id);
            assert(forall|j: int| 0 <= j < i ==> b1.channels[j].id != f.channel_id);
            lemma_ingest_found(b1.channels, f, origin, i);
            assert(channel_add_spec(b1.channels[i], f) == c1);
            assert(b1.channels.update(i, c1) =~= b1.channels);
        } else {
            assert(forall|j: int|
                0 <= j < b.channels.len() ==> b.channels[j].id != f.channel_id);
            lemma_ingest_no_match(b.channels, f, origin);
            let c0 = open_channel_spec(f, origin);
            assert(!channel_complete(c0));
            assert(b1.channels == b.channels + seq![c0]);
            let ghost i = b.channels.len() as int;
            assert(b1.channels[i] == c0 && c0.id == f.channel_id);
            assert(forall|j: int| 0 <= j < i ==> b1.channels[j] == b.channels[j]);
            lemma_ingest_found(b1.channels, f, origin, i);
            lemma_open_channel_idempotent(f, origin);
            assert(!channel_complete(channel_add_spec(b1.channels[i], f)));
            assert(b1.channels.update(i, c0) =~= b1.channels);
        }
    }
}

/// Law — completion order is frame-arrival order, not channel-open order:
/// whatever a delivery completes is the delivered frame's own channel, so
/// when two channels race to completion, the one whose closing frame
/// arrives first is emitted first.
pub proof fn lemma_ingest_output_id(chs: Seq<ChannelModel>, f: FrameModel, origin: u64)
    ensures
        ingest_channels_spec(chs, f, origin).1 matches Option::Some(out) ==> out.0
            == f.channel_id,
    decreases chs.len(),
{
    if chs.len() == 0 {
    } else if chs[0].id == f.channel_id {
    } else {
        lemma_ingest_output_id(chs.drop_first(), f, origin);
    }
}

/// Law — timeout eviction, permanence: once a channel id is evicted, any
/// later frame leaves it evicted, and no delivery ever emits that channel's
/// payload.
pub proof fn lemma_evicted_never_completes(b: BankModel, f: FrameModel, origin: u64, id: u64)
    requires
        b.evicted.contains(id),
    ensures
        bank_ingest_spec(b, f, origin).0.evicted.contains(id),
        bank_ingest_spec(b, f, origin).1 matches Option::Some(out) ==> out.0 != id,
{
    if b.evicted.contains(f.channel_id) {
    } else {
        lemma_ingest_output_id(b.channels, f, origin);
        assert(f.channel_id != id);
    }
}

/// Eviction marks every timed-out channel's id.
proof fn lemma_evict_marks(chs: Seq<ChannelModel>, origin: u64, dur: u64, i: int)
    requires
        0 <= i < chs.len(),
        chs[i].open_block + dur < origin,
    ensures
        evict_channels_spec(chs, origin, dur).1.contains(chs[i].id),
    decreases chs.len(),
{
    let r = evict_channels_spec(chs.drop_first(), origin, dur);
    if i == 0 {
        assert((seq![chs[0].id] + r.1)[0] == chs[0].id);
    } else {
        lemma_evict_marks(chs.drop_first(), origin, dur, i - 1);
        let k = choose|k: int| 0 <= k < r.1.len() && r.1[k] == chs.drop_first()[i - 1].id;
        if chs[0].open_block + dur < origin {
            assert((seq![chs[0].id] + r.1)[k + 1] == chs[i].id);
        }
    }
}

/// Law — timeout eviction, entry: a channel that received its opening frame
/// at L1 block N and is still open when the origin passes N plus the maximum
/// duration is dropped and its id remembered; with the permanence law above,
/// it is never emitted, even if a completing frame arrives afterward.
pub proof fn lemma_timeout_marks_evicted(b: BankModel, origin: u64, dur: u64, i: int)
    requires
        0 <= i < b.channels.len(),
        b.channels[i].open_block + dur < origin,
    ensures
        bank_evict_spec(b, origin, dur).evicted.contains(b.channels[i].id),
{
    lemma_evict_marks(b.channels, origin, dur, i);
    let r = evict_channels_spec(b.channels, origin, dur);
    let k = choose|k: int| 0 <= k < r.1.len() && r.1[k] == b.channels[i].id;
    assert((b.evicted + r.1)[b.evicted.len() + k] == b.channels[i].id);
}

/// Eviction never forgets an already evicted id.
pub proof fn lemma_evict_keeps_evicted(b: BankModel, origin: u64, dur: u64, id: u64)
    requires
        b.evicted.contains(id),
    ensures
        bank_evict_spec(b, origin, dur).evicted.contains(id),
{
    let k = choose|k: int| 0 <= k < b.evicted.len() && b.evicted[k] == id;
    let r = evict_channels_spec(b.channels, origin, dur);
    assert((b.evicted + r.1)[k] == id);
}

impl ChannelBank {
    /// A bank with no open channel and no evicted id.
    pub fn new() -> (r: ChannelBank)
        ensures
            r@.channels.len() == 0,
            r@.evicted.len() == 0,
    {
        let r = ChannelBank { channels: Vec::new(), evicted: Vec::new() };
        assert(r.channels.deep_view() =~= Seq::<ChannelModel>::empty());
        r
    }

    /// Whether `id` belongs to a channel evicted by timeout.
    pub fn is_evicted(&self, id: u64) -> (r: bool)
        ensures
            r == self@.evicted.contains(id),
    {
        let mut i: usize = 0;
        while i < self.evicted.len()
            invariant
                i <= self.evicted@.len(),
                forall|j: int| 0 <= j < i ==> self.evicted@[j] != id,
            decreases self.evicted@.len() - i,
        {
            if self.evicted[i] == id {
                return true;
            }
            i = i + 1;
        }
        false
    }

    /// Drops every channel whose opening block lies more than `dur` L1
    /// blocks behind `origin` and remembers its id: such a channel never
    /// completes.
    pub fn evict_timed_out(&mut self, origin: u64, dur: u64)
        ensures
            final(self)@ == bank_evict_spec(old(self)@, origin, dur),
    {
        let mut kept: Vec<Channel> = Vec::new();
        assert(kept.deep_view() =~= Seq::<ChannelModel>::empty());
        let ghost orig = self.channels.deep_view();
        let ghost orig_ev = self.evicted@;
        loop
            invariant_except_break
                evict_channels_spec(orig, origin, dur).0 == kept.deep_view()
                    + evict_channels_spec(self.channels.deep_view(), origin, dur).0,
                evict_channels_spec(orig, origin, dur).1 == self.evicted@.subrange(
                    orig_ev.len() as int,
                    self.evicted@.len() as int,
                ) + evict_channels_spec(self.channels.deep_view(), origin, dur).1,
                self.evicted@.len() >= orig_ev.len(),
                self.evicted@.subrange(0, orig_ev.len() as int) == orig_ev,
            ensures
                evict_channels_spec(orig, origin, dur).0 == kept.deep_view(),
                self.evicted@ == orig_ev + evict_channels_spec(orig, origin, dur).1,
            decreases self.channels@.len(),
        {
            if self.channels.len() == 0 {
                assert(evict_channels_spec(self.channels.deep_view(), origin, dur).0
                    =~= Seq::<ChannelModel>::empty());
                assert(kept.deep_view() + evict_channels_spec(
                    self.channels.deep_view(),
                    origin,
                    dur,
                ).0 =~= kept.deep_view());
                assert(self.evicted@.subrange(orig_ev.len() as int, self.evicted@.len() as int)
                    + evict_channels_spec(self.channels.deep_view(), origin, dur).1
                    =~= self.evicted@.subrange(orig_ev.len() as int, self.evicted@.len() as int));
                assert(self.evicted@ =~= self.evicted@.subrange(0, orig_ev.len() as int)
                    + self.evicted@.subrange(orig_ev.len() as int, self.evicted@.len() as int));
                break ;
            }
            let ghost pre = self.channels.deep_view();
            let c = self.channels.remove(0);
            assert(self.channels.deep_view() =~= pre.drop_first());
            assert(c.deep_view() == pre[0]);
            let timed_out = (c.open_block as u128) + (dur as u128) < (origin as u128);
            if timed_out {
                let ghost pre_ev = self.evicted@;
                self.evicted.push(c.id);
                assert(self.evicted@.subrange(orig_ev.len() as int, self.evicted@.len() as int)
                    =~= pre_ev.subrange(orig_ev.len() as int, pre_ev.len() as int) + seq![c.id]);
                assert(self.evicted@.subrange(0, orig_ev.len() as int) =~= pre_ev.subrange(
                    0,
                    orig_ev.len() as int,
                ));
                assert((pre_ev.subrange(orig_ev.len() as int, pre_ev.len() as int) + seq![c.id])
                    + evict_channels_spec(pre.drop_first(), origin, dur).1 =~= pre_ev.subrange(
                    orig_ev.len() as int,
                    pre_ev.len() as int,
                ) + (seq![c.id] + evict_channels_spec(pre.drop_first(), origin, dur).1));
            } else {
                let ghost pre_kept = kept.deep_view();
                kept.push(c);
                assert(kept.deep_view() =~= pre_kept.push(pre[0]));
                assert(pre_kept + (seq![pre[0]] + evict_channels_spec(
                    pre.drop_first(),
                    origin,
                    dur,
                ).0) =~= kept.deep_view() + evict_channels_spec(pre.drop_first(), origin, dur).0);
            }
        }
        self.channels = kept;
    }

    /// Delivers one frame. A frame for an evicted id is dropped; otherwise
    /// it joins its channel, opening one at the current origin if the id is
    /// new, and when it completes the channel the reassembled payload is
    /// returned and the channel entry removed.
    pub fn ingest_frame(&mut self, f: Frame, origin: u64) -> (r: Option<(u64, Vec<u8>)>)
        ensures
            final(self)@ == bank_ingest_spec(old(self)@, f@, origin).0,
            match r {
                Option::Some(p) => bank_ingest_spec(old(self)@, f@, origin).1 == Option::Some(
                    (p.0, p.1@),
                ),
                Option::None => bank_ingest_spec(old(self)@, f@, origin).1 is None,
            },
    {
        let fid = f.channel_id;
        let ghost fm = f@;
        let ghost orig = self.channels.deep_view();
        if self.is_evicted(fid) {
            return None;
        }
        let n = self.channels.len();
        let mut idx: usize = 0;
        let mut found = n;
        while idx < n
            invariant_except_break
                idx <= n,
                n == self.channels@.len(),
                found == n,
                forall|j: int| 0 <= j < idx ==> self.channels.deep_view()[j].id != fid,
            ensures
                n == self.channels@.len(),
                found <= n,
                forall|j: int| 0 <= j < found ==> self.channels.deep_view()[j].id != fid,
                found < n ==> self.channels.deep_view()[found as int].id == fid,
            decreases n - idx,
        {
            if self.channels[idx].id == fid {
                found = idx;
                break ;
            }
            idx = idx + 1;
        }
        if found < n {
            let ghost i = found as int;
            let mut c = self.channels.remove(found);
            assert(c@ == orig[i]);
            channel_add(&mut c, f);
            proof {
                lemma_ingest_found(orig, fm, origin, i);
            }
            if is_complete(&c) {
                let bytes = assemble(&c);
                assert(self.channels.deep_view() =~= orig.take(i) + orig.skip(i + 1));
                Some((fid, bytes))
            } else {
                self.channels.insert(found, c);
                assert(self.channels.deep_view() =~= orig.update(i, channel_add_spec(orig[i], fm)));
                None
            }
        } else {
            proof {
                lemma_ingest_no_match(orig, fm, origin);
            }
            let c0 = Channel {
                id: fid,
                open_block: origin,
                last_number: if f.is_last {
                    Some(f.number)
                } else {
                    None
                },
                parts: vec![FramePart { number: f.number, data: f.data }],
            };
            assert(c0@ =~= open_channel_spec(fm, origin)) by {
                assert(c0.parts.deep_view() =~= seq![PartModel { number: fm.number, data: fm.data }]);
            }
            if is_complete(&c0) {
                let bytes = assemble(&c0);
                assert(self.channels.deep_view() =~= orig
                    + Seq::<ChannelModel>::empty());
                assert(self.channels.deep_view() == bank_ingest_spec(old(self)@, fm, origin).0.channels);
                Some((fid, bytes))
            } else {
                let ghost pre = self.channels.deep_view();
                self.channels.push(c0);
                assert(self.channels.deep_view() =~= pre + seq![open_channel_spec(fm, origin)]);
                None
            }
        }
    }
}

} // verus!
