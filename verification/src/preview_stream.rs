//! The live audio and video tap of one output, feeding an encoder child.
//!
//! Without a viewer an offer does nothing. With one, each decoded frame is
//! letterboxed into the fixed canvas and each block of audio brought to stereo,
//! and both are handed to bounded channels: a full channel drops, so an offer
//! never waits. `T` is one audio sample.

use crate::audio_align::to_stereo;
use crate::letterbox::{letterbox_nv12_into, OUT_NV12_LEN};
use crossbeam_channel::{Receiver, Sender};
use vstd::prelude::*;

verus! {

/// Video frames the channel holds.
pub const VIDEO_CHANNEL_CAP: usize = 4;

/// Audio blocks the channel holds.
pub const AUDIO_CHANNEL_CAP: usize = 48;

/// Fragments a slow viewer may fall behind before it loses some: two seconds.
pub const RELAY_CAPACITY: usize = 4;

/// Recycled canvases that are kept.
pub const POOL_MAX: usize = 6;

/// How far decoded audio leads the video on an output that is paced by the
/// sender's own clock.
pub const AUDIO_LOOKAHEAD_MS: u32 = 1_500;

/// `crossbeam_channel::Sender`, opaque.
#[verifier::external_type_specification]
#[verifier::external_body]
#[verifier::reject_recursive_types(M)]
pub struct ExSender<M>(Sender<M>);

/// `crossbeam_channel::Receiver`, opaque.
#[verifier::external_type_specification]
#[verifier::external_body]
#[verifier::reject_recursive_types(M)]
pub struct ExReceiver<M>(Receiver<M>);

/// What became of a message handed to a channel.
pub enum SendOutcome<M> {
    Sent,
    /// The channel was full; the message comes back.
    Full(M),
    /// Every receiver is gone.
    Disconnected,
}

/// What became of an offer.
#[derive(Debug, Clone, Copy, PartialEq, Eq, Structural)]
pub enum StreamOffer {
    /// There was nothing to send: nobody watches, or the audio has no stereo form.
    Nothing,
    Sent,
    /// The channel had no room.
    Full,
    /// Nobody is left to receive it.
    Gone,
}

/// The report of a message that came to `outcome`.
pub open spec fn report_of<M>(outcome: SendOutcome<M>) -> StreamOffer {
    match outcome {
        SendOutcome::Sent => StreamOffer::Sent,
        SendOutcome::Full(_) => StreamOffer::Full,
        SendOutcome::Disconnected => StreamOffer::Gone,
    }
}

/// Calls `crossbeam_channel::bounded`: a channel that holds at most `cap`
/// messages. Nothing is claimed of the two ends, which are opaque; the call
/// panics only for a capacity too large to allocate.
#[verifier::external_body]
fn bounded_channel<M>(cap: usize) -> (r: (Sender<M>, Receiver<M>))
    requires
        1 <= cap <= 64,
{
    crossbeam_channel::bounded(cap)
}

/// Calls `crossbeam_channel::Sender::try_send`, which never blocks. Claimed of
/// it: a full channel hands the same message back. Whether the channel has room
/// depends on its other end and is left unsaid.
#[verifier::external_body]
fn try_send<M>(tx: &Sender<M>, msg: M) -> (r: SendOutcome<M>)
    ensures
        r matches SendOutcome::Full(back) ==> back == msg,
{
    match tx.try_send(msg) {
        Ok(()) => SendOutcome::Sent,
        Err(crossbeam_channel::TrySendError::Full(back)) => SendOutcome::Full(back),
        Err(crossbeam_channel::TrySendError::Disconnected(_)) => SendOutcome::Disconnected,
    }
}

/// Handing `msg` to the channel of `tx` may come to `outcome`.
pub closed spec fn may_come_to<M>(tx: Sender<M>, msg: M, outcome: SendOutcome<M>) -> bool {
    call_ensures(try_send::<M>, (&tx, msg), outcome)
}

/// A full channel hands the same message back.
pub proof fn law_a_full_channel_hands_the_message_back<M>(
    tx: Sender<M>,
    msg: M,
    outcome: SendOutcome<M>,
)
    requires
        may_come_to(tx, msg, outcome),
    ensures
        outcome matches SendOutcome::Full(back) ==> back == msg,
{
}

/// Hand a message to a channel.
fn hand_over<M>(tx: &Sender<M>, msg: M) -> (r: SendOutcome<M>)
    ensures
        may_come_to(*tx, msg, r),
        r matches SendOutcome::Full(back) ==> back == msg,
{
    let send = try_send::<M>;
    send(tx, msg)
}

/// Calls `Clone::clone` of `crossbeam_channel::Receiver`: another end of the same
/// channel. Nothing is claimed of it, since an end is opaque.
#[verifier::external_body]
fn another_receiver<M>(rx: &Receiver<M>) -> (r: Receiver<M>) {
    rx.clone()
}

/// `tx` and `rx` are the two ends of a new channel for at most `cap` messages.
pub closed spec fn ends_of_new<M>(cap: usize, tx: Sender<M>, rx: Receiver<M>) -> bool {
    call_ensures(bounded_channel::<M>, (cap,), (tx, rx))
}

/// `end` is another receiving end of the channel of `rx`.
pub closed spec fn same_channel<M>(rx: Receiver<M>, end: Receiver<M>) -> bool {
    call_ensures(another_receiver::<M>, (&rx,), end)
}

/// Open a channel for at most `cap` messages.
fn open_channel<M>(cap: usize) -> (r: (Sender<M>, Receiver<M>))
    requires
        1 <= cap <= 64,
    ensures
        ends_of_new(cap, r.0, r.1),
{
    let open = bounded_channel::<M>;
    open(cap)
}

/// Another receiving end of a channel.
fn share_receiver<M>(rx: &Receiver<M>) -> (r: Receiver<M>)
    ensures
        same_channel(*rx, r),
{
    let share = another_receiver::<M>;
    share(rx)
}

/// How far the tapped audio leads the video: the decoder's read-ahead on an
/// output with the wall-clock audio emitter, nothing on a paced one.
pub fn lead_ms_for(genlock_pacing: bool) -> (r: u32)
    ensures
        r == if genlock_pacing {
            0
        } else {
            AUDIO_LOOKAHEAD_MS
        },
{
    if genlock_pacing {
        0
    } else {
        AUDIO_LOOKAHEAD_MS
    }
}

/// What the tap, its viewers and the encoder child share.
#[verifier::reject_recursive_types(T)]
pub struct StreamShared<T> {
    pub label: String,
    /// Milliseconds the tapped audio leads the video.
    pub lead_ms: u32,
    /// Connected viewers.
    pub viewers: usize,
    /// An encoder child runs.
    pub encoder_running: bool,
    pub video_tx: Sender<Vec<u8>>,
    pub video_rx: Receiver<Vec<u8>>,
    pub audio_tx: Sender<Vec<T>>,
    pub audio_rx: Receiver<Vec<T>>,
    /// Recycled canvases.
    pub pool: Vec<Vec<u8>>,
}

/// The pool after a canvas is taken from it.
pub open spec fn pool_after_take(pool: Seq<Vec<u8>>) -> Seq<Vec<u8>> {
    if pool.len() > 0 {
        pool.drop_last()
    } else {
        pool
    }
}

/// The pool after a canvas comes back: kept while there is room and it has the
/// canvas's size.
pub open spec fn pool_after_recycle(pool: Seq<Vec<u8>>, buf: Vec<u8>) -> Seq<Vec<u8>> {
    if buf@.len() == OUT_NV12_LEN && pool.len() < POOL_MAX {
        pool.push(buf)
    } else {
        pool
    }
}

/// The pool after a canvas was handed to the channel.
pub open spec fn pool_after_send(pool: Seq<Vec<u8>>, outcome: SendOutcome<Vec<u8>>) -> Seq<Vec<u8>> {
    match outcome {
        SendOutcome::Full(buf) => pool_after_recycle(pool, buf),
        _ => pool,
    }
}

impl<T> StreamShared<T> {
    /// The pool is bounded and holds whole canvases.
    pub open spec fn wf(&self) -> bool {
        &&& self.pool@.len() <= POOL_MAX
        &&& forall|i: int| 0 <= i < self.pool@.len() ==> (#[trigger] self.pool@[i])@.len()
            == OUT_NV12_LEN
    }

    /// Everything but the pool is as in `other`.
    pub open spec fn same_but_pool(&self, other: &StreamShared<T>) -> bool {
        &&& self.label == other.label
        &&& self.lead_ms == other.lead_ms
        &&& self.viewers == other.viewers
        &&& self.encoder_running == other.encoder_running
        &&& self.video_tx == other.video_tx
        &&& self.video_rx == other.video_rx
        &&& self.audio_tx == other.audio_tx
        &&& self.audio_rx == other.audio_rx
    }

    pub fn new(label: String, lead_ms: u32) -> (r: Self)
        ensures
            r.wf(),
            r.label == label,
            r.lead_ms == lead_ms,
            r.viewers == 0,
            !r.encoder_running,
            r.pool@ == Seq::<Vec<u8>>::empty(),
            ends_of_new(VIDEO_CHANNEL_CAP, r.video_tx, r.video_rx),
            ends_of_new(AUDIO_CHANNEL_CAP, r.audio_tx, r.audio_rx),
    {
        let (video_tx, video_rx) = open_channel::<Vec<u8>>(VIDEO_CHANNEL_CAP);
        let (audio_tx, audio_rx) = open_channel::<Vec<T>>(AUDIO_CHANNEL_CAP);
        StreamShared {
            label,
            lead_ms,
            viewers: 0,
            encoder_running: false,
            video_tx,
            video_rx,
            audio_tx,
            audio_rx,
            pool: Vec::new(),
        }
    }

    /// Whether any viewer is connected.
    pub fn has_viewer(&self) -> (r: bool)
        ensures
            r == (self.viewers != 0),
    {
        self.viewers != 0
    }

    /// A recycled canvas, or a new one.
    fn take_buffer(&mut self) -> (r: Vec<u8>)
        requires
            old(self).wf(),
        ensures
            final(self).wf(),
            final(self).same_but_pool(old(self)),
            final(self).pool@ == pool_after_take(old(self).pool@),
            r@.len() == OUT_NV12_LEN,
    {
        match self.pool.pop() {
            Some(buf) => buf,
            None => vec![0u8; OUT_NV12_LEN],
        }
    }

    /// Keep a canvas for later.
    pub fn recycle(&mut self, buf: Vec<u8>)
        requires
            old(self).wf(),
        ensures
            final(self).wf(),
            final(self).same_but_pool(old(self)),
            final(self).pool@ == pool_after_recycle(old(self).pool@, buf),
    {
        if buf.len() == OUT_NV12_LEN && self.pool.len() < POOL_MAX {
            self.pool.push(buf);
        }
    }

    /// The canvas that an offered frame is to be sent as; `None`, with nothing
    /// done, while nobody watches.
    pub fn video_frame(&mut self, sw: u32, sh: u32, stride: u32, nv12: &[u8]) -> (r: Option<
        Vec<u8>,
    >)
        requires
            old(self).wf(),
            old(self).viewers == 0 || crate::letterbox::placeable(sw, sh),
        ensures
            final(self).wf(),
            final(self).same_but_pool(old(self)),
            match r {
                Some(buf) => {
                    &&& old(self).viewers != 0
                    &&& buf@ == crate::letterbox::canvas_of(
                        sw as int,
                        sh as int,
                        stride as int,
                        nv12@,
                    )
                    &&& final(self).pool@ == pool_after_take(old(self).pool@)
                },
                None => old(self).viewers == 0 && final(self).pool@ == old(self).pool@,
            },
    {
        if !self.has_viewer() {
            return None;
        }
        let mut buf: Vec<u8> = self.take_buffer();
        letterbox_nv12_into(sw, sh, stride, nv12, buf.as_mut_slice());
        Some(buf)
    }

    /// The canvas was handed to the channel: one that did not fit is recycled.
    pub fn video_sent(&mut self, outcome: SendOutcome<Vec<u8>>) -> (r: StreamOffer)
        requires
            old(self).wf(),
        ensures
            final(self).wf(),
            final(self).same_but_pool(old(self)),
            final(self).pool@ == pool_after_send(old(self).pool@, outcome),
            r == report_of(outcome),
    {
        match outcome {
            SendOutcome::Full(buf) => {
                self.recycle(buf);
                StreamOffer::Full
            },
            SendOutcome::Sent => StreamOffer::Sent,
            SendOutcome::Disconnected => StreamOffer::Gone,
        }
    }

    /// `after` is this tap after an offer of a frame that came to `r`. While nobody
    /// watches nothing happens; else a canvas leaves the pool, the frame is drawn on
    /// it, and the channel takes it or hands it back to the pool.
    pub open spec fn offers_video(
        &self,
        sw: int,
        sh: int,
        stride: int,
        nv12: Seq<u8>,
        after: &StreamShared<T>,
        r: StreamOffer,
    ) -> bool {
        &&& after.same_but_pool(self)
        &&& if self.viewers == 0 {
            r == StreamOffer::Nothing && after.pool@ == self.pool@
        } else {
            exists|canvas: Vec<u8>, outcome: SendOutcome<Vec<u8>>|
                {
                    &&& canvas@ == crate::letterbox::canvas_of(sw, sh, stride, nv12)
                    &&& #[trigger] may_come_to(self.video_tx, canvas, outcome)
                    &&& r == report_of(outcome)
                    &&& after.pool@ == pool_after_send(pool_after_take(self.pool@), outcome)
                }
        }
    }

    /// Offer one decoded NV12 frame: its canvas goes to the video channel. Never
    /// waits.
    pub fn offer_video(&mut self, sw: u32, sh: u32, stride: u32, nv12: &[u8]) -> (r: StreamOffer)
        requires
            old(self).wf(),
            old(self).viewers == 0 || crate::letterbox::placeable(sw, sh),
        ensures
            final(self).wf(),
            old(self).offers_video(
                sw as int,
                sh as int,
                stride as int,
                nv12@,
                final(self),
                r,
            ),
    {
        match self.video_frame(sw, sh, stride, nv12) {
            Some(buf) => {
                let outcome = hand_over(&self.video_tx, buf);
                self.video_sent(outcome)
            },
            None => StreamOffer::Nothing,
        }
    }

    /// Another end of the video channel, for the encoder's feeder.
    pub fn video_receiver(&self) -> (r: Receiver<Vec<u8>>)
        ensures
            same_channel(self.video_rx, r),
    {
        share_receiver(&self.video_rx)
    }

    /// Another end of the audio channel, for the encoder's feeder.
    pub fn audio_receiver(&self) -> (r: Receiver<Vec<T>>)
        ensures
            same_channel(self.audio_rx, r),
    {
        share_receiver(&self.audio_rx)
    }

    /// Name for logs.
    pub fn label(&self) -> (r: &str)
        ensures
            r@ == self.label@,
    {
        self.label.as_str()
    }

    /// Milliseconds the tapped audio leads the video.
    pub fn lead_ms(&self) -> (r: u32)
        ensures
            r == self.lead_ms,
    {
        self.lead_ms
    }

    /// The tap after the encoder was claimed.
    pub open spec fn after_claim(self) -> Self {
        StreamShared { encoder_running: true, ..self }
    }

    /// The tap after a viewer connected.
    pub open spec fn after_join(self) -> Self {
        StreamShared { viewers: (self.viewers + 1) as usize, ..self }
    }

    /// The tap after a viewer left.
    pub open spec fn after_leave(self) -> Self {
        StreamShared {
            viewers: if self.viewers > 0 {
                (self.viewers - 1) as usize
            } else {
                0
            },
            ..self
        }
    }

    /// Claim the encoder: `true` for exactly the one caller that may spawn it.
    pub fn try_claim_encoder(&mut self) -> (r: bool)
        requires
            old(self).wf(),
        ensures
            final(self).wf(),
            r == !old(self).encoder_running,
            *final(self) == old(self).after_claim(),
    {
        if self.encoder_running {
            false
        } else {
            self.encoder_running = true;
            true
        }
    }

    /// The tap after the encoder was released.
    pub open spec fn after_release(self) -> Self {
        StreamShared { encoder_running: false, ..self }
    }

    /// The encoder has ended.
    pub fn release_encoder(&mut self)
        requires
            old(self).wf(),
        ensures
            final(self).wf(),
            *final(self) == old(self).after_release(),
            *final(self) == (StreamShared { encoder_running: false, ..*old(self) }),
    {
        self.encoder_running = false;
    }

    /// A viewer connects.
    pub fn viewer_joined(&mut self)
        requires
            old(self).wf(),
            old(self).viewers < usize::MAX,
        ensures
            final(self).wf(),
            *final(self) == old(self).after_join(),
    {
        self.viewers = self.viewers + 1;
    }

    /// A viewer leaves; the count never falls below zero.
    pub fn viewer_left(&mut self)
        requires
            old(self).wf(),
        ensures
            final(self).wf(),
            *final(self) == old(self).after_leave(),
    {
        if self.viewers > 0 {
            self.viewers = self.viewers - 1;
        }
    }
}

impl<T: Copy> StreamShared<T> {
    /// The stereo block that an offered block is to be sent as; `None` while
    /// nobody watches, and for a channel count that is neither mono nor stereo.
    pub fn audio_block(&self, samples: &[T], channels: u32) -> (r: Option<Vec<T>>)
        ensures
            match r {
                Some(block) => {
                    &&& self.viewers != 0
                    &&& crate::audio_align::stereo_of(samples@, channels) == Some(block@)
                },
                None => self.viewers == 0 || crate::audio_align::stereo_of(
                    samples@,
                    channels,
                ) is None,
            },
    {
        if !self.has_viewer() {
            return None;
        }
        to_stereo(samples, channels)
    }

    /// A block of `channels` channels has something to send.
    pub open spec fn sends_audio(&self, samples: Seq<T>, channels: u32) -> bool {
        self.viewers != 0 && crate::audio_align::stereo_of(samples, channels) is Some
    }

    /// An offer of a block came to `r`: nothing happens to one that has nothing to
    /// send; else its stereo block is handed to the audio channel.
    pub open spec fn offers_audio(
        &self,
        samples: Seq<T>,
        channels: u32,
        r: StreamOffer,
    ) -> bool {
        if !self.sends_audio(samples, channels) {
            r == StreamOffer::Nothing
        } else {
            exists|block: Vec<T>, outcome: SendOutcome<Vec<T>>|
                {
                    &&& crate::audio_align::stereo_of(samples, channels) == Some(block@)
                    &&& #[trigger] may_come_to(self.audio_tx, block, outcome)
                    &&& r == report_of(outcome)
                }
        }
    }

    /// Offer one block of interleaved audio: its stereo block goes to the audio
    /// channel. Never waits.
    pub fn offer_audio(&self, samples: &[T], _sample_rate: u32, channels: u32) -> (r: StreamOffer)
        ensures
            self.offers_audio(samples@, channels, r),
    {
        match self.audio_block(samples, channels) {
            Some(block) => match hand_over(&self.audio_tx, block) {
                SendOutcome::Full(_) => StreamOffer::Full,
                SendOutcome::Sent => StreamOffer::Sent,
                SendOutcome::Disconnected => StreamOffer::Gone,
            },
            None => StreamOffer::Nothing,
        }
    }
}

/// Of two claims without a release between them the second is refused, whatever the
/// first came to, and it changes nothing.
pub proof fn law_one_claim_at_a_time<T>(tap: StreamShared<T>)
    ensures
        tap.after_claim().encoder_running,
        tap.after_claim().after_claim() == tap.after_claim(),
{
}

/// A viewer that connects and leaves again leaves the tap as it was.
pub proof fn law_leaving_undoes_joining<T>(tap: StreamShared<T>)
    requires
        tap.viewers < usize::MAX,
    ensures
        tap.after_join().viewers != 0,
        tap.after_join().after_leave() == tap,
{
}

/// One output's stream tap.
#[verifier::reject_recursive_types(T)]
pub struct StreamTap<T> {
    pub shared: StreamShared<T>,
}

impl<T: Copy> StreamTap<T> {
    pub fn new(label: String, lead_ms: u32) -> (r: Self)
        ensures
            r.shared.wf(),
            r.shared.label == label,
            r.shared.lead_ms == lead_ms,
            r.shared.viewers == 0,
            !r.shared.encoder_running,
            r.shared.pool@ == Seq::<Vec<u8>>::empty(),
            ends_of_new(VIDEO_CHANNEL_CAP, r.shared.video_tx, r.shared.video_rx),
            ends_of_new(AUDIO_CHANNEL_CAP, r.shared.audio_tx, r.shared.audio_rx),
    {
        StreamTap { shared: StreamShared::new(label, lead_ms) }
    }

    /// See [`StreamShared::offer_video`].
    pub fn try_offer_video(&mut self, sw: u32, sh: u32, stride: u32, nv12: &[u8]) -> (r:
        StreamOffer)
        requires
            old(self).shared.wf(),
            old(self).shared.viewers == 0 || crate::letterbox::placeable(sw, sh),
        ensures
            final(self).shared.wf(),
            old(self).shared.offers_video(
                sw as int,
                sh as int,
                stride as int,
                nv12@,
                &final(self).shared,
                r,
            ),
    {
        self.shared.offer_video(sw, sh, stride, nv12)
    }

    /// See [`StreamShared::offer_audio`].
    pub fn try_offer_audio(&self, samples: &[T], sample_rate: u32, channels: u32) -> (r:
        StreamOffer)
        ensures
            self.shared.offers_audio(samples@, channels, r),
    {
        self.shared.offer_audio(samples, sample_rate, channels)
    }

    /// What the tap shares with its viewers and its encoder.
    pub fn shared(&self) -> (r: &StreamShared<T>)
        ensures
            *r == self.shared,
    {
        &self.shared
    }
}

/// One decoded picture (NV12).
pub struct DecodedVideoFrame {
    pub data: Vec<u8>,
    pub width: u32,
    pub height: u32,
    pub stride: u32,
    pub timestamp_ms: u64,
}

/// One decoded block of interleaved audio.
pub struct DecodedAudioFrame<T> {
    pub data: Vec<T>,
    pub channels: u32,
    pub sample_rate: u32,
    pub timestamp_ms: u64,
}

/// Both taps of one output.
#[verifier::reject_recursive_types(T)]
pub struct DecodeTaps<T> {
    pub preview: crate::preview::PreviewTap,
    pub stream: StreamTap<T>,
}

/// What became of a decoded frame and its audio at the taps.
#[derive(Debug)]
pub struct FrameOffer {
    /// The picture waits for the encoder of the preview.
    pub preview_queued: bool,
    pub video: StreamOffer,
    /// What became of each block of audio, in order.
    pub audio: Vec<StreamOffer>,
}

impl<T: Copy> DecodeTaps<T> {
    /// Offer one decoded frame and its audio to both taps.
    pub fn offer_frame(
        &mut self,
        now_ms: u64,
        video: &DecodedVideoFrame,
        audio: &Vec<DecodedAudioFrame<T>>,
    ) -> (r: FrameOffer)
        requires
            old(self).preview.shared.wf(),
            old(self).stream.shared.wf(),
            old(self).stream.shared.viewers == 0 || crate::letterbox::placeable(video.width, video.height),
        ensures
            final(self).preview.shared.wf(),
            final(self).stream.shared.wf(),
            old(self).preview.shared.takes_offer(
                now_ms as int,
                video.width as int,
                video.height as int,
                video.stride as int,
                video.data@,
                final(self).preview.shared,
            ),
            r.preview_queued == old(self).preview.shared.queues(
                now_ms as int,
                video.width as int,
                video.height as int,
                video.stride as int,
                video.data@,
            ),
            old(self).stream.shared.offers_video(
                video.width as int,
                video.height as int,
                video.stride as int,
                video.data@,
                &final(self).stream.shared,
                r.video,
            ),
            r.audio@.len() == audio@.len(),
            forall|i: int|
                0 <= i < audio@.len() ==> old(self).stream.shared.offers_audio(
                    audio@[i].data@,
                    audio@[i].channels,
                    #[trigger] r.audio@[i],
                ),
    {
        let preview_queued: bool = self.preview.try_offer(
            now_ms,
            video.width,
            video.height,
            video.stride,
            video.data.as_slice(),
        );
        let sent: StreamOffer = self.stream.try_offer_video(
            video.width,
            video.height,
            video.stride,
            video.data.as_slice(),
        );
        let mut reports: Vec<StreamOffer> = Vec::new();
        let mut i: usize = 0;
        while i < audio.len()
            invariant
                i <= audio@.len(),
                reports@.len() == i,
                forall|j: int|
                    0 <= j < i ==> self.stream.shared.offers_audio(
                        audio@[j].data@,
                        audio@[j].channels,
                        #[trigger] reports@[j],
                    ),
            decreases audio@.len() - i,
        {
            let a: &DecodedAudioFrame<T> = &audio[i];
            reports.push(
                self.stream.try_offer_audio(a.data.as_slice(), a.sample_rate, a.channels),
            );
            i = i + 1;
        }
        FrameOffer { preview_queued, video: sent, audio: reports }
    }
}

/// While nobody watches, an offer of a frame changes nothing and is reported as such;
/// while somebody does, it is always handed to the channel.
pub proof fn law_frames_are_sent_only_to_viewers<T>(
    tap: StreamShared<T>,
    sw: int,
    sh: int,
    stride: int,
    nv12: Seq<u8>,
    after: StreamShared<T>,
    r: StreamOffer,
)
    requires
        tap.offers_video(sw, sh, stride, nv12, &after, r),
    ensures
        r == StreamOffer::Nothing <==> tap.viewers == 0,
        tap.viewers == 0 ==> after.pool@ == tap.pool@,
        after.viewers == tap.viewers && after.encoder_running == tap.encoder_running,
        after.lead_ms == tap.lead_ms && after.label == tap.label,
{
}

/// What is handed to the video channel is the letterboxed frame, whatever becomes of it.
pub proof fn law_the_frame_that_is_sent_is_letterboxed<T>(
    tap: StreamShared<T>,
    sw: int,
    sh: int,
    stride: int,
    nv12: Seq<u8>,
    after: StreamShared<T>,
    r: StreamOffer,
)
    requires
        tap.offers_video(sw, sh, stride, nv12, &after, r),
        tap.viewers != 0,
    ensures
        exists|canvas: Vec<u8>, outcome: SendOutcome<Vec<u8>>|
            canvas@ == crate::letterbox::canvas_of(sw, sh, stride, nv12)
                && #[trigger] may_come_to(tap.video_tx, canvas, outcome) && (outcome is Sent
                <==> r == StreamOffer::Sent) && (outcome is Full <==> r == StreamOffer::Full) && (
            outcome is Disconnected <==> r == StreamOffer::Gone),
{
    let (canvas, outcome) = choose|canvas: Vec<u8>, outcome: SendOutcome<Vec<u8>>|
        {
            &&& canvas@ == crate::letterbox::canvas_of(sw, sh, stride, nv12)
            &&& #[trigger] may_come_to(tap.video_tx, canvas, outcome)
            &&& r == report_of(outcome)
            &&& after.pool@ == pool_after_send(pool_after_take(tap.pool@), outcome)
        };
    assert(may_come_to(tap.video_tx, canvas, outcome));
}

/// A block of audio is sent exactly to viewers, and exactly when it is mono or stereo;
/// what is handed to the audio channel is the block's own samples.
pub proof fn law_audio_is_sent_only_to_viewers<T: Copy>(
    tap: StreamShared<T>,
    samples: Seq<T>,
    channels: u32,
    r: StreamOffer,
)
    requires
        tap.offers_audio(samples, channels, r),
    ensures
        r == StreamOffer::Nothing <==> tap.viewers == 0 || (channels != 1 && channels != 2),
        tap.viewers != 0 && channels == 2 ==> exists|block: Vec<T>, outcome: SendOutcome<Vec<T>>|
            block@ == samples && #[trigger] may_come_to(tap.audio_tx, block, outcome) && r
                == report_of(outcome),
        tap.viewers != 0 && channels == 1 ==> exists|block: Vec<T>, outcome: SendOutcome<Vec<T>>|
            block@.len() == 2 * samples.len() && (forall|i: int|
                0 <= i < block@.len() ==> #[trigger] block@[i] == samples[i / 2])
                && #[trigger] may_come_to(tap.audio_tx, block, outcome) && r == report_of(outcome),
{
    if tap.sends_audio(samples, channels) {
        let (block, outcome) = choose|block: Vec<T>, outcome: SendOutcome<Vec<T>>|
            {
                &&& crate::audio_align::stereo_of(samples, channels) == Some(block@)
                &&& #[trigger] may_come_to(tap.audio_tx, block, outcome)
                &&& r == report_of(outcome)
            };
        assert(may_come_to(tap.audio_tx, block, outcome));
    }
}

/// A canvas that comes back is the next one taken, while there is room; a canvas of
/// another size, or one too many, is not kept; and taking from an empty pool leaves it
/// empty.
pub proof fn law_canvases_are_used_again(pool: Seq<Vec<u8>>, buf: Vec<u8>)
    ensures
        buf@.len() == OUT_NV12_LEN && pool.len() < 6 ==> pool_after_recycle(pool, buf).last() == buf
            && pool_after_take(pool_after_recycle(pool, buf)) == pool,
        buf@.len() != OUT_NV12_LEN || pool.len() >= 6 ==> pool_after_recycle(pool, buf) == pool,
        pool.len() > 0 ==> pool_after_take(pool).len() == pool.len() - 1,
        pool.len() == 0 ==> pool_after_take(pool) == pool,
{
    if buf@.len() == OUT_NV12_LEN && pool.len() < 6 {
        assert(pool.push(buf).drop_last() =~= pool);
    }
}

/// A canvas leaves the pool for good exactly when it was sent or nobody was left; one
/// that did not fit comes back.
pub proof fn law_a_canvas_that_did_not_fit_comes_back(
    pool: Seq<Vec<u8>>,
    canvas: Vec<u8>,
    outcome: SendOutcome<Vec<u8>>,
)
    requires
        canvas@.len() == OUT_NV12_LEN,
        pool.len() < 6,
        outcome matches SendOutcome::Full(back) ==> back == canvas,
    ensures
        outcome is Full ==> pool_after_send(pool, outcome) == pool.push(canvas),
        !(outcome is Full) ==> pool_after_send(pool, outcome) == pool,
{
}

/// On the grid the tapped audio does not lead the video; off it, it leads by a second
/// and a half.
pub proof fn law_audio_leads_only_off_the_grid(genlock_pacing: bool, lead: u32)
    requires
        call_ensures(lead_ms_for, (genlock_pacing,), lead),
    ensures
        genlock_pacing ==> lead == 0,
        !genlock_pacing ==> lead == 1_500,
{
}

/// After a release the encoder can be claimed again, and a claim and a release leave the
/// viewers, the pool and the channels alone.
pub proof fn law_a_release_undoes_a_claim<T>(tap: StreamShared<T>)
    ensures
        !tap.after_release().encoder_running,
        !tap.encoder_running ==> tap.after_claim().after_release() == tap,
        tap.after_claim().viewers == tap.viewers,
        tap.after_claim().pool == tap.pool,
        tap.after_release().viewers == tap.viewers,
        tap.after_release().pool == tap.pool,
{
}

/// Viewers are counted one by one, and none is counted below zero.
pub proof fn law_viewers_are_counted<T>(tap: StreamShared<T>)
    requires
        tap.viewers < usize::MAX,
    ensures
        tap.after_join().viewers == tap.viewers + 1,
        tap.viewers > 0 ==> tap.after_leave().viewers == tap.viewers - 1,
        tap.viewers == 0 ==> tap.after_leave() == tap,
        tap.after_join().encoder_running == tap.encoder_running,
{
}

} // verus!
