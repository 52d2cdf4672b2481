//! Chunks of audio samples and the layers that rework them.
//!
//! Samples are interleaved: with two channels the left sample of a frame is
//! followed by its right sample.

use vstd::prelude::*;

verus! {

/// The number of samples that a source hands out at once.
pub const SAMPLES_PER_CHUNK: usize = 20000;

/// Some amount of audio: anything from a single sample to a whole file.
pub struct AudioChunk {
    channel_count: u32,
    sample_rate: u32,
    buffer: Vec<i16>,
}

/// The mathematical content of an [`AudioChunk`].
pub struct AudioChunkView {
    pub channel_count: u32,
    pub sample_rate: u32,
    pub buffer: Seq<i16>,
}

impl View for AudioChunk {
    type V = AudioChunkView;

    closed spec fn view(&self) -> AudioChunkView {
        AudioChunkView {
            channel_count: self.channel_count,
            sample_rate: self.sample_rate,
            buffer: self.buffer@,
        }
    }
}

impl AudioChunk {
    /// An empty chunk of one channel at 44.1 kHz.
    pub fn new() -> (chunk: AudioChunk)
        ensures
            chunk@ == (AudioChunkView {
                channel_count: 1,
                sample_rate: 44_100,
                buffer: Seq::empty(),
            }),
    {
        AudioChunk { channel_count: 1, sample_rate: 44_100, buffer: Vec::new() }
    }

    /// A chunk of the given samples.
    pub fn new_from_data(channel_count: u32, sample_rate: u32, buffer: Vec<i16>) -> (chunk:
        AudioChunk)
        ensures
            chunk@ == (AudioChunkView { channel_count, sample_rate, buffer: buffer@ }),
    {
        AudioChunk { channel_count, sample_rate, buffer }
    }

    /// The number of interleaved channels.
    pub fn channel_count(&self) -> (n: u32)
        ensures
            n == self@.channel_count,
    {
        self.channel_count
    }

    /// The number of frames per second.
    pub fn sample_rate(&self) -> (rate: u32)
        ensures
            rate == self@.sample_rate,
    {
        self.sample_rate
    }

    /// The samples.
    pub fn buffer(&self) -> (samples: &Vec<i16>)
        ensures
            samples@ == self@.buffer,
    {
        &self.buffer
    }

    /// The samples, to be changed in place: whatever the caller leaves there
    /// is the chunk's buffer afterwards, and nothing else changes.
    pub fn buffer_mut(&mut self) -> (samples: &mut Vec<i16>)
        ensures
            samples@ == old(self)@.buffer,
            final(self)@ == (AudioChunkView { buffer: final(samples)@, ..old(self)@ }),
    {
        &mut self.buffer
    }
}

/// The samples of `before` with the two samples of every complete pair
/// exchanged; a last sample without a partner stays where it is.
pub open spec fn swapped_pairs(before: Seq<i16>) -> Seq<i16> {
    Seq::new(
        before.len(),
        |i: int|
            if i % 2 == 0 {
                if i + 1 < before.len() {
                    before[i + 1]
                } else {
                    before[i]
                }
            } else {
                before[i - 1]
            },
    )
}

/// Something that reworks a chunk in place; what was there is lost.
pub trait AudioLayer {
    /// What the layer makes of a chunk.
    spec fn modulated(&self, chunk: AudioChunkView) -> AudioChunkView;

    /// Reworks `chunk`.
    fn modulate_chunk(&mut self, chunk: &mut AudioChunk)
        ensures
            final(chunk)@ == old(self).modulated(old(chunk)@),
    ;
}

/// The layer that changes nothing.
pub struct PassthroughLayer {}

impl AudioLayer for PassthroughLayer {
    open spec fn modulated(&self, chunk: AudioChunkView) -> AudioChunkView {
        chunk
    }

    fn modulate_chunk(&mut self, chunk: &mut AudioChunk) {
    }
}

/// The layer that exchanges the left and the right channel.
pub struct SwapLRLayer {}

impl AudioLayer for SwapLRLayer {
    open spec fn modulated(&self, chunk: AudioChunkView) -> AudioChunkView {
        AudioChunkView { buffer: swapped_pairs(chunk.buffer), ..chunk }
    }

    fn modulate_chunk(&mut self, chunk: &mut AudioChunk) {
        let n: usize = chunk.buffer.len();
        let mut i: usize = 0;
        while i + 1 < n
            invariant
                i % 2 == 0,
                n == chunk.buffer@.len(),
                n == old(chunk).buffer@.len(),
                chunk.channel_count == old(chunk).channel_count,
                chunk.sample_rate == old(chunk).sample_rate,
                forall|k: int|
                    0 <= k < i && k < n ==> chunk.buffer@[k] == swapped_pairs(
                        old(chunk).buffer@,
                    )[k],
                forall|k: int| i <= k < n ==> chunk.buffer@[k] == old(chunk).buffer@[k],
            decreases n - i,
        {
            let left: i16 = chunk.buffer[i];
            let right: i16 = chunk.buffer[i + 1];
            chunk.buffer[i] = right;
            chunk.buffer[i + 1] = left;
            i = i + 2;
        }
        proof {
            assert(chunk.buffer@ =~= swapped_pairs(old(chunk).buffer@));
        }
    }
}

/// A source that plays a chunk from its beginning to its end.
pub struct FileSource {
    data: AudioChunk,
    play_head: usize,
}

/// The mathematical content of a [`FileSource`].
pub struct FileSourceView {
    pub data: AudioChunkView,
    /// How many samples have been handed out.
    pub play_head: nat,
}

impl View for FileSource {
    type V = FileSourceView;

    closed spec fn view(&self) -> FileSourceView {
        FileSourceView { data: self.data@, play_head: self.play_head as nat }
    }
}

impl FileSourceView {
    /// The play head never passes the end of the samples.
    pub open spec fn wf(self) -> bool {
        self.play_head <= self.data.buffer.len()
    }

    /// How many samples the next call hands out.
    pub open spec fn next_size(self) -> nat {
        let remaining = self.data.buffer.len() - self.play_head;
        if remaining >= SAMPLES_PER_CHUNK {
            SAMPLES_PER_CHUNK as nat
        } else {
            remaining as nat
        }
    }
}

impl FileSource {
    #[verifier::type_invariant]
    spec fn play_head_in_bounds(&self) -> bool {
        self.play_head <= self.data.buffer@.len()
    }

    /// A source over what was loaded from a file, or over an empty chunk
    /// where nothing could be loaded.
    pub fn new(loaded: Option<AudioChunk>) -> (source: FileSource)
        ensures
            source@.wf(),
            source@.play_head == 0,
            source@.data == match loaded {
                Some(chunk) => chunk@,
                None => (AudioChunkView {
                    channel_count: 1,
                    sample_rate: 44_100,
                    buffer: Seq::empty(),
                }),
            },
    {
        match loaded {
            Some(data) => FileSource { data, play_head: 0 },
            None => FileSource { data: AudioChunk::new(), play_head: 0 },
        }
    }

    /// Seeking does nothing: a source plays until it ends.
    pub fn seek(&mut self, _millis: u64)
        ensures
            final(self)@ == old(self)@,
    {
    }

    /// Hands out the next samples: where they start in the buffer, where
    /// they end, and whether more will follow. The play head moves behind
    /// them.
    pub fn get_data(&mut self) -> (r: (usize, usize, bool))
        ensures
            old(self)@.wf(),
            final(self)@.wf(),
            r.0 == old(self)@.play_head,
            r.1 == old(self)@.play_head + old(self)@.next_size(),
            r.2 == (old(self)@.data.buffer.len() - old(self)@.play_head >= SAMPLES_PER_CHUNK),
            final(self)@ == (FileSourceView { play_head: r.1 as nat, ..old(self)@ }),
    {
        proof {
            use_type_invariant(&*self);
        }
        let remaining: usize = self.data.buffer.len() - self.play_head;
        let keep_playing = remaining >= SAMPLES_PER_CHUNK;
        let size: usize = if keep_playing {
            SAMPLES_PER_CHUNK
        } else {
            remaining
        };
        let start: usize = self.play_head;
        let end: usize = start + size;
        self.play_head = end;
        (start, end, keep_playing)
    }

    /// The chunk that is played.
    pub fn data(&self) -> (chunk: &AudioChunk)
        ensures
            chunk@ == self@.data,
    {
        &self.data
    }

    /// The number of interleaved channels.
    pub fn channel_count(&self) -> (n: u32)
        ensures
            n == self@.data.channel_count,
    {
        self.data.channel_count()
    }

    /// The number of frames per second.
    pub fn sample_rate(&self) -> (rate: u32)
        ensures
            rate == self@.data.sample_rate,
    {
        self.data.sample_rate()
    }
}

} // verus!
