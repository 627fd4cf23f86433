use vstd::prelude::*;

use crate::bytes::le_i16;
use crate::codec::Codec;
use crate::comment_list::{first_value, matches_key, replaced, valid_field_name, without_key, CommentView};
use crate::text::ascii_fold;
use crate::error::Error;
use crate::gain::{
    lemma_decimal_round_trip, decimal_text, fits_i16, parsed_i16, units_to_steps, Decibels, FixedPointGain, R128_LUFS_UNITS,
    UNITS_PER_STEP,
};
use crate::header_rewriter::{CodecHeaders, HeaderRewrite, HeaderSummarize, HeadersView};
use crate::opus::{gain_word, with_gain, TAG_ALBUM_GAIN, TAG_TRACK_GAIN};

verus! {

/// Represents a target gain for an audio stream
#[derive(Debug, Clone, Copy, PartialEq, Eq, Structural)]
pub enum VolumeTarget {
    /// No gain relative to the original stream
    ZeroGain,
    /// A target loudness for a track or album relative to full scale
    LUFS(Decibels),
    /// The gain should remain the same as it already is
    NoChange,
}

/// Whether the output gain is computed from the track's or the album's
/// loudness
#[derive(Debug, Clone, Copy, PartialEq, Eq, Structural)]
pub enum OutputGainMode {
    /// From the album's loudness
    Album,
    /// From the track's loudness
    Track,
}

/// Configuration type for `VolumeHeaderRewrite`
#[derive(Debug, Clone, Copy, PartialEq, Eq, Structural)]
pub struct VolumeRewriterConfig {
    /// The target output gain
    pub output_gain: VolumeTarget,
    /// Whether the rewritten output gain should target track or album volume
    pub output_gain_mode: OutputGainMode,
    /// The pre-computed loudness of the track to be rewritten (if available)
    pub track_volume: Option<Decibels>,
    /// The pre-computed loudness of the album the track belongs to (if available)
    pub album_volume: Option<Decibels>,
}

/// The loudness that the output gain is computed from: the album's in album
/// mode where it is known, else the track's.
pub open spec fn volume_for_output_gain(c: VolumeRewriterConfig) -> Option<Decibels> {
    match c.output_gain_mode {
        OutputGainMode::Album => if c.album_volume is Some {
            c.album_volume
        } else {
            c.track_volume
        },
        OutputGainMode::Track => c.track_volume,
    }
}

impl VolumeRewriterConfig {
    /// A loudness target comes with the loudness it is computed from.
    pub open spec fn wf(&self) -> bool {
        self.output_gain is LUFS ==> volume_for_output_gain(*self) is Some
    }

    /// Computes the source loudness that the output gain calculation uses
    pub fn volume_for_output_gain_calculation(&self) -> (r: Option<Decibels>)
        ensures
            r == volume_for_output_gain(*self),
    {
        match self.output_gain_mode {
            OutputGainMode::Album => if self.album_volume.is_some() {
                self.album_volume
            } else {
                self.track_volume
            },
            OutputGainMode::Track => self.track_volume,
        }
    }
}

/// The new output gain in Q7.8 steps (before the range check), given the
/// current one.
pub open spec fn new_output_gain(c: VolumeRewriterConfig, current: int) -> int {
    match c.output_gain {
        VolumeTarget::ZeroGain => 0,
        VolumeTarget::LUFS(target) => units_to_steps(
            target.units_of() - volume_for_output_gain(c)->Some_0.units_of(),
        ),
        VolumeTarget::NoChange => current,
    }
}

/// The R128 gain in Q7.8 steps that takes a stream of loudness `volume`
/// played with output gain `g` to -23 LUFS.
pub open spec fn r128_gain(volume: Decibels, g: int) -> int {
    units_to_steps(R128_LUFS_UNITS - volume.units_of() - g * UNITS_PER_STEP)
}

/// The comment list with `tag` set for `volume` (or removed without one).
pub open spec fn with_r128_tag(s: Seq<CommentView>, tag: Seq<char>, volume: Option<Decibels>, g: int) -> Seq<
    CommentView,
> {
    match volume {
        Some(v) => replaced(s, tag, decimal_text(r128_gain(v, g))),
        None => without_key(s, tag),
    }
}

/// Does an R128 gain for `volume` at output gain `g` fit?
pub open spec fn r128_fits(volume: Option<Decibels>, g: int) -> bool {
    match volume {
        Some(v) => fits_i16(r128_gain(v, g)),
        None => true,
    }
}

/// The tag names as text.
pub open spec fn track_tag() -> Seq<char> {
    TAG_TRACK_GAIN@
}

/// The tag names as text.
pub open spec fn album_tag() -> Seq<char> {
    TAG_ALBUM_GAIN@
}

/// What the volume rewrite makes of headers `h`.
pub open spec fn volume_rewrite_outcome(c: VolumeRewriterConfig, h: HeadersView) -> Result<HeadersView, Error> {
    let g = new_output_gain(c, le_i16(h.1, 16));
    if h.0 != Codec::Opus {
        Err(Error::UnsupportedCodec(h.0))
    } else if !fits_i16(g) || !r128_fits(c.track_volume, g) || !r128_fits(c.album_volume, g) {
        Err(Error::GainOutOfBounds)
    } else {
        Ok(
            (
                h.0,
                with_gain(h.1, g),
                h.2,
                with_r128_tag(with_r128_tag(h.3, track_tag(), c.track_volume, g), album_tag(), c.album_volume, g),
                h.4,
            ),
        )
    }
}

proof fn lemma_tag_names_valid()
    ensures
        valid_field_name(track_tag()),
        valid_field_name(album_tag()),
{
    reveal_strlit("R128_TRACK_GAIN");
    reveal_strlit("R128_ALBUM_GAIN");
    assert(valid_field_name(track_tag()));
    assert(valid_field_name(album_tag()));
}

/// The comments whose field name matches `key`, in their order.
pub open spec fn only_key(s: Seq<CommentView>, key: Seq<char>) -> Seq<CommentView>
    decreases s.len(),
{
    if s.len() == 0 {
        Seq::empty()
    } else if matches_key(s[0], key) {
        seq![s[0]] + only_key(s.drop_first(), key)
    } else {
        only_key(s.drop_first(), key)
    }
}

proof fn lemma_only_key_without(s: Seq<CommentView>, k: Seq<char>, other: Seq<char>)
    ensures
        only_key(without_key(s, other), k) == (if ascii_fold(k) == ascii_fold(other) {
            Seq::<CommentView>::empty()
        } else {
            only_key(s, k)
        }),
    decreases s.len(),
{
    if s.len() > 0 {
        lemma_only_key_without(s.drop_first(), k, other);
        if !matches_key(s[0], other) {
            assert((seq![s[0]] + without_key(s.drop_first(), other)).drop_first() =~= without_key(s.drop_first(), other));
        }
    }
}

proof fn lemma_only_key_replaced(s: Seq<CommentView>, k: Seq<char>, other: Seq<char>, v: Seq<char>)
    ensures
        ascii_fold(k) != ascii_fold(other) ==> only_key(replaced(s, other, v), k) == only_key(s, k),
        ascii_fold(k) == ascii_fold(other) ==> only_key(replaced(s, other, v), k).len() == 1
            && only_key(replaced(s, other, v), k)[0].1 == v,
    decreases s.len(),
{
    if s.len() == 0 {
        let r = replaced(s, other, v);
        assert(r.drop_first() =~= Seq::<CommentView>::empty());
        assert(only_key(Seq::<CommentView>::empty(), k) =~= Seq::<CommentView>::empty());
        if ascii_fold(k) == ascii_fold(other) {
            assert(only_key(r, k) =~= seq![r[0]]);
        }
    } else if matches_key(s[0], other) {
        let r = replaced(s, other, v);
        let w = without_key(s.drop_first(), other);
        lemma_only_key_without(s.drop_first(), k, other);
        assert(r.drop_first() =~= w);
        assert(r[0] == (s[0].0, v));
        if ascii_fold(k) == ascii_fold(other) {
            assert(only_key(r, k) =~= seq![r[0]] + Seq::<CommentView>::empty());
        }
    } else {
        let r = replaced(s, other, v);
        lemma_only_key_replaced(s.drop_first(), k, other, v);
        assert(r.drop_first() =~= replaced(s.drop_first(), other, v));
        assert(r[0] == s[0]);
    }
}

proof fn lemma_replaced_fixed(x: Seq<CommentView>, k: Seq<char>, v: Seq<char>)
    requires
        only_key(x, k).len() == 1,
        only_key(x, k)[0].1 == v,
    ensures
        replaced(x, k, v) == x,
    decreases x.len(),
{
    if matches_key(x[0], k) {
        assert(only_key(x, k) == seq![x[0]] + only_key(x.drop_first(), k));
        assert(only_key(x.drop_first(), k).len() == 0);
        lemma_without_key_no_match_gone(x.drop_first(), k);
        assert(seq![(x[0].0, v)] + x.drop_first() =~= x);
    } else {
        lemma_replaced_fixed(x.drop_first(), k, v);
        assert(seq![x[0]] + x.drop_first() =~= x);
    }
}

proof fn lemma_without_key_no_match_gone(x: Seq<CommentView>, k: Seq<char>)
    requires
        only_key(x, k).len() == 0,
    ensures
        without_key(x, k) == x,
    decreases x.len(),
{
    if x.len() == 0 {
        assert(without_key(x, k) =~= x);
    } else {
        if matches_key(x[0], k) {
            assert(only_key(x, k).len() > 0);
        }
        lemma_without_key_no_match_gone(x.drop_first(), k);
        assert(seq![x[0]] + x.drop_first() =~= x);
    }
}

proof fn lemma_only_key_of_tag(s: Seq<CommentView>, k: Seq<char>, other: Seq<char>, vol: Option<Decibels>, g: int)
    ensures
        ascii_fold(k) != ascii_fold(other) ==> only_key(with_r128_tag(s, other, vol, g), k) == only_key(s, k),
{
    match vol {
        Some(v) => lemma_only_key_replaced(s, k, other, decimal_text(r128_gain(v, g))),
        None => lemma_only_key_without(s, k, other),
    }
}

proof fn lemma_tag_fixed(x: Seq<CommentView>, k: Seq<char>, vol: Option<Decibels>, g: int)
    requires
        vol is Some ==> only_key(x, k).len() == 1 && only_key(x, k)[0].1 == decimal_text(r128_gain(vol->Some_0, g)),
        vol is None ==> only_key(x, k).len() == 0,
    ensures
        with_r128_tag(x, k, vol, g) == x,
{
    match vol {
        Some(v) => lemma_replaced_fixed(x, k, decimal_text(r128_gain(v, g))),
        None => lemma_without_key_no_match_gone(x, k),
    }
}

proof fn lemma_tag_sets(s: Seq<CommentView>, k: Seq<char>, vol: Option<Decibels>, g: int)
    ensures
        vol is Some ==> only_key(with_r128_tag(s, k, vol, g), k).len() == 1 && only_key(with_r128_tag(s, k, vol, g), k)[0].1
            == decimal_text(r128_gain(vol->Some_0, g)),
        vol is None ==> only_key(with_r128_tag(s, k, vol, g), k).len() == 0,
{
    match vol {
        Some(v) => lemma_only_key_replaced(s, k, k, decimal_text(r128_gain(v, g))),
        None => {
            lemma_only_key_without(s, k, k);
        },
    }
}

proof fn lemma_with_gain_reads_back(id: Seq<u8>, g: int)
    requires
        id.len() >= 18,
        fits_i16(g),
    ensures
        le_i16(with_gain(id, g), 16) == g,
        with_gain(id, g).len() == id.len(),
        with_gain(with_gain(id, g), g) == with_gain(id, g),
{
    let w = with_gain(id, g);
    let u = gain_word(g);
    assert(0 <= u < 65536);
    assert(w[16] == (u % 256) as u8 && w[17] == (u / 256) as u8);
    assert((u % 256) + 256 * (u / 256) == u);
    assert(with_gain(w, g) =~= w);
}

proof fn lemma_tag_names_differ()
    ensures
        ascii_fold(track_tag()) != ascii_fold(album_tag()),
{
    reveal_strlit("R128_TRACK_GAIN");
    reveal_strlit("R128_ALBUM_GAIN");
    assert(ascii_fold(track_tag())[5] != ascii_fold(album_tag())[5]);
}

/// Rewriting the volume of headers that the same rewrite produced changes
/// nothing: a second run reports the headers unchanged.
pub proof fn lemma_volume_rewrite_idempotent(c: VolumeRewriterConfig, h: HeadersView)
    requires
        h.1.len() >= 18,
        volume_rewrite_outcome(c, h) is Ok,
    ensures
        volume_rewrite_outcome(c, volume_rewrite_outcome(c, h)->Ok_0) == volume_rewrite_outcome(c, h),
{
    let g = new_output_gain(c, le_i16(h.1, 16));
    let out = volume_rewrite_outcome(c, h)->Ok_0;
    lemma_with_gain_reads_back(h.1, g);
    assert(new_output_gain(c, le_i16(out.1, 16)) == g);
    lemma_tag_names_differ();
    let y = with_r128_tag(h.3, track_tag(), c.track_volume, g);
    let x = with_r128_tag(y, album_tag(), c.album_volume, g);
    lemma_tag_sets(h.3, track_tag(), c.track_volume, g);
    lemma_only_key_of_tag(y, track_tag(), album_tag(), c.album_volume, g);
    lemma_tag_fixed(x, track_tag(), c.track_volume, g);
    lemma_tag_sets(y, album_tag(), c.album_volume, g);
    lemma_tag_fixed(x, album_tag(), c.album_volume, g);
}

/// After a successful rewrite the output gain is the computed one, and the
/// first value of each R128 tag reads back as the R128 gain of its loudness
/// at that output gain (the tag is absent without a loudness). With a
/// loudness target in track mode the output gain is
/// `round(target - track)`, in album mode (with an album loudness)
/// `round(target - album)`.
pub proof fn lemma_output_gain_equation(c: VolumeRewriterConfig, h: HeadersView)
    requires
        h.1.len() >= 18,
        volume_rewrite_outcome(c, h) is Ok,
    ensures
        ({
            let out = volume_rewrite_outcome(c, h)->Ok_0;
            let g = le_i16(out.1, 16);
            &&& g == new_output_gain(c, le_i16(h.1, 16))
            &&& c.output_gain is LUFS && c.output_gain_mode == OutputGainMode::Track ==> g == units_to_steps(
                c.output_gain->LUFS_0.units_of() - c.track_volume->Some_0.units_of(),
            )
            &&& c.output_gain is LUFS && c.output_gain_mode == OutputGainMode::Album && c.album_volume is Some ==> g
                == units_to_steps(c.output_gain->LUFS_0.units_of() - c.album_volume->Some_0.units_of())
            &&& c.track_volume is Some ==> tag_gain(out.3, track_tag()) == Some(r128_gain(c.track_volume->Some_0, g))
            &&& c.track_volume is None ==> tag_gain(out.3, track_tag()) is None
            &&& c.album_volume is Some ==> tag_gain(out.3, album_tag()) == Some(r128_gain(c.album_volume->Some_0, g))
            &&& c.album_volume is None ==> tag_gain(out.3, album_tag()) is None
        }),
{
    let g = new_output_gain(c, le_i16(h.1, 16));
    lemma_with_gain_reads_back(h.1, g);
    lemma_tag_names_differ();
    let y = with_r128_tag(h.3, track_tag(), c.track_volume, g);
    let x = with_r128_tag(y, album_tag(), c.album_volume, g);
    lemma_tag_sets(h.3, track_tag(), c.track_volume, g);
    lemma_only_key_of_tag(y, track_tag(), album_tag(), c.album_volume, g);
    lemma_tag_sets(y, album_tag(), c.album_volume, g);
    lemma_first_value_only_key(x, track_tag());
    lemma_first_value_only_key(x, album_tag());
    if c.track_volume is Some {
        lemma_decimal_round_trip(r128_gain(c.track_volume->Some_0, g) as i16);
    }
    if c.album_volume is Some {
        lemma_decimal_round_trip(r128_gain(c.album_volume->Some_0, g) as i16);
    }
}

proof fn lemma_first_value_only_key(s: Seq<CommentView>, k: Seq<char>)
    ensures
        only_key(s, k).len() == 0 ==> first_value(s, k) is None,
        only_key(s, k).len() > 0 ==> first_value(s, k) == Some(only_key(s, k)[0].1),
    decreases s.len(),
{
    if s.len() > 0 {
        lemma_first_value_only_key(s.drop_first(), k);
    }
}

/// The header rewrite of the gain normalizer: sets the Opus output gain and
/// the R128 tags.
#[derive(Debug)]
pub struct VolumeHeaderRewrite {
    config: VolumeRewriterConfig,
}

impl VolumeHeaderRewrite {
    /// The configuration in use.
    pub closed spec fn config(&self) -> VolumeRewriterConfig {
        self.config
    }

    /// Constructs the rewrite. A loudness target needs the loudness that the
    /// output gain is computed from.
    pub fn new(config: VolumeRewriterConfig) -> (r: VolumeHeaderRewrite)
        requires
            config.wf(),
        ensures
            r.config() == config,
    {
        VolumeHeaderRewrite { config }
    }

    fn r128_for(volume: Option<Decibels>, g: FixedPointGain) -> (r: Result<Option<FixedPointGain>, Error>)
        ensures
            r is Ok <==> r128_fits(volume, g.raw()),
            r is Ok ==> (r->Ok_0 is Some <==> volume is Some),
            r is Ok && volume is Some ==> r->Ok_0->Some_0.raw() == r128_gain(volume->Some_0, g.raw()),
            r is Err ==> r->Err_0 == Error::GainOutOfBounds,
    {
        match volume {
            None => Ok(None),
            Some(v) => {
                let units: i128 = R128_LUFS_UNITS as i128 - v.as_units() as i128 - g.as_fixed_point() as i128
                    * UNITS_PER_STEP as i128;
                match FixedPointGain::try_from_units(units) {
                    Ok(x) => Ok(Some(x)),
                    Err(e) => Err(e),
                }
            },
        }
    }
}

impl HeaderRewrite for VolumeHeaderRewrite {
    open spec fn ready(&self) -> bool {
        self.config().wf()
    }

    open spec fn rewrite_spec(&self, before: HeadersView) -> Result<HeadersView, Error> {
        volume_rewrite_outcome(self.config(), before)
    }

    fn rewrite(&self, headers: &mut CodecHeaders) -> (r: Result<(), Error>) {
        match headers {
            CodecHeaders::Vorbis(_, _) => Err(Error::UnsupportedCodec(Codec::Vorbis)),
            CodecHeaders::Opus(opus_header, comment_header) => {
                let current = opus_header.get_output_gain();
                let new_gain = match self.config.output_gain {
                    VolumeTarget::ZeroGain => FixedPointGain::from_fixed_point(0),
                    VolumeTarget::LUFS(target) => {
                        let volume = match self.config.volume_for_output_gain_calculation() {
                            Some(v) => v,
                            None => {
                                return Err(Error::GainOutOfBounds);
                            },
                        };
                        let units: i128 = target.as_units() as i128 - volume.as_units() as i128;
                        FixedPointGain::try_from_units(units)?
                    },
                    VolumeTarget::NoChange => current,
                };
                let track = Self::r128_for(self.config.track_volume, new_gain)?;
                let album = Self::r128_for(self.config.album_volume, new_gain)?;
                opus_header.set_output_gain(new_gain);
                proof {
                    lemma_tag_names_valid();
                }
                let list = comment_header.comments_mut();
                match track {
                    Some(g) => {
                        let _ = list.set_tag_to_gain(TAG_TRACK_GAIN, g);
                    },
                    None => list.remove_all(TAG_TRACK_GAIN),
                }
                match album {
                    Some(g) => {
                        let _ = list.set_tag_to_gain(TAG_ALBUM_GAIN, g);
                    },
                    None => list.remove_all(TAG_ALBUM_GAIN),
                }
                Ok(())
            },
        }
    }
}

/// The gain values of an Opus file
#[derive(Debug, Clone, Copy, PartialEq, Eq, Structural)]
pub struct OpusGains {
    /// The output gain that is always applied to the decoded audio
    pub output: Decibels,
    /// The track gain from the comment header to reach -23 LUFS
    pub track_r128: Option<Decibels>,
    /// The album gain from the comment header to reach -23 LUFS
    pub album_r128: Option<Decibels>,
}

/// The gain that an R128 tag holds: absent or unparsable is `None`.
pub open spec fn tag_gain(s: Seq<CommentView>, tag: Seq<char>) -> Option<int> {
    match first_value(s, tag) {
        None => None,
        Some(v) => match parsed_i16(v) {
            None => None,
            Some(g) => Some(g as int),
        },
    }
}

/// Does an optional loudness hold the Q7.8 value `g`?
pub open spec fn holds_steps(d: Option<Decibels>, g: Option<int>) -> bool {
    match g {
        None => d is None,
        Some(x) => d is Some && d->Some_0.units_of() == x * UNITS_PER_STEP,
    }
}

/// Returns the gains from the codec headers
#[derive(Debug)]
pub struct GainsSummary {}

impl HeaderSummarize for GainsSummary {
    type Summary = OpusGains;

    open spec fn summarizes(&self, h: HeadersView, s: OpusGains) -> bool {
        &&& s.output.units_of() == le_i16(h.1, 16) * UNITS_PER_STEP
        &&& holds_steps(s.track_r128, tag_gain(h.3, track_tag()))
        &&& holds_steps(s.album_r128, tag_gain(h.3, album_tag()))
    }

    open spec fn summary_error(&self, h: HeadersView) -> Option<Error> {
        if h.0 == Codec::Opus {
            None
        } else {
            Some(Error::UnsupportedCodec(h.0))
        }
    }

    fn summarize(&self, headers: &CodecHeaders) -> (r: Result<OpusGains, Error>) {
        match headers {
            CodecHeaders::Opus(opus_header, comment_header) => {
                let list = comment_header.comments();
                let track = match list.get_gain_from_tag(TAG_TRACK_GAIN) {
                    Ok(Some(g)) => Some(g.as_decibels()),
                    _ => None,
                };
                let album = match list.get_gain_from_tag(TAG_ALBUM_GAIN) {
                    Ok(Some(g)) => Some(g.as_decibels()),
                    _ => None,
                };
                Ok(OpusGains { output: opus_header.get_output_gain().as_decibels(), track_r128: track, album_r128: album })
            },
            CodecHeaders::Vorbis(_, _) => Err(Error::UnsupportedCodec(Codec::Vorbis)),
        }
    }
}

} // verus!
