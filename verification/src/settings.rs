//! Conversion settings: the presets a user cycles through, the output
//! directory suggestions, and `~` expansion against the home directory.
use vstd::prelude::*;
use crate::path::{join_path, path_join};
use crate::text::{chars_of, push_chars, push_decimal, decimal, starts_with, string_of_range};

verus! {

// ---------------------------------------------------------------------------
// Scale
// ---------------------------------------------------------------------------

/// Scale presets for easy selection.
#[derive(Debug, Clone, Copy, PartialEq, Eq, Structural)]
pub enum Scale {
    /// Keep original size
    Original,
    /// Scale to 75% of original
    Percent75,
    /// Scale to 50% of original
    Percent50,
    /// Scale to 33% of original
    Percent33,
    /// Scale to 25% of original
    Percent25,
    /// Scale to 720p height
    H720,
    /// Scale to 480p height
    H480,
    /// Scale to 360p height
    H360,
    /// Scale to 240p height
    H240,
}

impl Scale {
    /// The label shown for this preset.
    pub open spec fn label(self) -> Seq<char> {
        match self {
            Scale::Original => "Original"@,
            Scale::Percent75 => "75%"@,
            Scale::Percent50 => "50%"@,
            Scale::Percent33 => "33%"@,
            Scale::Percent25 => "25%"@,
            Scale::H720 => "720p"@,
            Scale::H480 => "480p"@,
            Scale::H360 => "360p"@,
            Scale::H240 => "240p"@,
        }
    }

    /// The preset after this one, wrapping from the last to the first.
    pub open spec fn succ(self) -> Scale {
        match self {
            Scale::Original => Scale::Percent75,
            Scale::Percent75 => Scale::Percent50,
            Scale::Percent50 => Scale::Percent33,
            Scale::Percent33 => Scale::Percent25,
            Scale::Percent25 => Scale::H720,
            Scale::H720 => Scale::H480,
            Scale::H480 => Scale::H360,
            Scale::H360 => Scale::H240,
            Scale::H240 => Scale::Original,
        }
    }

    /// The preset before this one, wrapping from the first to the last.
    pub open spec fn pred(self) -> Scale {
        match self {
            Scale::Original => Scale::H240,
            Scale::Percent75 => Scale::Original,
            Scale::Percent50 => Scale::Percent75,
            Scale::Percent33 => Scale::Percent50,
            Scale::Percent25 => Scale::Percent33,
            Scale::H720 => Scale::Percent25,
            Scale::H480 => Scale::H720,
            Scale::H360 => Scale::H480,
            Scale::H240 => Scale::H360,
        }
    }

    /// The FFmpeg scale filter for this preset; none for the original size.
    pub open spec fn scale_filter(self) -> Option<Seq<char>> {
        match self {
            Scale::Original => None,
            Scale::Percent75 => Some("scale=iw*0.75:ih*0.75:flags=lanczos"@),
            Scale::Percent50 => Some("scale=iw*0.5:ih*0.5:flags=lanczos"@),
            Scale::Percent33 => Some("scale=iw*0.33:ih*0.33:flags=lanczos"@),
            Scale::Percent25 => Some("scale=iw*0.25:ih*0.25:flags=lanczos"@),
            Scale::H720 => Some("scale=-1:720:flags=lanczos"@),
            Scale::H480 => Some("scale=-1:480:flags=lanczos"@),
            Scale::H360 => Some("scale=-1:360:flags=lanczos"@),
            Scale::H240 => Some("scale=-1:240:flags=lanczos"@),
        }
    }

    pub fn as_str(&self) -> (r: &'static str)
        ensures
            r@ == self.label(),
    {
        match self {
            Scale::Original => "Original",
            Scale::Percent75 => "75%",
            Scale::Percent50 => "50%",
            Scale::Percent33 => "33%",
            Scale::Percent25 => "25%",
            Scale::H720 => "720p",
            Scale::H480 => "480p",
            Scale::H360 => "360p",
            Scale::H240 => "240p",
        }
    }

    pub fn next(&self) -> (r: Self)
        ensures
            r == self.succ(),
    {
        match self {
            Scale::Original => Scale::Percent75,
            Scale::Percent75 => Scale::Percent50,
            Scale::Percent50 => Scale::Percent33,
            Scale::Percent33 => Scale::Percent25,
            Scale::Percent25 => Scale::H720,
            Scale::H720 => Scale::H480,
            Scale::H480 => Scale::H360,
            Scale::H360 => Scale::H240,
            Scale::H240 => Scale::Original,
        }
    }

    pub fn prev(&self) -> (r: Self)
        ensures
            r == self.pred(),
    {
        match self {
            Scale::Original => Scale::H240,
            Scale::Percent75 => Scale::Original,
            Scale::Percent50 => Scale::Percent75,
            Scale::Percent33 => Scale::Percent50,
            Scale::Percent25 => Scale::Percent33,
            Scale::H720 => Scale::Percent25,
            Scale::H480 => Scale::H720,
            Scale::H360 => Scale::H480,
            Scale::H240 => Scale::H360,
        }
    }

    /// Get the FFmpeg scale filter string
    pub fn ffmpeg_scale(&self) -> (r: Option<String>)
        ensures
            r.deep_view() == self.scale_filter(),
    {
        match self {
            Scale::Original => None,
            Scale::Percent75 => Some(String::from_str("scale=iw*0.75:ih*0.75:flags=lanczos")),
            Scale::Percent50 => Some(String::from_str("scale=iw*0.5:ih*0.5:flags=lanczos")),
            Scale::Percent33 => Some(String::from_str("scale=iw*0.33:ih*0.33:flags=lanczos")),
            Scale::Percent25 => Some(String::from_str("scale=iw*0.25:ih*0.25:flags=lanczos")),
            Scale::H720 => Some(String::from_str("scale=-1:720:flags=lanczos")),
            Scale::H480 => Some(String::from_str("scale=-1:480:flags=lanczos")),
            Scale::H360 => Some(String::from_str("scale=-1:360:flags=lanczos")),
            Scale::H240 => Some(String::from_str("scale=-1:240:flags=lanczos")),
        }
    }
}

impl Default for Scale {
    fn default() -> (r: Self)
        ensures
            r == Scale::Percent50,
    {
        Scale::Percent50
    }
}

// ---------------------------------------------------------------------------
// Quality
// ---------------------------------------------------------------------------

#[derive(Debug, Clone, Copy, PartialEq, Eq, Structural)]
pub enum Quality {
    Low,
    Medium,
    High,
}

impl Quality {
    /// The label shown for this preset.
    pub open spec fn label(self) -> Seq<char> {
        match self {
            Quality::Low => "Low"@,
            Quality::Medium => "Medium"@,
            Quality::High => "High"@,
        }
    }

    /// The preset after this one, wrapping from the last to the first.
    pub open spec fn succ(self) -> Quality {
        match self {
            Quality::Low => Quality::Medium,
            Quality::Medium => Quality::High,
            Quality::High => Quality::Low,
        }
    }

    /// The preset before this one, wrapping from the first to the last.
    pub open spec fn pred(self) -> Quality {
        match self {
            Quality::Low => Quality::High,
            Quality::Medium => Quality::Low,
            Quality::High => Quality::Medium,
        }
    }

    /// The dithering option of FFmpeg's `paletteuse` filter for this preset.
    pub open spec fn dither(self) -> Seq<char> {
        match self {
            Quality::Low => "bayer:bayer_scale=5"@,
            Quality::Medium => "sierra2_4a"@,
            Quality::High => "floyd_steinberg"@,
        }
    }

    pub fn as_str(&self) -> (r: &'static str)
        ensures
            r@ == self.label(),
    {
        match self {
            Quality::Low => "Low",
            Quality::Medium => "Medium",
            Quality::High => "High",
        }
    }

    pub fn next(&self) -> (r: Self)
        ensures
            r == self.succ(),
    {
        match self {
            Quality::Low => Quality::Medium,
            Quality::Medium => Quality::High,
            Quality::High => Quality::Low,
        }
    }

    pub fn prev(&self) -> (r: Self)
        ensures
            r == self.pred(),
    {
        match self {
            Quality::Low => Quality::High,
            Quality::Medium => Quality::Low,
            Quality::High => Quality::Medium,
        }
    }

    /// Get dithering option for ffmpeg paletteuse filter
    pub fn dither_option(&self) -> (r: &'static str)
        ensures
            r@ == self.dither(),
    {
        match self {
            Quality::Low => "bayer:bayer_scale=5",
            Quality::Medium => "sierra2_4a",
            Quality::High => "floyd_steinberg",
        }
    }
}

impl Default for Quality {
    fn default() -> (r: Self)
        ensures
            r == Quality::Medium,
    {
        Quality::Medium
    }
}

// ---------------------------------------------------------------------------
// LoopCount
// ---------------------------------------------------------------------------

#[derive(Debug, Clone, Copy, PartialEq, Eq, Structural)]
pub enum LoopCount {
    Infinite,
    Once,
    Count(u32),
}

impl LoopCount {
    /// The label shown for this setting.
    pub open spec fn label(self) -> Seq<char> {
        match self {
            LoopCount::Infinite => "Infinite"@,
            LoopCount::Once => "Once"@,
            LoopCount::Count(n) => decimal(n as nat).push('x'),
        }
    }

    /// The setting after this one: Infinite, Once, 2x up to 10x, then Infinite again.
    pub open spec fn succ(self) -> LoopCount {
        match self {
            LoopCount::Infinite => LoopCount::Once,
            LoopCount::Once => LoopCount::Count(2),
            LoopCount::Count(n) => if n >= 10 {
                LoopCount::Infinite
            } else {
                LoopCount::Count((n + 1) as u32)
            },
        }
    }

    /// The setting before this one: the cycle of `succ` run backwards.
    pub open spec fn pred(self) -> LoopCount
        recommends
            self != LoopCount::Count(0),
    {
        match self {
            LoopCount::Infinite => LoopCount::Count(10),
            LoopCount::Once => LoopCount::Infinite,
            LoopCount::Count(n) => if n == 2 {
                LoopCount::Once
            } else {
                LoopCount::Count((n - 1) as u32)
            },
        }
    }

    /// The value of FFmpeg's `-loop` option: 0 loops forever, -1 plays once,
    /// n repeats n times (the count read as an `i32`).
    pub open spec fn loop_value(self) -> i32 {
        match self {
            LoopCount::Infinite => 0i32,
            LoopCount::Once => -1i32,
            LoopCount::Count(n) => n as i32,
        }
    }

    pub fn as_str(&self) -> (r: String)
        ensures
            r@ == self.label(),
    {
        match self {
            LoopCount::Infinite => String::from_str("Infinite"),
            LoopCount::Once => String::from_str("Once"),
            LoopCount::Count(n) => {
                let mut s = String::new();
                push_decimal(&mut s, *n as u64);
                crate::text::push_char(&mut s, 'x');
                s
            },
        }
    }

    pub fn next(&self) -> (r: Self)
        ensures
            r == self.succ(),
    {
        match self {
            LoopCount::Infinite => LoopCount::Once,
            LoopCount::Once => LoopCount::Count(2),
            LoopCount::Count(n) => if *n >= 10 {
                LoopCount::Infinite
            } else {
                LoopCount::Count(*n + 1)
            },
        }
    }

    /// The setting before this one. Stepping back from `Count(0)` would
    /// underflow the count, so it is left out.
    pub fn prev(&self) -> (r: Self)
        requires
            *self != LoopCount::Count(0),
        ensures
            r == self.pred(),
    {
        match self {
            LoopCount::Infinite => LoopCount::Count(10),
            LoopCount::Once => LoopCount::Infinite,
            LoopCount::Count(n) => if *n == 2 {
                LoopCount::Once
            } else {
                LoopCount::Count(*n - 1)
            },
        }
    }

    /// Get the -loop value for ffmpeg (0 = infinite, -1 = no loop, n = loop n times)
    pub fn ffmpeg_loop_value(&self) -> (r: i32)
        ensures
            r == self.loop_value(),
    {
        match self {
            LoopCount::Infinite => 0,
            LoopCount::Once => -1,
            LoopCount::Count(n) => *n as i32,
        }
    }
}

impl Default for LoopCount {
    fn default() -> (r: Self)
        ensures
            r == LoopCount::Infinite,
    {
        LoopCount::Infinite
    }
}

// ---------------------------------------------------------------------------
// FpsPreset
// ---------------------------------------------------------------------------

/// FPS presets for easy selection.
#[derive(Debug, Clone, Copy, PartialEq, Eq, Structural)]
pub enum FpsPreset {
    Fps5,
    Fps10,
    Fps15,
    Fps20,
    Fps24,
    Fps30,
}

impl FpsPreset {
    /// Frames per second of this preset.
    pub open spec fn fps(self) -> u8 {
        match self {
            FpsPreset::Fps5 => 5,
            FpsPreset::Fps10 => 10,
            FpsPreset::Fps15 => 15,
            FpsPreset::Fps20 => 20,
            FpsPreset::Fps24 => 24,
            FpsPreset::Fps30 => 30,
        }
    }

    /// The label shown for this preset.
    pub open spec fn label(self) -> Seq<char> {
        match self {
            FpsPreset::Fps5 => "5"@,
            FpsPreset::Fps10 => "10"@,
            FpsPreset::Fps15 => "15"@,
            FpsPreset::Fps20 => "20"@,
            FpsPreset::Fps24 => "24"@,
            FpsPreset::Fps30 => "30"@,
        }
    }

    /// The preset after this one, wrapping from the last to the first.
    pub open spec fn succ(self) -> FpsPreset {
        match self {
            FpsPreset::Fps5 => FpsPreset::Fps10,
            FpsPreset::Fps10 => FpsPreset::Fps15,
            FpsPreset::Fps15 => FpsPreset::Fps20,
            FpsPreset::Fps20 => FpsPreset::Fps24,
            FpsPreset::Fps24 => FpsPreset::Fps30,
            FpsPreset::Fps30 => FpsPreset::Fps5,
        }
    }

    /// The preset before this one, wrapping from the first to the last.
    pub open spec fn pred(self) -> FpsPreset {
        match self {
            FpsPreset::Fps5 => FpsPreset::Fps30,
            FpsPreset::Fps10 => FpsPreset::Fps5,
            FpsPreset::Fps15 => FpsPreset::Fps10,
            FpsPreset::Fps20 => FpsPreset::Fps15,
            FpsPreset::Fps24 => FpsPreset::Fps20,
            FpsPreset::Fps30 => FpsPreset::Fps24,
        }
    }

    pub fn as_str(&self) -> (r: &'static str)
        ensures
            r@ == self.label(),
    {
        match self {
            FpsPreset::Fps5 => "5",
            FpsPreset::Fps10 => "10",
            FpsPreset::Fps15 => "15",
            FpsPreset::Fps20 => "20",
            FpsPreset::Fps24 => "24",
            FpsPreset::Fps30 => "30",
        }
    }

    pub fn value(&self) -> (r: u8)
        ensures
            r == self.fps(),
    {
        match self {
            FpsPreset::Fps5 => 5,
            FpsPreset::Fps10 => 10,
            FpsPreset::Fps15 => 15,
            FpsPreset::Fps20 => 20,
            FpsPreset::Fps24 => 24,
            FpsPreset::Fps30 => 30,
        }
    }

    pub fn next(&self) -> (r: Self)
        ensures
            r == self.succ(),
    {
        match self {
            FpsPreset::Fps5 => FpsPreset::Fps10,
            FpsPreset::Fps10 => FpsPreset::Fps15,
            FpsPreset::Fps15 => FpsPreset::Fps20,
            FpsPreset::Fps20 => FpsPreset::Fps24,
            FpsPreset::Fps24 => FpsPreset::Fps30,
            FpsPreset::Fps30 => FpsPreset::Fps5,
        }
    }

    pub fn prev(&self) -> (r: Self)
        ensures
            r == self.pred(),
    {
        match self {
            FpsPreset::Fps5 => FpsPreset::Fps30,
            FpsPreset::Fps10 => FpsPreset::Fps5,
            FpsPreset::Fps15 => FpsPreset::Fps10,
            FpsPreset::Fps20 => FpsPreset::Fps15,
            FpsPreset::Fps24 => FpsPreset::Fps20,
            FpsPreset::Fps30 => FpsPreset::Fps24,
        }
    }
}

impl Default for FpsPreset {
    fn default() -> (r: Self)
        ensures
            r == FpsPreset::Fps10,
    {
        FpsPreset::Fps10
    }
}

// ---------------------------------------------------------------------------
// Cycling presets
// ---------------------------------------------------------------------------

/// Stepping a scale preset forward and then back, or back and then forward,
/// returns to it; nine steps forward visit every preset and come back.
pub proof fn lemma_scale_cycle(s: Scale)
    ensures
        s.succ().pred() == s,
        s.pred().succ() == s,
        s.succ().succ().succ().succ().succ().succ().succ().succ().succ() == s,
{
}

/// Stepping a quality preset forward and then back, or back and then forward,
/// returns to it; three steps forward come back.
pub proof fn lemma_quality_cycle(q: Quality)
    ensures
        q.succ().pred() == q,
        q.pred().succ() == q,
        q.succ().succ().succ() == q,
{
}

/// Stepping a frame rate preset forward and then back, or back and then
/// forward, returns to it; six steps forward come back.
pub proof fn lemma_fps_cycle(f: FpsPreset)
    ensures
        f.succ().pred() == f,
        f.pred().succ() == f,
        f.succ().succ().succ().succ().succ().succ() == f,
{
}

/// The factor written for a percentage given by its two digits: `0.` and
/// the digits, without a trailing zero (`75` gives `0.75`, `50` gives `0.5`).
pub open spec fn percent_factor(digits: Seq<char>) -> Seq<char> {
    if digits.len() > 0 && digits.last() == '0' {
        "0."@ + digits.drop_last()
    } else {
        "0."@ + digits
    }
}

/// Each scale preset's filter follows from its label: a height preset
/// (label `Np`) scales to height N keeping the aspect ratio, a percent preset
/// (label `N%`) scales width and height by N percent, and the original size
/// has no scale filter.
pub proof fn lemma_scale_filter_follows_label(s: Scale)
    ensures
        s.label().len() > 0,
        s.label().last() == 'p' ==> s.scale_filter() == Some(
            "scale=-1:"@ + s.label().drop_last() + ":flags=lanczos"@,
        ),
        s.label().last() == '%' ==> s.scale_filter() == Some(
            "scale=iw*"@ + percent_factor(s.label().drop_last()) + ":ih*"@ + percent_factor(
                s.label().drop_last(),
            ) + ":flags=lanczos"@,
        ),
        s.label().last() != 'p' && s.label().last() != '%' ==> s.label() == "Original"@ && s
            == Scale::Original,
        (s.scale_filter() is None) == (s == Scale::Original),
{
    reveal_strlit("Original");
    reveal_strlit("75%");
    reveal_strlit("50%");
    reveal_strlit("33%");
    reveal_strlit("25%");
    reveal_strlit("720p");
    reveal_strlit("480p");
    reveal_strlit("360p");
    reveal_strlit("240p");
    reveal_strlit("0.");
    reveal_strlit("scale=-1:");
    reveal_strlit("scale=iw*");
    reveal_strlit(":ih*");
    reveal_strlit(":flags=lanczos");
    reveal_strlit("scale=iw*0.75:ih*0.75:flags=lanczos");
    reveal_strlit("scale=iw*0.5:ih*0.5:flags=lanczos");
    reveal_strlit("scale=iw*0.33:ih*0.33:flags=lanczos");
    reveal_strlit("scale=iw*0.25:ih*0.25:flags=lanczos");
    reveal_strlit("scale=-1:720:flags=lanczos");
    reveal_strlit("scale=-1:480:flags=lanczos");
    reveal_strlit("scale=-1:360:flags=lanczos");
    reveal_strlit("scale=-1:240:flags=lanczos");
    match s {
        Scale::Original => {},
        Scale::Percent75 => {
            assert(s.scale_filter()->0 =~= "scale=iw*"@ + percent_factor(s.label().drop_last())
                + ":ih*"@ + percent_factor(s.label().drop_last()) + ":flags=lanczos"@);
        },
        Scale::Percent50 => {
            assert(s.scale_filter()->0 =~= "scale=iw*"@ + percent_factor(s.label().drop_last())
                + ":ih*"@ + percent_factor(s.label().drop_last()) + ":flags=lanczos"@);
        },
        Scale::Percent33 => {
            assert(s.scale_filter()->0 =~= "scale=iw*"@ + percent_factor(s.label().drop_last())
                + ":ih*"@ + percent_factor(s.label().drop_last()) + ":flags=lanczos"@);
        },
        Scale::Percent25 => {
            assert(s.scale_filter()->0 =~= "scale=iw*"@ + percent_factor(s.label().drop_last())
                + ":ih*"@ + percent_factor(s.label().drop_last()) + ":flags=lanczos"@);
        },
        _ => {
            assert(s.scale_filter()->0 =~= "scale=-1:"@ + s.label().drop_last()
                + ":flags=lanczos"@);
        },
    }
}

/// Stepping the scale forward goes through the presets in the order shown:
/// Original, 75%, 50%, 33%, 25%, 720p, 480p, 360p, 240p, and back to Original.
pub proof fn lemma_scale_order()
    ensures
        Scale::Original.label() == "Original"@,
        Scale::Original.succ().label() == "75%"@,
        Scale::Original.succ().succ().label() == "50%"@,
        Scale::Original.succ().succ().succ().label() == "33%"@,
        Scale::Original.succ().succ().succ().succ().label() == "25%"@,
        Scale::Original.succ().succ().succ().succ().succ().label() == "720p"@,
        Scale::Original.succ().succ().succ().succ().succ().succ().label() == "480p"@,
        Scale::Original.succ().succ().succ().succ().succ().succ().succ().label() == "360p"@,
        Scale::Original.succ().succ().succ().succ().succ().succ().succ().succ().label()
            == "240p"@,
        Scale::Original.succ().succ().succ().succ().succ().succ().succ().succ().succ()
            == Scale::Original,
{
}

/// The frame rate presets are labelled with their frames per second, and
/// stepping forward goes 5, 10, 15, 20, 24, 30 and back to 5.
pub proof fn lemma_fps_presets(f: FpsPreset)
    ensures
        f.label() == decimal(f.fps() as nat),
        FpsPreset::Fps5.fps() == 5,
        FpsPreset::Fps5.succ().fps() == 10,
        FpsPreset::Fps5.succ().succ().fps() == 15,
        FpsPreset::Fps5.succ().succ().succ().fps() == 20,
        FpsPreset::Fps5.succ().succ().succ().succ().fps() == 24,
        FpsPreset::Fps5.succ().succ().succ().succ().succ().fps() == 30,
        FpsPreset::Fps5.succ().succ().succ().succ().succ().succ() == FpsPreset::Fps5,
{
    reveal_strlit("5");
    reveal_strlit("10");
    reveal_strlit("15");
    reveal_strlit("20");
    reveal_strlit("24");
    reveal_strlit("30");
    reveal_with_fuel(decimal, 2);
    assert(f.label() =~= decimal(f.fps() as nat));
}

/// Quality goes Low, Medium, High and back to Low; low quality dithers with
/// an ordered Bayer pattern, medium with Sierra-2-4A error diffusion, and
/// high with Floyd-Steinberg error diffusion.
pub proof fn lemma_quality_presets(q: Quality)
    ensures
        Quality::Low.label() == "Low"@,
        Quality::Low.succ().label() == "Medium"@,
        Quality::Low.succ().succ().label() == "High"@,
        Quality::Low.succ().succ().succ() == Quality::Low,
        q.label() == "Low"@ ==> q.dither() == "bayer:bayer_scale=5"@,
        q.label() == "Medium"@ ==> q.dither() == "sierra2_4a"@,
        q.label() == "High"@ ==> q.dither() == "floyd_steinberg"@,
{
    reveal_strlit("Low");
    reveal_strlit("Medium");
    reveal_strlit("High");
}

/// Looping goes Infinite, Once, 2x, 3x, ... 10x and back to Infinite; FFmpeg
/// is told 0 to loop forever, -1 to play once, and n to repeat n times.
pub proof fn lemma_loop_presets(l: LoopCount)
    ensures
        LoopCount::Infinite.label() == "Infinite"@,
        LoopCount::Infinite.succ().label() == "Once"@,
        LoopCount::Infinite.succ().succ() == LoopCount::Count(2),
        forall|n: u32| 2 <= n < 10 ==> #[trigger] LoopCount::Count(n).succ() == LoopCount::Count(
            (n + 1) as u32,
        ),
        LoopCount::Count(10).succ() == LoopCount::Infinite,
        l is Count ==> l.label() == decimal(l->Count_0 as nat) + "x"@,
        LoopCount::Infinite.loop_value() == 0,
        LoopCount::Once.loop_value() == -1,
        l is Count && l->Count_0 <= i32::MAX ==> l.loop_value() == l->Count_0,
{
    reveal_strlit("x");
    if l is Count {
        assert(l.label() =~= decimal(l->Count_0 as nat) + "x"@);
    }
}

/// The loop counts that stepping goes through: Infinite, Once, and 2x to 10x.
pub open spec fn in_loop_cycle(l: LoopCount) -> bool {
    match l {
        LoopCount::Count(n) => 2 <= n <= 10,
        _ => true,
    }
}

/// On the loop counts of the cycle, stepping forward and back undo each other
/// and stay in the cycle; from any count, stepping forward reaches the cycle.
pub proof fn lemma_loop_cycle(l: LoopCount)
    ensures
        in_loop_cycle(l) ==> in_loop_cycle(l.succ()) && in_loop_cycle(l.pred()),
        in_loop_cycle(l) ==> l.succ().pred() == l && l.pred().succ() == l,
        (l matches LoopCount::Count(n) && n >= 1) ==> in_loop_cycle(l.succ()),
{
}

// ---------------------------------------------------------------------------
// Home directory and `~`
// ---------------------------------------------------------------------------

/// Calls `dirs::home_dir` and renders the path as text (`Path::display`).
/// The home directory comes from the environment, so nothing is claimed of it.
#[verifier::external_body]
pub(crate) fn home_dir() -> (r: Option<String>) {
    dirs::home_dir().map(|p| p.display().to_string())
}

/// `"~/"`.
pub open spec fn tilde_slash() -> Seq<char> {
    seq!['~', '/']
}

/// `path` with a leading `~/` replaced by the home directory, when there is one.
pub open spec fn expanded(path: Seq<char>, home: Option<Seq<char>>) -> Seq<char> {
    match home {
        Some(h) => if tilde_slash().is_prefix_of(path) {
            path_join(h, path.skip(2))
        } else {
            path
        },
        None => path,
    }
}

/// `path` with a leading home directory replaced by `~`, when there is one.
pub open spec fn collapsed(path: Seq<char>, home: Option<Seq<char>>) -> Seq<char> {
    match home {
        Some(h) => if h.is_prefix_of(path) {
            seq!['~'] + path.skip(h.len() as int)
        } else {
            path
        },
        None => path,
    }
}

/// Expand `~` against the given home directory.
pub fn expand_tilde_with(path: &str, home: &Option<String>) -> (r: String)
    ensures
        r@ == expanded(path@, home.deep_view()),
{
    let v = chars_of(path);
    match home {
        Some(h) => {
            let prefix = chars_of("~/");
            proof {
                reveal_strlit("~/");
                assert(prefix@ =~= tilde_slash());
            }
            if starts_with(v.as_slice(), prefix.as_slice()) {
                let rest = string_of_range(v.as_slice(), 2, v.len());
                assert(rest@ =~= path@.skip(2));
                join_path(h.as_str(), rest.as_str())
            } else {
                String::from_str(path)
            }
        },
        None => String::from_str(path),
    }
}

/// Collapse the given home directory to `~`.
pub fn collapse_tilde_with(path: &str, home: &Option<String>) -> (r: String)
    ensures
        r@ == collapsed(path@, home.deep_view()),
{
    match home {
        Some(h) => {
            let v = chars_of(path);
            let hv = chars_of(h.as_str());
            if starts_with(v.as_slice(), hv.as_slice()) {
                let mut out = String::from_str("~");
                proof {
                    reveal_strlit("~");
                }
                let rest = string_of_range(v.as_slice(), hv.len(), v.len());
                push_chars(&mut out, chars_of(rest.as_str()).as_slice());
                assert(out@ =~= seq!['~'] + path@.skip(h@.len() as int));
                out
            } else {
                String::from_str(path)
            }
        },
        None => String::from_str(path),
    }
}

/// Expand ~ to home directory
pub fn expand_tilde(path: &str) -> (r: String)
    ensures
        exists|home: Option<Seq<char>>| r@ == expanded(path@, home),
        !tilde_slash().is_prefix_of(path@) ==> r@ == path@,
{
    let home = home_dir();
    expand_tilde_with(path, &home)
}

/// Collapse home directory to ~
pub fn collapse_tilde(path: &str) -> (r: String)
    ensures
        exists|home: Option<Seq<char>>| r@ == collapsed(path@, home),
{
    let home = home_dir();
    collapse_tilde_with(path, &home)
}

/// A home directory for which `~` expansion and collapsing undo each other:
/// absent, or non-empty without a trailing `/`.
pub open spec fn plain_home(home: Option<Seq<char>>) -> bool {
    match home {
        Some(h) => h.len() > 0 && h.last() != '/',
        None => true,
    }
}

/// Collapsing an expanded `~/` path gives the path back, for a plain home
/// directory and a path whose part after `~/` does not start with `/`.
pub proof fn lemma_collapse_expand(path: Seq<char>, home: Option<Seq<char>>)
    requires
        plain_home(home),
        tilde_slash().is_prefix_of(path),
        path.len() > 2 ==> path[2] != '/',
    ensures
        collapsed(expanded(path, home), home) == path,
{
    match home {
        Some(h) => {
            let e = path_join(h, path.skip(2));
            assert(e =~= h + seq!['/'] + path.skip(2));
            assert(h.is_prefix_of(e)) by {
                assert forall|i: int| 0 <= i < h.len() implies h[i] == e[i] by {}
            }
            assert(seq!['~'] + e.skip(h.len() as int) =~= path);
        },
        None => {},
    }
}

// ---------------------------------------------------------------------------
// Output directory suggestions
// ---------------------------------------------------------------------------

/// Output directory suggestions in order of preference.
pub open spec fn output_dir_suggestions() -> Seq<Seq<char>> {
    seq!["~/gifs"@, "~/Pictures/gifs"@, "~/Movies/gifs"@, "~/Desktop/gifs"@]
}

/// The number of output directory suggestions.
pub const OUTPUT_DIR_SUGGESTION_COUNT: usize = 4;

/// The suggestion at index `i`.
pub fn output_dir_suggestion(i: usize) -> (r: &'static str)
    requires
        i < 4,
    ensures
        r@ == output_dir_suggestions()[i as int],
{
    if i == 0 {
        "~/gifs"
    } else if i == 1 {
        "~/Pictures/gifs"
    } else if i == 2 {
        "~/Movies/gifs"
    } else {
        "~/Desktop/gifs"
    }
}

/// The index of the first suggestion equal to `dir`, if any.
pub open spec fn suggestion_index(dir: Seq<char>) -> Option<int> {
    if dir == output_dir_suggestions()[0] {
        Some(0)
    } else if dir == output_dir_suggestions()[1] {
        Some(1)
    } else if dir == output_dir_suggestions()[2] {
        Some(2)
    } else if dir == output_dir_suggestions()[3] {
        Some(3)
    } else {
        None
    }
}

/// The output directory after `dir` in the cycle of suggestions; the first
/// suggestion when `dir` (with `~` collapsed) is none of them.
pub open spec fn next_dir(dir: Seq<char>, home: Option<Seq<char>>) -> Seq<char> {
    match suggestion_index(collapsed(dir, home)) {
        Some(i) => expanded(output_dir_suggestions()[(i + 1) % 4], home),
        None => expanded(output_dir_suggestions()[0], home),
    }
}

/// The output directory before `dir` in the cycle of suggestions; the first
/// suggestion when `dir` (with `~` collapsed) is none of them.
pub open spec fn prev_dir(dir: Seq<char>, home: Option<Seq<char>>) -> Seq<char> {
    match suggestion_index(collapsed(dir, home)) {
        Some(i) => expanded(output_dir_suggestions()[if i == 0 { 3 } else { i - 1 }], home),
        None => expanded(output_dir_suggestions()[0], home),
    }
}

fn find_suggestion(dir: &String) -> (r: Option<usize>)
    ensures
        r matches Some(i) ==> suggestion_index(dir@) == Some(i as int),
        r is None ==> suggestion_index(dir@) is None,
{
    let mut i: usize = 0;
    while i < 4
        invariant
            i <= 4,
            forall|j: int| 0 <= j < i ==> dir@ != output_dir_suggestions()[j],
        decreases 4 - i,
    {
        let s = String::from_str(output_dir_suggestion(i));
        if *dir == s {
            return Some(i);
        }
        i = i + 1;
    }
    None
}

proof fn lemma_suggestions_facts()
    ensures
        forall|j: int|
            0 <= j < 4 ==> suggestion_index(#[trigger] output_dir_suggestions()[j]) == Some(j),
        forall|j: int|
            0 <= j < 4 ==> tilde_slash().is_prefix_of(#[trigger] output_dir_suggestions()[j])
                && output_dir_suggestions()[j].len() > 2 && output_dir_suggestions()[j][2] != '/',
{
    reveal_strlit("~/gifs");
    reveal_strlit("~/Pictures/gifs");
    reveal_strlit("~/Movies/gifs");
    reveal_strlit("~/Desktop/gifs");
    assert forall|j: int|
        0 <= j < 4 implies tilde_slash().is_prefix_of(#[trigger] output_dir_suggestions()[j]) by {
        assert forall|k: int| 0 <= k < 2 implies tilde_slash()[k] == output_dir_suggestions()[j][k] by {}
    }
}

/// Stepping to the next output directory suggestion and back returns to the
/// same directory, and so does stepping back and then forward, for a directory
/// that is one of the suggestions as `~` expands it against a plain home
/// directory.
pub proof fn lemma_output_dir_cycle(dir: Seq<char>, home: Option<Seq<char>>)
    requires
        plain_home(home),
        suggestion_index(collapsed(dir, home)) is Some,
        expanded(collapsed(dir, home), home) == dir,
    ensures
        prev_dir(next_dir(dir, home), home) == dir,
        next_dir(prev_dir(dir, home), home) == dir,
{
    lemma_suggestions_facts();
    let i = suggestion_index(collapsed(dir, home))->0;
    assert(collapsed(dir, home) == output_dir_suggestions()[i]);
    let j = (i + 1) % 4;
    lemma_collapse_expand(output_dir_suggestions()[j], home);
    let k = if i == 0 { 3 } else { i - 1 };
    lemma_collapse_expand(output_dir_suggestions()[k], home);
}

/// Stepping the output directory forward goes `~/gifs`, `~/Pictures/gifs`,
/// `~/Movies/gifs`, `~/Desktop/gifs` and back to `~/gifs` (each with `~`
/// expanded against a plain home directory); from a directory that is none
/// of them it goes to `~/gifs`.
pub proof fn lemma_output_dir_order(home: Option<Seq<char>>, dir: Seq<char>)
    requires
        plain_home(home),
    ensures
        next_dir(expanded("~/gifs"@, home), home) == expanded("~/Pictures/gifs"@, home),
        next_dir(expanded("~/Pictures/gifs"@, home), home) == expanded("~/Movies/gifs"@, home),
        next_dir(expanded("~/Movies/gifs"@, home), home) == expanded("~/Desktop/gifs"@, home),
        next_dir(expanded("~/Desktop/gifs"@, home), home) == expanded("~/gifs"@, home),
        collapsed(dir, home) != "~/gifs"@ && collapsed(dir, home) != "~/Pictures/gifs"@
            && collapsed(dir, home) != "~/Movies/gifs"@ && collapsed(dir, home)
            != "~/Desktop/gifs"@ ==> next_dir(dir, home) == expanded("~/gifs"@, home),
{
    lemma_suggestions_facts();
    let l = output_dir_suggestions();
    lemma_collapse_expand(l[0], home);
    lemma_collapse_expand(l[1], home);
    lemma_collapse_expand(l[2], home);
    lemma_collapse_expand(l[3], home);
}

// ---------------------------------------------------------------------------
// Settings
// ---------------------------------------------------------------------------

#[derive(Debug, Clone)]
pub struct Settings {
    /// Scale preset
    pub scale: Scale,
    /// Frames per second preset
    pub fps: FpsPreset,
    /// Quality preset
    pub quality: Quality,
    /// Loop behavior
    pub loop_count: LoopCount,
    /// Output directory for GIFs
    pub output_dir: String,
    /// Maximum concurrent conversion jobs
    pub max_concurrent: usize,
}

impl Settings {
    /// The default settings, with `~/gifs` expanded against `home`.
    pub fn default_with_home(home: &Option<String>) -> (r: Settings)
        ensures
            r.scale == Scale::Percent50,
            r.fps == FpsPreset::Fps10,
            r.quality == Quality::Medium,
            r.loop_count == LoopCount::Infinite,
            r.output_dir@ == expanded("~/gifs"@, home.deep_view()),
            r.max_concurrent == 3,
    {
        Settings {
            scale: Scale::Percent50,
            fps: FpsPreset::Fps10,
            quality: Quality::Medium,
            loop_count: LoopCount::Infinite,
            output_dir: expand_tilde_with("~/gifs", home),
            max_concurrent: 3,
        }
    }

    /// Cycle to the next output directory suggestion, with `~` read against `home`.
    pub fn next_output_dir_with(&mut self, home: &Option<String>)
        ensures
            final(self).output_dir@ == next_dir(old(self).output_dir@, home.deep_view()),
            final(self).scale == old(self).scale,
            final(self).fps == old(self).fps,
            final(self).quality == old(self).quality,
            final(self).loop_count == old(self).loop_count,
            final(self).max_concurrent == old(self).max_concurrent,
    {
        let current = collapse_tilde_with(self.output_dir.as_str(), home);
        match find_suggestion(&current) {
            Some(i) => {
                let next_idx = (i + 1) % 4;
                self.output_dir = expand_tilde_with(output_dir_suggestion(next_idx), home);
            },
            None => {
                self.output_dir = expand_tilde_with(output_dir_suggestion(0), home);
            },
        }
    }

    /// Cycle to the previous output directory suggestion, with `~` read against `home`.
    pub fn prev_output_dir_with(&mut self, home: &Option<String>)
        ensures
            final(self).output_dir@ == prev_dir(old(self).output_dir@, home.deep_view()),
            final(self).scale == old(self).scale,
            final(self).fps == old(self).fps,
            final(self).quality == old(self).quality,
            final(self).loop_count == old(self).loop_count,
            final(self).max_concurrent == old(self).max_concurrent,
    {
        let current = collapse_tilde_with(self.output_dir.as_str(), home);
        match find_suggestion(&current) {
            Some(i) => {
                let prev_idx = if i == 0 {
                    4 - 1
                } else {
                    i - 1
                };
                self.output_dir = expand_tilde_with(output_dir_suggestion(prev_idx), home);
            },
            None => {
                self.output_dir = expand_tilde_with(output_dir_suggestion(0), home);
            },
        }
    }

    /// Cycle to next output directory suggestion
    pub fn next_output_dir(&mut self)
        ensures
            exists|home: Option<Seq<char>>|
                final(self).output_dir@ == next_dir(old(self).output_dir@, home),
            final(self).scale == old(self).scale,
            final(self).fps == old(self).fps,
            final(self).quality == old(self).quality,
            final(self).loop_count == old(self).loop_count,
            final(self).max_concurrent == old(self).max_concurrent,
    {
        let home = home_dir();
        self.next_output_dir_with(&home);
    }

    /// Cycle to previous output directory suggestion
    pub fn prev_output_dir(&mut self)
        ensures
            exists|home: Option<Seq<char>>|
                final(self).output_dir@ == prev_dir(old(self).output_dir@, home),
            final(self).scale == old(self).scale,
            final(self).fps == old(self).fps,
            final(self).quality == old(self).quality,
            final(self).loop_count == old(self).loop_count,
            final(self).max_concurrent == old(self).max_concurrent,
    {
        let home = home_dir();
        self.prev_output_dir_with(&home);
    }

    /// Display string for the output directory, with `home` collapsed to `~`.
    pub fn output_dir_display_with(&self, home: &Option<String>) -> (r: String)
        ensures
            r@ == collapsed(self.output_dir@, home.deep_view()),
    {
        collapse_tilde_with(self.output_dir.as_str(), home)
    }

    /// Get display string for output directory (collapsed with ~)
    pub fn output_dir_display(&self) -> (r: String)
        ensures
            exists|home: Option<Seq<char>>| r@ == collapsed(self.output_dir@, home),
    {
        let home = home_dir();
        self.output_dir_display_with(&home)
    }
}

impl Default for Settings {
    fn default() -> (r: Self)
        ensures
            r.scale == Scale::Percent50,
            r.fps == FpsPreset::Fps10,
            r.quality == Quality::Medium,
            r.loop_count == LoopCount::Infinite,
            exists|home: Option<Seq<char>>| r.output_dir@ == expanded("~/gifs"@, home),
            r.max_concurrent == 3,
    {
        let home = home_dir();
        Settings::default_with_home(&home)
    }
}

} // verus!
