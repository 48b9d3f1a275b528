use gifer::settings::{
    collapse_tilde, collapse_tilde_with, expand_tilde, expand_tilde_with, output_dir_suggestion,
    FpsPreset, LoopCount, Quality, Scale, Settings, OUTPUT_DIR_SUGGESTION_COUNT,
};

fn home() -> Option<String> {
    Some("/home/ann".to_string())
}

#[test]
fn defaults() {
    let s = Settings::default_with_home(&home());
    assert_eq!(s.scale, Scale::Percent50);
    assert_eq!(s.fps, FpsPreset::Fps10);
    assert_eq!(s.quality, Quality::Medium);
    assert_eq!(s.loop_count, LoopCount::Infinite);
    assert_eq!(s.output_dir, "/home/ann/gifs");
    assert_eq!(s.max_concurrent, 3);
    assert_eq!(Settings::default_with_home(&None).output_dir, "~/gifs");
    assert_eq!(Scale::default(), Scale::Percent50);
    assert_eq!(Quality::default(), Quality::Medium);
    assert_eq!(LoopCount::default(), LoopCount::Infinite);
    assert_eq!(FpsPreset::default(), FpsPreset::Fps10);
    assert_eq!(Settings::default().max_concurrent, 3);
}

#[test]
fn labels_and_values() {
    assert_eq!(Scale::Original.as_str(), "Original");
    assert_eq!(Scale::H720.as_str(), "720p");
    assert_eq!(Scale::Original.ffmpeg_scale(), None);
    assert_eq!(Scale::Percent33.ffmpeg_scale(), Some("scale=iw*0.33:ih*0.33:flags=lanczos".to_string()));
    assert_eq!(Quality::Low.as_str(), "Low");
    assert_eq!(Quality::Low.dither_option(), "bayer:bayer_scale=5");
    assert_eq!(LoopCount::Count(7).as_str(), "7x");
    assert_eq!(LoopCount::Once.as_str(), "Once");
    assert_eq!(LoopCount::Once.ffmpeg_loop_value(), -1);
    assert_eq!(FpsPreset::Fps24.value(), 24);
    assert_eq!(FpsPreset::Fps30.as_str(), "30");
}

#[test]
fn preset_cycles_return_to_start() {
    let scales = [
        Scale::Original, Scale::Percent75, Scale::Percent50, Scale::Percent33, Scale::Percent25,
        Scale::H720, Scale::H480, Scale::H360, Scale::H240,
    ];
    for s in scales {
        assert_eq!(s.next().prev(), s);
        assert_eq!(s.prev().next(), s);
        let mut t = s;
        for _ in 0..scales.len() {
            t = t.next();
        }
        assert_eq!(t, s);
    }
    assert_eq!(Scale::H240.next(), Scale::Original);
    for q in [Quality::Low, Quality::Medium, Quality::High] {
        assert_eq!(q.next().prev(), q);
        assert_eq!(q.next().next().next(), q);
    }
    let fps = [
        FpsPreset::Fps5, FpsPreset::Fps10, FpsPreset::Fps15, FpsPreset::Fps20, FpsPreset::Fps24,
        FpsPreset::Fps30,
    ];
    for f in fps {
        assert_eq!(f.next().prev(), f);
        assert_eq!(f.prev().next(), f);
    }
    assert_eq!(FpsPreset::Fps30.next(), FpsPreset::Fps5);
}

#[test]
fn loop_count_cycle() {
    assert_eq!(LoopCount::Infinite.next(), LoopCount::Once);
    assert_eq!(LoopCount::Once.next(), LoopCount::Count(2));
    assert_eq!(LoopCount::Count(9).next(), LoopCount::Count(10));
    assert_eq!(LoopCount::Count(10).next(), LoopCount::Infinite);
    assert_eq!(LoopCount::Count(25).next(), LoopCount::Infinite);
    assert_eq!(LoopCount::Infinite.prev(), LoopCount::Count(10));
    assert_eq!(LoopCount::Count(2).prev(), LoopCount::Once);
    assert_eq!(LoopCount::Once.prev(), LoopCount::Infinite);
    let mut l = LoopCount::Infinite;
    for _ in 0..11 {
        assert_eq!(l.next().prev(), l);
        l = l.next();
    }
    assert_eq!(l, LoopCount::Infinite);
}

#[test]
fn tilde_expansion_with_home() {
    let h = home();
    assert_eq!(expand_tilde_with("~/gifs", &h), "/home/ann/gifs");
    assert_eq!(expand_tilde_with("~", &h), "~");
    assert_eq!(expand_tilde_with("/tmp/x", &h), "/tmp/x");
    assert_eq!(expand_tilde_with("~/gifs", &None), "~/gifs");
    assert_eq!(expand_tilde_with("~//abs", &h), "/abs");
    assert_eq!(collapse_tilde_with("/home/ann/gifs", &h), "~/gifs");
    assert_eq!(collapse_tilde_with("/home/anne/gifs", &h), "~e/gifs");
    assert_eq!(collapse_tilde_with("/srv/gifs", &h), "/srv/gifs");
    assert_eq!(collapse_tilde_with("/home/ann/gifs", &None), "/home/ann/gifs");
    // Collapsing an expanded path gives it back.
    for p in ["~/gifs", "~/", "~/a/b c"] {
        assert_eq!(collapse_tilde_with(&expand_tilde_with(p, &h), &h), p);
    }
}

#[test]
fn tilde_without_prefix_is_unchanged() {
    assert_eq!(expand_tilde("/abs/path"), "/abs/path");
    assert_eq!(expand_tilde("rel/path"), "rel/path");
    let collapsed = collapse_tilde("/definitely/not/home/x");
    assert_eq!(collapsed, "/definitely/not/home/x");
}

#[test]
fn output_dir_suggestions_cycle() {
    let h = home();
    let mut s = Settings::default_with_home(&h);
    assert_eq!(OUTPUT_DIR_SUGGESTION_COUNT, 4);
    assert_eq!(output_dir_suggestion(1), "~/Pictures/gifs");
    s.next_output_dir_with(&h);
    assert_eq!(s.output_dir, "/home/ann/Pictures/gifs");
    s.next_output_dir_with(&h);
    assert_eq!(s.output_dir, "/home/ann/Movies/gifs");
    s.next_output_dir_with(&h);
    assert_eq!(s.output_dir, "/home/ann/Desktop/gifs");
    s.next_output_dir_with(&h);
    assert_eq!(s.output_dir, "/home/ann/gifs");
    s.prev_output_dir_with(&h);
    assert_eq!(s.output_dir, "/home/ann/Desktop/gifs");
    assert_eq!(s.output_dir_display_with(&h), "~/Desktop/gifs");
    s.output_dir = "/elsewhere".to_string();
    s.prev_output_dir_with(&h);
    assert_eq!(s.output_dir, "/home/ann/gifs");
    s.output_dir = "/elsewhere".to_string();
    s.next_output_dir_with(&h);
    assert_eq!(s.output_dir, "/home/ann/gifs");
}

#[test]
fn output_dir_cycle_with_the_user_home() {
    let mut s = Settings::default();
    s.output_dir = "/not/a/suggestion".to_string();
    s.next_output_dir();
    assert_eq!(s.output_dir, expand_tilde("~/gifs"));
    assert_eq!(s.output_dir_display(), collapse_tilde(&s.output_dir));
    s.output_dir = "/not/a/suggestion".to_string();
    s.prev_output_dir();
    assert_eq!(s.output_dir, expand_tilde("~/gifs"));
}
