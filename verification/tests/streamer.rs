use adaptive_bitrate::create_test_quality_levels;
use adaptive_bitrate::AdaptiveBitrateStreamer;
use adaptive_bitrate::BandwidthSample;
use adaptive_bitrate::ConfigError;
use adaptive_bitrate::QualityLevel;

const SECOND: u64 = 1_000_000_000;
const MILLISECOND: u64 = 1_000_000;

fn ladder_of(bitrates: &[u32]) -> Vec<QualityLevel> {
    let mut levels = Vec::new();
    for bitrate in bitrates {
        levels.push(QualityLevel { bitrate: *bitrate, width: 16, height: 9, codec: String::from("h264") });
    }
    levels
}

/// The exponentially time-weighted average, as a caller computes it.
fn weighted_average(samples: &[BandwidthSample], now: u64, window: u64) -> u32 {
    let mut weighted_sum = 0.0f64;
    let mut weight_sum = 0.0f64;
    for sample in samples {
        let age = now.saturating_sub(sample.timestamp) as f64 / 1e9;
        let weight = (-age / (window as f64 / 1e9)).exp();
        weighted_sum += sample.throughput as f64 * weight;
        weight_sum += weight;
    }
    if weight_sum > 0.0 {
        (weighted_sum / weight_sum) as u32
    } else {
        0
    }
}

fn next_quality_at(streamer: &mut AdaptiveBitrateStreamer, now: u64) -> usize {
    let average = weighted_average(&streamer.bandwidth_samples(), now, streamer.bandwidth_window());
    streamer.get_next_quality(average)
}

#[test]
fn test_initial_quality_selection() {
    let quality_levels = create_test_quality_levels();
    let streamer = AdaptiveBitrateStreamer::new(quality_levels);

    assert_eq!(streamer.current_quality_index(), 2);
}

#[test]
fn test_bandwidth_recording() {
    let mut streamer = AdaptiveBitrateStreamer::new(create_test_quality_levels());

    streamer.record_segment_download(0, 1_000_000, SECOND, 4 * SECOND);

    assert_eq!(streamer.bandwidth_samples().len(), 1);
    assert_eq!(streamer.segment_records().len(), 1);
}

#[test]
fn initial_quality_is_the_middle_of_the_ladder() {
    assert_eq!(AdaptiveBitrateStreamer::new(ladder_of(&[1])).current_quality_index(), 0);
    assert_eq!(AdaptiveBitrateStreamer::new(ladder_of(&[1, 2])).current_quality_index(), 1);
    assert_eq!(AdaptiveBitrateStreamer::new(ladder_of(&[1, 2, 3])).current_quality_index(), 1);
    assert_eq!(AdaptiveBitrateStreamer::new(ladder_of(&[1, 2, 3, 4, 5])).current_quality_index(), 2);
    assert_eq!(AdaptiveBitrateStreamer::new(ladder_of(&[1, 2, 3, 4, 5, 6, 7])).current_quality_index(), 3);
}

#[test]
fn new_streamer_has_default_buffer_and_no_history() {
    let streamer = AdaptiveBitrateStreamer::new(create_test_quality_levels());
    let buffer = streamer.get_buffer_state();
    assert_eq!(buffer.current_level, 0);
    assert_eq!(buffer.target_level, 30 * SECOND);
    assert_eq!(buffer.max_level, 60 * SECOND);
    assert_eq!(buffer.min_level, 5 * SECOND);
    assert_eq!(streamer.bandwidth_window(), 10 * SECOND);
    assert!(streamer.bandwidth_samples().is_empty());
    assert!(streamer.segment_records().is_empty());
    assert_eq!(streamer.get_current_quality().bitrate, 2_500_000);
    assert_eq!(streamer.get_current_quality().width, 1920);
}

#[test]
fn empty_ladder_is_reported() {
    assert!(matches!(AdaptiveBitrateStreamer::try_new(Vec::new()), Err(ConfigError::EmptyLadder)));
    let streamer = AdaptiveBitrateStreamer::try_new(create_test_quality_levels());
    assert!(matches!(streamer, Ok(_)));
    if let Ok(streamer) = streamer {
        assert_eq!(streamer.current_quality_index(), 2);
    }
}

#[test]
fn recorded_sample_holds_time_and_throughput() {
    let mut streamer = AdaptiveBitrateStreamer::new(create_test_quality_levels());
    streamer.record_segment_download(7 * SECOND, 1_000_000, 800 * MILLISECOND, 4 * SECOND);
    let samples = streamer.bandwidth_samples();
    assert_eq!(samples, vec![BandwidthSample { timestamp: 7 * SECOND, throughput: 1_250_000 }]);
    let records = streamer.segment_records();
    assert_eq!(records.len(), 1);
    assert_eq!(records[0].quality_level, 2);
    assert_eq!(records[0].size_bytes, 1_000_000);
    assert_eq!(records[0].duration, 4 * SECOND);
    assert_eq!(records[0].download_time, 800 * MILLISECOND);
    assert_eq!(streamer.get_buffer_state().current_level, 4 * SECOND);
}

#[test]
fn instantaneous_download_records_the_maximum() {
    let mut streamer = AdaptiveBitrateStreamer::new(create_test_quality_levels());
    streamer.record_segment_download(0, 1_000, 0, 4 * SECOND);
    streamer.record_segment_download(0, 1_000, 999_999, 4 * SECOND);
    let samples = streamer.bandwidth_samples();
    assert_eq!(samples[0].throughput, u32::MAX);
    assert_eq!(samples[1].throughput, u32::MAX);
}

#[test]
fn estimate_falls_back_until_three_samples_exist() {
    let mut streamer = AdaptiveBitrateStreamer::new(create_test_quality_levels());
    assert_eq!(streamer.get_estimated_bandwidth(1_250_000), 312_500);

    streamer.record_segment_download(0, 1_000_000, 800 * MILLISECOND, 4 * SECOND);
    assert_eq!(streamer.bandwidth_samples()[0].throughput, 1_250_000);
    assert_eq!(streamer.get_estimated_bandwidth(1_250_000), 312_500);
    assert_eq!(streamer.get_estimated_bandwidth(0), 312_500);

    streamer.record_segment_download(SECOND, 1_000_000, 800 * MILLISECOND, 4 * SECOND);
    assert_eq!(streamer.get_estimated_bandwidth(1_250_000), 312_500);

    streamer.record_segment_download(2 * SECOND, 1_000_000, 800 * MILLISECOND, 4 * SECOND);
    assert_eq!(streamer.get_estimated_bandwidth(1_250_000), 1_250_000);
}

#[test]
fn fallback_follows_the_current_quality() {
    let mut streamer = AdaptiveBitrateStreamer::new(create_test_quality_levels());
    streamer.record_segment_download(0, 1_000_000, SECOND, 4 * SECOND);
    assert_eq!(streamer.get_next_quality(0), 1);
    assert_eq!(streamer.get_estimated_bandwidth(0), 125_000);
    assert_eq!(streamer.estimate_bandwidth(9), 125_000);
    assert_eq!(streamer.get_next_quality(0), 0);
    assert_eq!(streamer.get_estimated_bandwidth(0), 62_500);
}

#[test]
fn estimate_is_the_least_of_the_three_statistics() {
    let mut streamer = AdaptiveBitrateStreamer::new(create_test_quality_levels());
    streamer.record_segment_download(0, 1_000_000, 800 * MILLISECOND, 4 * SECOND);
    streamer.record_segment_download(SECOND, 500_000, 3 * SECOND, 4 * SECOND);
    streamer.record_segment_download(2 * SECOND, 500_000, 3 * SECOND, 4 * SECOND);

    assert_eq!(streamer.calculate_harmonic_mean_bandwidth(), 234_374);
    assert_eq!(streamer.calculate_percentile_bandwidth(20), 166_666);
    assert_eq!(streamer.get_estimated_bandwidth(500_000), 166_666);
    assert_eq!(streamer.get_estimated_bandwidth(200_000), 166_666);
    assert_eq!(streamer.get_estimated_bandwidth(1_000), 1_000);

    assert_eq!(streamer.calculate_percentile_bandwidth(50), 166_666);
    assert_eq!(streamer.calculate_percentile_bandwidth(70), 1_250_000);
    assert_eq!(streamer.get_estimated_bandwidth(u32::MAX), 166_666);
}

#[test]
fn slow_network_steps_down_one_level_per_decision() {
    let mut streamer = AdaptiveBitrateStreamer::new(create_test_quality_levels());
    for i in 0..3u64 {
        streamer.record_segment_download(i * SECOND, 500_000, 3 * SECOND, 4 * SECOND);
    }
    assert_eq!(streamer.get_buffer_state().current_level, 12 * SECOND);
    assert_eq!(streamer.current_quality_index(), 2);
    assert_eq!(streamer.find_suitable_quality(119_999), 0);

    assert_eq!(next_quality_at(&mut streamer, 3 * SECOND), 1);
    assert_eq!(streamer.current_quality_index(), 1);
    assert_eq!(next_quality_at(&mut streamer, 3 * SECOND), 0);
    assert_eq!(next_quality_at(&mut streamer, 3 * SECOND), 0);
    assert_eq!(streamer.current_quality_index(), 0);
}

#[test]
fn panic_allows_an_immediate_drop() {
    let mut streamer = AdaptiveBitrateStreamer::new(ladder_of(&[
        500_000, 1_000_000, 2_500_000, 5_000_000, 8_000_000, 16_000_000, 32_000_000,
    ]));
    assert_eq!(streamer.current_quality_index(), 3);
    for i in 0..3u64 {
        streamer.record_segment_download(i * SECOND, 500_000, 3 * SECOND, 4 * SECOND);
    }
    streamer.update_buffer_consumption(12 * SECOND);
    assert_eq!(streamer.get_buffer_state().current_level, 0);

    assert_eq!(streamer.get_next_quality(166_666), 0);
    assert_eq!(streamer.current_quality_index(), 0);
}

#[test]
fn upgrade_is_one_level_per_decision() {
    let mut streamer = AdaptiveBitrateStreamer::new(create_test_quality_levels());
    assert_eq!(streamer.get_next_quality(0), 0);
    for i in 0..8u64 {
        streamer.record_segment_download(i * SECOND, 4_000_000, SECOND, 4 * SECOND);
    }
    assert_eq!(streamer.get_buffer_state().current_level, 32 * SECOND);
    assert_eq!(streamer.get_estimated_bandwidth(4_000_000), 4_000_000);
    assert_eq!(streamer.find_suitable_quality(4_000_000), 3);

    assert_eq!(streamer.get_next_quality(4_000_000), 1);
    assert_eq!(streamer.get_next_quality(4_000_000), 2);
    assert_eq!(streamer.get_next_quality(4_000_000), 3);
    assert_eq!(streamer.get_next_quality(4_000_000), 3);
}

#[test]
fn panic_holds_an_upgrade_at_one_level() {
    let mut streamer = AdaptiveBitrateStreamer::new(create_test_quality_levels());
    assert_eq!(streamer.get_next_quality(0), 0);
    for i in 0..3u64 {
        streamer.record_segment_download(i * SECOND, u32::MAX, 0, 0);
    }
    assert_eq!(streamer.get_buffer_state().current_level, 0);
    assert_eq!(streamer.get_estimated_bandwidth(u32::MAX), u32::MAX);
    assert_eq!(streamer.find_suitable_quality(1_288_490_188), 3);

    assert_eq!(streamer.get_next_quality(u32::MAX), 1);
    assert_eq!(streamer.get_next_quality(u32::MAX), 2);
}

#[test]
fn selected_quality_is_always_a_level_of_the_ladder() {
    let mut streamer = AdaptiveBitrateStreamer::new(create_test_quality_levels());
    let averages = [0u32, 1, 62_500, 1_000_000, u32::MAX, 5, 400_000, u32::MAX, u32::MAX, u32::MAX, 0, 0];
    let mut now = 0u64;
    for average in averages {
        streamer.record_segment_download(now, average / 2 + 1, SECOND / 4, 4 * SECOND);
        now += SECOND;
        let before = streamer.current_quality_index();
        let panic = streamer.get_buffer_state().current_level < 3 * SECOND;
        let next = streamer.get_next_quality(average);
        assert!(next < 4);
        assert_eq!(next, streamer.current_quality_index());
        let change = next as i64 - before as i64;
        assert!(change.abs() <= 1 || (panic && change < 0));
        streamer.update_buffer_consumption(5 * SECOND);
    }
}

#[test]
fn buffer_level_is_held_at_its_maximum() {
    let mut streamer = AdaptiveBitrateStreamer::new(create_test_quality_levels());
    for i in 0..20u64 {
        streamer.record_segment_download(i * SECOND, 1_000_000, SECOND, 4 * SECOND);
        assert!(streamer.get_buffer_state().current_level <= 60 * SECOND);
    }
    assert_eq!(streamer.get_buffer_state().current_level, 60 * SECOND);
    streamer.record_segment_download(21 * SECOND, 1_000_000, SECOND, u64::MAX);
    assert_eq!(streamer.get_buffer_state().current_level, 60 * SECOND);
}

#[test]
fn buffer_level_never_drops_below_zero() {
    let mut streamer = AdaptiveBitrateStreamer::new(create_test_quality_levels());
    streamer.record_segment_download(0, 1_000_000, SECOND, 4 * SECOND);
    streamer.update_buffer_consumption(SECOND);
    assert_eq!(streamer.get_buffer_state().current_level, 3 * SECOND);
    streamer.update_buffer_consumption(100 * SECOND);
    assert_eq!(streamer.get_buffer_state().current_level, 0);
    streamer.update_buffer_consumption(u64::MAX);
    assert_eq!(streamer.get_buffer_state().current_level, 0);
}

#[test]
fn buffer_factor_in_panic_is_three_tenths() {
    let streamer = AdaptiveBitrateStreamer::new(create_test_quality_levels());
    assert_eq!(streamer.get_buffer_state().current_level, 0);
    let factor = streamer.calculate_buffer_factor();
    assert_eq!((factor.numerator, factor.denominator), (3, 10));
    assert_eq!(factor.numerator as f64 / factor.denominator as f64, 0.3);
}

#[test]
fn buffer_factor_above_seek_threshold_is_one_and_a_half() {
    let mut streamer = AdaptiveBitrateStreamer::new(create_test_quality_levels());
    for i in 0..12u64 {
        streamer.record_segment_download(i * SECOND, 1_000_000, SECOND, 4 * SECOND);
    }
    assert_eq!(streamer.get_buffer_state().current_level, 48 * SECOND);
    let factor = streamer.calculate_buffer_factor();
    assert_eq!(factor.numerator as f64 / factor.denominator as f64, 1.5);

    streamer.record_segment_download(12 * SECOND, 1_000_000, SECOND, 1);
    let factor = streamer.calculate_buffer_factor();
    assert_eq!(factor.numerator as f64 / factor.denominator as f64, 1.5);

    for i in 13..16u64 {
        streamer.record_segment_download(i * SECOND, 1_000_000, SECOND, 4 * SECOND);
    }
    assert_eq!(streamer.get_buffer_state().current_level, 60 * SECOND);
    let factor = streamer.calculate_buffer_factor();
    assert_eq!(factor.numerator as f64 / factor.denominator as f64, 1.5);
}

#[test]
fn buffer_factor_ramps_below_the_target() {
    let mut streamer = AdaptiveBitrateStreamer::new(create_test_quality_levels());
    streamer.record_segment_download(0, 1_000_000, SECOND, 3 * SECOND);
    let factor = streamer.calculate_buffer_factor();
    assert_eq!(factor.numerator * 100, factor.denominator * 63);

    streamer.record_segment_download(0, 1_000_000, SECOND, 9 * SECOND);
    let factor = streamer.calculate_buffer_factor();
    assert_eq!(factor.numerator, 216 * SECOND as u128);
    assert_eq!(factor.denominator, 300 * SECOND as u128);
    assert_eq!(factor.numerator as f64 / factor.denominator as f64, 0.72);
}

#[test]
fn buffer_factor_is_neutral_from_target_to_seek_threshold() {
    let mut streamer = AdaptiveBitrateStreamer::new(create_test_quality_levels());
    streamer.record_segment_download(0, 1_000_000, SECOND, 30 * SECOND);
    let factor = streamer.calculate_buffer_factor();
    assert_eq!(factor.numerator, factor.denominator);
    streamer.record_segment_download(0, 1_000_000, SECOND, 15 * SECOND);
    assert_eq!(streamer.get_buffer_state().current_level, 45 * SECOND);
    let factor = streamer.calculate_buffer_factor();
    assert_eq!(factor.numerator as f64 / factor.denominator as f64, 1.0);
}

#[test]
fn samples_older_than_the_window_are_dropped() {
    let mut streamer = AdaptiveBitrateStreamer::new(create_test_quality_levels());
    streamer.record_segment_download(0, 1_000, SECOND, SECOND);
    streamer.record_segment_download(4 * SECOND, 2_000, SECOND, SECOND);
    streamer.record_segment_download(8 * SECOND, 3_000, SECOND, SECOND);
    streamer.record_segment_download(10 * SECOND, 4_000, SECOND, SECOND);
    assert_eq!(streamer.bandwidth_samples().len(), 4);

    streamer.record_segment_download(15 * SECOND, 5_000, SECOND, SECOND);
    let samples = streamer.bandwidth_samples();
    let timestamps: Vec<u64> = samples.iter().map(|sample| sample.timestamp).collect();
    assert_eq!(timestamps, vec![8 * SECOND, 10 * SECOND, 15 * SECOND]);
    assert_eq!(samples[0].throughput, 3_000);

    streamer.record_segment_download(100 * SECOND, 6_000, SECOND, SECOND);
    assert_eq!(streamer.bandwidth_samples().len(), 1);
}

#[test]
fn eviction_stops_at_the_first_sample_within_the_window() {
    let mut streamer = AdaptiveBitrateStreamer::new(create_test_quality_levels());
    streamer.record_segment_download(25 * SECOND, 1_000, SECOND, SECOND);
    streamer.record_segment_download(5 * SECOND, 2_000, SECOND, SECOND);
    streamer.record_segment_download(30 * SECOND, 3_000, SECOND, SECOND);
    let timestamps: Vec<u64> =
        streamer.bandwidth_samples().iter().map(|sample| sample.timestamp).collect();
    assert_eq!(timestamps, vec![25 * SECOND, 5 * SECOND, 30 * SECOND]);
}

#[test]
fn segment_history_keeps_the_latest_fifty() {
    let mut streamer = AdaptiveBitrateStreamer::new(create_test_quality_levels());
    for i in 0..50u32 {
        streamer.record_segment_download(0, i, SECOND, SECOND);
    }
    assert_eq!(streamer.segment_records().len(), 50);
    assert_eq!(streamer.segment_records()[0].size_bytes, 0);
    for i in 50..55u32 {
        streamer.record_segment_download(0, i, SECOND, SECOND);
    }
    let records = streamer.segment_records();
    assert_eq!(records.len(), 50);
    assert_eq!(records[0].size_bytes, 5);
    assert_eq!(records[49].size_bytes, 54);
}

#[test]
fn suitable_quality_is_the_highest_within_the_safe_bandwidth() {
    let streamer = AdaptiveBitrateStreamer::new(create_test_quality_levels());
    assert_eq!(streamer.find_suitable_quality(0), 0);
    assert_eq!(streamer.find_suitable_quality(78_124), 0);
    assert_eq!(streamer.find_suitable_quality(78_125), 0);
    assert_eq!(streamer.find_suitable_quality(156_249), 0);
    assert_eq!(streamer.find_suitable_quality(156_250), 1);
    assert_eq!(streamer.find_suitable_quality(390_624), 1);
    assert_eq!(streamer.find_suitable_quality(390_625), 2);
    assert_eq!(streamer.find_suitable_quality(781_250), 3);
    assert_eq!(streamer.find_suitable_quality(u32::MAX), 3);
}

#[test]
fn smoothing_limits_the_step() {
    let mut streamer = AdaptiveBitrateStreamer::new(create_test_quality_levels());
    streamer.record_segment_download(0, 1_000_000, SECOND, 4 * SECOND);
    assert_eq!(streamer.apply_quality_smoothing(0), 1);
    assert_eq!(streamer.apply_quality_smoothing(1), 1);
    assert_eq!(streamer.apply_quality_smoothing(2), 2);
    assert_eq!(streamer.apply_quality_smoothing(3), 3);
    assert_eq!(streamer.apply_quality_smoothing(usize::MAX), 3);

    streamer.update_buffer_consumption(2 * SECOND);
    assert_eq!(streamer.apply_quality_smoothing(0), 0);
    assert_eq!(streamer.apply_quality_smoothing(1), 1);
    assert_eq!(streamer.apply_quality_smoothing(2), 2);
    assert_eq!(streamer.apply_quality_smoothing(3), 3);
}

#[test]
fn buffer_health_and_pause_follow_the_level() {
    let mut streamer = AdaptiveBitrateStreamer::new(create_test_quality_levels());
    assert!(!streamer.is_buffer_healthy());
    assert!(streamer.should_pause_playback());

    streamer.record_segment_download(0, 1_000_000, SECOND, SECOND - 1);
    assert!(streamer.should_pause_playback());
    streamer.record_segment_download(0, 1_000_000, SECOND, 1);
    assert!(!streamer.should_pause_playback());
    assert!(!streamer.is_buffer_healthy());

    streamer.record_segment_download(0, 1_000_000, SECOND, 4 * SECOND);
    assert!(streamer.is_buffer_healthy());
    streamer.update_buffer_consumption(1);
    assert!(!streamer.is_buffer_healthy());
}

#[test]
fn demo_ladder_is_as_documented() {
    let levels = create_test_quality_levels();
    let seen: Vec<(u32, u32, u32, &str)> = levels
        .iter()
        .map(|level| (level.bitrate, level.width, level.height, level.codec.as_str()))
        .collect();
    assert_eq!(
        seen,
        vec![
            (500_000, 640, 360, "h264"),
            (1_000_000, 1280, 720, "h264"),
            (2_500_000, 1920, 1080, "h264"),
            (5_000_000, 3840, 2160, "h264"),
        ]
    );
}
