use cobra::notes::{parse_hit_objects, read_note, NoteError};
use cobra::nps::{calculate_average_notes_per_second, NpsError, NpsSample};
use cobra::patterns::{analyze_patterns, pattern_mode, PatternError, PatternWeight};

#[test]
fn nps_single_interval_over_all_notes() {
    let h = calculate_average_notes_per_second(&[1000, 1500, 2000, 2500], 100).unwrap();
    assert_eq!(h.samples, vec![NpsSample { start_ms: 1000, notes: 4 }]);
    // 1500 ms, in hundredths of a ms
    assert_eq!(h.width_centi_ms, 150_000);
    let nps = h.samples[0].notes as f64 / (h.width_centi_ms as f64 / 100_000.0);
    assert!((nps - 2.667).abs() < 0.001);
    assert_eq!(h.nps_milli(0), 2666);
}

#[test]
fn nps_empty_timings() {
    assert_eq!(calculate_average_notes_per_second(&[], 100).err(), Some(NpsError::EmptyInput));
}

#[test]
fn nps_invalid_interval() {
    assert_eq!(
        calculate_average_notes_per_second(&[1000, 1000], 50).err(),
        Some(NpsError::InvalidInterval)
    );
    assert_eq!(
        calculate_average_notes_per_second(&[1000, 2000], 0).err(),
        Some(NpsError::InvalidInterval)
    );
    assert_eq!(
        calculate_average_notes_per_second(&[2000, 1000], 10).err(),
        Some(NpsError::InvalidInterval)
    );
}

#[test]
fn nps_several_intervals() {
    // span 1000 ms, width 250 ms: four intervals
    let h = calculate_average_notes_per_second(&[0, 100, 200, 300, 600, 1000], 25).unwrap();
    assert_eq!(h.width_centi_ms, 25_000);
    let starts: Vec<i32> = h.samples.iter().map(|s| s.start_ms).collect();
    let notes: Vec<usize> = h.samples.iter().map(|s| s.notes).collect();
    assert_eq!(starts, vec![0, 250, 500, 750]);
    assert_eq!(notes, vec![3, 1, 1, 1]);
    assert_eq!(h.nps_milli(0), 12_000);
}

#[test]
fn nps_fractional_width() {
    // span 10 ms at 30 %: width 3 ms, intervals start at 0, 3, 6 and 9
    let h = calculate_average_notes_per_second(&[0, 4, 10], 30).unwrap();
    let starts: Vec<i32> = h.samples.iter().map(|s| s.start_ms).collect();
    let notes: Vec<usize> = h.samples.iter().map(|s| s.notes).collect();
    assert_eq!(h.width_centi_ms, 300);
    assert_eq!(starts, vec![0, 3, 6, 9]);
    assert_eq!(notes, vec![1, 1, 0, 1]);
}

#[test]
fn note_lines() {
    assert_eq!(read_note("256,192,1000,1,0"), Ok(1000));
    assert_eq!(read_note("64,192,-25,5,0,0:0:0:0:"), Ok(-25));
    assert_eq!(read_note("256,192"), Err(NoteError::MissingTime));
    assert_eq!(read_note(""), Err(NoteError::MissingTime));
    assert_eq!(read_note("256,192,abc,1"), Err(NoteError::InvalidTime));
    assert_eq!(read_note("256,192,"), Err(NoteError::InvalidTime));
    assert_eq!(read_note("1,2,99999999999"), Err(NoteError::InvalidTime));
}

#[test]
fn hit_objects_after_header() {
    let text = "osu file format v14\r\n\r\n[General]\r\nMode: 3\r\n\r\n[HitObjects]\r\n64,192,500,1,0\r\n192,192,750,1,0\r\n";
    assert_eq!(parse_hit_objects(text), Ok(vec![500, 750]));
    let text = "[HitObjects]\n1,1,10\n2,2,20";
    assert_eq!(parse_hit_objects(text), Ok(vec![10, 20]));
}

#[test]
fn hit_objects_errors_and_absence() {
    assert_eq!(parse_hit_objects("[General]\nMode: 3\n"), Ok(vec![]));
    assert_eq!(parse_hit_objects("[HitObjects]\n1,1,10\n\n"), Err(NoteError::MissingTime));
    assert_eq!(parse_hit_objects("[HitObjects]\n1,1,x\n"), Err(NoteError::InvalidTime));
    // a carriage return ends a line only before a newline
    assert_eq!(parse_hit_objects("[HitObjects]\r\n1,1,10\r\n"), Ok(vec![10]));
    assert_eq!(parse_hit_objects("[HitObjects]\n1,1,10\r"), Err(NoteError::InvalidTime));
}

fn w(name: &str, weight: u64) -> PatternWeight {
    PatternWeight { name: name.to_string(), weight }
}

#[test]
fn dominant_patterns() {
    assert_eq!(analyze_patterns(&vec![w("A", 10), w("B", 9), w("C", 1)]), vec!["A", "B"]);
    assert!(analyze_patterns(&vec![w("A", 0), w("B", 0)]).is_empty());
    assert_eq!(analyze_patterns(&vec![w("jack", 8), w("stream", 10)]), vec!["stream", "jack"]);
    assert_eq!(
        analyze_patterns(&vec![w("x", 8), w("y", 10), w("z", 8), w("v", 9), w("u", 1)]),
        vec!["y", "v", "x", "z"]
    );
    assert_eq!(analyze_patterns(&vec![w("jack", 7), w("stream", 10)]), vec!["stream"]);
    assert!(analyze_patterns(&vec![]).is_empty());
}

#[test]
fn pattern_mode_is_checked() {
    assert_eq!(pattern_mode(3), Ok(()));
    assert_eq!(pattern_mode(0), Err(PatternError::UnsupportedMode(0)));
}
