use rtosu_dataprovider::beatmap::{
    apply_file_facts, beatmap_from_reads, beatmap_mode_name, beatmap_status_name,
    classify_object, live_time_pointer_address, restore_file_metadata, scan_osu_file,
    tally_hit_objects, BeatmapInfo, BeatmapReads, ObjectKind,
};

#[test]
fn test_status_names() {
    assert_eq!(beatmap_status_name(4), "ranked");
    assert_eq!(beatmap_status_name(7), "loved");
    assert_eq!(beatmap_status_name(1), "notSubmitted");
    assert_eq!(beatmap_status_name(999), "unknown");
}

#[test]
fn mode_names_default_to_osu() {
    assert_eq!(beatmap_mode_name(0), "osu");
    assert_eq!(beatmap_mode_name(1), "taiko");
    assert_eq!(beatmap_mode_name(2), "fruits");
    assert_eq!(beatmap_mode_name(3), "mania");
    assert_eq!(beatmap_mode_name(-4), "osu");
    assert_eq!(beatmap_status_name(0), "unknown");
}

const SAMPLE: &str = "osu file format v14\r\n\r\n[General]\r\nAudioFilename: audio.mp3\r\nAudioLength: 123456\r\n\r\n[Metadata]\r\nTitle:Test\r\nSource: Some Game \r\nTags:a b c\r\n// Source: ignored comment\r\n\r\n[TimingPoints]\r\n0,500,4,2,0,50,1,0\r\n1500,-50,4,2,0,50,0,0\r\n7\r\n\r\n[HitObjects]\r\n256,192,1000,1,0,0:0:0:0:\r\n256,192,1200,2,0,B|1:1,1,100\r\n256,192,3000,12,0,4000\r\n64,192,900,128,0,1500:0:0:0:0:\r\n1,2,3\r\n";

#[test]
fn scans_the_sections_of_an_osu_file() {
    let facts = scan_osu_file(SAMPLE);
    assert_eq!(facts.source.as_deref(), Some("Some Game"));
    assert_eq!(facts.tags.as_deref(), Some("a b c"));
    assert_eq!(facts.audio_length, Some(123456));
    assert_eq!(
        facts.timing_points,
        vec![
            ("0".to_string(), "500".to_string()),
            ("1500".to_string(), "-50".to_string())
        ]
    );
    assert_eq!(
        facts.hit_objects,
        vec![
            ("1000".to_string(), 1),
            ("1200".to_string(), 2),
            ("3000".to_string(), 12),
            ("900".to_string(), 128)
        ]
    );
}

#[test]
fn unparsable_audio_length_reads_as_zero() {
    let facts = scan_osu_file("[General]\nAudioLength: long\n[HitObjects]\n1,2,3,x\n");
    assert_eq!(facts.audio_length, Some(0));
    assert_eq!(facts.hit_objects, vec![("3".to_string(), 0)]);
    assert_eq!(facts.source, None);
    let empty = scan_osu_file("");
    assert_eq!(empty.audio_length, None);
    assert!(empty.hit_objects.is_empty());
}

#[test]
fn tallies_hit_objects_by_kind() {
    assert_eq!(classify_object(1), ObjectKind::Circle);
    assert_eq!(classify_object(2), ObjectKind::Slider);
    assert_eq!(classify_object(12), ObjectKind::Spinner);
    assert_eq!(classify_object(128 | 8), ObjectKind::Hold);
    assert_eq!(classify_object(4), ObjectKind::Other);
    let summary = tally_hit_objects(&vec![(1000, 1), (1200, 2), (3000, 12), (900, 128), (50, 4)])
        .expect("objects");
    assert_eq!(summary.first_object, 50);
    assert_eq!(summary.last_object, 3000);
    assert_eq!(summary.objects.circles, 1);
    assert_eq!(summary.objects.sliders, 1);
    assert_eq!(summary.objects.spinners, 1);
    assert_eq!(summary.objects.holds, 1);
    assert_eq!(summary.objects.total, 4);
    assert_eq!(tally_hit_objects(&vec![]), None);
    assert_eq!(tally_hit_objects(&vec![(i32::MAX, 1)]), None);
}

fn reads() -> BeatmapReads {
    BeatmapReads {
        live_time: 1234,
        id: 42,
        set_id: 7,
        status: 4,
        mode: 3,
        object_count: 99,
        title: "Title".to_string(),
        checksum: "abc".to_string(),
        folder: "Folder".to_string(),
        filename: "map.osu".to_string(),
        ..BeatmapReads::default()
    }
}

#[test]
fn builds_the_beatmap_from_memory_reads() {
    let info = beatmap_from_reads(reads());
    assert_eq!(info.status.name, "ranked");
    assert_eq!(info.mode.name, "mania");
    assert_eq!(info.time.live, 1234);
    assert_eq!(info.objects.total, 99);
    assert_eq!(info.id, 42);
    assert_eq!(info.set, 7);
    assert_eq!(info.title, "Title");
    assert!(info.source.is_empty());
}

#[test]
fn file_facts_fill_and_restore_the_beatmap() {
    let mut info = beatmap_from_reads(reads());
    let facts = scan_osu_file(SAMPLE);
    let times: Vec<(i32, u32)> = facts
        .hit_objects
        .iter()
        .map(|(t, k)| (t.parse::<f64>().unwrap().round() as i32, *k))
        .collect();
    let summary = tally_hit_objects(&times);
    apply_file_facts(&mut info, &facts, summary);
    assert_eq!(info.source, "Some Game");
    assert_eq!(info.tags, "a b c");
    assert_eq!(info.time.mp3_length, 123456);
    assert_eq!(info.time.first_object, 900);
    assert_eq!(info.time.last_object, 3000);
    assert_eq!(info.objects.total, 4);
    assert_eq!(info.id, 42);

    let mut again = beatmap_from_reads(reads());
    again.time.mp3_length = 5;
    restore_file_metadata(&mut again, &info);
    assert_eq!(again.source, "Some Game");
    assert_eq!(again.objects, info.objects);
    assert_eq!(again.time.first_object, 900);
    assert_eq!(again.time.mp3_length, 5);
    let mut blank = BeatmapInfo::default();
    restore_file_metadata(&mut blank, &info);
    assert_eq!(blank.time.mp3_length, 123456);
}

#[test]
fn live_time_pointer_skips_five_bytes() {
    assert_eq!(live_time_pointer_address(0x1000), 0x1005);
    assert_eq!(live_time_pointer_address(u64::MAX - 2), u64::MAX - 2);
}
