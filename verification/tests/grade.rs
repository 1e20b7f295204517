use rtosu_dataprovider::grade::{
    play_grade, silver_mods, tosu_grade_name, tosu_grade_of_hits, tosu_hit_grade_name, HitGrade,
};

#[test]
fn test_grade() {
    // A full health bar does not fail the play; an empty one does.
    assert_eq!(play_grade(100, 0, 0, 0, false, false), "SS");
    assert_eq!(play_grade(100, 0, 0, 0, false, true), "SSH");
    assert_eq!(play_grade(100, 0, 0, 0, true, false), "F");
}

#[test]
fn play_grade_thresholds_are_exact_fractions() {
    // 91 % 300s, 1 % 50s (allowed: at most 1 %), no miss: S.
    assert_eq!(play_grade(91, 8, 1, 0, false, false), "S");
    assert_eq!(play_grade(91, 8, 1, 0, false, true), "SH");
    // Exactly 90 % is not above 90 %: A without misses.
    assert_eq!(play_grade(90, 10, 0, 0, false, false), "A");
    // 2 % 50s: no S.
    assert_eq!(play_grade(91, 7, 2, 0, false, false), "A");
    // A miss at 85 %: B.
    assert_eq!(play_grade(85, 14, 0, 1, false, false), "B");
    assert_eq!(play_grade(65, 35, 0, 0, false, false), "C");
    assert_eq!(play_grade(60, 40, 0, 0, false, false), "D");
    // Nothing judged, or negative counts that sum to nothing: SS.
    assert_eq!(play_grade(0, 0, 0, 0, false, true), "SS");
    assert_eq!(play_grade(-5, 0, 0, 0, false, false), "SS");
}

#[test]
fn tosu_grades_of_hit_counts() {
    assert_eq!(tosu_grade_of_hits(0, 0, 0, 0), HitGrade::Perfect);
    assert_eq!(tosu_grade_of_hits(300, 0, 0, 0), HitGrade::Perfect);
    // Exactly 1 % 50s is not under 1 %: no S.
    assert_eq!(tosu_grade_of_hits(91, 8, 1, 0), HitGrade::A);
    assert_eq!(tosu_grade_of_hits(182, 17, 1, 0), HitGrade::S);
    assert_eq!(tosu_grade_of_hits(95, 4, 0, 1), HitGrade::A);
    assert_eq!(tosu_grade_of_hits(75, 25, 0, 0), HitGrade::B);
    assert_eq!(tosu_grade_of_hits(61, 39, 0, 0), HitGrade::C);
    assert_eq!(tosu_grade_of_hits(60, 40, 0, 0), HitGrade::D);
}

#[test]
fn tosu_grade_names_follow_hidden_and_flashlight() {
    assert!(silver_mods(8));
    assert!(silver_mods(1024));
    assert!(!silver_mods(16));
    assert_eq!(tosu_grade_name(HitGrade::Perfect, false), "X");
    assert_eq!(tosu_grade_name(HitGrade::Perfect, true), "XH");
    assert_eq!(tosu_grade_name(HitGrade::S, true), "SH");
    assert_eq!(tosu_grade_name(HitGrade::D, true), "D");
    assert_eq!(tosu_hit_grade_name(100, 0, 0, 0, 8), "XH");
    assert_eq!(tosu_hit_grade_name(182, 17, 1, 0, 0), "S");
}
