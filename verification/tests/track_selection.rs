use album_player::range::{parse_track_ranges, RangeSelector};
use album_player::select::{cutoff_of, select_tracks};

fn tracks(n: usize) -> Vec<String> {
    (0..n).map(|i| format!("track{}.mp3", i)).collect()
}

fn pick(n: usize, offset: Option<isize>, limit: Option<isize>) -> Vec<String> {
    select_tracks(&tracks(n), &RangeSelector { offset, limit })
}

#[test]
fn offset_without_limit_skips_the_head() {
    let all = tracks(10);
    assert_eq!(pick(10, Some(2), None), all[2..].to_vec());
    assert_eq!(pick(10, Some(0), None), all);
    assert_eq!(pick(10, Some(10), None), Vec::<String>::new());
}

#[test]
fn limit_of_minus_one_drops_the_last_track() {
    let all = tracks(10);
    assert_eq!(pick(10, Some(0), Some(-1)), all[..9].to_vec());
}

#[test]
fn offset_and_negative_limit_keep_the_middle() {
    let all = tracks(10);
    let got = pick(10, Some(3), Some(-2));
    assert_eq!(got, all[3..8].to_vec());
    assert_eq!(got.len(), 5);
    assert_eq!(got[0], "track3.mp3");
    assert_eq!(got[4], "track7.mp3");
}

#[test]
fn no_bounds_select_everything() {
    assert_eq!(pick(4, None, None), tracks(4));
    assert_eq!(pick(0, None, None), Vec::<String>::new());
}

#[test]
fn non_negative_limit_is_a_cutoff_index_not_a_count() {
    let all = tracks(10);
    assert_eq!(pick(10, Some(2), Some(5)), all[2..5].to_vec());
    assert_eq!(pick(10, None, Some(5)), all[..5].to_vec());
    assert_eq!(pick(10, Some(5), Some(5)), Vec::<String>::new());
    assert_eq!(pick(10, Some(7), Some(5)), Vec::<String>::new());
    assert_eq!(pick(10, None, Some(2)), all[..2].to_vec());
}

#[test]
fn limit_of_zero_does_not_bound() {
    let all = tracks(10);
    assert_eq!(pick(10, None, Some(0)), all);
    assert_eq!(pick(10, Some(4), Some(0)), all[4..].to_vec());
}

#[test]
fn limit_of_one_keeps_the_first_track_only() {
    let all = tracks(10);
    assert_eq!(pick(10, None, Some(1)), all[..1].to_vec());
    assert_eq!(pick(10, Some(1), Some(1)), Vec::<String>::new());
}

#[test]
fn limit_beyond_the_list_does_not_bound() {
    let all = tracks(10);
    assert_eq!(pick(10, Some(1), Some(10)), all[1..].to_vec());
    assert_eq!(pick(10, Some(1), Some(11)), all[1..].to_vec());
    assert_eq!(pick(10, Some(1), Some(isize::MAX)), all[1..].to_vec());
}

#[test]
fn negative_limit_that_drops_everything_does_not_bound() {
    let all = tracks(10);
    assert_eq!(pick(10, None, Some(-9)), all[..1].to_vec());
    assert_eq!(pick(10, None, Some(-10)), all);
    assert_eq!(pick(10, None, Some(-11)), all);
    assert_eq!(pick(10, Some(3), Some(isize::MIN)), all[3..].to_vec());
    assert_eq!(pick(0, None, Some(-1)), Vec::<String>::new());
}

#[test]
fn offset_past_the_cutoff_selects_nothing() {
    assert_eq!(pick(10, Some(9), Some(-2)), Vec::<String>::new());
    assert_eq!(pick(10, Some(8), Some(-2)), Vec::<String>::new());
    assert_eq!(pick(10, Some(11), None), Vec::<String>::new());
    assert_eq!(pick(10, Some(isize::MAX), None), Vec::<String>::new());
}

#[test]
fn negative_offset_selects_nothing() {
    assert_eq!(pick(10, Some(-1), None), Vec::<String>::new());
    assert_eq!(pick(10, Some(isize::MIN), Some(5)), Vec::<String>::new());
}

#[test]
fn selection_agrees_with_a_walk_over_the_list() {
    let bounds: [Option<isize>; 9] =
        [None, Some(-7), Some(-6), Some(-1), Some(0), Some(1), Some(3), Some(6), Some(7)];
    for n in 0..7usize {
        let all = tracks(n);
        for offset in bounds {
            for limit in bounds {
                let lower: usize = match offset {
                    None => 0,
                    Some(o) if o < 0 => usize::MAX,
                    Some(o) => o.unsigned_abs(),
                };
                let upper: usize = match limit {
                    None => 0,
                    Some(l) if l >= 0 => l.unsigned_abs(),
                    Some(l) => n.saturating_sub(l.unsigned_abs()),
                };
                let mut expected: Vec<String> = Vec::new();
                for (i, t) in all.iter().enumerate() {
                    if i < lower {
                        continue;
                    }
                    if upper != 0 && i >= upper {
                        break;
                    }
                    expected.push(t.clone());
                }
                assert_eq!(pick(n, offset, limit), expected, "{} {:?} {:?}", n, offset, limit);
            }
        }
    }
}

#[test]
fn selector_text_drives_the_selection() {
    let all = tracks(10);
    let range = parse_track_ranges("3:-2").unwrap();
    assert_eq!(select_tracks(&all, &range), all[3..8].to_vec());
    let range = parse_track_ranges("2:").unwrap();
    assert_eq!(select_tracks(&all, &range), all[2..].to_vec());
}

#[test]
fn cutoff_is_the_limit_or_counts_from_the_end() {
    assert_eq!(cutoff_of(None, 10), 0);
    assert_eq!(cutoff_of(Some(0), 10), 0);
    assert_eq!(cutoff_of(Some(4), 10), 4);
    assert_eq!(cutoff_of(Some(40), 10), 40);
    assert_eq!(cutoff_of(Some(-1), 10), 9);
    assert_eq!(cutoff_of(Some(-2), 10), 8);
    assert_eq!(cutoff_of(Some(-10), 10), 0);
    assert_eq!(cutoff_of(Some(-11), 10), 0);
    assert_eq!(cutoff_of(Some(isize::MIN), 10), 0);
    assert_eq!(cutoff_of(Some(isize::MIN), usize::MAX), usize::MAX - isize::MIN.unsigned_abs());
}
