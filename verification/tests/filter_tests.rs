use aflpp_cmplog::filter::{loop_driven, LOOP_FILTER_MIN_EXECS, LOOP_FILTER_SLACK};
use aflpp_cmplog::header::{AFLppCmpLogHeader, CMPLOG_KIND_INS, CMPLOG_KIND_RTN};
use aflpp_cmplog::metadata::{collect_values, AFLppCmpValuesMetadata, PassMode};
use aflpp_cmplog::layout::CMPLOG_SITE_BYTES;
use aflpp_cmplog::trace_map::AFLppCmpLogMap;
use aflpp_cmplog::values::CmpValues;

const WIDTH: usize = 16;

fn buffer() -> Vec<u8> {
    vec![0u8; WIDTH * CMPLOG_SITE_BYTES]
}

fn record(map: &mut AFLppCmpLogMap, idx: usize, kind: u8, shape: u8, vals: &[CmpValues]) {
    let h = AFLppCmpLogHeader {
        hits: vals.len() as u32,
        id: idx as u32,
        shape,
        kind,
        attribute: 0,
        overflow: false,
        reserved: 0,
    };
    assert!(map.set_header(idx, &h));
    for (j, v) in vals.iter().enumerate() {
        assert!(map.set_values(idx, j, v));
    }
}

fn u64s(pairs: &[(u64, u64)]) -> Vec<CmpValues> {
    pairs.iter().map(|p| CmpValues::U64(p.0, p.1)).collect()
}

fn verdict(pairs: &[(u64, u64)]) -> bool {
    let mut region = buffer();
    let mut map = AFLppCmpLogMap::new(&mut region, WIDTH).unwrap();
    record(&mut map, 5, CMPLOG_KIND_INS, 7, &u64s(pairs));
    loop_driven(&map, 5)
}

#[test]
fn filter_thresholds() {
    assert_eq!(LOOP_FILTER_MIN_EXECS, 4);
    assert_eq!(LOOP_FILTER_SLACK, 2);
}

#[test]
fn scenario_counting_up_is_discarded() {
    let seq = [(10, 0), (11, 0), (12, 0), (13, 0), (14, 0), (15, 0)];
    assert!(verdict(&seq));
    let mut region = buffer();
    let mut map = AFLppCmpLogMap::new(&mut region, WIDTH).unwrap();
    record(&mut map, 5, CMPLOG_KIND_INS, 7, &u64s(&seq));
    assert_eq!(map.usable_executions_for(5), 6);
    let mut meta = AFLppCmpValuesMetadata::new();
    meta.add_from(WIDTH, &map, PassMode::Baseline);
    assert!(!meta.orig_cmpvals().contains_key(&5));
    assert!(meta.orig_cmpvals().is_empty());
    assert_eq!(meta.headers().len(), 1);
    assert_eq!(meta.headers().get(&5).unwrap().hits, 6);
    meta.add_from(WIDTH, &map, PassMode::Mutated);
    assert!(meta.new_cmpvals().is_empty());
}

#[test]
fn scenario_one_value_out_of_line_is_tolerated() {
    // Four of the five steps rise: only the step down from 99 is broken.
    let seq = [(10, 0), (99, 0), (12, 0), (13, 0), (14, 0), (15, 0)];
    assert!(verdict(&seq));
    let mut region = buffer();
    let mut map = AFLppCmpLogMap::new(&mut region, WIDTH).unwrap();
    record(&mut map, 5, CMPLOG_KIND_INS, 7, &u64s(&seq));
    let mut meta = AFLppCmpValuesMetadata::new();
    meta.add_from(8, &map, PassMode::Baseline);
    assert_eq!(meta.orig_cmpvals().get(&5), None);
    assert!(meta.new_cmpvals().is_empty());
    assert_eq!(meta.headers().get(&5).unwrap().hits, 6);
    // Out of line below, or at either end, it breaks one step as well.
    assert!(verdict(&[(10, 0), (2, 0), (12, 0), (13, 0), (14, 0), (15, 0)]));
    assert!(verdict(&[(99, 0), (11, 0), (12, 0), (13, 0), (14, 0), (15, 0)]));
    assert!(verdict(&[(10, 0), (11, 0), (12, 0), (13, 0), (14, 0), (1, 0)]));
    assert!(verdict(&[(0, 50), (0, 40), (0, 45), (0, 30), (0, 20), (0, 10)]));
}

#[test]
fn one_broken_step_is_tolerated() {
    assert!(verdict(&[(10, 0), (11, 0), (12, 0), (3, 0), (4, 0), (5, 0)]));
    assert!(verdict(&[
        (8, 0),
        (9, 0),
        (10, 0),
        (3, 0),
        (4, 0),
        (5, 0),
        (6, 0),
        (7, 0)
    ]));
    assert!(verdict(&[(0, 9), (0, 8), (0, 7), (0, 20), (0, 19), (0, 18)]));
}

#[test]
fn two_broken_steps_are_not() {
    assert!(!verdict(&[(10, 0), (11, 0), (3, 0), (4, 0), (1, 0), (2, 0)]));
    assert!(!verdict(&[(5, 0), (6, 0), (1, 0), (2, 0), (0, 0)]));
    assert!(!verdict(&[(10, 0), (99, 0), (12, 0), (98, 0), (14, 0), (15, 0)]));
}

#[test]
fn the_count_is_held_against_entries_less_two() {
    assert!(verdict(&[(1, 0), (2, 0), (3, 0), (4, 0), (9, 0)]));
    assert!(verdict(&[(1, 0), (2, 0), (3, 0), (4, 0), (5, 0)]));
    assert!(verdict(&[(5, 0), (6, 0), (7, 0), (1, 0), (9, 0)]));
    // a value that stays is no step: two steps of four are not enough
    assert!(!verdict(&[(1, 0), (2, 0), (2, 0), (3, 0), (3, 0)]));
    assert!(!verdict(&[(3, 0), (4, 0), (1, 0), (2, 0), (1, 0)]));
}

#[test]
fn scenario_small_sample_is_kept_verbatim() {
    let seq = [(1, 2), (1, 2), (1, 2)];
    for mode in [PassMode::Baseline, PassMode::Mutated] {
        let mut region = buffer();
        let mut map = AFLppCmpLogMap::new(&mut region, WIDTH).unwrap();
        record(&mut map, 7, CMPLOG_KIND_INS, 7, &u64s(&seq));
        assert_eq!(map.usable_executions_for(7), 3);
        assert!(!loop_driven(&map, 7));
        let mut meta = AFLppCmpValuesMetadata::new();
        meta.add_from(WIDTH, &map, mode);
        let (active, other) = match mode {
            PassMode::Baseline => (meta.orig_cmpvals(), meta.new_cmpvals()),
            PassMode::Mutated => (meta.new_cmpvals(), meta.orig_cmpvals()),
        };
        assert_eq!(active.len(), 1);
        assert_eq!(active.get(&7), Some(&u64s(&seq)));
        assert!(other.is_empty());
    }
}

#[test]
fn up_to_four_entries_nothing_is_discarded() {
    assert!(!verdict(&[(1, 0)]));
    assert!(!verdict(&[(1, 0), (2, 0)]));
    assert!(!verdict(&[(1, 0), (2, 0), (3, 0)]));
    assert!(!verdict(&[(1, 0), (2, 0), (3, 0), (4, 0)]));
    assert!(!verdict(&[(4, 4), (3, 3), (2, 2), (1, 1)]));
    assert!(verdict(&[(1, 0), (2, 0), (3, 0), (4, 0), (5, 0)]));
}

#[test]
fn each_operand_and_each_direction_counts() {
    assert!(verdict(&[(1, 7), (2, 7), (3, 7), (4, 7), (5, 7)]));
    assert!(verdict(&[(7, 1), (7, 2), (7, 3), (7, 4), (7, 5)]));
    assert!(verdict(&[(5, 7), (4, 7), (3, 7), (2, 7), (1, 7)]));
    assert!(verdict(&[(7, 5), (7, 4), (7, 3), (7, 2), (7, 1)]));
    assert!(!verdict(&[(7, 7), (7, 7), (7, 7), (7, 7), (7, 7)]));
    // the size of a step does not matter
    assert!(verdict(&[(1, 0), (3, 0), (5, 0), (7, 0), (9, 0)]));
    assert!(verdict(&[(0, 900), (0, 70), (0, 30), (0, 2), (0, 1)]));
    assert!(verdict(&[(5, 0), (100, 0), (3000, 0), (70000, 0), (900000, 0)]));
    // the counts are kept apart: two up, two down do not add up
    assert!(!verdict(&[(1, 0), (2, 0), (3, 0), (2, 0), (1, 0)]));
}

#[test]
fn runs_wrap_at_the_ends_of_the_range() {
    let top = u64::MAX;
    assert!(verdict(&[
        (top - 2, 0),
        (top - 1, 0),
        (top, 0),
        (0, 0),
        (1, 0),
        (2, 0)
    ]));
    assert!(verdict(&[
        (0, 2),
        (0, 1),
        (0, 0),
        (0, top),
        (0, top - 1),
        (0, top - 2)
    ]));
    // the step across the end is the third of three that are needed
    assert!(verdict(&[(top - 1, 0), (top, 0), (0, 0), (1, 0), (1, 0)]));
    assert!(verdict(&[(0, 1), (0, 0), (0, top), (0, top - 1), (0, top - 1)]));
    // only the neighbour across the end counts, no other value down there
    assert!(!verdict(&[(top - 1, 0), (top, 0), (1, 0), (2, 0), (2, 0)]));
    assert!(!verdict(&[(0, 1), (0, 0), (0, top - 1), (0, top - 2), (0, top - 2)]));
}

#[test]
fn narrow_integers_are_widened_before_they_are_compared() {
    let mut region = buffer();
    let mut map = AFLppCmpLogMap::new(&mut region, WIDTH).unwrap();
    let up: Vec<CmpValues> = (1..=6u8).map(|k| CmpValues::U8(k, 0)).collect();
    record(&mut map, 1, CMPLOG_KIND_INS, 0, &up);
    assert!(loop_driven(&map, 1));
    // once widened to 64 bits, 0 does not come after 255 in a rising run
    let wrap: Vec<CmpValues> = [255u8, 0, 255, 0, 255, 0]
        .iter()
        .map(|k| CmpValues::U8(*k, 9))
        .collect();
    record(&mut map, 2, CMPLOG_KIND_INS, 0, &wrap);
    assert!(!loop_driven(&map, 2));
    let wide: Vec<CmpValues> = (0..6u128)
        .map(|k| CmpValues::U128((k << 64) | (40 + k), 0))
        .collect();
    record(&mut map, 3, CMPLOG_KIND_INS, 15, &wide);
    assert!(loop_driven(&map, 3));
}

#[test]
fn byte_strings_are_never_discarded() {
    let mut region = buffer();
    let mut map = AFLppCmpLogMap::new(&mut region, WIDTH).unwrap();
    let vals: Vec<CmpValues> = (0..8u8)
        .map(|k| CmpValues::Bytes(vec![k], vec![10 - k]))
        .collect();
    record(&mut map, 4, CMPLOG_KIND_RTN, 0, &vals);
    assert_eq!(map.usable_executions_for(4), 8);
    assert!(!loop_driven(&map, 4));
    let mut meta = AFLppCmpValuesMetadata::new();
    meta.add_from(WIDTH, &map, PassMode::Mutated);
    assert_eq!(meta.new_cmpvals().get(&4), Some(&vals));
}

#[test]
fn entries_that_do_not_decode_are_left_out() {
    let mut region = buffer();
    let rtn = 8 * WIDTH + 1024 * 9;
    region[rtn + 64 + 31] = 0x7F;
    let mut map = AFLppCmpLogMap::new(&mut region, WIDTH).unwrap();
    let h = AFLppCmpLogHeader {
        hits: 3,
        id: 0,
        shape: 0,
        kind: CMPLOG_KIND_RTN,
        attribute: 0,
        overflow: false,
        reserved: 0,
    };
    assert!(map.set_header(9, &h));
    assert!(map.set_values(9, 0, &CmpValues::Bytes(vec![1], vec![2])));
    assert!(map.set_values(9, 2, &CmpValues::Bytes(vec![3], vec![4])));
    assert_eq!(
        collect_values(&map, 9),
        vec![
            CmpValues::Bytes(vec![1], vec![2]),
            CmpValues::Bytes(vec![3], vec![4])
        ]
    );
    let unknown = AFLppCmpLogHeader { shape: 2, kind: CMPLOG_KIND_INS, ..h };
    assert!(map.set_header(10, &unknown));
    assert_eq!(collect_values(&map, 10), Vec::new());
    let mut meta = AFLppCmpValuesMetadata::new();
    meta.add_from(WIDTH, &map, PassMode::Baseline);
    assert_eq!(meta.orig_cmpvals().get(&10), Some(&Vec::new()));
    assert_eq!(meta.headers().get(&10), Some(&unknown));
    assert_eq!(meta.orig_cmpvals().len(), 2);
}

#[test]
fn a_pass_goes_through_the_usable_sites_only() {
    let mut region = buffer();
    let mut map = AFLppCmpLogMap::new(&mut region, WIDTH).unwrap();
    for idx in [0usize, 3, 4, 15] {
        record(&mut map, idx, CMPLOG_KIND_INS, 7, &u64s(&[(idx as u64, 1)]));
    }
    let mut meta = AFLppCmpValuesMetadata::new();
    meta.add_from(4, &map, PassMode::Baseline);
    let mut sites: Vec<usize> = meta.orig_cmpvals().keys().copied().collect();
    sites.sort();
    assert_eq!(sites, vec![0, 3]);
    let mut sites: Vec<usize> = meta.headers().keys().copied().collect();
    sites.sort();
    assert_eq!(sites, vec![0, 3]);
    let mut all = AFLppCmpValuesMetadata::new();
    all.add_from(usize::MAX, &map, PassMode::Baseline);
    assert_eq!(all.orig_cmpvals().len(), 4);
    assert_eq!(all.orig_cmpvals().get(&15), Some(&u64s(&[(15, 1)])));
    let mut none = AFLppCmpValuesMetadata::new();
    none.add_from(0, &map, PassMode::Baseline);
    assert!(none.orig_cmpvals().is_empty() && none.headers().is_empty());
}

#[test]
fn add_from_replaces_site_by_site() {
    let mut region = buffer();
    let mut map = AFLppCmpLogMap::new(&mut region, WIDTH).unwrap();
    record(&mut map, 1, CMPLOG_KIND_INS, 7, &u64s(&[(1, 1)]));
    record(&mut map, 2, CMPLOG_KIND_INS, 7, &u64s(&[(2, 2)]));
    let mut meta = AFLppCmpValuesMetadata::new();
    meta.add_from(WIDTH, &map, PassMode::Baseline);
    assert_eq!(map.reset(), Ok(()));
    record(&mut map, 2, CMPLOG_KIND_INS, 7, &u64s(&[(20, 20), (21, 21)]));
    record(&mut map, 3, CMPLOG_KIND_INS, 7, &u64s(&[(3, 3)]));
    meta.add_from(WIDTH, &map, PassMode::Baseline);
    assert_eq!(meta.orig_cmpvals().len(), 3);
    assert_eq!(meta.orig_cmpvals().get(&1), Some(&u64s(&[(1, 1)])));
    assert_eq!(
        meta.orig_cmpvals().get(&2),
        Some(&u64s(&[(20, 20), (21, 21)]))
    );
    assert_eq!(meta.orig_cmpvals().get(&3), Some(&u64s(&[(3, 3)])));
    assert_eq!(meta.headers().get(&1).unwrap().hits, 1);
    assert_eq!(meta.headers().get(&2).unwrap().hits, 2);
    assert!(meta.new_cmpvals().is_empty());
    meta.clear_pass(PassMode::Mutated);
    assert_eq!(meta.orig_cmpvals().len(), 3);
    assert_eq!(meta.headers().len(), 3);
    meta.clear_pass(PassMode::Baseline);
    assert!(meta.orig_cmpvals().is_empty());
    assert!(meta.headers().is_empty());
}

#[test]
fn pass_modes_stand_for_the_flag() {
    assert_eq!(PassMode::of_original(true), PassMode::Baseline);
    assert_eq!(PassMode::of_original(false), PassMode::Mutated);
    assert!(PassMode::Baseline.is_original());
    assert!(!PassMode::Mutated.is_original());
}

#[test]
fn a_new_store_is_empty() {
    for meta in [AFLppCmpValuesMetadata::new(), AFLppCmpValuesMetadata::default()] {
        assert!(meta.orig_cmpvals().is_empty());
        assert!(meta.new_cmpvals().is_empty());
        assert!(meta.headers().is_empty());
    }
}
