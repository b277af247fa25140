use aflpp_cmplog::error::Error;
use aflpp_cmplog::header::{AFLppCmpLogHeader, CMPLOG_KIND_INS};
use aflpp_cmplog::metadata::{AFLppCmpValuesMetadata, PassMode};
use aflpp_cmplog::observer::AFLppCmpLogObserver;
use aflpp_cmplog::layout::CMPLOG_SITE_BYTES;
use aflpp_cmplog::trace_map::AFLppCmpLogMap;
use aflpp_cmplog::values::CmpValues;

const WIDTH: usize = 8;

fn buffer() -> Vec<u8> {
    vec![0u8; WIDTH * CMPLOG_SITE_BYTES]
}

fn record(map: &mut AFLppCmpLogMap, idx: usize, pairs: &[(u64, u64)]) {
    let h = AFLppCmpLogHeader {
        hits: pairs.len() as u32,
        id: idx as u32,
        shape: 7,
        kind: CMPLOG_KIND_INS,
        attribute: 0,
        overflow: false,
        reserved: 0,
    };
    assert!(map.set_header(idx, &h));
    for (j, p) in pairs.iter().enumerate() {
        assert!(map.set_values(idx, j, &CmpValues::U64(p.0, p.1)));
    }
}

fn u64s(pairs: &[(u64, u64)]) -> Vec<CmpValues> {
    pairs.iter().map(|p| CmpValues::U64(p.0, p.1)).collect()
}

fn sites(m: &std::collections::HashMap<usize, Vec<CmpValues>>) -> Vec<usize> {
    let mut keys: Vec<usize> = m.keys().copied().collect();
    keys.sort();
    keys
}

#[test]
fn new_observer_reads_the_whole_map_as_mutated_passes() {
    let mut region = buffer();
    let map = AFLppCmpLogMap::new(&mut region, WIDTH).unwrap();
    let obs = AFLppCmpLogObserver::new("cmplog", map, true);
    assert_eq!(obs.name(), "cmplog");
    assert_eq!(obs.usable_count(), WIDTH);
    assert_eq!(obs.cmp_observer_data(), PassMode::Mutated);
    assert_eq!(obs.cmp_map().len(), WIDTH);
}

#[test]
fn with_size_reads_a_prefix() {
    let mut region = buffer();
    let size: usize = 3;
    let map = AFLppCmpLogMap::new(&mut region, WIDTH).unwrap();
    let mut obs = AFLppCmpLogObserver::with_size("sized", map, true, true, &size);
    assert_eq!(obs.name(), "sized");
    assert_eq!(obs.usable_count(), 3);
    assert_eq!(obs.cmp_observer_data(), PassMode::Baseline);
    record(obs.cmp_map_mut(), 2, &[(2, 2)]);
    record(obs.cmp_map_mut(), 3, &[(3, 3)]);
    let mut meta = None;
    assert_eq!(obs.post_exec(&mut meta), Ok(()));
    let meta = meta.unwrap();
    assert_eq!(sites(meta.orig_cmpvals()), vec![2]);
    assert_eq!(meta.headers().len(), 1);

    let mut region = buffer();
    let map = AFLppCmpLogMap::new(&mut region, WIDTH).unwrap();
    let obs = AFLppCmpLogObserver::with_size("sized", map, false, false, &size);
    assert_eq!(obs.cmp_observer_data(), PassMode::Mutated);
}

#[test]
fn set_original_switches_the_pass() {
    let mut obs = AFLppCmpLogObserver::new("cmplog", AFLppCmpLogMap::unmapped(WIDTH), true);
    assert_eq!(obs.cmp_observer_data(), PassMode::Mutated);
    obs.set_original(true);
    assert_eq!(obs.cmp_observer_data(), PassMode::Baseline);
    obs.set_original(true);
    assert_eq!(obs.cmp_observer_data(), PassMode::Baseline);
    obs.set_original(false);
    assert_eq!(obs.cmp_observer_data(), PassMode::Mutated);
    assert_eq!(obs.name(), "cmplog");
    assert_eq!(obs.usable_count(), WIDTH);
}

#[test]
fn pre_exec_empties_the_map() {
    let mut region = buffer();
    let mut map = AFLppCmpLogMap::new(&mut region, WIDTH).unwrap();
    record(&mut map, 1, &[(1, 1), (2, 2)]);
    let mut obs = AFLppCmpLogObserver::new("cmplog", map, true);
    assert_eq!(obs.cmp_map().usable_executions_for(1), 2);
    assert_eq!(obs.pre_exec(), Ok(()));
    assert_eq!(obs.cmp_map().usable_executions_for(1), 0);
    assert_eq!(obs.cmp_map().values_of(1, 0), None);
    let mut meta = None;
    assert_eq!(obs.post_exec(&mut meta), Ok(()));
    let meta = meta.unwrap();
    assert!(meta.new_cmpvals().is_empty());
    assert!(meta.orig_cmpvals().is_empty());
    assert!(meta.headers().is_empty());
}

#[test]
fn pre_exec_fails_without_a_buffer() {
    let mut obs = AFLppCmpLogObserver::new("cmplog", AFLppCmpLogMap::unmapped(WIDTH), true);
    assert_eq!(obs.pre_exec(), Err(Error::MapUnavailable));
    assert_eq!(obs.usable_count(), WIDTH);
    let mut meta = None;
    assert_eq!(obs.post_exec(&mut meta), Ok(()));
    assert!(meta.unwrap().new_cmpvals().is_empty());
}

#[test]
fn post_exec_does_nothing_unless_asked_to() {
    let mut region = buffer();
    let mut map = AFLppCmpLogMap::new(&mut region, WIDTH).unwrap();
    record(&mut map, 1, &[(1, 1)]);
    let mut obs = AFLppCmpLogObserver::new("quiet", map, false);
    let mut meta: Option<AFLppCmpValuesMetadata> = None;
    assert_eq!(obs.post_exec(&mut meta), Ok(()));
    assert!(meta.is_none());
    let mut meta = Some(AFLppCmpValuesMetadata::new());
    obs.set_original(true);
    assert_eq!(obs.post_exec(&mut meta), Ok(()));
    let meta = meta.unwrap();
    assert!(meta.orig_cmpvals().is_empty() && meta.headers().is_empty());
    assert!(meta.new_cmpvals().is_empty());
}

#[test]
fn baseline_pass_replaces_baseline_values_and_headers_only() {
    let mut region = buffer();
    let map = AFLppCmpLogMap::new(&mut region, WIDTH).unwrap();
    let mut obs = AFLppCmpLogObserver::new("cmplog", map, true);
    let mut meta = None;

    record(obs.cmp_map_mut(), 1, &[(1, 1)]);
    record(obs.cmp_map_mut(), 2, &[(2, 2)]);
    obs.set_original(true);
    obs.add_cmpvalues_meta(&mut meta);
    obs.set_original(false);
    obs.add_cmpvalues_meta(&mut meta);
    {
        let m = meta.as_ref().unwrap();
        assert_eq!(sites(m.orig_cmpvals()), vec![1, 2]);
        assert_eq!(sites(m.new_cmpvals()), vec![1, 2]);
        assert_eq!(m.headers().len(), 2);
    }

    assert_eq!(obs.pre_exec(), Ok(()));
    record(obs.cmp_map_mut(), 2, &[(20, 20), (21, 22)]);
    record(obs.cmp_map_mut(), 4, &[(4, 4)]);
    record(obs.cmp_map_mut(), 6, &[(1, 0), (2, 0), (3, 0), (4, 0), (5, 0)]);
    obs.set_original(true);
    assert_eq!(obs.post_exec(&mut meta), Ok(()));
    let m = meta.as_ref().unwrap();
    assert_eq!(sites(m.orig_cmpvals()), vec![2, 4]);
    assert_eq!(m.orig_cmpvals().get(&2), Some(&u64s(&[(20, 20), (21, 22)])));
    assert_eq!(m.orig_cmpvals().get(&4), Some(&u64s(&[(4, 4)])));
    let mut with_header: Vec<usize> = m.headers().keys().copied().collect();
    with_header.sort();
    assert_eq!(with_header, vec![2, 4, 6]);
    assert_eq!(m.headers().get(&2).unwrap().hits, 2);
    assert_eq!(m.headers().get(&6).unwrap().hits, 5);
    assert_eq!(sites(m.new_cmpvals()), vec![1, 2]);
    assert_eq!(m.new_cmpvals().get(&1), Some(&u64s(&[(1, 1)])));
    assert_eq!(m.new_cmpvals().get(&2), Some(&u64s(&[(2, 2)])));
}

#[test]
fn mutated_pass_replaces_mutated_values_only() {
    let mut region = buffer();
    let map = AFLppCmpLogMap::new(&mut region, WIDTH).unwrap();
    let mut obs = AFLppCmpLogObserver::new("cmplog", map, true);
    let mut meta = None;

    record(obs.cmp_map_mut(), 1, &[(1, 1)]);
    record(obs.cmp_map_mut(), 2, &[(2, 2)]);
    obs.set_original(true);
    obs.add_cmpvalues_meta(&mut meta);
    obs.set_original(false);
    obs.add_cmpvalues_meta(&mut meta);

    assert_eq!(obs.pre_exec(), Ok(()));
    record(obs.cmp_map_mut(), 2, &[(7, 7)]);
    record(obs.cmp_map_mut(), 5, &[(5, 5)]);
    record(obs.cmp_map_mut(), 6, &[(9, 0), (8, 0), (7, 0), (6, 0), (5, 0)]);
    assert_eq!(obs.post_exec(&mut meta), Ok(()));
    let m = meta.as_ref().unwrap();
    assert_eq!(sites(m.new_cmpvals()), vec![2, 5]);
    assert_eq!(m.new_cmpvals().get(&2), Some(&u64s(&[(7, 7)])));
    assert_eq!(m.new_cmpvals().get(&5), Some(&u64s(&[(5, 5)])));
    assert_eq!(sites(m.orig_cmpvals()), vec![1, 2]);
    assert_eq!(m.orig_cmpvals().get(&1), Some(&u64s(&[(1, 1)])));
    assert_eq!(m.orig_cmpvals().get(&2), Some(&u64s(&[(2, 2)])));
    assert_eq!(m.headers().len(), 2);
    assert_eq!(m.headers().get(&2).unwrap().hits, 1);
    assert!(m.headers().get(&5).is_none());
}

#[test]
fn scenario_baseline_values_outlive_a_mutated_pass() {
    let mut region = buffer();
    let map = AFLppCmpLogMap::new(&mut region, WIDTH).unwrap();
    let mut obs = AFLppCmpLogObserver::new("cmplog", map, true);
    let mut meta = None;

    obs.set_original(true);
    assert_eq!(obs.pre_exec(), Ok(()));
    record(obs.cmp_map_mut(), 3, &[(5, 5)]);
    assert_eq!(obs.post_exec(&mut meta), Ok(()));
    assert_eq!(
        meta.as_ref().unwrap().orig_cmpvals().get(&3),
        Some(&vec![CmpValues::U64(5, 5)])
    );

    obs.set_original(false);
    assert_eq!(obs.pre_exec(), Ok(()));
    record(obs.cmp_map_mut(), 4, &[(8, 9)]);
    assert_eq!(obs.post_exec(&mut meta), Ok(()));
    let m = meta.as_ref().unwrap();
    assert_eq!(m.orig_cmpvals().get(&3), Some(&vec![CmpValues::U64(5, 5)]));
    assert_eq!(m.orig_cmpvals().len(), 1);
    assert!(!m.new_cmpvals().contains_key(&3));
    assert_eq!(sites(m.new_cmpvals()), vec![4]);
    assert_eq!(m.headers().get(&3).unwrap().hits, 1);
    assert_eq!(m.headers().len(), 1);
}

#[test]
fn a_missing_store_is_made() {
    let mut obs = AFLppCmpLogObserver::new("cmplog", AFLppCmpLogMap::unmapped(0), true);
    let mut meta = None;
    obs.add_cmpvalues_meta(&mut meta);
    let m = meta.unwrap();
    assert!(m.orig_cmpvals().is_empty());
    assert!(m.new_cmpvals().is_empty());
    assert!(m.headers().is_empty());
}
