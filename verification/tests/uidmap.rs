use vagga_isolation::command::CommandDescriptor;
use vagga_isolation::config::{Container, Settings};
use vagga_isolation::uidmap::{
    check_disjoint, check_ranges, get_max_uidmap, map_users, match_ranges, MapEntry, MapError,
    Range,
};
use vagga_isolation::wrap::Wrapper;

fn range(start: u32, count: u32) -> Range {
    Range { start, count }
}

fn row(inside: u32, outside: u32, count: u32) -> MapEntry {
    MapEntry { inside, outside, count }
}

fn settings(uids: Vec<Range>, gids: Vec<Range>) -> Settings {
    Settings {
        storage_subdir_from_env_var: None,
        alpine_mirror: String::new(),
        subordinate_uids: uids,
        subordinate_gids: gids,
    }
}

#[test]
fn one_range_onto_one_range() {
    let rows = match_ranges(&vec![range(0, 10)], &vec![range(100000, 65536)]);
    assert_eq!(rows, Some(vec![row(0, 100000, 10)]));
}

#[test]
fn a_range_goes_on_in_the_next_host_range() {
    let requested = vec![range(0, 1), range(1000, 10)];
    let host = vec![range(100000, 5), range(200000, 100)];
    let rows = match_ranges(&requested, &host);
    assert_eq!(
        rows,
        Some(vec![row(0, 100000, 1), row(1000, 100001, 4), row(1004, 200000, 6)])
    );
}

#[test]
fn sizes_and_order_are_kept() {
    let requested = vec![range(0, 3), range(50, 2), range(7, 4)];
    let host = vec![range(1000, 4), range(2000, 0), range(3000, 10)];
    let rows = match_ranges(&requested, &host).unwrap();
    let inside: Vec<u32> = rows.iter().flat_map(|r| r.inside..r.inside + r.count).collect();
    let outside: Vec<u32> = rows.iter().flat_map(|r| r.outside..r.outside + r.count).collect();
    assert_eq!(inside, vec![0, 1, 2, 50, 51, 7, 8, 9, 10]);
    assert_eq!(outside, vec![1000, 1001, 1002, 1003, 3000, 3001, 3002, 3003, 3004]);
    assert!(rows.iter().all(|r| r.count > 0));
}

#[test]
fn exact_capacity_is_enough() {
    let rows = match_ranges(&vec![range(0, 5)], &vec![range(10, 2), range(20, 3)]);
    assert_eq!(rows, Some(vec![row(0, 10, 2), row(2, 20, 3)]));
}

#[test]
fn one_identifier_short_is_refused() {
    assert_eq!(match_ranges(&vec![range(0, 6)], &vec![range(10, 2), range(20, 3)]), None);
}

#[test]
fn nothing_requested_gives_an_empty_map() {
    assert_eq!(match_ranges(&vec![], &vec![]), Some(vec![]));
    assert_eq!(match_ranges(&vec![range(5, 0)], &vec![]), Some(vec![]));
}

#[test]
fn ranges_up_to_the_largest_identifier() {
    assert!(check_ranges(&vec![range(u32::MAX, 1), range(0, u32::MAX), range(1, u32::MAX)]));
    assert!(!check_ranges(&vec![range(u32::MAX, 2)]));
    assert!(!check_ranges(&vec![range(0, 1), range(2, u32::MAX)]));
    let rows = match_ranges(&vec![range(u32::MAX, 1)], &vec![range(u32::MAX - 1, 2)]);
    assert_eq!(rows, Some(vec![row(u32::MAX, u32::MAX - 1, 1)]));
}

#[test]
fn map_users_maps_both_kinds() {
    let s = settings(vec![range(100000, 65536)], vec![range(200000, 65536)]);
    let map = map_users(&s, &vec![range(0, 1000)], &vec![range(0, 500)]).unwrap();
    assert_eq!(map.uids, vec![row(0, 100000, 1000)]);
    assert_eq!(map.gids, vec![row(0, 200000, 500)]);
}

#[test]
fn map_users_is_never_cut_short() {
    let s = settings(vec![range(100000, 10)], vec![range(200000, 10)]);
    assert_eq!(
        map_users(&s, &vec![range(0, 11)], &vec![range(0, 1)]).unwrap_err(),
        MapError::InsufficientUids
    );
    assert_eq!(
        map_users(&s, &vec![range(0, 10)], &vec![range(0, 11)]).unwrap_err(),
        MapError::InsufficientGids
    );
    assert_eq!(
        map_users(&s, &vec![range(0, 11)], &vec![range(0, 11)]).unwrap_err(),
        MapError::InsufficientUids
    );
}

#[test]
fn map_users_refuses_ranges_that_do_not_fit() {
    let s = settings(vec![range(100000, 10)], vec![range(200000, 10)]);
    assert_eq!(
        map_users(&s, &vec![range(u32::MAX, 2)], &vec![]).unwrap_err(),
        MapError::OutOfRange
    );
    let bad_host = settings(vec![range(u32::MAX, 5)], vec![]);
    assert_eq!(map_users(&bad_host, &vec![], &vec![]).unwrap_err(), MapError::OutOfRange);
}

#[test]
fn map_errors_have_messages() {
    assert_eq!(MapError::OutOfRange.message(), "Identity range runs past the largest identifier");
    assert_eq!(MapError::Overlap.message(), "Identity ranges overlap");
    assert_eq!(
        MapError::InsufficientUids.message(),
        "Number of allowed subordinate user ids is too small for the container"
    );
    assert_eq!(
        MapError::InsufficientGids.message(),
        "Number of allowed subordinate group ids is too small for the container"
    );
}

#[test]
fn largest_map_is_the_identity() {
    let s = settings(vec![range(1000, 1), range(100000, 65536), range(7, 0)], vec![range(5, 2)]);
    let map = get_max_uidmap(&s).unwrap();
    assert_eq!(map.uids, vec![row(1000, 1000, 1), row(100000, 100000, 65536)]);
    assert_eq!(map.gids, vec![row(5, 5, 2)]);
    let bad = settings(vec![range(u32::MAX, 2)], vec![]);
    assert_eq!(get_max_uidmap(&bad).unwrap_err(), MapError::OutOfRange);
}

#[test]
fn descriptor_takes_the_largest_map() {
    let s = settings(vec![range(100000, 10)], vec![range(200000, 10)]);
    let mut cmd: CommandDescriptor = Wrapper::new(None, &s, &vec![]);
    assert!(get_max_uidmap(&s).is_ok());
    cmd.max_uidmap(&s);
    let map = cmd.id_map.clone().unwrap();
    assert_eq!(map.uids, vec![row(100000, 100000, 10)]);
    assert_eq!(map.gids, vec![row(200000, 200000, 10)]);
}

#[test]
fn descriptor_maps_the_users_of_a_container() {
    let s = settings(vec![range(100000, 10)], vec![range(200000, 10)]);
    let container = Container { uids: vec![range(0, 2), range(5, 1)], gids: vec![range(0, 1)] };
    let mut cmd: CommandDescriptor = Wrapper::new(None, &s, &vec![]);
    assert_eq!(cmd.map_users_for(&container, &s), Ok(()));
    let map = cmd.id_map.clone().unwrap();
    assert_eq!(map.uids, vec![row(0, 100000, 2), row(5, 100002, 1)]);
    assert_eq!(map.gids, vec![row(0, 200000, 1)]);
}

#[test]
fn failed_mapping_leaves_the_descriptor_alone() {
    let s = settings(vec![range(100000, 1)], vec![range(200000, 1)]);
    let mut cmd: CommandDescriptor = Wrapper::new(None, &s, &vec![]);
    let result = cmd.map_users(&vec![range(0, 2)], &vec![range(0, 1)], &s);
    assert_eq!(result, Err(MapError::InsufficientUids));
    assert!(cmd.id_map.is_none());
    assert_eq!(cmd.args, vec!["__wrapper__".to_string()]);
}

#[test]
fn overlapping_requests_are_refused() {
    let s = settings(vec![range(100000, 10)], vec![range(200000, 10)]);
    assert_eq!(
        map_users(&s, &vec![range(0, 2), range(1, 2)], &vec![]).unwrap_err(),
        MapError::Overlap
    );
    assert_eq!(
        map_users(&s, &vec![], &vec![range(5, 1), range(0, 10)]).unwrap_err(),
        MapError::Overlap
    );
    assert_eq!(
        map_users(&s, &vec![range(3, 1), range(3, 1)], &vec![]).unwrap_err(),
        MapError::Overlap
    );
}

#[test]
fn overlapping_host_ranges_are_refused() {
    let uids = settings(vec![range(100000, 10), range(100009, 10)], vec![range(200000, 10)]);
    assert_eq!(map_users(&uids, &vec![range(0, 1)], &vec![]).unwrap_err(), MapError::Overlap);
    assert_eq!(get_max_uidmap(&uids).unwrap_err(), MapError::Overlap);
    let gids = settings(vec![range(100000, 10)], vec![range(5, 5), range(0, 6)]);
    assert_eq!(map_users(&gids, &vec![], &vec![]).unwrap_err(), MapError::Overlap);
    assert_eq!(get_max_uidmap(&gids).unwrap_err(), MapError::Overlap);
}

#[test]
fn a_range_that_does_not_fit_is_reported_before_an_overlap() {
    let s = settings(vec![range(100000, 10)], vec![]);
    let requested = vec![range(0, 2), range(1, 2), range(u32::MAX, 2)];
    assert_eq!(map_users(&s, &requested, &vec![]).unwrap_err(), MapError::OutOfRange);
    let host = settings(vec![range(5, 5), range(5, 5), range(u32::MAX, 2)], vec![]);
    assert_eq!(get_max_uidmap(&host).unwrap_err(), MapError::OutOfRange);
}

#[test]
fn an_overlap_is_reported_before_a_shortage() {
    let s = settings(vec![range(100000, 1)], vec![]);
    assert_eq!(
        map_users(&s, &vec![range(0, 2), range(1, 2)], &vec![]).unwrap_err(),
        MapError::Overlap
    );
}

#[test]
fn adjoining_and_empty_ranges_do_not_overlap() {
    assert!(check_disjoint(&vec![range(0, 2), range(2, 2), range(4, 1)]));
    assert!(check_disjoint(&vec![range(0, 10), range(5, 0)]));
    assert!(check_disjoint(&vec![range(u32::MAX, 1), range(0, u32::MAX)]));
    assert!(check_disjoint(&vec![]));
    assert!(!check_disjoint(&vec![range(0, 2), range(10, 1), range(1, 1)]));
    assert!(!check_disjoint(&vec![range(0, u32::MAX), range(u32::MAX - 1, 2)]));
    let s = settings(vec![range(100000, 4), range(100004, 4)], vec![]);
    let map = map_users(&s, &vec![range(0, 3), range(3, 3)], &vec![]).unwrap();
    assert_eq!(
        map.uids,
        vec![row(0, 100000, 3), row(3, 100003, 1), row(4, 100004, 2)]
    );
}

#[test]
fn a_row_is_as_long_as_it_can_be() {
    let s = settings(vec![range(100000, 65536)], vec![range(100000, 65536)]);
    let map = map_users(&s, &vec![range(0, 65536)], &vec![range(0, 1), range(10, 20)]).unwrap();
    assert_eq!(map.uids, vec![row(0, 100000, 65536)]);
    assert_eq!(map.gids, vec![row(0, 100000, 1), row(10, 100001, 20)]);
}

#[test]
fn no_identifier_is_mapped_twice() {
    let s = settings(vec![range(1000, 4), range(3000, 10)], vec![range(10, 5)]);
    let map = map_users(&s, &vec![range(0, 3), range(50, 2), range(7, 4)], &vec![range(0, 5)])
        .unwrap();
    let mut inside: Vec<u32> = map.uids.iter().flat_map(|r| r.inside..r.inside + r.count).collect();
    let mut outside: Vec<u32> =
        map.uids.iter().flat_map(|r| r.outside..r.outside + r.count).collect();
    let count = inside.len();
    assert_eq!(count, 9);
    inside.sort();
    inside.dedup();
    outside.sort();
    outside.dedup();
    assert_eq!(inside.len(), count);
    assert_eq!(outside.len(), count);
}

#[test]
fn mapping_a_container_is_mapping_its_ranges() {
    let s = settings(vec![range(100000, 3), range(200000, 10)], vec![range(300000, 10)]);
    let container = Container { uids: vec![range(0, 2), range(5, 4)], gids: vec![range(0, 1)] };
    let mut by_container: CommandDescriptor = Wrapper::new(None, &s, &vec![]);
    let mut by_ranges: CommandDescriptor = Wrapper::new(None, &s, &vec![]);
    assert_eq!(by_container.map_users_for(&container, &s), Ok(()));
    assert_eq!(by_ranges.map_users(&container.uids, &container.gids, &s), Ok(()));
    let first = by_container.id_map.unwrap();
    let second = by_ranges.id_map.unwrap();
    assert_eq!(first.uids, second.uids);
    assert_eq!(first.gids, second.gids);
    assert_eq!(first.uids, vec![row(0, 100000, 2), row(5, 100002, 1), row(6, 200000, 3)]);
}
