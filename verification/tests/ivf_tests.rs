use clawdb::ivf::{build_inverted_lists, gather_candidates};

#[test]
fn inverted_lists_group_ids_by_cluster() {
    let ids = vec![1u64, 2, 3, 4, 5];
    let assignments = vec![0usize, 0, 1, 1, 2];
    let lists = build_inverted_lists(&ids, &assignments);
    assert_eq!(lists.len(), 3);
    assert_eq!(lists[&0], vec![1, 2]);
    assert_eq!(lists[&1], vec![3, 4]);
    assert_eq!(lists[&2], vec![5]);
}

#[test]
fn inverted_lists_pair_up_to_the_shorter_input() {
    let lists = build_inverted_lists(&vec![1u64, 2, 3], &vec![4usize, 4]);
    assert_eq!(lists.len(), 1);
    assert_eq!(lists[&4], vec![1, 2]);
    assert!(build_inverted_lists(&vec![], &vec![]).is_empty());
}

#[test]
fn candidates_follow_the_ranking() {
    let lists = build_inverted_lists(&vec![1u64, 2, 3, 4, 5], &vec![0usize, 0, 1, 1, 2]);
    assert_eq!(gather_candidates(&lists, &vec![1, 0, 2], 2), vec![3, 4, 1, 2]);
    assert_eq!(gather_candidates(&lists, &vec![2, 1, 0], 10), vec![5, 3, 4, 1, 2]);
    assert_eq!(gather_candidates(&lists, &vec![7, 2], 2), vec![5]);
    assert_eq!(gather_candidates(&lists, &vec![0], 0), Vec::<u64>::new());
}
