use swaptop::samples::{
    aggregate_processes, sort_desc, to_display, ProcessSwapInfo, RawSample, RowTag,
};

fn raw(pid: u64, name: &str, swap_kb: u64) -> RawSample {
    RawSample { pid, name: name.to_string(), swap_kb }
}

fn individual(pid: u64, name: &str, swap_kb: u64) -> ProcessSwapInfo {
    ProcessSwapInfo { tag: RowTag::Individual { pid }, name: name.to_string(), swap_kb }
}

fn count_of(p: &ProcessSwapInfo) -> u64 {
    match p.tag {
        RowTag::Aggregated { count } => count,
        RowTag::Individual { .. } => 1,
    }
}

#[test]
fn groups_by_name_summing_values_and_counting_members() {
    let input = vec![
        individual(1, "a", 100),
        individual(2, "a", 50),
        individual(3, "b", 30),
    ];
    let out = aggregate_processes(input);
    assert_eq!(out.len(), 2);
    assert_eq!(out[0].name, "a");
    assert_eq!(out[0].swap_kb, 150);
    assert_eq!(count_of(&out[0]), 2);
    assert_eq!(out[1].name, "b");
    assert_eq!(out[1].swap_kb, 30);
    assert_eq!(count_of(&out[1]), 1);
}

#[test]
fn aggregation_conserves_mass_and_count() {
    let input = vec![
        individual(10, "x", 7),
        individual(11, "y", 3),
        individual(12, "x", 9),
        individual(13, "z", 0),
        individual(14, "y", 21),
    ];
    let in_sum: u64 = input.iter().map(|p| p.swap_kb).sum();
    let in_len = input.len() as u64;
    let out = aggregate_processes(input);
    let out_sum: u64 = out.iter().map(|p| p.swap_kb).sum();
    let out_count: u64 = out.iter().map(count_of).sum();
    assert_eq!(out_sum, in_sum);
    assert_eq!(out_count, in_len);
}

#[test]
fn aggregation_sorts_descending_by_value() {
    let input = vec![
        individual(1, "small", 1),
        individual(2, "big", 500),
        individual(3, "mid", 20),
        individual(4, "big", 500),
    ];
    let out = aggregate_processes(input);
    for w in out.windows(2) {
        assert!(w[0].swap_kb >= w[1].swap_kb);
    }
    assert_eq!(out[0].name, "big");
    assert_eq!(out[0].swap_kb, 1000);
}

#[test]
fn aggregating_singletons_keeps_every_value_with_count_one() {
    let input = vec![
        individual(1, "a", 40),
        individual(2, "b", 10),
        individual(3, "c", 25),
    ];
    let out = aggregate_processes(input);
    assert_eq!(out.len(), 3);
    for p in &out {
        assert_eq!(count_of(p), 1);
    }
    let mut names: Vec<(String, u64)> =
        out.iter().map(|p| (p.name.clone(), p.swap_kb)).collect();
    names.sort();
    assert_eq!(
        names,
        vec![
            ("a".to_string(), 40),
            ("b".to_string(), 10),
            ("c".to_string(), 25)
        ]
    );
}

#[test]
fn empty_input_aggregates_to_empty_output() {
    let out = aggregate_processes(Vec::new());
    assert!(out.is_empty());
}

#[test]
fn display_conversion_keeps_order_pids_and_values() {
    let samples = vec![raw(4, "gamma", 12), raw(9, "delta", 0)];
    let disp = to_display(&samples);
    assert_eq!(disp.len(), 2);
    assert_eq!(disp[0].name, "gamma");
    assert_eq!(disp[0].swap_kb, 12);
    assert!(matches!(disp[0].tag, RowTag::Individual { pid: 4 }));
    assert!(matches!(disp[1].tag, RowTag::Individual { pid: 9 }));
}

#[test]
fn sort_orders_descending_and_keeps_ties_stable() {
    let mut v = vec![
        individual(1, "p", 5),
        individual(2, "q", 9),
        individual(3, "r", 5),
        individual(4, "s", 100),
    ];
    sort_desc(&mut v);
    let values: Vec<u64> = v.iter().map(|p| p.swap_kb).collect();
    assert_eq!(values, vec![100, 9, 5, 5]);
    // The two equal-valued records keep their given order.
    assert_eq!(v[2].name, "p");
    assert_eq!(v[3].name, "r");
}
