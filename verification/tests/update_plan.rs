use doclib::commands::update::{
    check_convergeable, plan_transfers, totals_by_destination, union_of, update_round, Holding,
    UpdateRefusal,
};

fn holding(store: &str, files: &[(&str, u64)]) -> Holding {
    Holding {
        store: store.to_string(),
        files: files.iter().map(|(p, s)| (p.to_string(), *s)).collect(),
    }
}

#[test]
fn the_union_leaves_out_deleted_files() {
    let holdings = vec![
        holding("/a", &[("ab/x.pdf", 10), ("cd/y.pdf", 20)]),
        holding("/b", &[("ef/z.pdf", 30), ("cd/y.pdf", 20)]),
    ];
    let union = union_of(&holdings, &vec!["ef/z.pdf".to_string()]);
    assert_eq!(
        union,
        vec![("ab/x.pdf".to_string(), 10), ("cd/y.pdf".to_string(), 20)]
    );
}

#[test]
fn every_store_gets_what_it_lacks() {
    let holdings = vec![
        holding("/a", &[("ab/x.pdf", 10)]),
        holding("/b", &[("cd/y.pdf", 20)]),
        holding("/c", &[]),
    ];
    let union = union_of(&holdings, &vec![]);
    let plan = plan_transfers(&holdings, &union);
    let moves: Vec<(String, String, String)> = plan
        .iter()
        .map(|t| (t.source.clone(), t.destination.clone(), t.path.clone()))
        .collect();
    assert_eq!(
        moves,
        vec![
            ("/b".to_string(), "/a".to_string(), "cd/y.pdf".to_string()),
            ("/a".to_string(), "/b".to_string(), "ab/x.pdf".to_string()),
            ("/a".to_string(), "/c".to_string(), "ab/x.pdf".to_string()),
            ("/b".to_string(), "/c".to_string(), "cd/y.pdf".to_string()),
        ]
    );
    let totals = totals_by_destination(&plan);
    let summary: Vec<(String, usize, u64)> = totals
        .iter()
        .map(|t| (t.destination.clone(), t.files, t.bytes))
        .collect();
    assert_eq!(
        summary,
        vec![
            ("/a".to_string(), 1, 20),
            ("/b".to_string(), 1, 10),
            ("/c".to_string(), 2, 30),
        ]
    );
}

#[test]
fn converged_stores_need_no_copies() {
    let holdings = vec![
        holding("/a", &[("ab/x.pdf", 10)]),
        holding("/b", &[("ab/x.pdf", 10)]),
    ];
    let union = union_of(&holdings, &vec![]);
    assert!(plan_transfers(&holdings, &union).is_empty());
    assert!(totals_by_destination(&vec![]).is_empty());
}

#[test]
fn converging_needs_two_reachable_stores() {
    assert_eq!(check_convergeable(1, 1), Err(UpdateRefusal::SingleStore));
    assert_eq!(check_convergeable(3, 1), Err(UpdateRefusal::TooFewReachable));
    assert_eq!(check_convergeable(2, 2), Ok(()));
}

#[test]
fn a_run_converges_every_store_on_the_union() {
    let holdings = vec![
        holding("/a", &[("ab/x.pdf", 10), ("ef/z.pdf", 30)]),
        holding("/b", &[("cd/y.pdf", 20)]),
    ];
    let deleted = vec!["ef/z.pdf".to_string()];
    let round = match update_round(2, &holdings, &deleted, false) {
        Ok(r) => r,
        Err(_) => panic!("two stores can converge"),
    };
    assert!(round.copy);
    assert_eq!(
        round.union,
        vec![("ab/x.pdf".to_string(), 10), ("cd/y.pdf".to_string(), 20)]
    );
    let moves: Vec<(String, String)> = round
        .plan
        .iter()
        .map(|t| (t.destination.clone(), t.path.clone()))
        .collect();
    assert_eq!(
        moves,
        vec![
            ("/a".to_string(), "cd/y.pdf".to_string()),
            ("/b".to_string(), "ab/x.pdf".to_string()),
        ]
    );
    let dry = match update_round(2, &holdings, &deleted, true) {
        Ok(r) => r,
        Err(_) => panic!("two stores can converge"),
    };
    assert!(!dry.copy);
    assert!(matches!(
        update_round(1, &holdings, &deleted, false),
        Err(UpdateRefusal::SingleStore)
    ));
    assert!(matches!(
        update_round(3, &vec![holding("/a", &[("ab/x.pdf", 10)])], &deleted, false),
        Err(UpdateRefusal::TooFewReachable)
    ));
}
