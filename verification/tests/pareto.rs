use metaheuristics_nature::pareto::copy_of;
use metaheuristics_nature::pareto::is_dominating;
use metaheuristics_nature::pareto::Pareto;

#[test]
fn dominance_is_strict_in_one_and_no_worse_in_all() {
    assert!(is_dominating(&vec![1, 2], &vec![1, 3]));
    assert!(is_dominating(&vec![0, 0], &vec![1, 3]));
    assert!(!is_dominating(&vec![1, 3], &vec![1, 3]));
    assert!(!is_dominating(&vec![0, 4], &vec![1, 3]));
    assert!(!is_dominating(&vec![1, 3], &vec![1, 2]));
    assert!(!is_dominating(&vec![1], &vec![1, 2]));
    assert!(!is_dominating(&vec![], &vec![]));
    assert!(is_dominating(&vec![i64::MIN], &vec![i64::MAX]));
}

#[test]
fn copy_is_equal() {
    assert_eq!(copy_of(&vec![3, -1, 4]), vec![3, -1, 4]);
    assert_eq!(copy_of(&vec![]), Vec::<i64>::new());
}

#[test]
fn front_keeps_non_dominated_in_insertion_order() {
    let mut front = Pareto::new(10, false);
    assert!(front.consider(vec![1], vec![5, 5]));
    assert!(front.consider(vec![2], vec![3, 7]));
    assert!(front.consider(vec![3], vec![7, 3]));
    // Dominated by the first member: turned away.
    assert!(!front.consider(vec![4], vec![6, 6]));
    assert_eq!(
        front.front(),
        vec![(vec![1], vec![5, 5]), (vec![2], vec![3, 7]), (vec![3], vec![7, 3])]
    );
    // Dominates the first and third members: they leave, it goes last.
    assert!(front.consider(vec![5], vec![4, 3]));
    assert_eq!(front.front(), vec![(vec![2], vec![3, 7]), (vec![5], vec![4, 3])]);
    assert_eq!(front.len(), 2);
}

#[test]
fn equal_fitness_is_not_dominated() {
    let mut front = Pareto::new(10, false);
    assert!(front.consider(vec![1], vec![5, 5]));
    assert!(front.consider(vec![2], vec![5, 5]));
    assert_eq!(front.len(), 2);
}

#[test]
fn over_full_front_evicts_earliest() {
    let mut front = Pareto::new(2, false);
    assert!(front.consider(vec![1], vec![1, 9]));
    assert!(front.consider(vec![2], vec![2, 8]));
    assert!(front.consider(vec![3], vec![3, 7]));
    assert_eq!(front.front(), vec![(vec![2], vec![2, 8]), (vec![3], vec![3, 7])]);
    assert_eq!(front.limit(), 2);
    assert!(front.len() <= front.limit());
}

#[test]
fn zero_limit_front_stays_empty() {
    let mut front = Pareto::new(0, false);
    assert!(front.consider(vec![1], vec![1, 9]));
    assert_eq!(front.len(), 0);
}

#[test]
fn single_best_is_replaced_only_by_strictly_better() {
    let mut best = Pareto::new(1, true);
    assert!(best.single());
    assert!(best.consider(vec![1], vec![10]));
    assert!(!best.consider(vec![2], vec![10]));
    assert!(!best.consider(vec![3], vec![11]));
    assert_eq!(best.front(), vec![(vec![1], vec![10])]);
    assert!(best.consider(vec![4], vec![9]));
    assert_eq!(best.front(), vec![(vec![4], vec![9])]);
    assert_eq!(best.member(0).xs, vec![4]);
    assert_eq!(best.len(), 1);
}

#[test]
fn no_member_dominates_another() {
    let mut front = Pareto::new(4, false);
    let mut seed: u64 = 1;
    for i in 0..200 {
        seed = seed.wrapping_mul(6364136223846793005).wrapping_add(1442695040888963407);
        let a = ((seed >> 33) % 50) as i64;
        let b = ((seed >> 13) % 50) as i64;
        front.consider(vec![i], vec![a, b]);
        let members = front.front();
        assert!(members.len() <= 4);
        for p in &members {
            for q in &members {
                assert!(!is_dominating(&p.1, &q.1));
            }
        }
    }
}
