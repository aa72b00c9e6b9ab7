use my_library::{apply_impulses, sum_impulses, Impulse};

type Vector = [f32; 3];

fn additive(target: u64, amount: Vector, source: i32) -> Impulse<Vector> {
    Impulse { target, amount, absolute: false, source }
}

fn absolute(target: u64, amount: Vector, source: i32) -> Impulse<Vector> {
    Impulse { target, amount, absolute: true, source }
}

fn sum(a: Vector, b: Vector) -> Vector {
    [a[0] + b[0], a[1] + b[1], a[2] + b[2]]
}

/// Resolves the batch and applies it to every entity that has a velocity,
/// as a host does.
fn apply(velocities: &mut Vec<(u64, Vector)>, batch: &Vec<Impulse<Vector>>) {
    let applied = sum_impulses(batch);
    for (entity, velocity) in velocities.iter_mut() {
        *velocity = apply_impulses(*entity, *velocity, &applied, sum);
    }
}

#[test]
fn an_empty_batch_changes_nothing() {
    let batch: Vec<Impulse<Vector>> = Vec::new();
    assert_eq!(sum_impulses(&batch), vec![]);
}

#[test]
fn a_single_request_takes_effect() {
    let batch = vec![additive(1, [1.0, 2.0, 3.0], 9)];
    assert_eq!(sum_impulses(&batch), batch);
}

#[test]
fn the_last_request_of_a_source_replaces_its_earlier_ones() {
    let a = [1.0, 1.0, 1.0];
    let b = [0.0, 4.0, 0.0];
    let batch = vec![additive(1, a, 7), additive(1, b, 7)];
    assert_eq!(sum_impulses(&batch), vec![additive(1, b, 7)]);
    let mut velocities = vec![(1, [10.0, 10.0, 10.0])];
    apply(&mut velocities, &batch);
    assert_eq!(velocities, vec![(1, [10.0, 14.0, 10.0])]);
}

#[test]
fn additive_requests_of_distinct_sources_sum_up() {
    let batch = vec![additive(1, [1.0, 0.0, 0.0], 1), additive(1, [0.0, 2.0, 0.0], 2)];
    assert_eq!(sum_impulses(&batch), batch);
    let mut velocities = vec![(1, [0.0, 0.0, 0.0])];
    apply(&mut velocities, &batch);
    assert_eq!(velocities, vec![(1, [1.0, 2.0, 0.0])]);
}

#[test]
fn an_absolute_request_shuts_out_what_follows() {
    let batch = vec![absolute(1, [5.0, 0.0, 0.0], 1), additive(1, [1.0, 0.0, 0.0], 2)];
    assert_eq!(sum_impulses(&batch), vec![absolute(1, [5.0, 0.0, 0.0], 1)]);
    let mut velocities = vec![(1, [3.0, 3.0, 3.0])];
    apply(&mut velocities, &batch);
    assert_eq!(velocities, vec![(1, [5.0, 0.0, 0.0])]);
}

#[test]
fn the_first_of_two_absolute_requests_wins() {
    let batch = vec![absolute(1, [5.0, 0.0, 0.0], 1), absolute(1, [9.0, 9.0, 9.0], 2)];
    assert_eq!(sum_impulses(&batch), vec![absolute(1, [5.0, 0.0, 0.0], 1)]);
}

#[test]
fn an_absolute_request_overrides_earlier_additions() {
    let batch = vec![additive(1, [1.0, 1.0, 1.0], 1), absolute(1, [5.0, 0.0, 0.0], 2)];
    assert_eq!(sum_impulses(&batch), batch);
    let mut velocities = vec![(1, [3.0, 3.0, 3.0])];
    apply(&mut velocities, &batch);
    assert_eq!(velocities, vec![(1, [5.0, 0.0, 0.0])]);
}

#[test]
fn an_absolute_request_locks_only_its_own_target() {
    let batch = vec![absolute(1, [5.0, 0.0, 0.0], 1), additive(2, [1.0, 0.0, 0.0], 2)];
    assert_eq!(sum_impulses(&batch), batch);
    let mut velocities = vec![(1, [0.0, 0.0, 0.0]), (2, [0.0, 1.0, 0.0])];
    apply(&mut velocities, &batch);
    assert_eq!(velocities, vec![(1, [5.0, 0.0, 0.0]), (2, [1.0, 1.0, 0.0])]);
}

#[test]
fn a_superseded_absolute_request_locks_nothing() {
    let batch = vec![
        absolute(1, [5.0, 0.0, 0.0], 1),
        additive(1, [1.0, 0.0, 0.0], 2),
        additive(2, [0.0, 0.0, 1.0], 1),
    ];
    assert_eq!(
        sum_impulses(&batch),
        vec![additive(1, [1.0, 0.0, 0.0], 2), additive(2, [0.0, 0.0, 1.0], 1)]
    );
}

#[test]
fn a_source_may_replace_its_absolute_request_by_an_additive_one() {
    let batch = vec![absolute(1, [5.0, 0.0, 0.0], 4), additive(1, [1.0, 0.0, 0.0], 4)];
    assert_eq!(sum_impulses(&batch), vec![additive(1, [1.0, 0.0, 0.0], 4)]);
}

#[test]
fn requests_keep_their_order_of_submission() {
    let batch = vec![
        additive(3, [1.0, 0.0, 0.0], 30),
        additive(1, [2.0, 0.0, 0.0], 10),
        additive(3, [3.0, 0.0, 0.0], 20),
        additive(1, [4.0, 0.0, 0.0], 30),
        absolute(2, [5.0, 0.0, 0.0], 40),
        additive(2, [6.0, 0.0, 0.0], 50),
        additive(1, [7.0, 0.0, 0.0], 10),
    ];
    assert_eq!(
        sum_impulses(&batch),
        vec![
            additive(3, [3.0, 0.0, 0.0], 20),
            additive(1, [4.0, 0.0, 0.0], 30),
            absolute(2, [5.0, 0.0, 0.0], 40),
            additive(1, [7.0, 0.0, 0.0], 10),
        ]
    );
}

#[test]
fn a_request_for_an_entity_without_velocity_is_dropped_by_the_host() {
    let batch = vec![additive(8, [1.0, 0.0, 0.0], 1), additive(1, [0.0, 1.0, 0.0], 2)];
    let mut velocities = vec![(1, [0.0, 0.0, 0.0])];
    apply(&mut velocities, &batch);
    assert_eq!(velocities, vec![(1, [0.0, 1.0, 0.0])]);
}

#[test]
fn the_amount_may_be_of_any_copyable_type() {
    let batch = vec![
        Impulse { target: 1, amount: (1i64, 2i64), absolute: false, source: -1 },
        Impulse { target: 1, amount: (3i64, 4i64), absolute: false, source: -1 },
        Impulse { target: 1, amount: (5i64, 6i64), absolute: false, source: i32::MIN },
    ];
    let applied = sum_impulses(&batch);
    assert_eq!(applied.len(), 2);
    assert_eq!(applied[0].amount, (3, 4));
    assert_eq!(applied[1].amount, (5, 6));
    let copy = applied[0].clone();
    assert_eq!(copy, applied[0]);
}

#[test]
fn resolving_what_has_been_resolved_changes_nothing() {
    let batch = vec![
        additive(3, [1.0, 0.0, 0.0], 30),
        absolute(1, [2.0, 0.0, 0.0], 10),
        additive(3, [3.0, 0.0, 0.0], 20),
        additive(1, [4.0, 0.0, 0.0], 30),
        absolute(2, [5.0, 0.0, 0.0], 40),
        absolute(2, [6.0, 0.0, 0.0], 50),
        absolute(1, [7.0, 0.0, 0.0], 60),
    ];
    let once = sum_impulses(&batch);
    assert_eq!(
        once,
        vec![
            absolute(1, [2.0, 0.0, 0.0], 10),
            additive(3, [3.0, 0.0, 0.0], 20),
            absolute(2, [5.0, 0.0, 0.0], 40),
        ]
    );
    assert_eq!(sum_impulses(&once), once);
}

#[test]
fn requests_for_other_entities_leave_a_velocity_alone() {
    let applied = vec![additive(2, [1.0, 0.0, 0.0], 1), absolute(3, [9.0, 9.0, 9.0], 2)];
    assert_eq!(apply_impulses(1, [4.0, 5.0, 6.0], &applied, sum), [4.0, 5.0, 6.0]);
    assert_eq!(apply_impulses(1, [4.0, 5.0, 6.0], &Vec::new(), sum), [4.0, 5.0, 6.0]);
}

#[test]
fn requests_are_applied_in_their_order() {
    let applied = vec![
        additive(1, [1.0, 0.0, 0.0], 1),
        additive(2, [0.0, 1.0, 0.0], 2),
        additive(1, [0.0, 0.0, 2.0], 3),
        absolute(2, [7.0, 7.0, 7.0], 4),
    ];
    assert_eq!(apply_impulses(1, [1.0, 1.0, 1.0], &applied, sum), [2.0, 1.0, 3.0]);
    assert_eq!(apply_impulses(2, [1.0, 1.0, 1.0], &applied, sum), [7.0, 7.0, 7.0]);
    let order = |a: i64, b: i64| 10 * a + b;
    let digits: Vec<Impulse<i64>> = (1..=4)
        .map(|digit| Impulse { target: 5, amount: digit, absolute: false, source: digit as i32 })
        .collect();
    assert_eq!(apply_impulses(5, 0, &digits, order), 1234);
}
