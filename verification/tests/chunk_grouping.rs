use streamlet::chunk::chunk_debounce_step;
use streamlet::debounce::Debounced;

#[test]
fn suppressed_values_accumulate() {
    let (group, acc) = chunk_debounce_step::<i32>(Err(Debounced(1)), Vec::new());
    assert!(group.is_none());
    assert_eq!(acc, vec![Debounced(1)]);
    let (group, acc) = chunk_debounce_step(Err(Debounced(2)), acc);
    assert!(group.is_none());
    assert_eq!(acc, vec![Debounced(1), Debounced(2)]);
}

#[test]
fn accepted_value_closes_the_group() {
    let (_, acc) = chunk_debounce_step::<i32>(Err(Debounced(1)), Vec::new());
    let (_, acc) = chunk_debounce_step(Err(Debounced(2)), acc);
    let (group, acc) = chunk_debounce_step(Ok(10), acc);
    assert_eq!(group, Some((10, vec![Debounced(1), Debounced(2)])));
    assert!(acc.is_empty());
    // The next accepted value starts from an empty group.
    let (group, acc) = chunk_debounce_step(Ok(11), acc);
    assert_eq!(group, Some((11, Vec::new())));
    assert!(acc.is_empty());
}
