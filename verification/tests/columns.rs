use variantplaner_rs::columns::{compute, Column, ComputeError};

fn text(values: &[&str]) -> Column {
    Column::Utf8(values.iter().map(|s| Some(s.to_string())).collect())
}

fn batch() -> Vec<Column> {
    vec![
        Column::UInt64(vec![Some(10), Some(224), None]),
        text(&["A", "CATGAGCGGACTG", "T"]),
        text(&["G", "AC", "C"]),
        Column::UInt64(vec![Some(326512443305), Some(1), None]),
    ]
}

#[test]
fn compute_reads_the_bound_from_the_first_row() {
    assert_eq!(
        compute(&batch()),
        Ok(vec![Some(168820739), Some(16290893548283143531), None])
    );
}

#[test]
fn compute_refuses_positions_that_are_not_integers() {
    let mut inputs = batch();
    inputs[0] = text(&["10", "224", "3"]);
    assert_eq!(compute(&inputs), Err(ComputeError::NotUInt64(0)));
    inputs[0] = Column::Other;
    inputs[1] = Column::Other;
    assert_eq!(compute(&inputs), Err(ComputeError::NotUInt64(0)));
}

#[test]
fn compute_refuses_sequences_that_are_not_strings() {
    let mut inputs = batch();
    inputs[1] = Column::UInt64(vec![Some(1), Some(2), Some(3)]);
    assert_eq!(compute(&inputs), Err(ComputeError::NotUtf8(1)));
    let mut inputs = batch();
    inputs[2] = Column::Other;
    inputs[3] = Column::Other;
    assert_eq!(compute(&inputs), Err(ComputeError::NotUtf8(2)));
}

#[test]
fn compute_refuses_a_bound_that_is_not_an_integer() {
    let mut inputs = batch();
    inputs[3] = text(&["326512443305"]);
    assert_eq!(compute(&inputs), Err(ComputeError::NotUInt64(3)));
}

#[test]
fn compute_ignores_columns_after_the_fourth() {
    let mut inputs = batch();
    inputs.push(Column::Other);
    assert_eq!(
        compute(&inputs),
        Ok(vec![Some(168820739), Some(16290893548283143531), None])
    );
}
