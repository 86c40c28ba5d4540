use srml_babe::offence::{BabeEquivocationOffence, Perbill, EQUIVOCATION_ID};

#[test]
fn rational_approximation() {
    assert_eq!(Perbill::from_rational_approximation(1, 3), Perbill(333_333_333));
    assert_eq!(Perbill::from_rational_approximation(5, 0), Perbill(1_000_000_000));
    assert_eq!(Perbill::from_rational_approximation(0, 0), Perbill(0));
    assert_eq!(Perbill::from_rational_approximation(7, 5), Perbill::one());
    assert_eq!(Perbill::from_rational_approximation(1, 3_000_000_000), Perbill(0));
    assert_eq!(Perbill::from_rational_approximation(2_000_000_000, 3_000_000_000), Perbill(666_666_666));
}

#[test]
fn square_of_fraction() {
    assert_eq!(Perbill(500_000_000).square(), Perbill(250_000_000));
    assert_eq!(Perbill::one().square(), Perbill::one());
    assert_eq!(Perbill(1).square(), Perbill(0));
}

#[test]
fn slash_fraction_formula() {
    assert_eq!(BabeEquivocationOffence::<u64>::slash_fraction(1, 3), Perbill::one());
    assert_eq!(BabeEquivocationOffence::<u64>::slash_fraction(5, 3), Perbill::one());
    assert_eq!(BabeEquivocationOffence::<u64>::slash_fraction(1, 10), Perbill(90_000_000));
    assert_eq!(BabeEquivocationOffence::<u64>::slash_fraction(0, 10), Perbill(0));
}

#[test]
fn offence_reports_its_details() {
    let offence = BabeEquivocationOffence { slot: 42, session_index: 3, validator_set_count: 10, offender: 7u64 };
    assert_eq!(offence.offenders(), vec![7u64]);
    assert_eq!(offence.session_index(), 3);
    assert_eq!(offence.validator_set_count(), 10);
    assert_eq!(offence.time_slot(), 42);
    assert_eq!(&EQUIVOCATION_ID, b"babe:equivocatio");
}

