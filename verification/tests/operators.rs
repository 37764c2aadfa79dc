use twig::environment::operators::Associativity as EnvAssociativity;
use twig::operator::Associativity;

#[test]
fn operators_associativity_left_should_be_less_than_right() {
    assert!(EnvAssociativity::Left < EnvAssociativity::Right);
}

#[test]
fn operators_associativity_right_should_be_greater_than_left() {
    assert!(EnvAssociativity::Right > EnvAssociativity::Left);
}

#[test]
fn operators_associativity_right_should_be_equal_to_right() {
    assert!(EnvAssociativity::Right == EnvAssociativity::Right);
}

#[test]
fn mod_associativity_left_should_be_less_than_right() {
    assert!(Associativity::Left < Associativity::Right);
}

#[test]
fn mod_associativity_right_should_be_greater_than_left() {
    assert!(Associativity::Right > Associativity::Left);
}

#[test]
fn mod_associativity_right_should_be_equal_to_right() {
    assert!(Associativity::Right == Associativity::Right);
}
