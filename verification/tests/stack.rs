use reference_safety::abstract_stack::{AbsStackError, AbstractStack};
use reference_safety::value::{AbstractValue, RefID};

const VALUE: AbstractValue = AbstractValue::NonReference;

fn reference(id: u64) -> AbstractValue {
    AbstractValue::Reference(RefID(id))
}

#[test]
fn a_new_stack_is_empty() {
    let mut stack = AbstractStack::new();
    assert!(stack.is_empty());
    assert_eq!(stack.len(), 0);
    assert_eq!(stack.last(), None);
    assert_eq!(stack.pop(), Err(AbsStackError::Underflow));
}

#[test]
fn values_come_off_in_reverse_order() {
    let mut stack = AbstractStack::new();
    assert_eq!(stack.push(VALUE), Ok(()));
    assert_eq!(stack.push(reference(1)), Ok(()));
    assert_eq!(stack.push(reference(2)), Ok(()));
    assert_eq!(stack.len(), 3);
    assert_eq!(stack.last(), Some(reference(2)));
    assert_eq!(stack.pop(), Ok(reference(2)));
    assert_eq!(stack.pop(), Ok(reference(1)));
    assert_eq!(stack.pop(), Ok(VALUE));
    assert!(stack.is_empty());
}

#[test]
fn equal_values_come_off_together() {
    let mut stack = AbstractStack::new();
    assert_eq!(stack.push(reference(7)), Ok(()));
    assert_eq!(stack.push_n(VALUE, 4), Ok(()));
    assert_eq!(stack.push(VALUE), Ok(()));
    assert_eq!(stack.pop_eq_n(3), Ok(VALUE));
    assert_eq!(stack.len(), 3);
    assert_eq!(stack.pop_eq_n(3), Err(AbsStackError::ElementNotEqual));
    assert_eq!(stack.pop_eq_n(4), Err(AbsStackError::Underflow));
    assert_eq!(stack.len(), 3);
    assert_eq!(stack.pop_eq_n(2), Ok(VALUE));
    assert_eq!(stack.pop(), Ok(reference(7)));
}

#[test]
fn a_stack_is_as_long_as_a_number_counts() {
    let mut stack = AbstractStack::new();
    assert_eq!(stack.push_n(VALUE, u64::MAX - 1), Ok(()));
    assert_eq!(stack.push_n(VALUE, 2), Err(AbsStackError::Overflow));
    assert_eq!(stack.push(reference(1)), Ok(()));
    assert_eq!(stack.push(VALUE), Err(AbsStackError::Overflow));
    assert_eq!(stack.push_n(VALUE, 0), Ok(()));
    assert_eq!(stack.len(), u64::MAX);
    assert_eq!(stack.pop(), Ok(reference(1)));
    assert_eq!(stack.pop_eq_n(u64::MAX - 1), Ok(VALUE));
    assert!(stack.is_empty());
}
