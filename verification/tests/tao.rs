use kayak::tao::init;

#[test]
fn it_works() {
    assert_eq!(2 + 2, 4);
}

#[test]
fn first_instance_is_numbered_zero() {
    let mut instances: u32 = 0;
    let message = init(&mut instances);
    assert_eq!(message, "TAO Initialized! 0");
    assert_eq!(instances, 1);
}

#[test]
fn instances_count_up() {
    let mut instances: u32 = 41;
    assert_eq!(init(&mut instances), "TAO Initialized! 41");
    assert_eq!(init(&mut instances), "TAO Initialized! 42");
    assert_eq!(instances, 43);
}

#[test]
fn last_instance_before_overflow() {
    let mut instances: u32 = u32::MAX - 1;
    assert_eq!(init(&mut instances), "TAO Initialized! 4294967294");
    assert_eq!(instances, u32::MAX);
}
