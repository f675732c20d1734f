use minigrep::geometry::Guess;
use minigrep::geometry::Rectangle;

#[test]
fn larger_can_hold_smaller() {
    let larger = Rectangle {
        width: 8,
        height: 7,
    };
    let smaller = Rectangle {
        width: 5,
        height: 1,
    };
    assert!(larger.can_hold(&smaller));
    assert!(
        !smaller.can_hold(&larger),
        "Smaller is {:?}, larger is {:?}",
        smaller,
        larger
    );
}

#[test]
fn lib_calculate_square() {
    let a = Rectangle {
        width: 8,
        height: 7,
    };
    let b = Rectangle {
        width: 1,
        height: 9,
    };
    assert_eq!(a.square(), 56);
    assert_ne!(b.square(), 1);
}

#[test]
fn return_result() -> Result<(), String> {
    let a = Rectangle {
        width: 3,
        height: 3,
    };
    if a.square() == 9 {
        Ok(())
    } else {
        Err(String::from("the square of 3,3 should be 9"))
    }
}

#[test]
fn integration_test_calculate_square() {
    let a = Rectangle {
        width: 3,
        height: 3,
    };
    assert_eq!(a.square(), 9);
}

#[test]
fn guess_holds_its_value() {
    let _ = Guess::new(1);
    let _ = Guess::new(50);
    let _ = Guess::new(100);
}
