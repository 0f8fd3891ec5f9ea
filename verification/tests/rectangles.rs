use book_tutorials::decimal::to_decimal;
use book_tutorials::rectangles::Rectangle;
use book_tutorials::{CoffeeFlavor, Drinks, MyRectangle};

#[test]
fn rectangle_area_is_width_times_height() {
    let rect = Rectangle { width: 420, height: 17 };
    assert_eq!(rect.area(), 7140);
    assert_eq!(rect.height, 17);
    let rect = Rectangle { width: 7, height: 12 };
    assert_eq!(rect.area(), 84);
    let rect = Rectangle { width: 0, height: 12 };
    assert_eq!(rect.area(), 0);
    let rect = Rectangle { width: 65535, height: 65537 };
    assert_eq!(rect.area(), u32::MAX);
}

#[test]
fn my_rectangle_keeps_its_sides() {
    let rect = MyRectangle::new(3, 4);
    assert_eq!(rect.width(), 3);
    assert_eq!(rect.height(), 4);
    assert_eq!(rect.area(), 12);
}

#[test]
fn my_rectangle_info_names_both_sides() {
    assert_eq!(MyRectangle::new(3, 4).info(), "rectangle with width: 3 and height 4");
    assert_eq!(
        MyRectangle::new(420, 17).info(),
        "rectangle with width: 420 and height 17"
    );
    assert_eq!(
        MyRectangle::new(0, u32::MAX).info(),
        "rectangle with width: 0 and height 4294967295"
    );
}

#[test]
fn decimal_digits_of_whole_numbers() {
    assert_eq!(to_decimal(0), "0");
    assert_eq!(to_decimal(9), "9");
    assert_eq!(to_decimal(10), "10");
    assert_eq!(to_decimal(1234567890), "1234567890");
    assert_eq!(to_decimal(u32::MAX), "4294967295");
    for value in [1u32, 19, 100, 101, 999, 1000, 40302010] {
        assert_eq!(to_decimal(value), format!("{}", value));
    }
}

#[test]
fn drinks_on_the_menu() {
    let drink = Drinks::Coffee(CoffeeFlavor::Latte);
    assert_eq!(format!("{:?}", drink), "Coffee(Latte)");
    assert_eq!(drink, Drinks::Coffee(CoffeeFlavor::Latte));
    assert_ne!(drink, Drinks::Coffee(CoffeeFlavor::Mocha));
    assert_ne!(drink, Drinks::Water);
    assert_eq!(format!("{:?}", Drinks::Beer), "Beer");
    assert_eq!(format!("{:?}", MyRectangle::new(3, 4)), "MyRectangle { width: 3, height: 4 }");
}
