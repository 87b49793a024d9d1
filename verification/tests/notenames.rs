use harmony::notenames::NoteName;

#[test]
fn notenames_from_str() {
    assert_eq!(NoteName::from_str(&String::from("C")), Ok(NoteName::C));
    assert_eq!(NoteName::from_str(&String::from("D")), Ok(NoteName::D));
    assert_eq!(NoteName::from_str(&String::from("E")), Ok(NoteName::E));
    assert_eq!(NoteName::from_str(&String::from("F")), Ok(NoteName::F));
    assert_eq!(NoteName::from_str(&String::from("G")), Ok(NoteName::G));
    assert_eq!(NoteName::from_str(&String::from("A")), Ok(NoteName::A));
    assert_eq!(NoteName::from_str(&String::from("B")), Ok(NoteName::B));

    assert_eq!(NoteName::from_str(&String::from("c")), Ok(NoteName::C));
    assert_eq!(NoteName::from_str(&String::from("d")), Ok(NoteName::D));
    assert_eq!(NoteName::from_str(&String::from("e")), Ok(NoteName::E));
    assert_eq!(NoteName::from_str(&String::from("f")), Ok(NoteName::F));
    assert_eq!(NoteName::from_str(&String::from("g")), Ok(NoteName::G));
    assert_eq!(NoteName::from_str(&String::from("a")), Ok(NoteName::A));
    assert_eq!(NoteName::from_str(&String::from("b")), Ok(NoteName::B));

    assert!(NoteName::from_str(&String::from("H")).is_err());
    assert!(NoteName::from_str(&String::from("h")).is_err());
    assert!(NoteName::from_str(&String::from("This should fail")).is_err());
}

#[test]
fn notenames_to_str() {
    assert_eq!(NoteName::C.to_str(), String::from("C"));
    assert_eq!(NoteName::D.to_str(), String::from("D"));
    assert_eq!(NoteName::E.to_str(), String::from("E"));
    assert_eq!(NoteName::F.to_str(), String::from("F"));
    assert_eq!(NoteName::G.to_str(), String::from("G"));
    assert_eq!(NoteName::A.to_str(), String::from("A"));
    assert_eq!(NoteName::B.to_str(), String::from("B"));
}

#[test]
fn next() {
    assert_eq!(NoteName::C.next(), NoteName::D);
    assert_eq!(NoteName::D.next(), NoteName::E);
    assert_eq!(NoteName::E.next(), NoteName::F);
    assert_eq!(NoteName::F.next(), NoteName::G);
    assert_eq!(NoteName::G.next(), NoteName::A);
    assert_eq!(NoteName::A.next(), NoteName::B);
    assert_eq!(NoteName::B.next(), NoteName::C);
}

#[test]
fn prev() {
    assert_eq!(NoteName::C.prev(), NoteName::B);
    assert_eq!(NoteName::D.prev(), NoteName::C);
    assert_eq!(NoteName::E.prev(), NoteName::D);
    assert_eq!(NoteName::F.prev(), NoteName::E);
    assert_eq!(NoteName::G.prev(), NoteName::F);
    assert_eq!(NoteName::A.prev(), NoteName::G);
    assert_eq!(NoteName::B.prev(), NoteName::A);
}

#[test]
fn up() {
    assert_eq!(NoteName::C.up(0), NoteName::C);
    assert_eq!(NoteName::C.up(1), NoteName::D);
    assert_eq!(NoteName::C.up(2), NoteName::E);
    assert_eq!(NoteName::C.up(3), NoteName::F);
    assert_eq!(NoteName::C.up(4), NoteName::G);
    assert_eq!(NoteName::C.up(5), NoteName::A);
    assert_eq!(NoteName::C.up(6), NoteName::B);
    assert_eq!(NoteName::C.up(7), NoteName::C);
    assert_eq!(NoteName::C.up(8), NoteName::D);
}

#[test]
fn down() {
    assert_eq!(NoteName::C.down(0), NoteName::C);
    assert_eq!(NoteName::C.down(1), NoteName::B);
    assert_eq!(NoteName::C.down(2), NoteName::A);
    assert_eq!(NoteName::C.down(3), NoteName::G);
    assert_eq!(NoteName::C.down(4), NoteName::F);
    assert_eq!(NoteName::C.down(5), NoteName::E);
    assert_eq!(NoteName::C.down(6), NoteName::D);
    assert_eq!(NoteName::C.down(7), NoteName::C);
    assert_eq!(NoteName::C.down(8), NoteName::B);
}

#[test]
fn shift() {
    assert_eq!(NoteName::C.shift(-8), NoteName::B);
    assert_eq!(NoteName::C.shift(-7), NoteName::C);
    assert_eq!(NoteName::C.shift(-6), NoteName::D);
    assert_eq!(NoteName::C.shift(-5), NoteName::E);
    assert_eq!(NoteName::C.shift(-4), NoteName::F);
    assert_eq!(NoteName::C.shift(-3), NoteName::G);
    assert_eq!(NoteName::C.shift(-2), NoteName::A);
    assert_eq!(NoteName::C.shift(-1), NoteName::B);
    assert_eq!(NoteName::C.shift(0), NoteName::C);
    assert_eq!(NoteName::C.shift(1), NoteName::D);
    assert_eq!(NoteName::C.shift(2), NoteName::E);
    assert_eq!(NoteName::C.shift(3), NoteName::F);
    assert_eq!(NoteName::C.shift(4), NoteName::G);
    assert_eq!(NoteName::C.shift(5), NoteName::A);
    assert_eq!(NoteName::C.shift(6), NoteName::B);
    assert_eq!(NoteName::C.shift(7), NoteName::C);
    assert_eq!(NoteName::C.shift(8), NoteName::D);
}

#[test]
fn dist() {
    assert_eq!(NoteName::C.dist(&NoteName::C), 0);
    assert_eq!(NoteName::C.dist(&NoteName::D), 1);
    assert_eq!(NoteName::C.dist(&NoteName::E), 2);
    assert_eq!(NoteName::C.dist(&NoteName::F), 3);
    assert_eq!(NoteName::C.dist(&NoteName::G), 4);
    assert_eq!(NoteName::C.dist(&NoteName::A), 5);
    assert_eq!(NoteName::C.dist(&NoteName::B), 6);

    assert_eq!(NoteName::C.dist(&NoteName::C), 0);
    assert_eq!(NoteName::D.dist(&NoteName::C), -1);
    assert_eq!(NoteName::E.dist(&NoteName::C), -2);
    assert_eq!(NoteName::F.dist(&NoteName::C), -3);
    assert_eq!(NoteName::G.dist(&NoteName::C), -4);
    assert_eq!(NoteName::A.dist(&NoteName::C), -5);
    assert_eq!(NoteName::B.dist(&NoteName::C), -6);
}

#[test]
fn notenames_dist_hsteps() {
    assert_eq!(NoteName::C.dist_hsteps(&NoteName::C), 0);
    assert_eq!(NoteName::C.dist_hsteps(&NoteName::D), 2);
    assert_eq!(NoteName::C.dist_hsteps(&NoteName::E), 4);
    assert_eq!(NoteName::C.dist_hsteps(&NoteName::F), 5);
    assert_eq!(NoteName::C.dist_hsteps(&NoteName::G), 7);
    assert_eq!(NoteName::C.dist_hsteps(&NoteName::A), 9);
    assert_eq!(NoteName::C.dist_hsteps(&NoteName::B), 11);

    assert_eq!(NoteName::C.dist_hsteps(&NoteName::C), 0);
    assert_eq!(NoteName::D.dist_hsteps(&NoteName::C), -2);
    assert_eq!(NoteName::E.dist_hsteps(&NoteName::C), -4);
    assert_eq!(NoteName::F.dist_hsteps(&NoteName::C), -5);
    assert_eq!(NoteName::G.dist_hsteps(&NoteName::C), -7);
    assert_eq!(NoteName::A.dist_hsteps(&NoteName::C), -9);
    assert_eq!(NoteName::B.dist_hsteps(&NoteName::C), -11);
}
