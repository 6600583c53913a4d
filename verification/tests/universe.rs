use som::vm::universe::Universe;
use som::vmobjects::SSymbol;
use std::rc::Rc;

#[test]
fn test_load_symbol_creates_symbol() {
    let mut universe = Universe::new();
    let symbol = universe.load_symbol("test");
    assert_eq!(&SSymbol("test".into()), symbol.as_ref());
}

#[test]
fn test_load_symbol_returns_same_symbol() {
    let mut universe = Universe::new();
    let symbol1 = universe.load_symbol("test");
    let symbol2 = universe.load_symbol("test");
    assert!(Rc::ptr_eq(&symbol1, &symbol2));
}

#[test]
fn different_texts_have_different_symbols() {
    let mut universe = Universe::new();
    let first = universe.load_symbol("first");
    let second = universe.load_symbol("second");
    let again = universe.load_symbol("first");
    assert!(!Rc::ptr_eq(&first, &second));
    assert!(Rc::ptr_eq(&first, &again));
    assert_eq!(&SSymbol("second".into()), second.as_ref());
    assert_ne!(first.as_ref(), second.as_ref());
}

#[test]
fn symbol_of_the_empty_text() {
    let mut universe = Universe::new();
    let first = universe.load_symbol("");
    let second = universe.load_symbol("");
    assert!(Rc::ptr_eq(&first, &second));
    assert_eq!(&SSymbol(String::new()), first.as_ref());
}
