use mblf::error::CompileError;
use mblf::state::MemCell;
use mblf::state::State;

#[test]
fn allocate_records_the_address() {
    let cell = MemCell::allocate(7);
    assert_eq!(cell.address, 7);
}

#[test]
fn declared_variables_resolve_to_increasing_addresses() {
    let mut st = State::new();
    assert_eq!(st.alloc_counter(), 0);
    st.declare("a").unwrap();
    st.declare("b").unwrap();
    assert_eq!(st.resolve("a").unwrap(), 0);
    assert_eq!(st.resolve("b").unwrap(), 1);
    assert_eq!(st.alloc_counter(), 2);
}

#[test]
fn delete_does_not_reclaim_addresses() {
    let mut st = State::new();
    st.declare("a").unwrap();
    st.declare("b").unwrap();
    st.delete("a").unwrap();
    assert!(matches!(
        st.resolve("a"),
        Err(CompileError::UnknownVariable(n)) if n == "a"
    ));
    st.declare("c").unwrap();
    assert_eq!(st.resolve("c").unwrap(), 2);
    assert_eq!(st.alloc_counter(), 3);
}

#[test]
fn duplicate_declaration_is_reported() {
    let mut st = State::new();
    st.declare("x").unwrap();
    let e = st.declare("x").unwrap_err();
    assert!(matches!(e, CompileError::DuplicateVariable(n) if n == "x"));
    assert_eq!(st.alloc_counter(), 1);
}

#[test]
fn pointer_is_tracked() {
    let mut st = State::new();
    assert_eq!(st.pointer(), 0);
    st.set_pointer(12);
    assert_eq!(st.pointer(), 12);
}
