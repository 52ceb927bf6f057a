use rust_primer::use_key::f;

#[test]
fn lib_it_works() {
    f();
}
