use percpu::naive;

#[test]
fn naive_init_always_reports_one_area() {
    assert_eq!(naive::init(), 1);
    assert_eq!(naive::init(), 1);
    assert_eq!(naive::percpu_area_num(), 1);
}

#[test]
fn naive_area_base_is_one_constant() {
    assert_eq!(naive::percpu_area_base(0), 0);
    assert_eq!(naive::percpu_area_base(1), 0);
    assert_eq!(naive::percpu_area_base(7), 0);
    // Out-of-range indices included.
    assert_eq!(naive::percpu_area_base(usize::MAX), 0);
}

#[test]
fn naive_register_and_size_are_trivial() {
    assert_eq!(naive::percpu_area_size(), 0);
    naive::write_percpu_reg(0xdead);
    naive::init_percpu_reg(3);
    assert_eq!(naive::read_percpu_reg(), 0);
}
