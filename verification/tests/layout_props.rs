use percpu::accessor::PerCpuVar;
use percpu::imp::align_up_64;
use percpu::imp::PerCpu;

fn four_cpu_state() -> PerCpu {
    // 33 template bytes -> 64-byte stride; 256 reserved bytes -> 4 areas.
    let mut template = Vec::new();
    let mut b = 0u8;
    while template.len() < 33 {
        template.push(b);
        b = b.wrapping_add(17);
    }
    PerCpu::new(template, 0x4000, 256)
}

#[test]
fn align_up_64_values() {
    assert_eq!(align_up_64(0), 0);
    assert_eq!(align_up_64(1), 64);
    assert_eq!(align_up_64(33), 64);
    assert_eq!(align_up_64(64), 64);
    assert_eq!(align_up_64(65), 128);
    assert_eq!(align_up_64(4096), 4096);
}

#[test]
fn init_is_idempotent() {
    let mut p = four_cpu_state();
    let first = p.init();
    assert_eq!(first, 4);
    assert_eq!(p.init(), 0);
    assert_eq!(p.init(), 0);
    assert_eq!(p.percpu_area_num(), 4);
}

#[test]
fn areas_seeded_from_template() {
    let mut p = four_cpu_state();
    p.init();
    let whole = PerCpuVar::new(0, 33);
    let mut expected = Vec::new();
    let mut b = 0u8;
    while expected.len() < 33 {
        expected.push(b);
        b = b.wrapping_add(17);
    }
    let mut c = 0;
    while c < 4 {
        assert_eq!(whole.read_remote_bytes(&p, c), expected);
        c += 1;
    }
}

#[test]
fn area_base_table_stride() {
    let mut p = four_cpu_state();
    p.init();
    let stride = align_up_64(p.percpu_area_size());
    assert_eq!(stride, 64);
    let mut c1 = 0;
    while c1 < 4 {
        let mut c2 = c1;
        while c2 < 4 {
            let d = p.percpu_area_base(c2) - p.percpu_area_base(c1);
            assert_eq!(d, (c2 - c1) * stride);
            c2 += 1;
        }
        c1 += 1;
    }
    assert_eq!(p.percpu_area_base(0), 0x4000);
}

#[test]
fn remote_ptr_is_base_plus_offset() {
    let mut p = four_cpu_state();
    p.init();
    let var = PerCpuVar::new(8, 8);
    let mut c = 0;
    while c < 4 {
        assert_eq!(var.remote_ptr(&p, c), p.percpu_area_base(c) + var.offset());
        c += 1;
    }
    p.init_percpu_reg(2);
    assert_eq!(var.current_ptr(&p), p.read_percpu_reg() + var.offset());
    assert_eq!(var.current_ptr(&p), var.remote_ptr(&p, 2));
}

#[test]
fn cross_cpu_isolation() {
    let mut p = four_cpu_state();
    p.init();
    let var = PerCpuVar::new(4, 4);
    let before_cpu1 = var.read_remote(&p, 1);
    p.init_percpu_reg(0);
    var.write_current(&mut p, 0x5151_5151);
    // CPU 0's write is invisible on CPU 1 until a remote write targets it.
    assert_eq!(var.read_remote(&p, 1), before_cpu1);
    assert_eq!(var.read_current(&p), 0x5151_5151);
    var.write_remote(&mut p, 1, 7);
    assert_eq!(var.read_remote(&p, 1), 7);
    assert_eq!(var.read_current(&p), 0x5151_5151);
}

#[test]
fn remote_write_visible_to_current_read() {
    let mut p = four_cpu_state();
    p.init();
    let var = PerCpuVar::new(16, 2);
    var.write_remote(&mut p, 3, 0xbeef);
    p.init_percpu_reg(3);
    assert_eq!(var.read_current(&p), 0xbeef);
}

#[test]
fn variable_filling_whole_area() {
    // A template of exactly one stride: no padding between areas.
    let template = vec![0xa5u8; 64];
    let mut p = PerCpu::new(template, 0, 128);
    assert_eq!(p.init(), 2);
    let whole = PerCpuVar::new(0, 64);
    let bytes = whole.read_remote_bytes(&p, 1);
    assert_eq!(bytes, vec![0xa5u8; 64]);
    let fresh = vec![0x3cu8; 64];
    whole.write_remote_bytes(&mut p, 0, &fresh);
    assert_eq!(whole.read_remote_bytes(&p, 0), fresh);
    assert_eq!(whole.read_remote_bytes(&p, 1), vec![0xa5u8; 64]);
}
