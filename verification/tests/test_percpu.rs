use percpu::accessor::PerCpuVar;
use percpu::imp::PerCpu;

// Template layout used below, one slot per declared variable:
//   bool   at offset 0,  1 byte
//   u8     at offset 1,  1 byte
//   u16    at offset 2,  2 bytes
//   u32    at offset 4,  4 bytes
//   u64    at offset 8,  8 bytes
//   usize  at offset 16, 8 bytes
//   struct at offset 24, 9 bytes (foo: 8-byte field, bar: 1-byte field)
const TEMPLATE_SIZE: usize = 33;

fn struct_bytes(foo: u64, bar: u8) -> Vec<u8> {
    let mut bytes = Vec::new();
    let mut cur = foo;
    let mut k = 0;
    while k < 8 {
        bytes.push((cur % 256) as u8);
        cur /= 256;
        k += 1;
    }
    bytes.push(bar);
    bytes
}

fn struct_fields(bytes: &[u8]) -> (u64, u8) {
    let mut foo: u64 = 0;
    let mut k = 8;
    while k > 0 {
        k -= 1;
        foo = foo * 256 + bytes[k] as u64;
    }
    (foo, bytes[8])
}

#[test]
fn test_percpu() {
    let template = vec![0u8; TEMPLATE_SIZE];
    // The reserved region holds four 64-byte strides: four CPUs.
    let mut p = PerCpu::new(template, 0x1000, 256);

    assert_eq!(p.init(), 4);
    let tp = p.percpu_area_base(0);
    p.write_percpu_reg(tp);

    let base = p.read_percpu_reg();
    println!("per-CPU area base = {:#x}", base);
    println!("per-CPU area size = {}", p.percpu_area_size());

    let bool_var = PerCpuVar::new(0, 1);
    let u8_var = PerCpuVar::new(1, 1);
    let u16_var = PerCpuVar::new(2, 2);
    let u32_var = PerCpuVar::new(4, 4);
    let u64_var = PerCpuVar::new(8, 8);
    let usize_var = PerCpuVar::new(16, 8);
    let struct_var = PerCpuVar::new(24, 9);

    println!("bool offset: {:#x}", bool_var.offset());
    println!("u8 offset: {:#x}", u8_var.offset());
    println!("u16 offset: {:#x}", u16_var.offset());
    println!("u32 offset: {:#x}", u32_var.offset());
    println!("u64 offset: {:#x}", u64_var.offset());
    println!("usize offset: {:#x}", usize_var.offset());
    println!("struct offset: {:#x}", struct_var.offset());
    println!();

    assert_eq!(base + bool_var.offset(), bool_var.current_ptr(&p));
    assert_eq!(base + u8_var.offset(), u8_var.current_ptr(&p));
    assert_eq!(base + u16_var.offset(), u16_var.current_ptr(&p));
    assert_eq!(base + u32_var.offset(), u32_var.current_ptr(&p));
    assert_eq!(base + u64_var.offset(), u64_var.current_ptr(&p));
    assert_eq!(base + usize_var.offset(), usize_var.current_ptr(&p));
    assert_eq!(base + struct_var.offset(), struct_var.current_ptr(&p));

    bool_var.write_current_bool(&mut p, true);
    u8_var.write_current(&mut p, 123);
    u16_var.write_current(&mut p, 0xabcd);
    u32_var.write_current(&mut p, 0xdead_beef);
    u64_var.write_current(&mut p, 0xa2ce_a2ce_a2ce_a2ce);
    usize_var.write_current(&mut p, 0xffff_0000);

    struct_var.with_current(&mut p, |_s| struct_bytes(0x2333, 100));

    println!("bool value: {}", bool_var.read_current_bool(&p));
    println!("u8 value: {}", u8_var.read_current(&p));
    println!("u16 value: {:#x}", u16_var.read_current(&p));
    println!("u32 value: {:#x}", u32_var.read_current(&p));
    println!("u64 value: {:#x}", u64_var.read_current(&p));
    println!("usize value: {:#x}", usize_var.read_current(&p));

    assert_eq!(u8_var.read_current(&p), 123);
    assert_eq!(u16_var.read_current(&p), 0xabcd);
    assert_eq!(u32_var.read_current(&p), 0xdead_beef);
    assert_eq!(u64_var.read_current(&p), 0xa2ce_a2ce_a2ce_a2ce);
    assert_eq!(usize_var.read_current(&p), 0xffff_0000);

    struct_var.with_current(&mut p, |s| {
        let (foo, bar) = struct_fields(&s);
        println!("struct.foo value: {:#x}", foo);
        println!("struct.bar value: {}", bar);
        assert_eq!(foo, 0x2333);
        assert_eq!(bar, 100);
        s
    });

    // Remote write into CPU 1's area.
    bool_var.write_remote_bool(&mut p, 1, false);
    u8_var.write_remote(&mut p, 1, 222);
    u16_var.write_remote(&mut p, 1, 0x1234);
    u32_var.write_remote(&mut p, 1, 0xf00d_f00d);
    u64_var.write_remote(&mut p, 1, 0xfeed_feed_feed_feed);
    usize_var.write_remote(&mut p, 1, 0x0000_ffff);

    struct_var.write_remote_bytes(&mut p, 1, &struct_bytes(0x6666, 200));

    // Remote read back.
    assert!(!bool_var.read_remote_bool(&p, 1));
    assert_eq!(u8_var.read_remote(&p, 1), 222);
    assert_eq!(u16_var.read_remote(&p, 1), 0x1234);
    assert_eq!(u32_var.read_remote(&p, 1), 0xf00d_f00d);
    assert_eq!(u64_var.read_remote(&p, 1), 0xfeed_feed_feed_feed);
    assert_eq!(usize_var.read_remote(&p, 1), 0x0000_ffff);

    let s = struct_var.read_remote_bytes(&p, 1);
    let (foo, bar) = struct_fields(&s);
    assert_eq!(foo, 0x6666);
    assert_eq!(bar, 200);

    // Point the base register at CPU 1's area: we are now on CPU 1.
    let tp = p.percpu_area_base(1);
    p.write_percpu_reg(tp);

    println!();
    println!("bool value on CPU 1: {}", bool_var.read_current_bool(&p));
    println!("u8 value on CPU 1: {}", u8_var.read_current(&p));
    println!("u16 value on CPU 1: {:#x}", u16_var.read_current(&p));
    println!("u32 value on CPU 1: {:#x}", u32_var.read_current(&p));
    println!("u64 value on CPU 1: {:#x}", u64_var.read_current(&p));
    println!("usize value on CPU 1: {:#x}", usize_var.read_current(&p));

    assert!(!bool_var.read_current_bool(&p));
    assert_eq!(u8_var.read_current(&p), 222);
    assert_eq!(u16_var.read_current(&p), 0x1234);
    assert_eq!(u32_var.read_current(&p), 0xf00d_f00d);
    assert_eq!(u64_var.read_current(&p), 0xfeed_feed_feed_feed);
    assert_eq!(usize_var.read_current(&p), 0x0000_ffff);

    struct_var.with_current(&mut p, |s| {
        let (foo, bar) = struct_fields(&s);
        println!("struct.foo value on CPU 1: {:#x}", foo);
        println!("struct.bar value on CPU 1: {}", bar);
        assert_eq!(foo, 0x6666);
        assert_eq!(bar, 200);
        s
    });
}
