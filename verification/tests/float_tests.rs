use terbium::value::{float_to_int, int_to_float};

#[test]
fn integers_become_the_same_f64() {
    let mut samples: Vec<i32> = vec![0, 1, -1, 2, 3, 7, 1023, 1024, -1025, i32::MAX, i32::MIN, i32::MIN + 1];
    let mut x: i64 = 1;
    while x < i32::MAX as i64 {
        samples.push(x as i32);
        samples.push((x - 1) as i32);
        samples.push(-(x as i32));
        x = x * 3 + 1;
    }
    for k in 0..31 {
        samples.push(1 << k);
        samples.push((1 << k) + 1);
        samples.push(-(1 << k));
    }
    for x in samples {
        assert_eq!(int_to_float(x), (x as f64).to_bits(), "{x}");
        assert_eq!(float_to_int(int_to_float(x)), x, "{x}");
    }
}

#[test]
fn floats_become_the_same_i32() {
    let mut samples: Vec<f64> = vec![
        0.0, -0.0, 0.5, -0.5, 0.999, 1.0, -1.0, 1.5, -1.5, 2.75, -2.75, 1e9, -1e9,
        2147483647.0, 2147483647.9, 2147483648.0, -2147483648.0, -2147483648.9, -2147483649.0,
        1e10, -1e10, 1e300, -1e300, 5e-324, -5e-324, 2.2250738585072014e-308,
        f64::INFINITY, f64::NEG_INFINITY, f64::NAN, -f64::NAN, f64::MAX, f64::MIN,
        4503599627370496.0, 9007199254740991.0, 123456.789, -98765.4321,
    ];
    let mut v = 0.37;
    for _ in 0..200 {
        samples.push(v);
        samples.push(-v);
        v *= 1.7;
    }
    for f in samples {
        assert_eq!(float_to_int(f.to_bits()), f as i32, "{f}");
    }
    for bits in [0x7ff0_0000_0000_0001u64, 0xfff8_0000_0000_0000, 0x0000_0000_0000_0001, 0x8000_0000_0000_0000] {
        assert_eq!(float_to_int(bits), f64::from_bits(bits) as i32);
    }
}
