use sysdash::defaults::{green_value, red_value, threshold_value, true_value};
use sysdash::frac::Frac;
use sysdash::tools::{u64_byte_str, ByteStr};

#[test]
fn byte_str_exact_values() {
    assert_eq!(u64_byte_str(0), "0.0 B");
    assert_eq!(u64_byte_str(512), "512.0 B");
    assert_eq!(u64_byte_str(1023), "1023.0 B");
    assert_eq!(u64_byte_str(1024), "1.0 KiB");
    assert_eq!(u64_byte_str(1126), "1.1 KiB");
    assert_eq!(u64_byte_str(1536), "1.5 KiB");
    assert_eq!(u64_byte_str(1024 * 1024), "1.0 MiB");
    assert_eq!(u64_byte_str(5 * 1024 * 1024 * 1024), "5.0 GiB");
    assert_eq!(u64_byte_str(1024 * 1024 * 1024 * 1024), "1.0 TiB");
    assert_eq!(u64_byte_str(u64::MAX), "16.0 EiB");
}

#[test]
fn byte_str_trait_matches_free_function() {
    let v: u64 = 123456789;
    assert_eq!(v.byte_str(), u64_byte_str(v));
    assert_eq!(1536u64.byte_str(), "1.5 KiB");
}

#[test]
fn byte_str_is_stable() {
    assert_eq!(u64_byte_str(987654321), u64_byte_str(987654321));
}

#[test]
fn byte_str_magnitudes_do_not_shrink() {
    // spot checks along unit boundaries of the proved monotonicity
    let pairs = [
        (1023u64, 1024u64),
        (1024, 1025),
        (1024 * 1024 - 1, 1024 * 1024),
        (1536, 2048),
    ];
    for (a, b) in pairs {
        let (sa, sb) = (u64_byte_str(a), u64_byte_str(b));
        let mag = |s: &str| -> f64 {
            let mut it = s.split(' ');
            let num: f64 = it.next().unwrap().parse().unwrap();
            let unit = it.next().unwrap();
            let exp = ["B", "KiB", "MiB", "GiB", "TiB", "PiB", "EiB"]
                .iter()
                .position(|u| *u == unit)
                .unwrap();
            num * 1024f64.powi(exp as i32)
        };
        assert!(mag(&sa) <= mag(&sb), "{sa} vs {sb}");
    }
}

#[test]
fn documented_defaults() {
    assert!(true_value());
    assert_eq!(red_value(), "red");
    assert_eq!(green_value(), "green");
    assert_eq!(threshold_value(), Frac { num: 8, den: 10 });
}
