use wei_hardware::cpu::{cpu_from_lscpu, cpu_from_wmic, parse_milli};

const LSCPU: &str = "Architecture:        x86_64\n\
CPU(s):              8\n\
Model name:          Intel(R) Core(TM) i7-8550U CPU @ 1.80GHz\n\
CPU MHz:             1992.000\n\
Core(s) per socket:  4\n";

#[test]
fn lscpu_fields_are_read() {
    let c = cpu_from_lscpu(LSCPU).expect("well-formed output parses");
    assert_eq!(c.uuid, "");
    assert_eq!(c.name, "Intel(R) Core(TM) i7-8550U CPU @ 1.80GHz");
    assert_eq!(c.num, 8);
    assert_eq!(c.speed, 1992000);
    assert_eq!(c.core_num, 4);
}

#[test]
fn lscpu_missing_fields_stay_zero() {
    let c = cpu_from_lscpu("Architecture: arm64\n").unwrap();
    assert_eq!(c.name, "");
    assert_eq!(c.num, 0);
    assert_eq!(c.speed, 0);
    assert_eq!(c.core_num, 0);
}

#[test]
fn lscpu_bad_numbers_fail_the_read() {
    assert!(cpu_from_lscpu("CPU(s): eight\n").is_none());
    assert!(cpu_from_lscpu("CPU MHz: fast\n").is_none());
    assert!(cpu_from_lscpu("Core(s) per socket: -1\n").is_none());
}

#[test]
fn lscpu_later_line_overrides() {
    let c = cpu_from_lscpu("CPU(s): 2\nCPU(s): 16\n").unwrap();
    assert_eq!(c.num, 16);
}

#[test]
fn milli_values() {
    assert_eq!(parse_milli("2400.000"), Some(2400000));
    assert_eq!(parse_milli("3000.5"), Some(3000500));
    assert_eq!(parse_milli("1.23456"), Some(1234));
    assert_eq!(parse_milli("7"), Some(7000));
    assert_eq!(parse_milli("1.2.3"), None);
    assert_eq!(parse_milli("1.x"), None);
    assert_eq!(parse_milli(""), None);
    assert_eq!(parse_milli("18446744073709552"), None);
}

#[test]
fn wmic_fields_are_read() {
    let c = cpu_from_wmic(
        "ProcessorId       \r\nBFEBFBFF000906EA  \r\n\r\n",
        "Name  \r\nIntel(R) Core(TM) i7-9700 CPU @ 3.00GHz  \r\n",
        "SocketDesignation  \r\nLGA1151  \r\n\r\n",
        Some(3000),
        None,
    );
    assert_eq!(c.uuid, "BFEBFBFF000906EA");
    assert_eq!(c.name, "Intel(R) Core(TM) i7-9700 CPU @ 3.00GHz");
    assert_eq!(c.num, 1);
    assert_eq!(c.speed, 3000);
    assert_eq!(c.core_num, 0);
}

#[test]
fn wmic_two_sockets_and_empty_output() {
    let c = cpu_from_wmic("", "", "SocketDesignation\r\nCPU0\r\nCPU1\r\n", None, Some(16));
    assert_eq!(c.uuid, "");
    assert_eq!(c.name, "");
    assert_eq!(c.num, 2);
    assert_eq!(c.core_num, 16);
}
