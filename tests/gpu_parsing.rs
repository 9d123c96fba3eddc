use wei_hardware::gpu::{
    gpu_from_groups, gpus_from_lspci, gpus_from_smi, has_nvidia_device, remove_all, select_gpus,
};
use wei_hardware::split_gpu_info;

#[test]
fn smi_line_parses_into_fields() {
    let line = "0, Test GPU, GPU-1234, 0000:01:00.0, 100 MiB, 8192 MiB, 45, 120.00 W";
    let gpus = gpus_from_smi(true, line).expect("a well-formed line parses");
    assert_eq!(gpus.len(), 1);
    let g = &gpus[0];
    assert_eq!(g.index, "0");
    assert_eq!(g.name, "Test GPU");
    assert_eq!(g.uuid, "GPU-1234");
    assert_eq!(g.gpu_bus_id, "0000:01:00.0");
    assert_eq!(g.memory_used, "100 MiB");
    assert_eq!(g.memory_total, "8192 MiB");
    assert_eq!(g.temperature, "45");
    assert_eq!(g.power_draw, "120.00 W");
}

#[test]
fn split_gpu_info_trims_every_field() {
    let rows = split_gpu_info("0, A ,B\n 1,,C \r\n");
    assert_eq!(rows.len(), 2);
    assert_eq!(rows[0], vec!["0".to_string(), "A".to_string(), "B".to_string()]);
    assert_eq!(rows[1], vec!["1".to_string(), "".to_string(), "C".to_string()]);
    assert!(split_gpu_info("").is_empty());
}

#[test]
fn smi_two_devices_keep_their_order() {
    let out = "0, A, U0, B0, 1 MiB, 2 MiB, 30, 10.00 W\n1, B, U1, B1, 3 MiB, 4 MiB, 31, 11.00 W, extra\n";
    let gpus = gpus_from_smi(true, out).unwrap();
    assert_eq!(gpus.len(), 2);
    assert_eq!(gpus[0].name, "A");
    assert_eq!(gpus[1].index, "1");
    assert_eq!(gpus[1].power_draw, "11.00 W");
}

#[test]
fn smi_failures_give_none() {
    let line = "0, Test GPU, GPU-1234, 0000:01:00.0, 100 MiB, 8192 MiB, 45, 120.00 W";
    assert!(gpus_from_smi(false, line).is_none());
    assert!(gpus_from_smi(true, "NVIDIA-SMI has failed because it couldn't communicate").is_none());
    assert!(gpus_from_smi(true, "0, Test GPU, GPU-1234").is_none());
}

#[test]
fn lspci_lines_give_numbered_adapters() {
    let out = "01:00.0 VGA compatible controller: NVIDIA Corporation GA102 [GeForce RTX 3090] (rev a1)\n\
               02:00.0 VGA compatible controller: NVIDIA Corporation TU104GL [Tesla T4] (rev a1)\n";
    let gpus = gpus_from_lspci(out);
    assert_eq!(gpus.len(), 2);
    assert_eq!(gpus[0].index, "0");
    assert_eq!(gpus[0].name, "GeForce RTX 3090");
    assert_eq!(gpus[0].gpu_bus_id, "0000:01:00");
    assert_eq!(gpus[0].uuid, "");
    assert_eq!(gpus[1].index, "1");
    assert_eq!(gpus[1].name, "Tesla T4");
    assert_eq!(gpus[1].gpu_bus_id, "0000:02:00");
}

#[test]
fn lspci_lines_that_do_not_match_are_skipped() {
    let out = "00:02.0 VGA compatible controller: Intel Corporation UHD Graphics 630 (rev 02)\n\
               01:00.0 VGA compatible controller: NVIDIA Corporation GA102 [GeForce RTX 3090] (rev a1)\n";
    let gpus = gpus_from_lspci(out);
    assert_eq!(gpus.len(), 1);
    assert_eq!(gpus[0].index, "0");
    assert!(gpus_from_lspci("").is_empty());
}

#[test]
fn nvidia_is_found_in_a_listing() {
    assert!(has_nvidia_device(
        "00:02.0 VGA compatible controller: Intel\n01:00.0 3D controller: NVIDIA Corporation GA102\n"
    ));
    assert!(has_nvidia_device("Name\r\nNVIDIA GeForce RTX 3080  \r\n\r\n"));
    assert!(!has_nvidia_device("Name\r\nAMD Radeon RX 6800\r\nIntel UHD\r\n"));
    assert!(!has_nvidia_device(""));
}

#[test]
fn remove_all_takes_out_every_occurrence() {
    assert_eq!(remove_all("01:00.0", ".0"), "01:00");
    assert_eq!(remove_all("a.0b.0.0", ".0"), "ab");
    assert_eq!(remove_all("abc", ".0"), "abc");
}

#[test]
fn groups_make_one_adapter() {
    let groups = vec![
        Some("01:00.0 3D controller: NVIDIA Corporation GA102 (rev a1)".to_string()),
        Some("01:00.0".to_string()),
        Some("NVIDIA Corporation".to_string()),
        Some("GA102".to_string()),
        None,
        None,
        Some("rev a1".to_string()),
    ];
    let g = gpu_from_groups(3, &groups);
    assert_eq!(g.index, "3");
    assert_eq!(g.name, "GA102");
    assert_eq!(g.gpu_bus_id, "0000:01:00");
    assert_eq!(g.memory_total, "");
    let mut with_model = groups.clone();
    with_model[5] = Some("GeForce RTX 3090".to_string());
    assert_eq!(gpu_from_groups(0, &with_model).name, "GeForce RTX 3090");
    let g = gpu_from_groups(12, &vec![]);
    assert_eq!(g.index, "12");
    assert_eq!(g.name, "");
    assert_eq!(g.gpu_bus_id, "0000:");
}

#[test]
fn smi_result_wins_over_lspci() {
    let lspci = "01:00.0 VGA compatible controller: NVIDIA Corporation GA102 [GeForce RTX 3090] (rev a1)\n";
    let smi = gpus_from_smi(true, "0, Test GPU, GPU-1234, 0000:01:00.0, 100 MiB, 8192 MiB, 45, 120.00 W");
    let gpus = select_gpus(smi, lspci);
    assert_eq!(gpus.len(), 1);
    assert_eq!(gpus[0].name, "Test GPU");
    let gpus = select_gpus(None, lspci);
    assert_eq!(gpus.len(), 1);
    assert_eq!(gpus[0].name, "GeForce RTX 3090");
    assert!(select_gpus(None, "").is_empty());
}
