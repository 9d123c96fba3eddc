use wei_hardware::hardware::{CpuInfo, HardwareInfo, MemoryInfo, OsInfo};
use wei_hardware::json::normalize_json_list;
use wei_hardware::platform::{disks_from_physical_disks, interfaces_from_ip_json, memory_from_wmic};

#[test]
fn wmic_memory_is_read_in_bytes() {
    let m = memory_from_wmic(
        "TotalPhysicalMemory  \r\n17179869184  \r\n\r\n",
        "FreePhysicalMemory  \r\n8388608  \r\n",
    );
    assert_eq!(m.total, 17179869184);
    assert_eq!(m.free, 8589934592);
    assert_eq!(m.buffers, 0);
    assert_eq!(m.cached, 0);
}

#[test]
fn wmic_memory_unreadable_counter_is_zero() {
    let m = memory_from_wmic("TotalPhysicalMemory\r\n", "FreePhysicalMemory\r\n1\r\n");
    assert_eq!(m.total, 0);
    assert_eq!(m.free, 1024);
    let m = memory_from_wmic("TotalPhysicalMemory\r\n5\r\n", "FreePhysicalMemory\r\nabc\r\n");
    assert_eq!(m.total, 5);
    assert_eq!(m.free, 0);
    let m = memory_from_wmic("T\r\n1\r\n", "F\r\n18446744073709551615\r\n");
    assert_eq!(m.total, 1);
    assert_eq!(m.free, 0);
}

#[test]
fn single_object_output_becomes_a_list() {
    assert_eq!(normalize_json_list("{\"a\":1}"), "[{\"a\":1}]");
    assert_eq!(normalize_json_list("[{\"a\":1},{\"a\":2}]"), "[{\"a\":1},{\"a\":2}]");
    assert_eq!(normalize_json_list(""), "");
}

#[test]
fn one_physical_disk_is_a_list_of_one() {
    let disks = disks_from_physical_disks(
        "{\"MediaType\":\"SSD\",\"Model\":\"Samsung SSD 970\",\"Size\":500107862016}",
    );
    assert_eq!(disks.len(), 1);
    assert_eq!(disks[0].media_type, "SSD");
    assert_eq!(disks[0].name, "Samsung SSD 970");
    assert_eq!(disks[0].size, "500107862016");
    assert_eq!(disks[0].mount_point, "");
}

#[test]
fn physical_disk_list_and_garbage() {
    let disks = disks_from_physical_disks(
        "[{\"MediaType\":\"HDD\",\"Model\":\"WD\",\"Size\":1},{\"Model\":\"X\"}]",
    );
    assert_eq!(disks.len(), 2);
    assert_eq!(disks[0].media_type, "HDD");
    assert_eq!(disks[1].media_type, "");
    assert_eq!(disks[1].name, "X");
    assert!(disks_from_physical_disks("not json").is_empty());
}

#[test]
fn ip_json_becomes_interface_list() {
    let out = "[{\"ifname\":\"lo\",\"operstate\":\"UNKNOWN\",\"address\":\"00:00:00:00:00:00\",\
\"addr_info\":[{\"family\":\"inet\",\"local\":\"127.0.0.1\"},{\"family\":\"inet6\",\"local\":\"::1\"}]},\
{\"ifname\":\"eth0\",\"operstate\":\"UP\",\"address\":\"aa:bb:cc:dd:ee:ff\",\
\"addr_info\":[{\"family\":\"inet6\",\"local\":\"fe80::1\"},{\"family\":\"inet\",\"local\":\"10.0.0.5\"}]},\
{\"ifname\":\"wg0\",\"operstate\":\"DOWN\"}]";
    let expected = "[{\"name\":\"lo\",\"status\":\"UNKNOWN\",\"mac\":\"00:00:00:00:00:00\",\"ip\":\"127.0.0.1\",\"received\":0,\"sent\":0},\
{\"name\":\"eth0\",\"status\":\"UP\",\"mac\":\"aa:bb:cc:dd:ee:ff\",\"ip\":\"10.0.0.5\",\"received\":0,\"sent\":0},\
{\"name\":\"wg0\",\"status\":\"DOWN\",\"mac\":\"\",\"ip\":\"\",\"received\":0,\"sent\":0}]";
    assert_eq!(interfaces_from_ip_json(out).unwrap(), expected);
    assert_eq!(interfaces_from_ip_json("[]").unwrap(), "[]");
    assert!(interfaces_from_ip_json("{\"a\":1}").is_none());
    assert!(interfaces_from_ip_json("oops").is_none());
}

#[test]
fn failed_parts_become_empty_values() {
    let os = OsInfo {
        hostname: "h".to_string(),
        os_type: "Linux".to_string(),
        version: "6".to_string(),
        bitness: "64-bit".to_string(),
    };
    let hw = HardwareInfo::assemble(os, None, vec![], None, vec![]);
    assert_eq!(hw.os_info.hostname, "h");
    assert_eq!(hw.cpu_info.name, "");
    assert_eq!(hw.cpu_info.num, 0);
    assert_eq!(hw.mem_info.total, 0);
    let cpu = CpuInfo { uuid: "".to_string(), name: "x".to_string(), num: 1, speed: 2, core_num: 3 };
    let mem = MemoryInfo { total: 9, free: 8, buffers: 0, cached: 0 };
    let os = OsInfo {
        hostname: "".to_string(),
        os_type: "".to_string(),
        version: "".to_string(),
        bitness: "".to_string(),
    };
    let hw = HardwareInfo::assemble(os, Some(cpu), vec![], Some(mem), vec![]);
    assert_eq!(hw.cpu_info.name, "x");
    assert_eq!(hw.mem_info.free, 8);
}
