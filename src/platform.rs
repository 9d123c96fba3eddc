//! Memory, disk and network facts from platform command output, and the JSON
//! lists the network and file families are stored as.
use vstd::prelude::*;

use crate::hardware::{DiskInfo, MemoryInfo};
use crate::json::{
    as_json_list, json_item_texts, json_items, json_member, json_member_text, json_quoted,
    member_as_string, member_as_text, member_display, member_string, normalize_json_list, quote,
};
use crate::text::{lines_of, lines_text, parse_unsigned, trim_text, trimmed, unsigned_value, views};

verus! {

/// The number on the second line of `wmic ... get X` output, trimmed.
pub open spec fn wmic_value(out: Seq<char>) -> Option<int> {
    let ls = lines_of(out);
    if ls.len() >= 2 {
        unsigned_value(trimmed(ls[1]), u64::MAX as int)
    } else {
        None
    }
}

fn wmic_number(out: &str) -> (r: Option<u64>)
    ensures
        match r {
            Some(v) => wmic_value(out@) == Some(v as int),
            None => wmic_value(out@) is None,
        },
{
    let lines = lines_text(out);
    if lines.len() < 2 {
        return None;
    }
    assert(lines@[1]@ == lines_of(out@)[1]);
    let t = trim_text(lines[1].as_str());
    parse_unsigned(t.as_str(), u64::MAX)
}

/// A counter that could be read, or zero.
pub open spec fn counter_or_zero(v: Option<int>) -> int {
    match v {
        Some(x) => x,
        None => 0,
    }
}

/// A count of KiB in bytes, or zero where it could not be read or does not fit.
pub open spec fn kib_in_bytes(v: Option<int>) -> int {
    match v {
        Some(k) => if k * 1024 <= u64::MAX {
            k * 1024
        } else {
            0
        },
        None => 0,
    }
}

/// Memory from `wmic ComputerSystem get TotalPhysicalMemory` (bytes) and
/// `wmic OS get FreePhysicalMemory` (KiB, turned into bytes). A counter that
/// cannot be read is zero; the other is kept.
pub fn memory_from_wmic(total_out: &str, free_out: &str) -> (r: MemoryInfo)
    ensures
        r.total as int == counter_or_zero(wmic_value(total_out@)),
        r.free as int == kib_in_bytes(wmic_value(free_out@)),
        r.buffers == 0,
        r.cached == 0,
{
    let total = match wmic_number(total_out) {
        Some(t) => t,
        None => 0,
    };
    let free = match wmic_number(free_out) {
        Some(k) => match k.checked_mul(1024) {
            Some(b) => b,
            None => 0,
        },
        None => 0,
    };
    MemoryInfo { total, free, buffers: 0, cached: 0 }
}

/// The eight fields of a disk, in declaration order.
pub open spec fn disk_view(d: DiskInfo) -> Seq<Seq<char>> {
    seq![
        d.media_type@,
        d.name@,
        d.size@,
        d.mount_point@,
        d.available_space@,
        d.file_system@,
        d.total_space@,
        d.kind@,
    ]
}

/// A disk of `Get-PhysicalDisk | Select-Object MediaType, Model, Size |
/// ConvertTo-Json` output: the three members as text, the rest empty.
pub open spec fn physical_disk_row(item: Seq<char>) -> Seq<Seq<char>> {
    seq![
        member_display(item, "MediaType"@),
        member_display(item, "Model"@),
        member_display(item, "Size"@),
        Seq::empty(),
        Seq::empty(),
        Seq::empty(),
        Seq::empty(),
        Seq::empty(),
    ]
}

/// The disks of that output, a single object read as a list of one; none
/// where it is not a JSON list.
pub open spec fn physical_disks(out: Seq<char>) -> Seq<Seq<Seq<char>>> {
    match json_item_texts(as_json_list(out)) {
        Some(items) => items.map_values(|i: Seq<char>| physical_disk_row(i)),
        None => Seq::empty(),
    }
}

/// The disks that `Get-PhysicalDisk` reported.
pub fn disks_from_physical_disks(out: &str) -> (r: Vec<DiskInfo>)
    ensures
        r@.map_values(|d| disk_view(d)) == physical_disks(out@),
{
    let list = normalize_json_list(out);
    let items = match json_items(list.as_str()) {
        Some(items) => items,
        None => {
            assert(physical_disks(out@) =~= Seq::<Seq<Seq<char>>>::empty());
            return Vec::new();
        },
    };
    let ghost iv = views(items@);
    let mut disks: Vec<DiskInfo> = Vec::new();
    let mut i: usize = 0;
    while i < items.len()
        invariant
            iv == views(items@),
            i <= iv.len(),
            disks@.len() == i,
            forall|q: int| 0 <= q < i ==> #[trigger] disk_view(disks@[q]) == physical_disk_row(iv[q]),
        decreases iv.len() - i,
    {
        let item = items[i].as_str();
        assert(item@ == iv[i as int]);
        let d = DiskInfo {
            media_type: member_as_text(item, "MediaType"),
            name: member_as_text(item, "Model"),
            size: member_as_text(item, "Size"),
            mount_point: String::new(),
            available_space: String::new(),
            file_system: String::new(),
            total_space: String::new(),
            kind: String::new(),
        };
        assert(disk_view(d) =~= physical_disk_row(iv[i as int]));
        disks.push(d);
        i = i + 1;
    }
    assert(disks@.map_values(|d| disk_view(d)) =~= physical_disks(out@));
    disks
}

/// `entries` joined by `,`.
pub open spec fn joined(entries: Seq<Seq<char>>) -> Seq<char>
    decreases entries.len(),
{
    if entries.len() == 0 {
        Seq::empty()
    } else if entries.len() == 1 {
        entries[0]
    } else {
        joined(entries.drop_last()) + ","@ + entries.last()
    }
}

/// The JSON list whose elements are the JSON texts `entries`.
pub open spec fn json_list(entries: Seq<Seq<char>>) -> Seq<char> {
    "["@ + joined(entries) + "]"@
}

/// Writes the JSON texts `entries` as one JSON list.
pub fn json_list_text(entries: &Vec<String>) -> (r: String)
    ensures
        r@ == json_list(views(entries@)),
{
    let ghost ev = views(entries@);
    let mut out = "[".to_string();
    let mut i: usize = 0;
    assert(ev.take(0) =~= Seq::<Seq<char>>::empty());
    while i < entries.len()
        invariant
            ev == views(entries@),
            i <= ev.len(),
            out@ == "["@ + joined(ev.take(i as int)),
        decreases ev.len() - i,
    {
        assert(ev.take(i + 1).drop_last() =~= ev.take(i as int));
        assert(entries@[i as int]@ == ev[i as int]);
        if i > 0 {
            out.append(",");
        }
        out.append(entries[i].as_str());
        proof {
            if i == 0 {
                assert(ev.take(1) =~= seq![ev[0]]);
            }
        }
        assert(out@ =~= "["@ + joined(ev.take(i + 1)));
        i = i + 1;
    }
    assert(ev.take(ev.len() as int) =~= ev);
    out.append("]");
    out
}

/// A string member of `item`, or empty.
pub open spec fn member_or_empty(item: Seq<char>, key: Seq<char>) -> Seq<char> {
    match member_string(item, key) {
        Some(t) => t,
        None => Seq::empty(),
    }
}

/// The `local` address of the first `inet` entry among `addrs`, or empty.
pub open spec fn first_ipv4(addrs: Seq<Seq<char>>) -> Seq<char>
    decreases addrs.len(),
{
    if addrs.len() == 0 {
        Seq::empty()
    } else if member_string(addrs[0], "family"@) == Some("inet"@) {
        member_or_empty(addrs[0], "local"@)
    } else {
        first_ipv4(addrs.drop_first())
    }
}

/// The first IPv4 address of an interface object of `ip -j a`, or empty.
pub open spec fn interface_ipv4(item: Seq<char>) -> Seq<char> {
    match json_member_text(item, "addr_info"@) {
        Some(a) => match json_item_texts(a) {
            Some(xs) => first_ipv4(xs),
            None => Seq::empty(),
        },
        None => Seq::empty(),
    }
}

/// The entry stored for one interface: name, state, MAC and first IPv4
/// address, each empty where missing, and zero byte counters.
pub open spec fn interface_entry(item: Seq<char>) -> Seq<char> {
    "{\"name\":"@ + json_quoted(member_or_empty(item, "ifname"@)) + ",\"status\":"@ + json_quoted(
        member_or_empty(item, "operstate"@),
    ) + ",\"mac\":"@ + json_quoted(member_or_empty(item, "address"@)) + ",\"ip\":"@
        + json_quoted(interface_ipv4(item)) + ",\"received\":0,\"sent\":0}"@
}

/// The network family's document from `ip -j a` output, if that is a JSON list.
pub open spec fn ip_interfaces(out: Seq<char>) -> Option<Seq<char>> {
    match json_item_texts(out) {
        Some(items) => Some(json_list(items.map_values(|i: Seq<char>| interface_entry(i)))),
        None => None,
    }
}

fn string_or_empty(item: &str, key: &str) -> (r: String)
    ensures
        r@ == member_or_empty(item@, key@),
{
    match member_as_string(item, key) {
        Some(t) => t,
        None => String::new(),
    }
}

fn ipv4_of(item: &str) -> (r: String)
    ensures
        r@ == interface_ipv4(item@),
{
    let addr_info = match json_member(item, "addr_info") {
        Some(a) => a,
        None => return String::new(),
    };
    let addrs = match json_items(addr_info.as_str()) {
        Some(xs) => xs,
        None => return String::new(),
    };
    let ghost xv = views(addrs@);
    let mut i: usize = 0;
    assert(xv.subrange(0, xv.len() as int) =~= xv);
    while i < addrs.len()
        invariant
            xv == views(addrs@),
            json_member_text(item@, "addr_info"@) == Some(addr_info@),
            json_item_texts(addr_info@) == Some(xv),
            i <= xv.len(),
            first_ipv4(xv) == first_ipv4(xv.subrange(i as int, xv.len() as int)),
        decreases xv.len() - i,
    {
        let a = addrs[i].as_str();
        assert(a@ == xv[i as int]);
        let ghost rest = xv.subrange(i as int, xv.len() as int);
        assert(rest[0] == a@);
        let family = member_as_string(a, "family");
        let inet = "inet".to_string();
        let is_inet = match &family {
            Some(f) => f.eq(&inet),
            None => false,
        };
        if is_inet {
            return string_or_empty(a, "local");
        }
        assert(rest.drop_first() =~= xv.subrange(i + 1, xv.len() as int));
        i = i + 1;
    }
    String::new()
}

/// The entry stored for one interface object of `ip -j a`.
pub fn interface_entry_text(item: &str) -> (r: String)
    ensures
        r@ == interface_entry(item@),
{
    let mut out = "{\"name\":".to_string();
    out.append(quote(string_or_empty(item, "ifname").as_str()).as_str());
    out.append(",\"status\":");
    out.append(quote(string_or_empty(item, "operstate").as_str()).as_str());
    out.append(",\"mac\":");
    out.append(quote(string_or_empty(item, "address").as_str()).as_str());
    out.append(",\"ip\":");
    out.append(quote(ipv4_of(item).as_str()).as_str());
    out.append(",\"received\":0,\"sent\":0}");
    out
}

/// The network family's document from `ip -j a` output; none where that
/// output is not a JSON list.
pub fn interfaces_from_ip_json(out: &str) -> (r: Option<String>)
    ensures
        match r {
            Some(t) => ip_interfaces(out@) == Some(t@),
            None => ip_interfaces(out@) is None,
        },
{
    let items = match json_items(out) {
        Some(items) => items,
        None => return None,
    };
    let ghost iv = views(items@);
    let mut entries: Vec<String> = Vec::new();
    let mut i: usize = 0;
    while i < items.len()
        invariant
            iv == views(items@),
            i <= iv.len(),
            entries@.len() == i,
            forall|q: int| 0 <= q < i ==> #[trigger] entries@[q]@ == interface_entry(iv[q]),
        decreases iv.len() - i,
    {
        assert(items@[i as int]@ == iv[i as int]);
        entries.push(interface_entry_text(items[i].as_str()));
        i = i + 1;
    }
    assert(views(entries@) =~= iv.map_values(|i: Seq<char>| interface_entry(i)));
    Some(json_list_text(&entries))
}

} // verus!
