//! Display adapters: the vendor is found in a generic device listing; NVIDIA
//! devices are read from `nvidia-smi` CSV, or failing that from `lspci` lines.
use vstd::prelude::*;

use crate::hardware::GpuInfo;
use crate::text::{
    char_list, contains, contains_text, decimal_string, decimal_text, lines_of, lines_text,
    slice_text, split_on, split_text, starts_with, trim_text, trimmed, views,
};

verus! {

/// The groups of the first match of `pattern` in `text`, by index, if the
/// pattern compiles and matches.
pub uninterp spec fn regex_groups(pattern: Seq<char>, text: Seq<char>) -> Option<
    Seq<Option<Seq<char>>>,
>;

pub open spec fn opt_view(o: Option<String>) -> Option<Seq<char>> {
    match o {
        Some(x) => Some(x@),
        None => None,
    }
}

/// Relies on `regex::Regex::new` and `Regex::captures`: the groups of the first
/// match, group 0 being the whole match, a group that took no part being `None`.
#[verifier::external_body]
fn capture_groups(pattern: &str, text: &str) -> (r: Option<Vec<Option<String>>>)
    ensures
        match r {
            Some(g) => regex_groups(pattern@, text@) == Some(g@.map_values(|o| opt_view(o))),
            None => regex_groups(pattern@, text@) is None,
        },
{
    match regex::Regex::new(pattern) {
        Ok(re) => match re.captures(text) {
            Some(c) => Some(c.iter().map(|m| m.map(|x| x.as_str().to_string())).collect()),
            None => None,
        },
        Err(_) => None,
    }
}

/// An `lspci` line of an NVIDIA adapter. Groups: 1 the bus id, 3 the device
/// text, 5 the bracketed model, 6 the revision.
pub const LSPCI_GPU: &'static str = r"(?P<bus_id>\d+:\d+\.0) .*?: (?P<manufacturer>NVIDIA Corporation) (?P<device>.*?) (\[(?P<model>.*?)\])? \((?P<rev>.*?)\)";

/// The eight fields of an adapter, in declaration order.
pub open spec fn gpu_view(g: GpuInfo) -> Seq<Seq<char>> {
    seq![
        g.index@,
        g.name@,
        g.uuid@,
        g.gpu_bus_id@,
        g.memory_used@,
        g.memory_total@,
        g.temperature@,
        g.power_draw@,
    ]
}

/// A CSV line: split at `,`, each field trimmed.
pub open spec fn csv_row(l: Seq<char>) -> Seq<Seq<char>> {
    split_on(l, ',').map_values(|p: Seq<char>| trimmed(p))
}

/// Every line of `s` as a CSV row.
pub open spec fn csv_rows(s: Seq<char>) -> Seq<Seq<Seq<char>>> {
    lines_of(s).map_values(|l: Seq<char>| csv_row(l))
}

/// The trimmed comma-separated fields of each line of `gpu_info`.
pub fn split_gpu_info(gpu_info: &str) -> (r: Vec<Vec<String>>)
    ensures
        r@.len() == csv_rows(gpu_info@).len(),
        forall|i: int|
            0 <= i < r@.len() ==> #[trigger] views(r@[i]@) == csv_rows(
                gpu_info@,
            )[i],
{
    let lines = lines_text(gpu_info);
    let ghost ls = lines_of(gpu_info@);
    let mut rows: Vec<Vec<String>> = Vec::new();
    let mut i: usize = 0;
    while i < lines.len()
        invariant
            ls == lines@.map_values(|x: String| x@),
            ls == lines_of(gpu_info@),
            i <= ls.len(),
            rows@.len() == i,
            forall|q: int|
                0 <= q < i ==> #[trigger] views(rows@[q]@) == csv_rows(
                    gpu_info@,
                )[q],
        decreases ls.len() - i,
    {
        let pieces = split_text(lines[i].as_str(), ',');
        let ghost pv = pieces@.map_values(|x: String| x@);
        assert(pv == split_on(ls[i as int], ','));
        let mut fields: Vec<String> = Vec::new();
        let mut k: usize = 0;
        while k < pieces.len()
            invariant
                pv == pieces@.map_values(|x: String| x@),
                k <= pv.len(),
                fields@.len() == k,
                forall|q: int| 0 <= q < k ==> #[trigger] fields@[q]@ == trimmed(pv[q]),
            decreases pv.len() - k,
        {
            assert(pieces@[k as int]@ == pv[k as int]);
            fields.push(trim_text(pieces[k].as_str()));
            k = k + 1;
        }
        assert(views(fields@) =~= csv_row(ls[i as int]));
        rows.push(fields);
        i = i + 1;
    }
    rows
}

/// The adapters that an `nvidia-smi --query-gpu=index,name,uuid,gpu_bus_id,
/// memory.used,memory.total,temperature.gpu,power.draw --format=csv,noheader`
/// run gave: none where the tool failed, reported `NVIDIA-SMI has failed`, or
/// wrote a line of fewer than eight fields; else the first eight fields of each line.
pub open spec fn smi_gpus(success: bool, output: Seq<char>) -> Option<Seq<Seq<Seq<char>>>> {
    let rows = csv_rows(output);
    if !success || contains(output, "NVIDIA-SMI has failed"@) {
        None
    } else if exists|i: int| 0 <= i < rows.len() && #[trigger] rows[i].len() < 8 {
        None
    } else {
        Some(rows.map_values(|r: Seq<Seq<char>>| r.take(8)))
    }
}

fn field_at(row: &Vec<String>, k: usize) -> (r: String)
    requires
        k < row@.len(),
    ensures
        r@ == row@[k as int]@,
{
    let s = row[k].as_str();
    let n = s.unicode_len();
    assert(s@.subrange(0, n as int) =~= s@);
    slice_text(s, 0, n)
}

/// The adapters from an `nvidia-smi` run with exit status `success` and text `output`.
pub fn gpus_from_smi(success: bool, output: &str) -> (r: Option<Vec<GpuInfo>>)
    ensures
        match r {
            Some(v) => smi_gpus(success, output@) == Some(v@.map_values(|g| gpu_view(g))),
            None => smi_gpus(success, output@) is None,
        },
{
    if !success || contains_text(output, "NVIDIA-SMI has failed") {
        return None;
    }
    let rows = split_gpu_info(output);
    let ghost cr = csv_rows(output@);
    let mut gpus: Vec<GpuInfo> = Vec::new();
    let mut i: usize = 0;
    while i < rows.len()
        invariant
            cr == csv_rows(output@),
            rows@.len() == cr.len(),
            forall|q: int|
                0 <= q < rows@.len() ==> #[trigger] views(rows@[q]@)
                    == cr[q],
            i <= cr.len(),
            gpus@.len() == i,
            forall|q: int| 0 <= q < i ==> cr[q].len() >= 8,
            forall|q: int| 0 <= q < i ==> #[trigger] gpu_view(gpus@[q]) == cr[q].take(8),
        decreases cr.len() - i,
    {
        let row = &rows[i];
        assert(views(row@) == cr[i as int]);
        if row.len() < 8 {
            assert(cr[i as int].len() < 8);
            return None;
        }
        let g = GpuInfo {
            index: field_at(row, 0),
            name: field_at(row, 1),
            uuid: field_at(row, 2),
            gpu_bus_id: field_at(row, 3),
            memory_used: field_at(row, 4),
            memory_total: field_at(row, 5),
            temperature: field_at(row, 6),
            power_draw: field_at(row, 7),
        };
        assert(gpu_view(g) =~= cr[i as int].take(8));
        gpus.push(g);
        i = i + 1;
    }
    assert(!exists|q: int| 0 <= q < cr.len() && #[trigger] cr[q].len() < 8);
    assert(gpus@.map_values(|g| gpu_view(g)) =~= cr.map_values(
        |r: Seq<Seq<char>>| r.take(8),
    ));
    Some(gpus)
}

/// `s` with every occurrence of `p` taken out, left to right, as
/// `str::replace(p, "")` gives it.
pub open spec fn without(s: Seq<char>, p: Seq<char>) -> Seq<char>
    decreases s.len(),
{
    if s.len() == 0 {
        s
    } else if p.len() > 0 && starts_with(s, p) {
        without(s.skip(p.len() as int), p)
    } else {
        seq![s[0]] + without(s.drop_first(), p)
    }
}

/// `s` with every occurrence of the non-empty `p` taken out.
pub fn remove_all(s: &str, p: &str) -> (r: String)
    requires
        p@.len() > 0,
    ensures
        r@ == without(s@, p@),
{
    let v = char_list(s);
    let w = char_list(p);
    let n = v.len();
    let mut out = String::new();
    let mut start: usize = 0;
    let mut i: usize = 0;
    assert(s@.skip(0) =~= s@);
    assert(out@ + s@.subrange(0, 0) =~= Seq::<char>::empty());
    while i < n
        invariant
            v@ == s@,
            w@ == p@,
            p@.len() > 0,
            n == v@.len(),
            start <= i <= n,
            without(s@, p@) == out@ + s@.subrange(start as int, i as int) + without(
                s@.skip(i as int),
                p@,
            ),
        decreases n - i,
    {
        let mut j: usize = 0;
        while j < w.len() && i + j < n && v[i + j] == w[j]
            invariant
                v@ == s@,
                w@ == p@,
                n == v@.len(),
                i < n,
                j <= w@.len(),
                i + j <= n,
                forall|k: int| 0 <= k < j ==> v@[i + k] == w@[k],
            decreases w@.len() - j,
        {
            j = j + 1;
        }
        let ghost rest = s@.skip(i as int);
        if j == w.len() {
            assert(rest.take(p@.len() as int) =~= p@);
            assert(rest.skip(p@.len() as int) =~= s@.skip(i + j));
            let piece = slice_text(s, start, i);
            out.append(piece.as_str());
            i = i + j;
            start = i;
            assert(s@.subrange(start as int, i as int) =~= Seq::<char>::empty());
            assert(without(s@, p@) =~= out@ + s@.subrange(start as int, i as int) + without(
                s@.skip(i as int),
                p@,
            ));
        } else {
            assert(!starts_with(rest, p@)) by {
                if starts_with(rest, p@) {
                    if i + j < n {
                        assert(rest.take(p@.len() as int)[j as int] == p@[j as int]);
                    }
                }
            }
            assert(rest.drop_first() =~= s@.skip(i + 1));
            assert(s@.subrange(start as int, i as int) + seq![rest[0]] =~= s@.subrange(
                start as int,
                i + 1,
            ));
            i = i + 1;
        }
    }
    assert(s@.skip(n as int) =~= Seq::<char>::empty());
    let piece = slice_text(s, start, n);
    out.append(piece.as_str());
    assert(without(s@, p@) =~= out@);
    out
}

/// Group `k` of `g`, or empty where it took no part.
pub open spec fn group(g: Seq<Option<Seq<char>>>, k: int) -> Seq<char> {
    if 0 <= k < g.len() {
        match g[k] {
            Some(x) => x,
            None => Seq::empty(),
        }
    } else {
        Seq::empty()
    }
}

/// The adapter that the `index`th matching `lspci` line describes: named by
/// its bracketed model if that is non-empty, else by its device text; its bus
/// id with `.0` taken out and `0000:` put before it.
pub open spec fn lspci_row(index: nat, g: Seq<Option<Seq<char>>>) -> Seq<Seq<char>> {
    seq![
        decimal_text(index),
        if group(g, 5).len() > 0 {
            group(g, 5)
        } else {
            group(g, 3)
        },
        Seq::empty(),
        "0000:"@ + without(group(g, 1), ".0"@),
        Seq::empty(),
        Seq::empty(),
        Seq::empty(),
        Seq::empty(),
    ]
}

/// The adapters of the lines that match `LSPCI_GPU`, numbered from 0.
pub open spec fn lspci_rows(lines: Seq<Seq<char>>) -> Seq<Seq<Seq<char>>>
    decreases lines.len(),
{
    if lines.len() == 0 {
        Seq::empty()
    } else {
        let init = lspci_rows(lines.drop_last());
        match regex_groups(LSPCI_GPU@, lines.last()) {
            Some(g) => init.push(lspci_row(init.len(), g)),
            None => init,
        }
    }
}

fn group_text(g: &Vec<Option<String>>, k: usize) -> (r: String)
    ensures
        r@ == group(g@.map_values(|o| opt_view(o)), k as int),
{
    if k < g.len() {
        match &g[k] {
            Some(x) => {
                let s = x.as_str();
                let n = s.unicode_len();
                assert(s@.subrange(0, n as int) =~= s@);
                slice_text(s, 0, n)
            },
            None => String::new(),
        }
    } else {
        String::new()
    }
}

/// The adapter numbered `index` that the groups `g` of an `LSPCI_GPU` match describe.
pub fn gpu_from_groups(index: u64, g: &Vec<Option<String>>) -> (r: GpuInfo)
    ensures
        gpu_view(r) == lspci_row(index as nat, g@.map_values(|o| opt_view(o))),
{
    let ghost gv = g@.map_values(|o| opt_view(o));
    proof {
        reveal_strlit("0000:");
        reveal_strlit(".0");
    }
    let model = group_text(g, 5);
    let name = if model.as_str().unicode_len() > 0 {
        model
    } else {
        group_text(g, 3)
    };
    let bus = group_text(g, 1);
    let mut bus_id = "0000:".to_string();
    let bare = remove_all(bus.as_str(), ".0");
    bus_id.append(bare.as_str());
    let gpu = GpuInfo {
        index: decimal_string(index),
        name,
        uuid: String::new(),
        gpu_bus_id: bus_id,
        memory_used: String::new(),
        memory_total: String::new(),
        temperature: String::new(),
        power_draw: String::new(),
    };
    assert(gpu_view(gpu) =~= lspci_row(index as nat, gv));
    gpu
}

/// The NVIDIA adapters in `lspci` output, read with `LSPCI_GPU`.
pub fn gpus_from_lspci(output: &str) -> (r: Vec<GpuInfo>)
    ensures
        r@.map_values(|g| gpu_view(g)) == lspci_rows(lines_of(output@)),
{
    let lines = lines_text(output);
    let ghost ls = lines_of(output@);
    let mut gpus: Vec<GpuInfo> = Vec::new();
    let mut i: usize = 0;
    assert(ls.take(0) =~= Seq::<Seq<char>>::empty());
    while i < lines.len()
        invariant
            ls == lines@.map_values(|x: String| x@),
            i <= ls.len(),
            gpus@.len() <= i,
            gpus@.map_values(|g| gpu_view(g)) == lspci_rows(ls.take(i as int)),
        decreases ls.len() - i,
    {
        assert(ls.take(i + 1).drop_last() =~= ls.take(i as int));
        assert(lines@[i as int]@ == ls[i as int]);
        match capture_groups(LSPCI_GPU, lines[i].as_str()) {
            Some(g) => {
                let ghost before = gpus@.map_values(|g| gpu_view(g));
                let gpu = gpu_from_groups(gpus.len() as u64, &g);
                gpus.push(gpu);
                assert(gpus@.map_values(|g| gpu_view(g)) =~= before.push(gpu_view(gpu)));
            },
            None => {},
        }
        i = i + 1;
    }
    assert(ls.take(ls.len() as int) =~= ls);
    gpus
}

/// The adapters of an NVIDIA machine: those `nvidia-smi` gave where it
/// worked, else those of the `lspci` fallback output.
pub fn select_gpus(smi: Option<Vec<GpuInfo>>, lspci_output: &str) -> (r: Vec<GpuInfo>)
    ensures
        match smi {
            Some(v) => r == v,
            None => r@.map_values(|g| gpu_view(g)) == lspci_rows(lines_of(lspci_output@)),
        },
{
    match smi {
        Some(v) => v,
        None => gpus_from_lspci(lspci_output),
    }
}

/// Whether a trimmed line of a display device listing names NVIDIA.
pub open spec fn lists_nvidia(listing: Seq<char>) -> bool {
    exists|i: int|
        0 <= i < lines_of(listing).len() && contains(
            #[trigger] trimmed(lines_of(listing)[i]),
            "NVIDIA"@,
        )
}

/// Whether the device listing (`lspci`, or `wmic path win32_videocontroller get
/// name`) shows an NVIDIA adapter; only those are read further.
pub fn has_nvidia_device(listing: &str) -> (r: bool)
    ensures
        r == lists_nvidia(listing@),
{
    let lines = lines_text(listing);
    let ghost ls = lines_of(listing@);
    let mut i: usize = 0;
    while i < lines.len()
        invariant
            ls == lines@.map_values(|x: String| x@),
            ls == lines_of(listing@),
            i <= ls.len(),
            forall|q: int| 0 <= q < i ==> !contains(#[trigger] trimmed(ls[q]), "NVIDIA"@),
        decreases ls.len() - i,
    {
        assert(lines@[i as int]@ == ls[i as int]);
        let t = trim_text(lines[i].as_str());
        if contains_text(t.as_str(), "NVIDIA") {
            return true;
        }
        i = i + 1;
    }
    false
}

} // verus!
