//! Fact families, their cache entries and fallback chains.
//!
//! Resolving a family is a state machine driven by the caller: `begin` looks
//! at the cache entry, and either finishes with the cached document or asks
//! for probe 0; `after_probe` takes a probe's report and either finishes or
//! asks for the next probe. The caller runs the probes and writes the cache.
use vstd::prelude::*;

use crate::json::{is_json, json_valid};
use crate::text::slice_text;

verus! {

/// A kind of information, with its own cache file, staleness window and
/// chain of probes.
#[derive(Clone, Copy, PartialEq, Eq, Structural)]
pub enum FactFamily {
    Hardware,
    Network,
    IpGeo,
    ModelFiles,
    DatasetFiles,
}

/// How long a cached hardware, network or address document stays fresh, in seconds.
pub const LIVE_TTL_SECS: u64 = 1800;

/// How long a cached file inventory stays fresh, in seconds.
pub const INVENTORY_TTL_SECS: u64 = 600;

/// The address providers, in the order they are asked.
pub const CHAXUN_SITE: &'static str = "ipchaxun.com";

pub const PCONLINE_SITE: &'static str = "pconline.com.cn";

pub const CSDN_SITE: &'static str = "csdn.net";

/// A cached document and when it was written, in seconds since the epoch.
pub struct CacheEntry {
    pub payload: String,
    pub written_at: u64,
}

/// What a probe gave: whether it ran, and its raw output.
pub struct ProbeReport {
    pub ok: bool,
    pub raw: String,
}

/// What the caller is to do next.
pub enum Step {
    /// Run the probe of this index and hand its report to `after_probe`.
    Probe(usize),
    /// The family resolves to `payload`; write it to the cache where `store` holds.
    Done { payload: String, store: bool },
}

pub type EntryView = (Seq<char>, u64);

pub type ReportView = (bool, Seq<char>);

pub open spec fn entry_view(e: CacheEntry) -> EntryView {
    (e.payload@, e.written_at)
}

pub open spec fn report_view(r: ProbeReport) -> ReportView {
    (r.ok, r.raw@)
}

impl FactFamily {
    pub open spec fn ttl_spec(self) -> u64 {
        match self {
            FactFamily::ModelFiles | FactFamily::DatasetFiles => INVENTORY_TTL_SECS,
            _ => LIVE_TTL_SECS,
        }
    }

    /// The staleness window of the family's cache, in seconds.
    pub fn ttl(&self) -> (r: u64)
        ensures
            r == self.ttl_spec(),
    {
        match self {
            FactFamily::ModelFiles | FactFamily::DatasetFiles => INVENTORY_TTL_SECS,
            _ => LIVE_TTL_SECS,
        }
    }

    pub open spec fn probe_count_spec(self) -> nat {
        match self {
            FactFamily::IpGeo => 3,
            _ => 1,
        }
    }

    /// How many probes the family's chain has.
    pub fn probe_count(&self) -> (r: usize)
        ensures
            r == self.probe_count_spec(),
    {
        match self {
            FactFamily::IpGeo => 3,
            _ => 1,
        }
    }

    pub open spec fn default_spec(self) -> Seq<char> {
        match self {
            FactFamily::Hardware | FactFamily::IpGeo => seq!['{', '}'],
            _ => seq!['[', ']'],
        }
    }

    /// The document the family resolves to when every probe fails: an empty
    /// object, or an empty list for the families stored as lists.
    pub fn default_payload(&self) -> (r: String)
        ensures
            r@ == self.default_spec(),
    {
        let text = match self {
            FactFamily::Hardware | FactFamily::IpGeo => "{}",
            _ => "[]",
        };
        proof {
            reveal_strlit("{}");
            reveal_strlit("[]");
        }
        slice_text(text, 0, 2)
    }

    pub open spec fn cache_file_spec(self) -> Seq<char> {
        match self {
            FactFamily::Hardware => "hardware.json"@,
            FactFamily::Network => "net.json"@,
            FactFamily::IpGeo => "ip.json"@,
            FactFamily::ModelFiles => "model.json"@,
            FactFamily::DatasetFiles => "dataset.json"@,
        }
    }

    /// The name of the family's cache file in the cache directory.
    pub fn cache_file(&self) -> (r: &'static str)
        ensures
            r@ == self.cache_file_spec(),
    {
        match self {
            FactFamily::Hardware => "hardware.json",
            FactFamily::Network => "net.json",
            FactFamily::IpGeo => "ip.json",
            FactFamily::ModelFiles => "model.json",
            FactFamily::DatasetFiles => "dataset.json",
        }
    }

    /// The document that probe `i` stands for when it reported `raw`: an
    /// address provider's answer framed with the provider's name, any other
    /// probe's output as it is.
    pub open spec fn payload_spec(self, i: int, raw: Seq<char>) -> Seq<char> {
        match self {
            FactFamily::IpGeo => geo_payload(site_spec(i), raw),
            _ => raw,
        }
    }

    pub fn payload_of(&self, i: usize, raw: &str) -> (r: String)
        requires
            i < self.probe_count_spec(),
        ensures
            r@ == self.payload_spec(i as int, raw@),
    {
        match self {
            FactFamily::IpGeo => geo_payload_text(site(i), raw),
            _ => {
                let n = raw.unicode_len();
                assert(raw@.subrange(0, n as int) =~= raw@);
                slice_text(raw, 0, n)
            },
        }
    }

    /// Whether probe `i`'s report is taken: it ran, its own output is JSON,
    /// and so is the document it stands for.
    pub open spec fn accepts(self, i: int, report: ReportView) -> bool {
        report.0 && json_valid(report.1) && json_valid(self.payload_spec(i, report.1))
    }

    /// Whether a cached document can be served: the family's default, or JSON.
    pub open spec fn usable(self, p: Seq<char>) -> bool {
        p == self.default_spec() || json_valid(p)
    }

    /// The cached document, where the entry is fresh at `now` and usable.
    pub open spec fn cache_hit(self, entry: Option<EntryView>, now: u64) -> Option<Seq<char>> {
        match entry {
            Some((p, t)) => if t <= now && now - t < self.ttl_spec() && self.usable(p) {
                Some(p)
            } else {
                None
            },
            None => None,
        }
    }

    /// The first step of a resolution: serve a fresh, usable cache entry, or
    /// start the chain at probe 0.
    pub fn begin(&self, entry: Option<&CacheEntry>, now: u64) -> (r: Step)
        ensures
            match r {
                Step::Probe(i) => i == 0 && self.cache_hit(
                    match entry {
                        Some(e) => Some(entry_view(*e)),
                        None => None,
                    },
                    now,
                ) is None,
                Step::Done { payload, store } => !store && self.cache_hit(
                    match entry {
                        Some(e) => Some(entry_view(*e)),
                        None => None,
                    },
                    now,
                ) == Some(payload@),
            },
    {
        match entry {
            Some(e) => {
                let fresh = e.written_at <= now && now - e.written_at < self.ttl();
                if fresh {
                    let p = e.payload.as_str();
                    let d = self.default_payload();
                    if e.payload.eq(&d) || is_json(p) {
                        let n = p.unicode_len();
                        assert(p@.subrange(0, n as int) =~= p@);
                        return Step::Done { payload: slice_text(p, 0, n), store: false };
                    }
                }
                Step::Probe(0)
            },
            None => Step::Probe(0),
        }
    }

    /// The step after probe `i` reported: finish with what it stands for if it
    /// is taken, else ask for the next probe, else finish with the default.
    /// Whatever the chain resolves to is written back to the cache.
    pub fn after_probe(&self, i: usize, report: &ProbeReport) -> (r: Step)
        requires
            i < self.probe_count_spec(),
        ensures
            match r {
                Step::Probe(j) => !self.accepts(i as int, report_view(*report)) && j == i + 1 && j
                    < self.probe_count_spec(),
                Step::Done { payload, store } => store && if self.accepts(
                    i as int,
                    report_view(*report),
                ) {
                    payload@ == self.payload_spec(i as int, report.raw@)
                } else {
                    i + 1 == self.probe_count_spec() && payload@ == self.default_spec()
                },
            },
    {
        if report.ok && is_json(report.raw.as_str()) {
            let p = self.payload_of(i, report.raw.as_str());
            if is_json(p.as_str()) {
                return Step::Done { payload: p, store: true };
            }
        }
        if i + 1 < self.probe_count() {
            Step::Probe(i + 1)
        } else {
            Step::Done { payload: self.default_payload(), store: true }
        }
    }

    /// Where the chain ends when probe `i` is next and probe `k` would report
    /// `reports[k]`: the document, and how many probes were run in all.
    pub open spec fn run_from(self, reports: Seq<ReportView>, i: nat) -> (Seq<char>, nat)
        decreases self.probe_count_spec() - i,
    {
        if i >= self.probe_count_spec() {
            (self.default_spec(), self.probe_count_spec())
        } else if self.accepts(i as int, report_at(reports, i as int)) {
            (self.payload_spec(i as int, report_at(reports, i as int).1), i + 1)
        } else {
            self.run_from(reports, i + 1)
        }
    }

    /// What resolving the family gives: the cached document and no probe run
    /// where the cache serves, else where the chain ends.
    pub open spec fn resolution(self, entry: Option<EntryView>, now: u64, reports: Seq<ReportView>) -> (
        Seq<char>,
        nat,
    ) {
        match self.cache_hit(entry, now) {
            Some(p) => (p, 0),
            None => self.run_from(reports, 0),
        }
    }

    /// Resolves the family against reports gathered beforehand, probe `k`
    /// reporting `reports[k]` (a missing report counts as a failed run).
    /// Returns the document and how many probes the chain ran.
    pub fn resolve(&self, entry: Option<&CacheEntry>, now: u64, reports: &Vec<ProbeReport>) -> (r: (
        String,
        usize,
    ))
        ensures
            (r.0@, r.1 as nat) == self.resolution(
                match entry {
                    Some(e) => Some(entry_view(*e)),
                    None => None,
                },
                now,
                reports@.map_values(|x: ProbeReport| report_view(x)),
            ),
    {
        let ghost ev = match entry {
            Some(e) => Some(entry_view(*e)),
            None => None,
        };
        let ghost rv = reports@.map_values(|x: ProbeReport| report_view(x));
        let mut step = self.begin(entry, now);
        let mut ran: usize = 0;
        let missing = ProbeReport { ok: false, raw: String::new() };
        loop
            invariant
                rv == reports@.map_values(|x: ProbeReport| report_view(x)),
                ev == match entry {
                    Some(e) => Some(entry_view(*e)),
                    None => None,
                },
                !missing.ok,
                missing.raw@ == Seq::<char>::empty(),
                match step {
                    Step::Probe(i) => {
                        &&& i == ran
                        &&& i < self.probe_count_spec()
                        &&& self.cache_hit(ev, now) is None
                        &&& self.run_from(rv, i as nat) == self.run_from(rv, 0)
                    },
                    Step::Done { payload, store } => (payload@, ran as nat) == self.resolution(
                        ev,
                        now,
                        rv,
                    ),
                },
            decreases self.probe_count_spec() - ran + match step {
                Step::Probe(_) => 1int,
                Step::Done { .. } => 0int,
            },
        {
            match step {
                Step::Probe(i) => {
                    if i < reports.len() {
                        assert(rv[i as int] == report_view(reports@[i as int]));
                    }
                    let report = if i < reports.len() {
                        &reports[i]
                    } else {
                        &missing
                    };
                    assert(report_view(*report) == report_at(rv, i as int));
                    step = self.after_probe(i, report);
                    ran = i + 1;
                    assert(self.resolution(ev, now, rv) == self.run_from(rv, 0));
                    proof {
                        if !self.accepts(i as int, report_at(rv, i as int)) {
                            assert(self.run_from(rv, i as nat) == self.run_from(
                                rv,
                                (i + 1) as nat,
                            ));
                        }
                    }
                },
                Step::Done { payload, store } => {
                    return (payload, ran);
                },
            }
        }
    }
}

/// Report `i`, or a failed run where there is none.
pub open spec fn report_at(reports: Seq<ReportView>, i: int) -> ReportView {
    if 0 <= i < reports.len() {
        reports[i]
    } else {
        (false, Seq::empty())
    }
}

pub open spec fn site_spec(i: int) -> Seq<char> {
    if i == 0 {
        CHAXUN_SITE@
    } else if i == 1 {
        PCONLINE_SITE@
    } else {
        CSDN_SITE@
    }
}

/// The provider asked by address probe `i`.
pub fn site(i: usize) -> (r: &'static str)
    ensures
        r@ == site_spec(i as int),
{
    if i == 0 {
        CHAXUN_SITE
    } else if i == 1 {
        PCONLINE_SITE
    } else {
        CSDN_SITE
    }
}

/// A provider's answer `body` framed with the provider's name: an object of
/// the two members `ipsite` and `data`, `data` being the answer itself.
pub open spec fn geo_payload(site: Seq<char>, body: Seq<char>) -> Seq<char> {
    "{\"ipsite\":\""@ + site + "\",\"data\":"@ + body + "}"@
}

pub fn geo_payload_text(site: &str, body: &str) -> (r: String)
    ensures
        r@ == geo_payload(site@, body@),
{
    let mut out = "{\"ipsite\":\"".to_string();
    out.append(site);
    out.append("\",\"data\":");
    out.append(body);
    out.append("}");
    out
}

proof fn lemma_run_result(f: FactFamily, reports: Seq<ReportView>, i: nat)
    ensures
        f.usable(f.run_from(reports, i).0),
        i < f.probe_count_spec() ==> i < f.run_from(reports, i).1 <= f.probe_count_spec(),
    decreases f.probe_count_spec() - i,
{
    if i < f.probe_count_spec() && !f.accepts(i as int, report_at(reports, i as int)) {
        lemma_run_result(f, reports, i + 1);
    }
}

/// Resolving twice within the staleness window gives the same document, and
/// the second time no probe runs: whatever the first resolution gave, written
/// at `t0`, is served from the cache at any `now` before `t0 + ttl`.
pub proof fn lemma_resolve_twice_within_ttl(
    f: FactFamily,
    entry: Option<EntryView>,
    t0: u64,
    reports: Seq<ReportView>,
    now: u64,
    later_reports: Seq<ReportView>,
)
    requires
        t0 <= now,
        now - t0 < f.ttl_spec(),
    ensures
        ({
            let first = f.resolution(entry, t0, reports).0;
            f.resolution(Some((first, t0)), now, later_reports) == (first, 0nat)
        }),
{
    lemma_run_result(f, reports, 0);
}

/// Where every probe fails (does not run, or gives what is not JSON),
/// resolution gives the family's default document, after running the whole chain.
pub proof fn lemma_all_probes_fail(f: FactFamily, reports: Seq<ReportView>, i: nat)
    requires
        i <= f.probe_count_spec(),
        forall|k: int| 0 <= k < f.probe_count_spec() ==> !f.accepts(k, #[trigger] report_at(reports, k)),
    ensures
        f.run_from(reports, i) == (f.default_spec(), f.probe_count_spec()),
    decreases f.probe_count_spec() - i,
{
    if i < f.probe_count_spec() {
        lemma_all_probes_fail(f, reports, i + 1);
    }
}

/// The chain is taken in order: where probe 0 is not taken and probe 1 is,
/// the result is probe 1's document, and no probe after it runs.
pub proof fn lemma_fallback_order(f: FactFamily, reports: Seq<ReportView>)
    requires
        f.probe_count_spec() >= 2,
        !f.accepts(0, report_at(reports, 0)),
        f.accepts(1, report_at(reports, 1)),
    ensures
        f.run_from(reports, 0) == (f.payload_spec(1, report_at(reports, 1).1), 2nat),
{
    assert(f.run_from(reports, 1) == (f.payload_spec(1, report_at(reports, 1).1), 2nat));
}

/// A cache entry that is not JSON (and not the default) is treated as
/// absent: the chain runs, and what it ends with is usable and is written back.
pub proof fn lemma_corrupt_cache_regenerated(
    f: FactFamily,
    payload: Seq<char>,
    t: u64,
    now: u64,
    reports: Seq<ReportView>,
)
    requires
        !json_valid(payload),
        payload != f.default_spec(),
    ensures
        f.cache_hit(Some((payload, t)), now) is None,
        f.resolution(Some((payload, t)), now, reports) == f.run_from(reports, 0),
        f.usable(f.run_from(reports, 0).0),
        f.run_from(reports, 0).1 >= 1,
{
    lemma_run_result(f, reports, 0);
}

/// A probe whose own output is not JSON is never taken, whatever document
/// it would stand for.
pub proof fn lemma_malformed_output_skipped(f: FactFamily, i: int, report: ReportView)
    requires
        !json_valid(report.1),
    ensures
        !f.accepts(i, report),
{
}

/// Addresses are asked of `ipchaxun.com`, then `pconline.com.cn`, then
/// `csdn.net`: where the first does not answer, or answers with what is not
/// JSON, and the second answers with JSON, the document names
/// `pconline.com.cn` and carries that answer, and the third is never asked.
/// (The framed document must parse too: `serde_json` limits nesting depth,
/// so an answer nested to that limit parses alone but not framed.)
pub proof fn lemma_geo_second_provider(reports: Seq<ReportView>)
    requires
        reports.len() >= 2,
        !reports[0].0 || !json_valid(reports[0].1),
        reports[1].0,
        json_valid(reports[1].1),
        json_valid(geo_payload(PCONLINE_SITE@, reports[1].1)),
    ensures
        FactFamily::IpGeo.run_from(reports, 0) == (geo_payload(PCONLINE_SITE@, reports[1].1), 2nat),
{
    let f = FactFamily::IpGeo;
    assert(report_at(reports, 0) == reports[0]);
    assert(report_at(reports, 1) == reports[1]);
    assert(f.payload_spec(1, reports[1].1) == geo_payload(PCONLINE_SITE@, reports[1].1));
    assert(f.accepts(1, reports[1]));
    assert(!f.accepts(0, reports[0]));
    lemma_fallback_order(f, reports);
}

} // verus!
