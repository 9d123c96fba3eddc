//! The snapshot document: every family's document under its key, the
//! container runtime's state, and the technology marker.
use vstd::prelude::*;

use crate::json::{is_json, json_bool, json_bool_value, json_member, json_member_text, json_quoted, json_str, json_string_value, json_valid, quote};
use crate::text::{decimal_string, decimal_text, slice_text, trim_text, trimmed};

verus! {

/// What the snapshot is made of: the resolved family documents, the cache
/// times of the two inventories, the container runtime's answers (to
/// `image_list_full`, `container_ps`, `is_installed`, `is_started` and
/// `is_autorun`), and the technology marker file's text, if it could be read.
pub struct SnapshotParts {
    pub hardware: String,
    pub network: String,
    pub images: String,
    pub containers: String,
    pub model: String,
    pub model_timestamp: u64,
    pub dataset: String,
    pub dataset_timestamp: u64,
    pub ip: String,
    pub installed_status: String,
    pub started_status: String,
    pub autorun_status: String,
    pub tech_type: Option<String>,
}

/// A runtime answer as it stands in the snapshot: itself where it is JSON,
/// else an empty object.
pub open spec fn runtime_doc(raw: Seq<char>) -> Seq<char> {
    if json_valid(raw) {
        raw
    } else {
        seq!['{', '}']
    }
}

pub fn runtime_doc_text(raw: &str) -> (r: String)
    ensures
        r@ == runtime_doc(raw@),
{
    if is_json(raw) {
        let n = raw.unicode_len();
        assert(raw@.subrange(0, n as int) =~= raw@);
        slice_text(raw, 0, n)
    } else {
        proof {
            reveal_strlit("{}");
        }
        slice_text("{}", 0, 2)
    }
}

/// The boolean member `key` of the runtime answer `doc`, or `false`.
pub open spec fn status_flag(doc: Seq<char>, key: Seq<char>) -> bool {
    match json_member_text(doc, key) {
        Some(m) => match json_bool_value(m) {
            Some(b) => b,
            None => false,
        },
        None => false,
    }
}

/// Whether the runtime reported itself installed (`is_installed: true`).
pub fn installed_flag(doc: &str) -> (r: bool)
    ensures
        r == status_flag(doc@, "is_installed"@),
{
    match json_member(doc, "is_installed") {
        Some(m) => match json_bool(m.as_str()) {
            Some(b) => b,
            None => false,
        },
        None => false,
    }
}

/// The string member `key` of the runtime answer `doc`, or `0`.
pub open spec fn status_code(doc: Seq<char>, key: Seq<char>) -> Seq<char> {
    match json_member_text(doc, key) {
        Some(m) => match json_string_value(m) {
            Some(t) => t,
            None => seq!['0'],
        },
        None => seq!['0'],
    }
}

pub fn status_code_text(doc: &str, key: &str) -> (r: String)
    ensures
        r@ == status_code(doc@, key@),
{
    proof {
        reveal_strlit("0");
    }
    match json_member(doc, key) {
        Some(m) => match json_str(m.as_str()) {
            Some(t) => t,
            None => slice_text("0", 0, 1),
        },
        None => slice_text("0", 0, 1),
    }
}

/// The technology marker: the file's trimmed text, or `docker` where there is none.
pub open spec fn tech_type_of(marker: Option<Seq<char>>) -> Seq<char> {
    match marker {
        Some(t) => trimmed(t),
        None => "docker"@,
    }
}

pub fn tech_type_text(marker: &Option<String>) -> (r: String)
    ensures
        r@ == tech_type_of(
            match marker {
                Some(t) => Some(t@),
                None => None,
            },
        ),
{
    match marker {
        Some(t) => trim_text(t.as_str()),
        None => {
            proof {
                reveal_strlit("docker");
            }
            slice_text("docker", 0, 6)
        },
    }
}

pub open spec fn bool_text(b: bool) -> Seq<char> {
    if b {
        "true"@
    } else {
        "false"@
    }
}

/// The snapshot document of `p`: one JSON object whose members are, in order,
/// `hardware`, `network`, `images`, `containers`, `model`, `model_timestamp`,
/// `dataset`, `dataset_timestamp`, `ip`, `docker_installed`, `host_service_up`,
/// `host_service_up_default` and `tech_type`.
pub open spec fn snapshot_json(p: SnapshotParts) -> Seq<char> {
    "{\"hardware\":"@ + p.hardware@ + ",\"network\":"@ + p.network@ + ",\"images\":"@
        + runtime_doc(p.images@) + ",\"containers\":"@ + runtime_doc(p.containers@)
        + ",\"model\":"@ + p.model@ + ",\"model_timestamp\":"@ + decimal_text(
        p.model_timestamp as nat,
    ) + ",\"dataset\":"@ + p.dataset@ + ",\"dataset_timestamp\":"@ + decimal_text(
        p.dataset_timestamp as nat,
    ) + ",\"ip\":"@ + p.ip@ + ",\"docker_installed\":"@ + bool_text(
        status_flag(p.installed_status@, "is_installed"@),
    ) + ",\"host_service_up\":"@ + json_quoted(status_code(p.started_status@, "is_start"@))
        + ",\"host_service_up_default\":"@ + json_quoted(
        status_code(p.autorun_status@, "data"@),
    ) + ",\"tech_type\":"@ + json_quoted(
        tech_type_of(
            match p.tech_type {
                Some(t) => Some(t@),
                None => None,
            },
        ),
    ) + "}"@
}

/// Writes the snapshot document.
pub fn assemble(p: &SnapshotParts) -> (r: String)
    ensures
        r@ == snapshot_json(*p),
{
    let mut out = "{\"hardware\":".to_string();
    out.append(p.hardware.as_str());
    out.append(",\"network\":");
    out.append(p.network.as_str());
    out.append(",\"images\":");
    out.append(runtime_doc_text(p.images.as_str()).as_str());
    out.append(",\"containers\":");
    out.append(runtime_doc_text(p.containers.as_str()).as_str());
    out.append(",\"model\":");
    out.append(p.model.as_str());
    out.append(",\"model_timestamp\":");
    out.append(decimal_string(p.model_timestamp).as_str());
    out.append(",\"dataset\":");
    out.append(p.dataset.as_str());
    out.append(",\"dataset_timestamp\":");
    out.append(decimal_string(p.dataset_timestamp).as_str());
    out.append(",\"ip\":");
    out.append(p.ip.as_str());
    out.append(",\"docker_installed\":");
    if installed_flag(p.installed_status.as_str()) {
        out.append("true");
    } else {
        out.append("false");
    }
    out.append(",\"host_service_up\":");
    out.append(quote(status_code_text(p.started_status.as_str(), "is_start").as_str()).as_str());
    out.append(",\"host_service_up_default\":");
    out.append(quote(status_code_text(p.autorun_status.as_str(), "data").as_str()).as_str());
    out.append(",\"tech_type\":");
    out.append(quote(tech_type_text(&p.tech_type).as_str()).as_str());
    out.append("}");
    out
}

} // verus!
