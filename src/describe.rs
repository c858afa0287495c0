//! The describe evaluator: a vertical report of one resource, from a list of
//! field descriptors.

use vstd::prelude::*;
use crate::age::{rfc3339_seconds, timestamp_seconds};
use crate::keyval::{keyval_dump, keyval_str};
use crate::text::{decimal, decimal_text};
use crate::transforms::{
    access_url_text, array_lines, container_lines, get_container_str, get_message_str,
    get_volume_str, message_line, node_access_url, phase_text, pod_phase, val_str, val_text,
    volume_lines,
};
use crate::value::{resolve, text_at, uint_at, Value};

verus! {

/// The UTC rendering of the instant an RFC 3339 timestamp names.
pub uninterp spec fn utc_text_of(s: Seq<char>) -> Seq<char>;

/// Relies on chrono's `FromStr` for `DateTime<Utc>` and its `Display`: the
/// instant in UTC (such as `2024-01-01 00:00:00 UTC`), where it parses as
/// `rfc3339_seconds` does.
#[verifier::external_body]
fn utc_text(s: &str) -> (r: Option<String>)
    ensures
        r is Some <==> rfc3339_seconds(s@) is Some,
        r matches Some(t) ==> t@ == utc_text_of(s@),
{
    match s.parse::<chrono::DateTime<chrono::Utc>>() {
        Ok(d) => Some(d.to_string()),
        Err(_) => None,
    }
}

/// Relies on chrono's `FromStr` for `DateTime<Utc>`,
/// `DateTime::with_timezone(&Local)` and its `Display`: the instant in the
/// machine's time zone, where it parses as `rfc3339_seconds` does. The text
/// depends on that time zone, so nothing more is known of it.
#[verifier::external_body]
fn local_text(s: &str) -> (r: Option<String>)
    ensures
        r is Some <==> rfc3339_seconds(s@) is Some,
{
    match s.parse::<chrono::DateTime<chrono::Utc>>() {
        Ok(d) => Some(d.with_timezone(&chrono::Local).to_string()),
        Err(_) => None,
    }
}

/// The creation-time line for timestamp `s`, given its local rendering:
/// the UTC rendering, then the local one in parentheses.
pub open spec fn created_text_with(s: Seq<char>, local: Seq<char>) -> Seq<char> {
    utc_text_of(s) + " ("@ + local + ")"@
}

/// What is known of the creation-time line `t` of `v`: for a timestamp that
/// is present, it is its UTC rendering followed by some local rendering in
/// parentheses.
pub open spec fn created_line(v: Value, t: Seq<char>) -> bool {
    match created_member(v) {
        Some(Value::Text(s)) => exists|local: Seq<char>| #[trigger] created_text_with(s@, local) == t,
        _ => true,
    }
}

/// An owned copy of a text.
fn owned(s: &str) -> (r: String)
    ensures
        r@ == s@,
{
    String::from_str(s)
}

/// A computation of report text from a sub-tree.
pub enum Transform {
    /// The pod phase, coloured.
    PodPhase,
    /// The volumes of a pod.
    Volumes,
    /// The external URL of a node.
    NodeAccessUrl,
    /// The containers of a pod template.
    Containers,
    /// The condition messages of a deployment.
    Messages,
}

pub open spec fn transform_text(f: Transform, v: Value) -> Seq<char> {
    match f {
        Transform::PodPhase => phase_text(v),
        Transform::Volumes => array_lines(v, |c: Value| volume_lines(c)),
        Transform::NodeAccessUrl => access_url_text(v),
        Transform::Containers => array_lines(v, |c: Value| container_lines(c)),
        Transform::Messages => array_lines(v, |c: Value| message_line(c)),
    }
}

/// Applies a transform (see `transform_text`).
pub fn apply_transform(f: &Transform, v: &Value) -> (r: String)
    ensures
        r@ == transform_text(*f, *v),
{
    match f {
        Transform::PodPhase => pod_phase(v),
        Transform::Volumes => get_volume_str(v),
        Transform::NodeAccessUrl => node_access_url(v),
        Transform::Containers => get_container_str(v),
        Transform::Messages => get_message_str(v),
    }
}

/// How one line of a report is computed.
#[allow(inconsistent_fields)]
pub enum DescItem {
    /// The string at a path, or a default.
    ValStr { path: String, default: String },
    /// The unsigned integer at a path, or a default.
    Valu64 { path: String, default: u64 },
    /// The key/value map at a path, one line per entry; secret-bearing maps
    /// are redacted.
    KeyValStr { parent: String, secret_vals: bool },
    /// The string at a path under the metadata, or a default.
    MetadataValStr { path: String, default: String },
    /// The creation time, in UTC and in local time.
    ObjectCreated,
    /// A transform of the sub-tree at a path (the whole tree without one),
    /// or a default where the path names nothing.
    CustomFunc { path: Option<String>, func: Transform, default: String },
}

/// What a report shows for the creation time where it has none.
pub open spec fn no_creation_time() -> Seq<char> {
    "<No CreationTime>"@
}

/// The metadata sub-tree of a resource.
pub open spec fn metadata_of(v: Value) -> Option<Value> {
    resolve(v, "/metadata"@)
}

/// The creation timestamp of a resource, where it has a member for one.
pub open spec fn created_member(v: Value) -> Option<Value> {
    match metadata_of(v) {
        Some(m) => resolve(m, "/creationTimestamp"@),
        None => None,
    }
}

/// A creation timestamp that is present but is no valid RFC 3339 string.
pub open spec fn created_malformed(v: Value) -> bool {
    match created_member(v) {
        Some(Value::Text(s)) => rfc3339_seconds(s@) is None,
        Some(_) => true,
        None => false,
    }
}

/// The string at `path` under the metadata of `v`, or `default`.
pub open spec fn meta_text(v: Value, path: Seq<char>, default: Seq<char>) -> Seq<char> {
    match metadata_of(v) {
        Some(m) => val_text(m, path, default),
        None => default,
    }
}

/// `f` of what `path` names in `v`, or `default` where it names nothing.
pub open spec fn at_path(v: Value, path: Seq<char>, f: spec_fn(Value) -> Seq<char>, default: Seq<char>) -> Seq<char> {
    match resolve(v, path) {
        Some(sub) => f(sub),
        None => default,
    }
}

/// The text of a report line, for every descriptor but a creation time that
/// is present (whose rendering depends on the local time zone).
pub open spec fn item_text(v: Value, item: DescItem, skip: Seq<String>) -> Seq<char> {
    match item {
        DescItem::ValStr { path, default } => val_text(v, path@, default@),
        DescItem::Valu64 { path, default } => decimal(
            match uint_at(v, path@) {
                Some(n) => n,
                None => default,
            } as int,
        ),
        DescItem::KeyValStr { parent, secret_vals } => keyval_dump(v, parent@, secret_vals, skip),
        DescItem::MetadataValStr { path, default } => meta_text(v, path@, default@),
        DescItem::ObjectCreated => no_creation_time(),
        DescItem::CustomFunc { path, func, default } => match path {
            Some(p) => match resolve(v, p@) {
                Some(sub) => transform_text(func, sub),
                None => default@,
            },
            None => transform_text(func, v),
        },
    }
}

/// Whether the line of `item` is pinned down by `item_text`.
pub open spec fn text_determined(v: Value, item: DescItem) -> bool {
    !(item is ObjectCreated && created_member(v) is Some)
}

/// Why a report cannot be made.
pub enum DescribeError {
    /// The creation timestamp is present but malformed.
    MalformedTimestamp,
}

/// The line of one descriptor. A malformed creation time is a hard failure,
/// left out here (see `creation_time_ok`).
pub fn describe_item(v: &Value, item: &DescItem, skip: &Vec<String>) -> (r: String)
    requires
        !(*item is ObjectCreated && created_malformed(*v)),
    ensures
        text_determined(*v, *item) ==> r@ == item_text(*v, *item, skip@),
        *item is ObjectCreated ==> created_line(*v, r@),
{
    match item {
        DescItem::ValStr { path, default } => val_str(v, path.as_str(), default.as_str()),
        DescItem::Valu64 { path, default } => {
            let n = match v.u64_at(path.as_str()) {
                Some(n) => n,
                None => *default,
            };
            decimal_text(n as i128)
        },
        DescItem::KeyValStr { parent, secret_vals } => keyval_str(v, parent.as_str(), *secret_vals, skip),
        DescItem::MetadataValStr { path, default } => match v.pointer("/metadata") {
            Some(m) => val_str(m, path.as_str(), default.as_str()),
            None => default.clone(),
        },
        DescItem::ObjectCreated => {
            let member = match v.pointer("/metadata") {
                Some(m) => m.pointer("/creationTimestamp"),
                None => None,
            };
            match member {
                Some(Value::Text(s)) => {
                    let utc = utc_text(s.as_str()).unwrap();
                    let local = local_text(s.as_str()).unwrap();
                    let mut t = utc;
                    t.append(" (");
                    t.append(local.as_str());
                    t.append(")");
                    assert(created_text_with(s@, local@) == t@);
                    t
                },
                _ => String::from_str("<No CreationTime>"),
            }
        },
        DescItem::CustomFunc { path, func, default } => match path {
            Some(p) => match v.pointer(p.as_str()) {
                Some(sub) => apply_transform(func, sub),
                None => default.clone(),
            },
            None => apply_transform(func, v),
        },
    }
}

/// Whether the creation time of `v`, if present, is well formed.
pub fn creation_time_ok(v: &Value) -> (r: bool)
    ensures
        r == !created_malformed(*v),
{
    let member = match v.pointer("/metadata") {
        Some(m) => m.pointer("/creationTimestamp"),
        None => None,
    };
    match member {
        None => true,
        Some(Value::Text(s)) => timestamp_seconds(s.as_str()).is_some(),
        Some(_) => false,
    }
}

/// A report: one line per descriptor, in order.
pub open spec fn report_ok(v: Value, fields: Seq<(String, DescItem)>, skip: Seq<String>, lines: Seq<(String, String)>) -> bool {
    &&& lines.len() == fields.len()
    &&& forall|i: int| 0 <= i < fields.len() ==> (#[trigger] lines[i]).0@ == fields[i].0@
    &&& forall|i: int| 0 <= i < fields.len() && text_determined(v, #[trigger] fields[i].1)
        ==> lines[i].1@ == item_text(v, fields[i].1, skip)
    &&& forall|i: int| 0 <= i < fields.len() && (#[trigger] fields[i].1) is ObjectCreated ==> created_line(v, lines[i].1@)
}

/// Whether some descriptor asks for a creation time that is malformed.
pub open spec fn report_fails(v: Value, fields: Seq<(String, DescItem)>) -> bool {
    created_malformed(v) && exists|i: int| 0 <= i < fields.len() && (#[trigger] fields[i]).1 is ObjectCreated
}

/// Evaluates each descriptor against the resource, in order: a title and
/// its text per descriptor. `skip` holds keys that key/value dumps leave out.
/// A malformed creation time, where one is asked for, is a hard failure and
/// is left out here (see `try_describe_object`).
pub fn describe_object(v: &Value, fields: &Vec<(String, DescItem)>, skip: &Vec<String>) -> (r: Vec<(String, String)>)
    requires
        !report_fails(*v, fields@),
    ensures
        report_ok(*v, fields@, skip@, r@),
{
    let mut lines: Vec<(String, String)> = Vec::new();
    let mut i: usize = 0;
    while i < fields.len()
        invariant
            i <= fields@.len(),
            !report_fails(*v, fields@),
            report_ok(*v, fields@.take(i as int), skip@, lines@),
        decreases fields@.len() - i,
    {
        let (title, item) = (&fields[i].0, &fields[i].1);
        assert(!(fields@[i as int].1 is ObjectCreated && created_malformed(*v)));
        let t = describe_item(v, item, skip);
        lines.push((title.clone(), t));
        assert forall|k: int| 0 <= k < i + 1 implies (#[trigger] lines@[k]).0@ == fields@.take(i + 1)[k].0@ by {
            assert(fields@.take(i + 1)[k] == fields@[k]);
        }
        assert forall|k: int| 0 <= k < i + 1 && text_determined(*v, #[trigger] fields@.take(i + 1)[k].1)
            implies lines@[k].1@ == item_text(*v, fields@.take(i + 1)[k].1, skip@) by {
            assert(fields@.take(i + 1)[k] == fields@[k]);
            if k < i {
                assert(fields@.take(i as int)[k] == fields@[k]);
            }
        }
        assert forall|k: int| 0 <= k < i + 1 && (#[trigger] fields@.take(i + 1)[k].1) is ObjectCreated
            implies created_line(*v, lines@[k].1@) by {
            assert(fields@.take(i + 1)[k] == fields@[k]);
            if k < i {
                assert(fields@.take(i as int)[k] == fields@[k]);
            }
        }
        i = i + 1;
    }
    assert(fields@.take(i as int) == fields@);
    lines
}

/// Evaluates the descriptors as `describe_object` does, or says that the
/// creation time one of them asks for is malformed.
pub fn try_describe_object(v: &Value, fields: &Vec<(String, DescItem)>, skip: &Vec<String>) -> (r: Result<Vec<(String, String)>, DescribeError>)
    ensures
        r is Err <==> report_fails(*v, fields@),
        r matches Ok(lines) ==> report_ok(*v, fields@, skip@, lines@),
{
    let mut asks: bool = false;
    let mut i: usize = 0;
    while i < fields.len()
        invariant
            i <= fields@.len(),
            asks == exists|k: int| 0 <= k < i && (#[trigger] fields@[k]).1 is ObjectCreated,
        decreases fields@.len() - i,
    {
        if let DescItem::ObjectCreated = &fields[i].1 {
            asks = true;
        }
        i = i + 1;
    }
    if asks && !creation_time_ok(v) {
        return Err(DescribeError::MalformedTimestamp);
    }
    Ok(describe_object(v, fields, skip))
}

/// The titles and (where determined) texts of the report on a pod.
pub open spec fn pod_report(v: Value, skip: Seq<String>, lines: Seq<(String, String)>) -> bool {
    &&& lines.len() == 9
    &&& lines[0].0@ == "Name:"@
    &&& lines[0].1@ == meta_text(v, "/name"@, "<No Name>"@)
    &&& lines[1].0@ == "Namespace:"@
    &&& lines[1].1@ == meta_text(v, "/namespace"@, "<No Name>"@)
    &&& lines[2].0@ == "Node:"@
    &&& lines[2].1@ == val_text(v, "/spec/nodeName"@, "<No NodeName>"@)
    &&& lines[3].0@ == "IP:"@
    &&& lines[3].1@ == val_text(v, "/status/podIP"@, "<No PodIP>"@)
    &&& lines[4].0@ == "Created at:"@
    &&& created_line(v, lines[4].1@)
    &&& lines[5].0@ == "Status:"@
    &&& lines[5].1@ == phase_text(v)
    &&& lines[6].0@ == "Labels:"@
    &&& lines[6].1@ == keyval_dump(v, "/metadata/labels"@, false, skip)
    &&& lines[7].0@ == "Annotations:"@
    &&& lines[7].1@ == keyval_dump(v, "/metadata/annotations"@, false, skip)
    &&& lines[8].0@ == "Volumes:"@
    &&& lines[8].1@ == at_path(v, "/spec/volumes"@, |sub: Value| array_lines(sub, |c: Value| volume_lines(c)), "<No Volumes>"@)
}

/// The titles and (where determined) texts of the report on a node.
pub open spec fn node_report(v: Value, skip: Seq<String>, lines: Seq<(String, String)>) -> bool {
    &&& lines.len() == 7
    &&& lines[0].0@ == "Name:"@
    &&& lines[0].1@ == meta_text(v, "/name"@, "<No Name>"@)
    &&& lines[1].0@ == "Labels:"@
    &&& lines[1].1@ == keyval_dump(v, "/metadata/labels"@, false, skip)
    &&& lines[2].0@ == "Annotations:"@
    &&& lines[2].1@ == keyval_dump(v, "/metadata/annotations"@, false, skip)
    &&& lines[3].0@ == "Created at:"@
    &&& created_line(v, lines[3].1@)
    &&& lines[4].0@ == "Provider Id:"@
    &&& lines[4].1@ == val_text(v, "/spec/providerID"@, "<No Provider Id>"@)
    &&& lines[5].0@ == "External URL:"@
    &&& lines[5].1@ == access_url_text(v)
    &&& lines[6].0@ == "System Info:"@
    &&& lines[6].1@ == keyval_dump(v, "/status/nodeInfo"@, false, skip)
}

/// The titles and (where determined) texts of the report on a secret.
pub open spec fn secret_report(v: Value, skip: Seq<String>, lines: Seq<(String, String)>) -> bool {
    &&& lines.len() == 6
    &&& lines[0].0@ == "Name:"@
    &&& lines[0].1@ == meta_text(v, "/name"@, "<No Name>"@)
    &&& lines[1].0@ == "Namespace:"@
    &&& lines[1].1@ == meta_text(v, "/namespace"@, "<No Name>"@)
    &&& lines[2].0@ == "Labels:"@
    &&& lines[2].1@ == keyval_dump(v, "/metadata/labels"@, false, skip)
    &&& lines[3].0@ == "Annotations:"@
    &&& lines[3].1@ == keyval_dump(v, "/metadata/annotations"@, false, skip)
    &&& lines[4].0@ == "Type:"@
    &&& lines[4].1@ == val_text(v, "/type"@, "<No Type>"@)
    &&& lines[5].0@ == "Data:"@
    &&& lines[5].1@ == keyval_dump(v, "/data"@, true, skip)
}

/// The titles and (where determined) texts of the report on a deployment (or a rollout, which is described alike).
pub open spec fn deployment_report(v: Value, skip: Seq<String>, lines: Seq<(String, String)>) -> bool {
    &&& lines.len() == 11
    &&& lines[0].0@ == "Name:\t\t"@
    &&& lines[0].1@ == meta_text(v, "/name"@, "<No Name>"@)
    &&& lines[1].0@ == "Namespace:\t"@
    &&& lines[1].1@ == meta_text(v, "/namespace"@, "<No Name>"@)
    &&& lines[2].0@ == "Created at:\t"@
    &&& created_line(v, lines[2].1@)
    &&& lines[3].0@ == "Generation:\t"@
    &&& lines[3].1@ == decimal(match uint_at(v, "/metadata/generation"@) { Some(n) => n, None => 0 } as int)
    &&& lines[4].0@ == "Labels:\t"@
    &&& lines[4].1@ == keyval_dump(v, "/metadata/labels"@, false, skip)
    &&& lines[5].0@ == "Desired Replicas:\t"@
    &&& lines[5].1@ == decimal(match uint_at(v, "/spec/replicas"@) { Some(n) => n, None => 0 } as int)
    &&& lines[6].0@ == "Current Replicas:\t"@
    &&& lines[6].1@ == decimal(match uint_at(v, "/status/replicas"@) { Some(n) => n, None => 0 } as int)
    &&& lines[7].0@ == "Up To Date Replicas:\t"@
    &&& lines[7].1@ == decimal(match uint_at(v, "/status/updatedReplicas"@) { Some(n) => n, None => 0 } as int)
    &&& lines[8].0@ == "Available Replicas:\t"@
    &&& lines[8].1@ == decimal(match uint_at(v, "/status/availableReplicas"@) { Some(n) => n, None => 0 } as int)
    &&& lines[9].0@ == "\nContainers:\n"@
    &&& lines[9].1@ == at_path(v, "/spec/template/spec/containers"@, |sub: Value| array_lines(sub, |c: Value| container_lines(c)), "<No Containers>"@)
    &&& lines[10].0@ == "Messages:\n"@
    &&& lines[10].1@ == at_path(v, "/status/conditions"@, |sub: Value| array_lines(sub, |c: Value| message_line(c)), "<No Messages>"@)
}

/// Describes a pod.
pub fn describe_format_pod(v: &Value, skip: &Vec<String>) -> (r: Vec<(String, String)>)
    requires
        !created_malformed(*v),
    ensures
        pod_report(*v, skip@, r@),
{
    let mut fields: Vec<(String, DescItem)> = Vec::new();
    fields.push((
        owned("Name:"),
        DescItem::MetadataValStr { path: owned("/name"), default: owned("<No Name>") },
    ));
    fields.push((
        owned("Namespace:"),
        DescItem::MetadataValStr { path: owned("/namespace"), default: owned("<No Name>") },
    ));
    fields.push((
        owned("Node:"),
        DescItem::ValStr { path: owned("/spec/nodeName"), default: owned("<No NodeName>") },
    ));
    fields.push((
        owned("IP:"),
        DescItem::ValStr { path: owned("/status/podIP"), default: owned("<No PodIP>") },
    ));
    fields.push((
        owned("Created at:"),
        DescItem::ObjectCreated,
    ));
    fields.push((
        owned("Status:"),
        DescItem::CustomFunc { path: None, func: Transform::PodPhase, default: owned("<No Phase>") },
    ));
    fields.push((
        owned("Labels:"),
        DescItem::KeyValStr { parent: owned("/metadata/labels"), secret_vals: false },
    ));
    fields.push((
        owned("Annotations:"),
        DescItem::KeyValStr { parent: owned("/metadata/annotations"), secret_vals: false },
    ));
    fields.push((
        owned("Volumes:"),
        DescItem::CustomFunc { path: Some(owned("/spec/volumes")), func: Transform::Volumes, default: owned("<No Volumes>") },
    ));
    proof {
        assert(fields@[4].1 is ObjectCreated);
        assert(text_determined(*v, fields@[0].1));
        assert(text_determined(*v, fields@[1].1));
        assert(text_determined(*v, fields@[2].1));
        assert(text_determined(*v, fields@[3].1));
        assert(text_determined(*v, fields@[5].1));
        assert(text_determined(*v, fields@[6].1));
        assert(text_determined(*v, fields@[7].1));
        assert(text_determined(*v, fields@[8].1));
    }
    describe_object(v, &fields, skip)
}

/// Describes a node.
pub fn describe_format_node(v: &Value, skip: &Vec<String>) -> (r: Vec<(String, String)>)
    requires
        !created_malformed(*v),
    ensures
        node_report(*v, skip@, r@),
{
    let mut fields: Vec<(String, DescItem)> = Vec::new();
    fields.push((
        owned("Name:"),
        DescItem::MetadataValStr { path: owned("/name"), default: owned("<No Name>") },
    ));
    fields.push((
        owned("Labels:"),
        DescItem::KeyValStr { parent: owned("/metadata/labels"), secret_vals: false },
    ));
    fields.push((
        owned("Annotations:"),
        DescItem::KeyValStr { parent: owned("/metadata/annotations"), secret_vals: false },
    ));
    fields.push((
        owned("Created at:"),
        DescItem::ObjectCreated,
    ));
    fields.push((
        owned("Provider Id:"),
        DescItem::ValStr { path: owned("/spec/providerID"), default: owned("<No Provider Id>") },
    ));
    fields.push((
        owned("External URL:"),
        DescItem::CustomFunc { path: None, func: Transform::NodeAccessUrl, default: owned("<N/A>") },
    ));
    fields.push((
        owned("System Info:"),
        DescItem::KeyValStr { parent: owned("/status/nodeInfo"), secret_vals: false },
    ));
    proof {
        assert(fields@[3].1 is ObjectCreated);
        assert(text_determined(*v, fields@[0].1));
        assert(text_determined(*v, fields@[1].1));
        assert(text_determined(*v, fields@[2].1));
        assert(text_determined(*v, fields@[4].1));
        assert(text_determined(*v, fields@[5].1));
        assert(text_determined(*v, fields@[6].1));
    }
    describe_object(v, &fields, skip)
}

/// Describes a secret.
pub fn describe_format_secret(v: &Value, skip: &Vec<String>) -> (r: Vec<(String, String)>)
    ensures
        secret_report(*v, skip@, r@),
{
    let mut fields: Vec<(String, DescItem)> = Vec::new();
    fields.push((
        owned("Name:"),
        DescItem::MetadataValStr { path: owned("/name"), default: owned("<No Name>") },
    ));
    fields.push((
        owned("Namespace:"),
        DescItem::MetadataValStr { path: owned("/namespace"), default: owned("<No Name>") },
    ));
    fields.push((
        owned("Labels:"),
        DescItem::KeyValStr { parent: owned("/metadata/labels"), secret_vals: false },
    ));
    fields.push((
        owned("Annotations:"),
        DescItem::KeyValStr { parent: owned("/metadata/annotations"), secret_vals: false },
    ));
    fields.push((
        owned("Type:"),
        DescItem::ValStr { path: owned("/type"), default: owned("<No Type>") },
    ));
    fields.push((
        owned("Data:"),
        DescItem::KeyValStr { parent: owned("/data"), secret_vals: true },
    ));
    proof {
        assert(text_determined(*v, fields@[0].1));
        assert(text_determined(*v, fields@[1].1));
        assert(text_determined(*v, fields@[2].1));
        assert(text_determined(*v, fields@[3].1));
        assert(text_determined(*v, fields@[4].1));
        assert(text_determined(*v, fields@[5].1));
    }
    describe_object(v, &fields, skip)
}

/// Describes a deployment (or a rollout, which is described alike).
pub fn describe_format_deployment(v: &Value, skip: &Vec<String>) -> (r: Vec<(String, String)>)
    requires
        !created_malformed(*v),
    ensures
        deployment_report(*v, skip@, r@),
{
    let mut fields: Vec<(String, DescItem)> = Vec::new();
    fields.push((
        owned("Name:\t\t"),
        DescItem::MetadataValStr { path: owned("/name"), default: owned("<No Name>") },
    ));
    fields.push((
        owned("Namespace:\t"),
        DescItem::MetadataValStr { path: owned("/namespace"), default: owned("<No Name>") },
    ));
    fields.push((
        owned("Created at:\t"),
        DescItem::ObjectCreated,
    ));
    fields.push((
        owned("Generation:\t"),
        DescItem::Valu64 { path: owned("/metadata/generation"), default: 0 },
    ));
    fields.push((
        owned("Labels:\t"),
        DescItem::KeyValStr { parent: owned("/metadata/labels"), secret_vals: false },
    ));
    fields.push((
        owned("Desired Replicas:\t"),
        DescItem::Valu64 { path: owned("/spec/replicas"), default: 0 },
    ));
    fields.push((
        owned("Current Replicas:\t"),
        DescItem::Valu64 { path: owned("/status/replicas"), default: 0 },
    ));
    fields.push((
        owned("Up To Date Replicas:\t"),
        DescItem::Valu64 { path: owned("/status/updatedReplicas"), default: 0 },
    ));
    fields.push((
        owned("Available Replicas:\t"),
        DescItem::Valu64 { path: owned("/status/availableReplicas"), default: 0 },
    ));
    fields.push((
        owned("\nContainers:\n"),
        DescItem::CustomFunc { path: Some(owned("/spec/template/spec/containers")), func: Transform::Containers, default: owned("<No Containers>") },
    ));
    fields.push((
        owned("Messages:\n"),
        DescItem::CustomFunc { path: Some(owned("/status/conditions")), func: Transform::Messages, default: owned("<No Messages>") },
    ));
    proof {
        assert(fields@[2].1 is ObjectCreated);
        assert(text_determined(*v, fields@[0].1));
        assert(text_determined(*v, fields@[1].1));
        assert(text_determined(*v, fields@[3].1));
        assert(text_determined(*v, fields@[4].1));
        assert(text_determined(*v, fields@[5].1));
        assert(text_determined(*v, fields@[6].1));
        assert(text_determined(*v, fields@[7].1));
        assert(text_determined(*v, fields@[8].1));
        assert(text_determined(*v, fields@[9].1));
        assert(text_determined(*v, fields@[10].1));
    }
    describe_object(v, &fields, skip)
}

} // verus!

verus! {

/// Describes a rollout: the same report as for a deployment.
pub fn describe_format_rollout(v: &Value, skip: &Vec<String>) -> (r: Vec<(String, String)>)
    requires
        !created_malformed(*v),
    ensures
        deployment_report(*v, skip@, r@),
{
    describe_format_deployment(v, skip)
}

} // verus!

verus! {

/// A descriptor whose path names nothing renders its declared default, and
/// a missing creation time renders `<No CreationTime>`.
pub proof fn lemma_absent_default(v: Value, item: DescItem, skip: Seq<String>)
    ensures
        item matches DescItem::ValStr { path, default } ==> (text_at(v, path@) is None ==> item_text(v, item, skip) == default@),
        item matches DescItem::Valu64 { path, default } ==> (uint_at(v, path@) is None ==> item_text(v, item, skip) == decimal(default as int)),
        item matches DescItem::MetadataValStr { path, default } ==> (metadata_of(v) is None ==> item_text(v, item, skip) == default@),
        item matches DescItem::MetadataValStr { path, default } ==> (metadata_of(v) matches Some(m) ==> (text_at(m, path@) is None
            ==> item_text(v, item, skip) == default@)),
        item matches DescItem::CustomFunc { path, func, default } ==> (path matches Some(p) ==> (resolve(v, p@) is None
            ==> item_text(v, item, skip) == default@)),
        item is ObjectCreated && created_member(v) is None ==> text_determined(v, item) && item_text(v, item, skip) == no_creation_time(),
        item is ObjectCreated ==> (created_malformed(v) ==> created_member(v) is Some),
{
}

} // verus!

verus! {

/// The kinds of resource with a report of their own.
pub enum ResourceKind {
    Pod,
    Node,
    Secret,
    Deployment,
    Rollout,
}

/// Describes a resource of the given kind, or says that its creation time
/// is malformed (secrets show no creation time).
pub fn describe_kind(kind: ResourceKind, v: &Value, skip: &Vec<String>) -> (r: Result<Vec<(String, String)>, DescribeError>)
    ensures
        r is Err <==> (!(kind is Secret) && created_malformed(*v)),
        r matches Ok(lines) ==> match kind {
            ResourceKind::Pod => pod_report(*v, skip@, lines@),
            ResourceKind::Node => node_report(*v, skip@, lines@),
            ResourceKind::Secret => secret_report(*v, skip@, lines@),
            _ => deployment_report(*v, skip@, lines@),
        },
{
    if let ResourceKind::Secret = kind {
        return Ok(describe_format_secret(v, skip));
    }
    if !creation_time_ok(v) {
        return Err(DescribeError::MalformedTimestamp);
    }
    match kind {
        ResourceKind::Pod => Ok(describe_format_pod(v, skip)),
        ResourceKind::Node => Ok(describe_format_node(v, skip)),
        ResourceKind::Secret => Ok(describe_format_secret(v, skip)),
        ResourceKind::Deployment => Ok(describe_format_deployment(v, skip)),
        ResourceKind::Rollout => Ok(describe_format_rollout(v, skip)),
    }
}

} // verus!

verus! {

/// In a report, a descriptor whose path names nothing shows its declared
/// default; a key/value dump of nothing shows `<none>`; a missing creation
/// time shows `<No CreationTime>`.
pub proof fn lemma_report_defaults(v: Value, fields: Seq<(String, DescItem)>, skip: Seq<String>, lines: Seq<(String, String)>, i: int)
    requires
        report_ok(v, fields, skip, lines),
        0 <= i < fields.len(),
    ensures
        fields[i].1 matches DescItem::ValStr { path, default } ==> (text_at(v, path@) is None ==> lines[i].1@ == default@),
        fields[i].1 matches DescItem::Valu64 { path, default } ==> (uint_at(v, path@) is None ==> lines[i].1@ == decimal(default as int)),
        fields[i].1 matches DescItem::MetadataValStr { path, default } ==> (metadata_of(v) is None ==> lines[i].1@ == default@),
        fields[i].1 matches DescItem::MetadataValStr { path, default } ==> (metadata_of(v) matches Some(m) ==> (text_at(m, path@) is None
            ==> lines[i].1@ == default@)),
        fields[i].1 matches DescItem::KeyValStr { parent, secret_vals } ==> (resolve(v, parent@) is None ==> lines[i].1@ == "<none>"@),
        fields[i].1 matches DescItem::CustomFunc { path, func, default } ==> (path matches Some(p) ==> (resolve(v, p@) is None
            ==> lines[i].1@ == default@)),
        fields[i].1 is ObjectCreated && created_member(v) is None ==> lines[i].1@ == no_creation_time(),
{
    assert(text_determined(v, fields[i].1) ==> lines[i].1@ == item_text(v, fields[i].1, skip));
}

} // verus!
