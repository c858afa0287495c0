//! Custom describe transforms: text computed from a sub-tree of a resource.

use vstd::prelude::*;
use crate::text::{decimal, decimal_text, text_eq};
use crate::value::{child, resolve, split_by, split_text, text_at, texts, Value};

verus! {

/// Terminal colours used in reports.
pub enum Tint {
    Red,
    Green,
    Yellow,
}

pub open spec fn tint_digit(t: Tint) -> char {
    match t {
        Tint::Red => '1',
        Tint::Green => '2',
        Tint::Yellow => '3',
    }
}

/// `s` in the foreground colour `t`, followed by a reset.
pub open spec fn painted(t: Tint, s: Seq<char>) -> Seq<char> {
    seq!['\x1b', '[', '3', tint_digit(t), 'm'] + s + seq!['\x1b', '[', '0', 'm']
}

/// Relies on `ansi_term::Colour::paint` and its `Display`: the colour's
/// escape code, the text, then the reset code.
#[verifier::external_body]
pub(crate) fn paint(t: Tint, s: &str) -> (r: String)
    ensures
        r@ == painted(t, s@),
{
    let colour = match t {
        Tint::Red => ansi_term::Colour::Red,
        Tint::Green => ansi_term::Colour::Green,
        Tint::Yellow => ansi_term::Colour::Yellow,
    };
    colour.paint(s).to_string()
}

/// The string at `path` in `v`, or `default`.
pub open spec fn val_text(v: Value, path: Seq<char>, default: Seq<char>) -> Seq<char> {
    match text_at(v, path) {
        Some(s) => s,
        None => default,
    }
}

/// The string at `path` in `v`, or `default`.
pub fn val_str(v: &Value, path: &str, default: &str) -> (r: String)
    ensures
        r@ == val_text(*v, path@, default@),
{
    match v.str_at(path) {
        Some(s) => s.clone(),
        None => String::from_str(default),
    }
}

/// The colour of a pod phase.
pub open spec fn phase_tint(phase: Seq<char>) -> Tint {
    if phase == "Running"@ || phase == "Succeeded"@ {
        Tint::Green
    } else if phase == "Failed"@ {
        Tint::Red
    } else {
        Tint::Yellow
    }
}

/// The phase of a pod, coloured.
pub open spec fn phase_text(v: Value) -> Seq<char> {
    let phase = val_text(v, "/status/phase"@, "<No Phase>"@);
    painted(phase_tint(phase), phase)
}

/// The phase of a pod, coloured (see `phase_text`).
pub fn pod_phase(v: &Value) -> (r: String)
    ensures
        r@ == phase_text(*v),
{
    let phase = val_str(v, "/status/phase", "<No Phase>");
    let p = phase.as_str();
    let tint = if text_eq(p, "Running") || text_eq(p, "Succeeded") {
        Tint::Green
    } else if text_eq(p, "Failed") {
        Tint::Red
    } else {
        Tint::Yellow
    };
    paint(tint, p)
}

/// The lines of one container: its name and image.
pub open spec fn container_lines(c: Value) -> Seq<char> {
    "  Name: "@ + val_text(c, "/name"@, "<No Name>"@) + "\n"@ + "    Image:\t"@ + val_text(
        c,
        "/image"@,
        "<No Image>"@,
    ) + "\n"@
}

/// The colour of a deployment condition message.
pub open spec fn message_tint(msg: Seq<char>) -> Tint {
    if msg == "Deployment has minimum availability."@ {
        Tint::Green
    } else {
        Tint::Yellow
    }
}

/// The line of one condition: its message, coloured.
pub open spec fn message_line(c: Value) -> Seq<char> {
    let msg = val_text(c, "/message"@, "<No Message>"@);
    "  Message: "@ + painted(message_tint(msg), msg) + "\n"@
}

/// The lines of each element, by `f`, one after the other.
pub open spec fn concat_lines(items: Seq<Value>, f: spec_fn(Value) -> Seq<char>) -> Seq<char>
    decreases items.len(),
{
    if items.len() == 0 {
        Seq::empty()
    } else {
        concat_lines(items.drop_last(), f) + f(items.last())
    }
}

/// The lines of an array of elements by `f`; empty for any other value.
pub open spec fn array_lines(v: Value, f: spec_fn(Value) -> Seq<char>) -> Seq<char> {
    match v {
        Value::Array(items) => concat_lines(items@, f),
        _ => Seq::empty(),
    }
}

/// The lines of an array of containers.
pub fn get_container_str(v: &Value) -> (r: String)
    ensures
        r@ == array_lines(*v, |c: Value| container_lines(c)),
{
    let mut buf = String::new();
    if let Value::Array(items) = v {
        let mut i: usize = 0;
        while i < items.len()
            invariant
                i <= items@.len(),
                buf@ == concat_lines(items@.take(i as int), |c: Value| container_lines(c)),
            decreases items@.len() - i,
        {
            let c = &items[i];
            buf.append("  Name: ");
            let name = val_str(c, "/name", "<No Name>");
            buf.append(name.as_str());
            buf.append("\n");
            buf.append("    Image:\t");
            let image = val_str(c, "/image", "<No Image>");
            buf.append(image.as_str());
            buf.append("\n");
            assert(items@.take(i + 1).drop_last() == items@.take(i as int));
            i = i + 1;
        }
        assert(items@.take(i as int) == items@);
    }
    buf
}

/// The lines of an array of conditions.
pub fn get_message_str(v: &Value) -> (r: String)
    ensures
        r@ == array_lines(*v, |c: Value| message_line(c)),
{
    let mut buf = String::new();
    if let Value::Array(items) = v {
        let mut i: usize = 0;
        while i < items.len()
            invariant
                i <= items@.len(),
                buf@ == concat_lines(items@.take(i as int), |c: Value| message_line(c)),
            decreases items@.len() - i,
        {
            let c = &items[i];
            let msg = val_str(c, "/message", "<No Message>");
            let tint = if text_eq(msg.as_str(), "Deployment has minimum availability.") {
                Tint::Green
            } else {
                Tint::Yellow
            };
            buf.append("  Message: ");
            let shown = paint(tint, msg.as_str());
            buf.append(shown.as_str());
            buf.append("\n");
            assert(items@.take(i + 1).drop_last() == items@.take(i as int));
            i = i + 1;
        }
        assert(items@.take(i as int) == items@);
    }
    buf
}

/// Whether `s` begins with `p`.
pub open spec fn starts_with(s: Seq<char>, p: Seq<char>) -> bool {
    s.len() >= p.len() && s.take(p.len() as int) == p
}

/// Whether `s` begins with `p`.
pub fn text_starts_with(s: &str, p: &str) -> (r: bool)
    ensures
        r == starts_with(s@, p@),
{
    let ls = s.unicode_len();
    let lp = p.unicode_len();
    if ls < lp {
        return false;
    }
    let mut i: usize = 0;
    while i < lp
        invariant
            ls == s@.len(),
            lp == p@.len(),
            lp <= ls,
            i <= lp,
            forall|j: int| 0 <= j < i ==> s@[j] == p@[j],
        decreases lp - i,
    {
        if s.get_char(i) != p.get_char(i) {
            assert(s@.take(lp as int)[i as int] != p@[i as int]);
            return false;
        }
        i = i + 1;
    }
    assert(s@.take(lp as int) =~= p@);
    true
}

/// Whether an address entry is the external IP: an object whose `type` is
/// `ExternalIP`.
pub open spec fn is_external(a: Value) -> bool {
    a is Object && text_at(a, "/type"@) == Some("ExternalIP"@)
}

/// The first external address entry.
pub open spec fn first_external(s: Seq<Value>) -> Option<Value>
    decreases s.len(),
{
    if s.len() == 0 {
        None
    } else if is_external(s[0]) {
        Some(s[0])
    } else {
        first_external(s.drop_first())
    }
}

/// The external IP of a node: the `address` of its first external address
/// entry, where that is a string.
pub open spec fn external_ip(v: Value) -> Option<Seq<char>> {
    match resolve(v, "/status/addresses"@) {
        Some(Value::Array(addrs)) => match first_external(addrs@) {
            Some(a) => text_at(a, "/address"@),
            None => None,
        },
        _ => None,
    }
}

/// The public host name of an AWS node, from its dotted external IP.
pub open spec fn host_text(ip: Seq<char>) -> Seq<char> {
    let octs = split_by(ip, '.');
    if octs.len() < 4 {
        "Unexpected ip format: "@ + ip
    } else {
        "ec2-"@ + octs[0] + "-"@ + octs[1] + "-"@ + octs[2] + "-"@ + octs[3]
            + ".us-west-2.compute.amazonaws.com ("@ + ip + ")"@
    }
}

/// The externally reachable URL of a node: only AWS nodes have one.
pub open spec fn access_url_text(v: Value) -> Seq<char> {
    match text_at(v, "/spec/providerID"@) {
        Some(p) => if starts_with(p, "aws://"@) {
            match external_ip(v) {
                Some(ip) => host_text(ip),
                None => "Not Found"@,
            }
        } else {
            "N/A"@
        },
        None => "N/A"@,
    }
}

/// The external IP of a node (see `external_ip`).
fn find_external_ip(v: &Value) -> (r: Option<&String>)
    ensures
        r matches Some(s) ==> external_ip(*v) == Some(s@),
        r is None ==> external_ip(*v) is None,
{
    match v.pointer("/status/addresses") {
        Some(Value::Array(addrs)) => {
            let mut i: usize = 0;
            assert(addrs@.skip(0) == addrs@);
            assert(resolve(*v, "/status/addresses"@) == Some(Value::Array(*addrs)));
            while i < addrs.len()
                invariant
                    resolve(*v, "/status/addresses"@) == Some(Value::Array(*addrs)),
                    i <= addrs@.len(),
                    first_external(addrs@) == first_external(addrs@.skip(i as int)),
                decreases addrs@.len() - i,
            {
                let a = &addrs[i];
                assert(addrs@.skip(i as int)[0] == addrs@[i as int]);
                assert(addrs@.skip(i as int).drop_first() == addrs@.skip(i + 1));
                let ext = match a {
                    Value::Object(_) => match a.str_at("/type") {
                        Some(t) => text_eq(t.as_str(), "ExternalIP"),
                        None => false,
                    },
                    _ => false,
                };
                if ext {
                    assert(is_external(*a));
                    assert(first_external(addrs@) == Some(*a));
                    return a.str_at("/address");
                }
                i = i + 1;
            }
            None
        },
        _ => None,
    }
}

/// The public host name of an AWS node (see `host_text`).
fn host_name(ip: &String) -> (r: String)
    ensures
        r@ == host_text(ip@),
{
    let octs = split_text(ip.as_str(), '.');
    assert(texts(octs@).len() == octs@.len());
    if octs.len() < 4 {
        let mut r = String::from_str("Unexpected ip format: ");
        r.append(ip.as_str());
        r
    } else {
        assert(texts(octs@)[0] == octs@[0]@ && texts(octs@)[1] == octs@[1]@);
        assert(texts(octs@)[2] == octs@[2]@ && texts(octs@)[3] == octs@[3]@);
        let mut r = String::from_str("ec2-");
        r.append(octs[0].as_str());
        r.append("-");
        r.append(octs[1].as_str());
        r.append("-");
        r.append(octs[2].as_str());
        r.append("-");
        r.append(octs[3].as_str());
        r.append(".us-west-2.compute.amazonaws.com (");
        r.append(ip.as_str());
        r.append(")");
        r
    }
}

/// The externally reachable URL of a node (see `access_url_text`).
pub fn node_access_url(v: &Value) -> (r: String)
    ensures
        r@ == access_url_text(*v),
{
    match v.str_at("/spec/providerID") {
        Some(p) => {
            if text_starts_with(p.as_str(), "aws://") {
                match find_external_ip(v) {
                    Some(ip) => host_name(ip),
                    None => String::from_str("Not Found"),
                }
            } else {
                String::from_str("N/A")
            }
        },
        None => String::from_str("N/A"),
    }
}

/// The partition number of an AWS block store: 0 where it has none.
pub open spec fn partition_of(aws: Value) -> u64 {
    match child(aws, "partition"@) {
        Some(Value::UInt(n)) => n,
        _ => 0,
    }
}

/// Whether an AWS block store is read-only.
pub open spec fn read_only_of(aws: Value) -> bool {
    child(aws, "readOnly"@) == Some(Value::Bool(true))
}

pub open spec fn empty_dir_lines(vol: Value) -> Seq<char> {
    if child(vol, "emptyDir"@) is Some {
        "    Type:\tEmptyDir (a temporary directory that shares a pod's lifetime)\n"@
    } else {
        Seq::empty()
    }
}

pub open spec fn config_map_lines(vol: Value) -> Seq<char> {
    match child(vol, "configMap"@) {
        Some(cm) => "    Type:\tConfigMap (a volume populated by a ConfigMap)\n"@ + "    Name:\t"@
            + val_text(cm, "/name"@, "<No Name>"@) + "\n"@,
        None => Seq::empty(),
    }
}

pub open spec fn secret_lines(vol: Value) -> Seq<char> {
    match child(vol, "secret"@) {
        Some(sec) => "    Type:\tSecret (a volume populated by a Secret)\n"@ + "    SecretName:\t"@
            + val_text(sec, "/secretName"@, "<No SecretName>"@) + "\n"@,
        None => Seq::empty(),
    }
}

pub open spec fn aws_lines(vol: Value) -> Seq<char> {
    match child(vol, "awsElasticBlockStore"@) {
        Some(aws) => "    Type:\tAWS Block Store (An AWS Disk resource exposed to the pod)\n"@
            + "    VolumeId:\t"@ + val_text(aws, "/volumeID"@, "<No VolumeID>"@) + "\n"@
            + "    FSType:\t"@ + val_text(aws, "/fsType"@, "<No FsType>"@) + "\n"@
            + "    Partition#:\t"@ + decimal(partition_of(aws) as int) + "\n"@
            + if read_only_of(aws) { "    Read-Only:\tTrue\n"@ } else { "    Read-Only:\tFalse\n"@ },
        None => Seq::empty(),
    }
}

/// The lines of one volume: its name, then a section for each kind of
/// source it has.
pub open spec fn volume_lines(vol: Value) -> Seq<char> {
    "  Name: "@ + val_text(vol, "/name"@, "<No Name>"@) + "\n"@ + empty_dir_lines(vol)
        + config_map_lines(vol) + secret_lines(vol) + aws_lines(vol)
}

fn append_aws(buf: &mut String, aws: &Value)
    ensures
        final(buf)@ == old(buf)@ + "    Type:\tAWS Block Store (An AWS Disk resource exposed to the pod)\n"@
            + "    VolumeId:\t"@ + val_text(*aws, "/volumeID"@, "<No VolumeID>"@) + "\n"@
            + "    FSType:\t"@ + val_text(*aws, "/fsType"@, "<No FsType>"@) + "\n"@
            + "    Partition#:\t"@ + decimal(partition_of(*aws) as int) + "\n"@
            + if read_only_of(*aws) { "    Read-Only:\tTrue\n"@ } else { "    Read-Only:\tFalse\n"@ },
{
    buf.append("    Type:\tAWS Block Store (An AWS Disk resource exposed to the pod)\n");
    buf.append("    VolumeId:\t");
    let id = val_str(aws, "/volumeID", "<No VolumeID>");
    buf.append(id.as_str());
    buf.append("\n");
    buf.append("    FSType:\t");
    let fs = val_str(aws, "/fsType", "<No FsType>");
    buf.append(fs.as_str());
    buf.append("\n");
    let pname = String::from_str("partition");
    let mut pnum: u64 = 0;
    if let Some(Value::UInt(p)) = aws.get(&pname) {
        pnum = *p;
    }
    buf.append("    Partition#:\t");
    let pt = decimal_text(pnum as i128);
    buf.append(pt.as_str());
    buf.append("\n");
    let rname = String::from_str("readOnly");
    let ro = match aws.get(&rname) {
        Some(Value::Bool(b)) => *b,
        _ => false,
    };
    if ro {
        buf.append("    Read-Only:\tTrue\n");
    } else {
        buf.append("    Read-Only:\tFalse\n");
    }
}

fn append_empty_dir(buf: &mut String, vol: &Value)
    ensures
        final(buf)@ == old(buf)@ + empty_dir_lines(*vol),
{
    let key = String::from_str("emptyDir");
    if vol.get(&key).is_some() {
        buf.append("    Type:\tEmptyDir (a temporary directory that shares a pod's lifetime)\n");
    } else {
        assert(old(buf)@ + Seq::<char>::empty() =~= old(buf)@);
    }
}

fn append_config_map(buf: &mut String, vol: &Value)
    ensures
        final(buf)@ == old(buf)@ + config_map_lines(*vol),
{
    let key = String::from_str("configMap");
    if let Some(cm) = vol.get(&key) {
        buf.append("    Type:\tConfigMap (a volume populated by a ConfigMap)\n");
        buf.append("    Name:\t");
        let n = val_str(cm, "/name", "<No Name>");
        buf.append(n.as_str());
        buf.append("\n");
        assert(buf@ =~= old(buf)@ + config_map_lines(*vol));
    } else {
        assert(old(buf)@ + Seq::<char>::empty() =~= old(buf)@);
    }
}

fn append_secret(buf: &mut String, vol: &Value)
    ensures
        final(buf)@ == old(buf)@ + secret_lines(*vol),
{
    let key = String::from_str("secret");
    if let Some(sec) = vol.get(&key) {
        buf.append("    Type:\tSecret (a volume populated by a Secret)\n");
        buf.append("    SecretName:\t");
        let n = val_str(sec, "/secretName", "<No SecretName>");
        buf.append(n.as_str());
        buf.append("\n");
        assert(buf@ =~= old(buf)@ + secret_lines(*vol));
    } else {
        assert(old(buf)@ + Seq::<char>::empty() =~= old(buf)@);
    }
}

fn append_aws_block_store(buf: &mut String, vol: &Value)
    ensures
        final(buf)@ == old(buf)@ + aws_lines(*vol),
{
    let key = String::from_str("awsElasticBlockStore");
    if let Some(aws) = vol.get(&key) {
        append_aws(buf, aws);
        assert(buf@ =~= old(buf)@ + aws_lines(*vol));
    } else {
        assert(old(buf)@ + Seq::<char>::empty() =~= old(buf)@);
    }
}

/// The lines of one volume (see `volume_lines`).
fn append_volume(buf: &mut String, vol: &Value)
    ensures
        final(buf)@ == old(buf)@ + volume_lines(*vol),
{
    buf.append("  Name: ");
    let name = val_str(vol, "/name", "<No Name>");
    buf.append(name.as_str());
    buf.append("\n");
    append_empty_dir(buf, vol);
    append_config_map(buf, vol);
    append_secret(buf, vol);
    append_aws_block_store(buf, vol);
    assert(buf@ =~= old(buf)@ + volume_lines(*vol));
}

/// The lines of an array of volumes.
pub fn get_volume_str(v: &Value) -> (r: String)
    ensures
        r@ == array_lines(*v, |c: Value| volume_lines(c)),
{
    let mut buf = String::new();
    if let Value::Array(items) = v {
        let mut i: usize = 0;
        while i < items.len()
            invariant
                i <= items@.len(),
                buf@ == concat_lines(items@.take(i as int), |c: Value| volume_lines(c)),
            decreases items@.len() - i,
        {
            append_volume(&mut buf, &items[i]);
            assert(items@.take(i + 1).drop_last() == items@.take(i as int));
            i = i + 1;
        }
        assert(items@.take(i as int) == items@);
    }
    buf
}

} // verus!
