use click::describe::{
    describe_format_deployment, describe_format_node, describe_format_pod, describe_format_secret,
    creation_time_ok, describe_kind, describe_object, try_describe_object, DescItem, DescribeError,
    ResourceKind, Transform,
};
use click::keyval::{keyval_str, keyval_string, show_decoded};
use click::value::Value;

fn text(s: &str) -> Value {
    Value::Text(s.to_string())
}

fn obj(entries: Vec<(&str, Value)>) -> Value {
    Value::Object(entries.into_iter().map(|(k, v)| (k.to_string(), v)).collect())
}

fn secret(typ: &str, data: Vec<(&str, Value)>) -> Value {
    obj(vec![
        ("metadata", obj(vec![("name", text("s1")), ("namespace", text("ns"))])),
        ("type", text(typ)),
        ("data", obj(data)),
    ])
}

fn line<'a>(lines: &'a [(String, String)], title: &str) -> &'a str {
    lines.iter().find(|(t, _)| t == title).map(|(_, v)| v.as_str()).unwrap()
}

#[test]
fn opaque_secret_shows_byte_count() {
    let v = secret("Opaque", vec![("password", text("aHVudGVyMg=="))]);
    let lines = describe_format_secret(&v, &vec![]);
    assert_eq!(line(&lines, "Data:"), "password=7 bytes\n");
    assert_eq!(line(&lines, "Type:"), "Opaque");
    assert_eq!(line(&lines, "Name:"), "s1");
    assert_eq!(line(&lines, "Labels:"), "<none>");
}

#[test]
fn service_account_token_is_shown_in_full() {
    let v = secret("kubernetes.io/service-account-token", vec![("token", text("YWJjLmRlZi5naGk="))]);
    let lines = describe_format_secret(&v, &vec![]);
    assert_eq!(line(&lines, "Data:"), "token=abc.def.ghi\n");
}

#[test]
fn token_of_other_secret_types_is_redacted() {
    let v = secret("Opaque", vec![("token", text("YWJjLmRlZi5naGk="))]);
    assert_eq!(keyval_str(&v, "/data", true, &vec![]), "token=11 bytes\n");
}

#[test]
fn invalid_base64_shows_placeholder() {
    let v = secret("Opaque", vec![("key", text("!!notbase64!!")), ("n", Value::UInt(4))]);
    assert_eq!(keyval_str(&v, "/data", true, &vec![]), "key=Could not decode secret\nn=Could not decode secret\n");
}

#[test]
fn invalid_utf8_token_shows_placeholder() {
    assert_eq!(show_decoded(true, Some(vec![0xff, 0xfe])), "Invalid utf-8 data");
    assert_eq!(show_decoded(true, Some(b"hi".to_vec())), "hi");
    assert_eq!(show_decoded(false, Some(vec![1, 2, 3])), "3 bytes");
    assert_eq!(show_decoded(false, None), "Could not decode secret");
}

#[test]
fn unflagged_maps_show_text_and_skip_keys() {
    let v = obj(vec![(
        "metadata",
        obj(vec![("labels", obj(vec![("a", text("1")), ("b", Value::UInt(2)), ("c", text("3"))]))]),
    )]);
    assert_eq!(keyval_str(&v, "/metadata/labels", false, &vec![]), "a=1\nb=<unknown>\nc=3\n");
    assert_eq!(keyval_str(&v, "/metadata/labels", false, &vec!["c".to_string()]), "a=1\nb=<unknown>\n");
    assert_eq!(keyval_str(&v, "/metadata/missing", false, &vec![]), "<none>");
}

#[test]
fn keyval_lines() {
    let kv = vec![("a".to_string(), "1".to_string()), ("b".to_string(), "2".to_string())];
    assert_eq!(keyval_string(&kv), "a=1\nb=2\n");
    assert_eq!(keyval_string(&vec![]), "");
}

#[test]
fn absent_paths_render_defaults() {
    let v = obj(vec![("spec", obj(vec![]))]);
    let fields = vec![
        ("A".to_string(), DescItem::ValStr { path: "/spec/x".to_string(), default: "<No X>".to_string() }),
        ("B".to_string(), DescItem::Valu64 { path: "/spec/n".to_string(), default: 7 }),
        ("C".to_string(), DescItem::MetadataValStr { path: "/name".to_string(), default: "<No Name>".to_string() }),
        ("D".to_string(), DescItem::ObjectCreated),
        ("E".to_string(), DescItem::CustomFunc { path: Some("/spec/volumes".to_string()), func: Transform::Volumes, default: "<No Volumes>".to_string() }),
    ];
    let lines = describe_object(&v, &fields, &vec![]);
    let texts: Vec<&str> = lines.iter().map(|(_, t)| t.as_str()).collect();
    assert_eq!(texts, vec!["<No X>", "7", "<No Name>", "<No CreationTime>", "<No Volumes>"]);
}

#[test]
fn malformed_creation_time_fails() {
    let v = obj(vec![("metadata", obj(vec![("creationTimestamp", text("yesterday"))]))]);
    let fields = vec![("Created:".to_string(), DescItem::ObjectCreated)];
    assert!(!creation_time_ok(&v));
    assert!(matches!(try_describe_object(&v, &fields, &vec![]), Err(DescribeError::MalformedTimestamp)));
    assert!(describe_kind(ResourceKind::Pod, &v, &vec![]).is_err());
    assert!(describe_kind(ResourceKind::Secret, &v, &vec![]).is_ok());
}

#[test]
fn valid_creation_time_renders() {
    let v = obj(vec![("metadata", obj(vec![("creationTimestamp", text("2024-01-01T00:00:00Z"))]))]);
    let fields = vec![("Created:".to_string(), DescItem::ObjectCreated)];
    let lines = describe_object(&v, &fields, &vec![]);
    assert!(lines[0].1.starts_with("2024-01-01 00:00:00 UTC ("));
    assert!(lines[0].1.ends_with(")"));
}

#[test]
fn pod_report() {
    let v = obj(vec![
        ("metadata", obj(vec![("name", text("p")), ("creationTimestamp", text("2024-01-01T00:00:00Z"))])),
        ("spec", obj(vec![
            ("nodeName", text("n1")),
            ("volumes", Value::Array(vec![
                obj(vec![("name", text("v1")), ("emptyDir", obj(vec![]))]),
                obj(vec![("name", text("v2")), ("awsElasticBlockStore", obj(vec![
                    ("volumeID", text("vol-1")), ("fsType", text("ext4")), ("partition", Value::UInt(2)), ("readOnly", Value::Bool(true)),
                ]))]),
            ])),
        ])),
        ("status", obj(vec![("phase", text("Running"))])),
    ]);
    let lines = describe_format_pod(&v, &vec![]);
    assert_eq!(lines.len(), 9);
    assert_eq!(line(&lines, "Name:"), "p");
    assert_eq!(line(&lines, "Namespace:"), "<No Name>");
    assert_eq!(line(&lines, "Node:"), "n1");
    assert_eq!(line(&lines, "IP:"), "<No PodIP>");
    assert_eq!(line(&lines, "Status:"), "\x1b[32mRunning\x1b[0m");
    assert_eq!(
        line(&lines, "Volumes:"),
        "  Name: v1\n    Type:\tEmptyDir (a temporary directory that shares a pod's lifetime)\n  Name: v2\n    Type:\tAWS Block Store (An AWS Disk resource exposed to the pod)\n    VolumeId:\tvol-1\n    FSType:\text4\n    Partition#:\t2\n    Read-Only:\tTrue\n"
    );
}

#[test]
fn node_report_external_url() {
    let v = obj(vec![
        ("metadata", obj(vec![("name", text("n"))])),
        ("spec", obj(vec![("providerID", text("aws:///us-west-2a/i-1"))])),
        ("status", obj(vec![("addresses", Value::Array(vec![
            obj(vec![("type", text("InternalIP")), ("address", text("10.0.0.1"))]),
            obj(vec![("type", text("ExternalIP")), ("address", text("54.1.2.3"))]),
        ]))])),
    ]);
    let lines = describe_format_node(&v, &vec![]);
    assert_eq!(line(&lines, "External URL:"), "ec2-54-1-2-3.us-west-2.compute.amazonaws.com (54.1.2.3)");
    assert_eq!(line(&lines, "Created at:"), "<No CreationTime>");
    let gce = obj(vec![("spec", obj(vec![("providerID", text("gce://x"))]))]);
    assert_eq!(line(&describe_format_node(&gce, &vec![]), "External URL:"), "N/A");
}

#[test]
fn deployment_report() {
    let v = obj(vec![
        ("metadata", obj(vec![("name", text("d")), ("generation", Value::UInt(4))])),
        ("spec", obj(vec![("replicas", Value::UInt(3)), ("template", obj(vec![("spec", obj(vec![
            ("containers", Value::Array(vec![obj(vec![("name", text("c")), ("image", text("nginx"))])])),
        ]))]))])),
        ("status", obj(vec![("conditions", Value::Array(vec![
            obj(vec![("message", text("Deployment has minimum availability."))]),
            obj(vec![("message", text("progressing"))]),
        ]))])),
    ]);
    let lines = describe_format_deployment(&v, &vec![]);
    assert_eq!(line(&lines, "Generation:\t"), "4");
    assert_eq!(line(&lines, "Desired Replicas:\t"), "3");
    assert_eq!(line(&lines, "Current Replicas:\t"), "0");
    assert_eq!(line(&lines, "\nContainers:\n"), "  Name: c\n    Image:\tnginx\n");
    assert_eq!(
        line(&lines, "Messages:\n"),
        "  Message: \x1b[32mDeployment has minimum availability.\x1b[0m\n  Message: \x1b[33mprogressing\x1b[0m\n"
    );
}
