//! Key/value dumps: one `key=value` line per entry, and the redaction policy
//! for secret-bearing maps.

use vstd::prelude::*;
use vstd::utf8::{decode_utf8, valid_utf8};
use crate::text::{decimal, decimal_text, text_eq, text_le};
use crate::value::{resolve, text_at, Value};

verus! {

/// The views of key/value pairs of strings.
pub open spec fn pair_views(p: Seq<(String, String)>) -> Seq<(Seq<char>, Seq<char>)> {
    p.map_values(|e: (String, String)| (e.0@, e.1@))
}

/// One `key=value` line per pair, in order, each ending in a newline.
pub open spec fn keyval_text(p: Seq<(Seq<char>, Seq<char>)>) -> Seq<char>
    decreases p.len(),
{
    if p.len() == 0 {
        Seq::empty()
    } else {
        keyval_text(p.drop_last()) + p.last().0 + seq!['='] + p.last().1 + seq!['\n']
    }
}

/// Keys in strictly ascending order, as a sorted map holds them.
pub open spec fn keys_ascending(p: Seq<(Seq<char>, Seq<char>)>) -> bool {
    forall|i: int, j: int| 0 <= i < j < p.len() ==> text_le(#[trigger] p[i].0, #[trigger] p[j].0) && p[i].0 != p[j].0
}

/// Builds a multi-line string of the entries of a sorted map, given as its
/// pairs in key order.
pub fn keyval_string(keyvals: &Vec<(String, String)>) -> (r: String)
    requires
        keys_ascending(pair_views(keyvals@)),
    ensures
        r@ == keyval_text(pair_views(keyvals@)),
{
    pairs_text(keyvals)
}

/// One `key=value` line per pair, in the order given.
fn pairs_text(keyvals: &Vec<(String, String)>) -> (r: String)
    ensures
        r@ == keyval_text(pair_views(keyvals@)),
{
    let mut buf = String::new();
    let mut i: usize = 0;
    while i < keyvals.len()
        invariant
            i <= keyvals@.len(),
            buf@ == keyval_text(pair_views(keyvals@.take(i as int))),
        decreases keyvals@.len() - i,
    {
        proof {
            reveal_strlit("=");
            reveal_strlit("\n");
            assert(keyvals@.take(i + 1).drop_last() == keyvals@.take(i as int));
            assert(pair_views(keyvals@.take(i + 1)).drop_last() =~= pair_views(keyvals@.take(i as int)));
        }
        buf.append(keyvals[i].0.as_str());
        buf.append("=");
        buf.append(keyvals[i].1.as_str());
        buf.append("\n");
        i = i + 1;
    }
    assert(keyvals@.take(i as int) == keyvals@);
    buf
}

/// What base64 (the standard configuration) decodes `s` to, where it decodes.
pub uninterp spec fn base64_decoded(s: Seq<char>) -> Option<Seq<u8>>;

/// Relies on `base64::decode` (standard configuration).
#[verifier::external_body]
pub(crate) fn decode_base64(s: &str) -> (r: Option<Vec<u8>>)
    ensures
        r matches Some(b) ==> base64_decoded(s@) == Some(b@),
        r is None ==> base64_decoded(s@) is None,
{
    match base64::decode(s) {
        Ok(b) => Some(b),
        Err(_) => None,
    }
}

/// Relies on `std::str::from_utf8`: it accepts exactly well-formed UTF-8.
#[verifier::external_body]
pub(crate) fn utf8_text(b: &Vec<u8>) -> (r: Option<String>)
    ensures
        r is Some <==> valid_utf8(b@),
        r matches Some(t) ==> t@ == decode_utf8(b@),
{
    match std::str::from_utf8(b.as_slice()) {
        Ok(t) => Some(t.to_string()),
        Err(_) => None,
    }
}

pub open spec fn undecodable() -> Seq<char> {
    "Could not decode secret"@
}

pub open spec fn invalid_utf8() -> Seq<char> {
    "Invalid utf-8 data"@
}

pub open spec fn unknown_text() -> Seq<char> {
    "<unknown>"@
}

pub open spec fn bytes_suffix() -> Seq<char> {
    " bytes"@
}

/// The only secret type whose `token` entry is shown in full.
pub open spec fn service_token_type() -> Seq<char> {
    "kubernetes.io/service-account-token"@
}

/// The text shown for secret data once base64 has been tried on it: the size
/// of what it decodes to, or the full decoded text where `reveal` holds.
pub open spec fn secret_shown(reveal: bool, decoded: Option<Seq<u8>>) -> Seq<char> {
    match decoded {
        None => undecodable(),
        Some(b) => if reveal {
            if valid_utf8(b) { decode_utf8(b) } else { invalid_utf8() }
        } else {
            decimal(b.len() as int) + bytes_suffix()
        },
    }
}

/// Whether the entry `key` of a secret-bearing map in `root` is shown in full:
/// a `token` of a service-account-token secret.
pub open spec fn reveals(root: Value, key: Seq<char>) -> bool {
    key == "token"@ && text_at(root, "/type"@) == Some(service_token_type())
}

/// How one entry of a key/value map in `root` is shown. Unflagged maps show
/// text as it is; flagged ones show base64-decoded data under the policy of
/// `secret_shown`. A flagged value that is not text cannot be decoded.
pub open spec fn entry_shown(root: Value, key: Seq<char>, val: Value, secret: bool) -> Seq<char> {
    if secret {
        match val {
            Value::Text(s) => secret_shown(reveals(root, key), base64_decoded(s@)),
            _ => undecodable(),
        }
    } else {
        match val {
            Value::Text(s) => s@,
            _ => unknown_text(),
        }
    }
}

/// Renders secret data from the outcome of base64 decoding.
pub fn show_decoded(reveal: bool, decoded: Option<Vec<u8>>) -> (r: String)
    ensures
        r@ == secret_shown(reveal, match decoded { Some(b) => Some(b@), None => None }),
{
    match decoded {
        None => String::from_str("Could not decode secret"),
        Some(b) => {
            if reveal {
                match utf8_text(&b) {
                    Some(t) => t,
                    None => String::from_str("Invalid utf-8 data"),
                }
            } else {
                let mut r = decimal_text(b.len() as i128);
                r.append(" bytes");
                r
            }
        },
    }
}

/// Renders one entry of a key/value map in `root` (see `entry_shown`).
pub fn show_entry(root: &Value, key: &String, val: &Value, secret: bool) -> (r: String)
    ensures
        r@ == entry_shown(*root, key@, *val, secret),
{
    if secret {
        match val {
            Value::Text(s) => {
                let reveal = text_eq(key.as_str(), "token") && match root.str_at("/type") {
                    Some(t) => text_eq(t.as_str(), "kubernetes.io/service-account-token"),
                    None => false,
                };
                show_decoded(reveal, decode_base64(s.as_str()))
            },
            _ => String::from_str("Could not decode secret"),
        }
    } else {
        match val {
            Value::Text(s) => s.clone(),
            _ => String::from_str("<unknown>"),
        }
    }
}

/// Whether `key` is among `skip`.
pub open spec fn skipped(skip: Seq<String>, key: Seq<char>) -> bool {
    exists|j: int| 0 <= j < skip.len() && skip[j]@ == key
}

/// The lines of a key/value map in `root`: each entry whose key is not in
/// `skip`, with its value as `entry_shown` renders it.
pub open spec fn dump_pairs(
    root: Value,
    entries: Seq<(String, Value)>,
    secret: bool,
    skip: Seq<String>,
) -> Seq<(Seq<char>, Seq<char>)>
    decreases entries.len(),
{
    if entries.len() == 0 {
        Seq::empty()
    } else {
        let rest = dump_pairs(root, entries.drop_last(), secret, skip);
        let (k, v) = entries.last();
        if skipped(skip, k@) {
            rest
        } else {
            rest.push((k@, entry_shown(root, k@, v, secret)))
        }
    }
}

pub open spec fn none_text() -> Seq<char> {
    "<none>"@
}

/// What a key/value dump of the map at `parent` in `root` shows: `<none>`
/// where there is no map there, else its lines.
pub open spec fn keyval_dump(root: Value, parent: Seq<char>, secret: bool, skip: Seq<String>) -> Seq<char> {
    match resolve(root, parent) {
        Some(Value::Object(entries)) => keyval_text(dump_pairs(root, entries@, secret, skip)),
        _ => none_text(),
    }
}

/// Whether `key` is among `skip`.
pub fn is_skipped(skip: &Vec<String>, key: &String) -> (r: bool)
    ensures
        r == skipped(skip@, key@),
{
    let mut j: usize = 0;
    while j < skip.len()
        invariant
            j <= skip@.len(),
            forall|k: int| 0 <= k < j ==> skip@[k]@ != key@,
        decreases skip@.len() - j,
    {
        if skip[j].eq(key) {
            return true;
        }
        j = j + 1;
    }
    false
}

/// Dumps the key/value map at `parent` in `root`, one line per entry not in
/// `skip`; secret-bearing maps go through the redaction policy.
pub fn keyval_str(root: &Value, parent: &str, secret_vals: bool, skip: &Vec<String>) -> (r: String)
    ensures
        r@ == keyval_dump(*root, parent@, secret_vals, skip@),
{
    match root.pointer(parent) {
        Some(Value::Object(entries)) => {
            let mut pairs: Vec<(String, String)> = Vec::new();
            let mut i: usize = 0;
            while i < entries.len()
                invariant
                    i <= entries@.len(),
                    pair_views(pairs@) == dump_pairs(*root, entries@.take(i as int), secret_vals, skip@),
                decreases entries@.len() - i,
            {
                assert(entries@.take(i + 1).drop_last() == entries@.take(i as int));
                let key = &entries[i].0;
                if !is_skipped(skip, key) {
                    let shown = show_entry(root, key, &entries[i].1, secret_vals);
                    let ghost before = pairs@;
                    pairs.push((key.clone(), shown));
                    assert(pair_views(pairs@) =~= pair_views(before).push((key@, shown@)));
                }
                i = i + 1;
            }
            assert(entries@.take(i as int) == entries@);
            pairs_text(&pairs)
        },
        _ => String::from_str("<none>"),
    }
}

/// The redaction policy on one entry of a secret-bearing map: a key other
/// than `token` with valid base64 shows only the size of the data; data that
/// is not valid base64 shows the decode-failure text; the `token` of a
/// service-account-token secret shows the decoded text itself.
pub proof fn lemma_redaction(root: Value, key: Seq<char>, data: String)
    ensures
        key != "token"@ ==> (base64_decoded(data@) matches Some(b) ==> entry_shown(root, key, Value::Text(data), true)
            == decimal(b.len() as int) + " bytes"@),
        base64_decoded(data@) is None ==> entry_shown(root, key, Value::Text(data), true) == undecodable(),
        key == "token"@ && text_at(root, "/type"@) == Some(service_token_type()) ==> (base64_decoded(data@) matches Some(b)
            ==> (valid_utf8(b) ==> entry_shown(root, key, Value::Text(data), true) == decode_utf8(b))),
{
}

/// Each entry not in `skip` has its line among the lines of a dump.
pub proof fn lemma_dump_has_entry(root: Value, entries: Seq<(String, Value)>, secret: bool, skip: Seq<String>, k: int)
    requires
        0 <= k < entries.len(),
        !skipped(skip, entries[k].0@),
    ensures
        exists|j: int| 0 <= j < dump_pairs(root, entries, secret, skip).len() && #[trigger] dump_pairs(root, entries, secret, skip)[j]
            == (entries[k].0@, entry_shown(root, entries[k].0@, entries[k].1, secret)),
    decreases entries.len(),
{
    let d = dump_pairs(root, entries, secret, skip);
    let line = (entries[k].0@, entry_shown(root, entries[k].0@, entries[k].1, secret));
    if k == entries.len() - 1 {
        assert(d[d.len() - 1] == line);
    } else {
        let rest = entries.drop_last();
        assert(rest[k] == entries[k]);
        lemma_dump_has_entry(root, rest, secret, skip, k);
        let dr = dump_pairs(root, rest, secret, skip);
        let j = choose|j: int| 0 <= j < dr.len() && #[trigger] dr[j] == line;
        assert(d[j] == line);
    }
}

/// The redaction policy on the output of a key/value dump of a
/// secret-bearing map: the line of a key other than `token` with valid
/// base64 shows only the size of the data; data that is not valid base64
/// shows the decode-failure text; the `token` of a service-account-token
/// secret shows the decoded text itself.
pub proof fn lemma_dump_redaction(root: Value, parent: Seq<char>, entries: Vec<(String, Value)>, skip: Seq<String>, k: int, data: String)
    requires
        resolve(root, parent) == Some(Value::Object(entries)),
        0 <= k < entries@.len(),
        !skipped(skip, entries@[k].0@),
        entries@[k].1 == Value::Text(data),
    ensures
        keyval_dump(root, parent, true, skip) == keyval_text(dump_pairs(root, entries@, true, skip)),
        exists|j: int| 0 <= j < dump_pairs(root, entries@, true, skip).len() && #[trigger] dump_pairs(root, entries@, true, skip)[j]
            == (entries@[k].0@, entry_shown(root, entries@[k].0@, Value::Text(data), true)),
        entries@[k].0@ != "token"@ ==> (base64_decoded(data@) matches Some(b) ==> entry_shown(root, entries@[k].0@, Value::Text(data), true)
            == decimal(b.len() as int) + " bytes"@),
        base64_decoded(data@) is None ==> entry_shown(root, entries@[k].0@, Value::Text(data), true) == undecodable(),
        entries@[k].0@ == "token"@ && text_at(root, "/type"@) == Some(service_token_type()) ==> (base64_decoded(data@) matches Some(b)
            ==> (valid_utf8(b) ==> entry_shown(root, entries@[k].0@, Value::Text(data), true) == decode_utf8(b))),
{
    lemma_dump_has_entry(root, entries@, true, skip, k);
    lemma_redaction(root, entries@[k].0@, data);
}

} // verus!
