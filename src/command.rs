//! Helpers of the list commands: column maps, sort selection, and input
//! checks.

use vstd::prelude::*;
use crate::list::SortFunc;
use crate::text::{digits_value, is_digit, text_eq};
use crate::value::texts;

verus! {

/// The value that `map` gives `key`: that of its first entry for `key`.
pub open spec fn mapped(map: Seq<(String, String)>, key: Seq<char>) -> Option<Seq<char>>
    decreases map.len(),
{
    if map.len() == 0 {
        None
    } else if map[0].0@ == key {
        Some(map[0].1@)
    } else {
        mapped(map.drop_first(), key)
    }
}

/// Looks `key` up in an association list (see `mapped`).
pub fn mapped_val(key: &str, map: &Vec<(String, String)>) -> (r: Option<String>)
    ensures
        r matches Some(v) ==> mapped(map@, key@) == Some(v@),
        r is None ==> mapped(map@, key@) is None,
{
    let mut i: usize = 0;
    assert(map@.skip(0) == map@);
    while i < map.len()
        invariant
            i <= map@.len(),
            mapped(map@, key@) == mapped(map@.skip(i as int), key@),
        decreases map@.len() - i,
    {
        assert(map@.skip(i as int)[0] == map@[i as int]);
        assert(map@.skip(i as int).drop_first() == map@.skip(i + 1));
        if text_eq(map[i].0.as_str(), key) {
            return Some(map[i].1.clone());
        }
        i = i + 1;
    }
    None
}

/// What `char::to_uppercase` turns a character into.
pub uninterp spec fn upper_of(c: char) -> Seq<char>;

/// Relies on `char::to_uppercase`: the upper-case form of one character.
#[verifier::external_body]
fn char_upper(c: char) -> (r: String)
    ensures
        r@ == upper_of(c),
{
    c.to_uppercase().collect::<String>()
}

/// `s` with its first character in upper case.
pub open spec fn uppercase_first_text(s: Seq<char>) -> Seq<char> {
    if s.len() == 0 {
        Seq::empty()
    } else {
        upper_of(s[0]) + s.drop_first()
    }
}

/// Upper-cases the first character of `s`.
pub fn uppercase_first(s: &str) -> (r: String)
    ensures
        r@ == uppercase_first_text(s@),
{
    let n = s.unicode_len();
    if n == 0 {
        return String::new();
    }
    let mut r = char_upper(s.get_char(0));
    let rest = s.substring_char(1, n);
    r.append(rest);
    assert(s@.subrange(1, n as int) == s@.drop_first());
    r
}

/// The digits of an unsigned number's text, without an optional leading `+`.
pub open spec fn unsigned_digits(s: Seq<char>) -> Seq<char> {
    if s.len() > 0 && s[0] == '+' {
        s.drop_first()
    } else {
        s
    }
}

/// Whether `s` is the decimal text of a `u32`: an optional `+`, then at
/// least one digit, with a value that fits.
pub open spec fn is_u32_text(s: Seq<char>) -> bool {
    let d = unsigned_digits(s);
    &&& d.len() > 0
    &&& forall|i: int| 0 <= i < d.len() ==> is_digit(#[trigger] d[i])
    &&& digits_value(d) <= u32::MAX
}

/// The text of the error that `u32`'s `FromStr` gives for `s`.
pub uninterp spec fn u32_error_text(s: Seq<char>) -> Seq<char>;

/// Relies on `u32`'s `FromStr`: it accepts exactly the texts of
/// `is_u32_text`, with their value; otherwise the `Display` of its
/// `ParseIntError` says why not.
#[verifier::external_body]
fn parse_u32(s: &str) -> (r: Result<u32, String>)
    ensures
        r is Ok <==> is_u32_text(s@),
        r matches Ok(n) ==> n as nat == digits_value(unsigned_digits(s@)),
        r matches Err(e) ==> e@ == u32_error_text(s@),
{
    match s.parse::<u32>() {
        Ok(n) => Ok(n),
        Err(e) => Err(e.to_string()),
    }
}

/// Checks that `s` is a `u32`; the error is the parse error's text.
pub fn valid_u32(s: String) -> (r: Result<(), String>)
    ensures
        r is Ok <==> is_u32_text(s@),
        r matches Err(e) ==> e@ == u32_error_text(s@),
{
    match parse_u32(s.as_str()) {
        Ok(_) => Ok(()),
        Err(e) => Err(e),
    }
}

/// Whether `flags` holds `f`.
pub open spec fn has_flag(flags: Seq<Seq<char>>, f: Seq<char>) -> bool {
    exists|i: int| 0 <= i < flags.len() && flags[i] == f
}

fn contains_text(flags: &Vec<String>, f: &str) -> (r: bool)
    ensures
        r == has_flag(texts(flags@), f@),
{
    let mut i: usize = 0;
    while i < flags.len()
        invariant
            i <= flags@.len(),
            forall|k: int| 0 <= k < i ==> (#[trigger] flags@[k])@ != f@,
        decreases flags@.len() - i,
    {
        if text_eq(flags[i].as_str(), f) {
            assert(texts(flags@)[i as int] == f@);
            return true;
        }
        i = i + 1;
    }
    assert forall|k: int| 0 <= k < texts(flags@).len() implies texts(flags@)[k] != f@ by {
        assert(texts(flags@)[k] == flags@[k]@);
    }
    false
}

/// The columns of a list: the base columns, then the column of each entry of
/// the extra map whose flag is among `flags` (in the map's order), then
/// `Labels` where labels are asked for.
pub open spec fn extra_columns(cols: Seq<Seq<char>>, labels: bool, flags: Seq<Seq<char>>, extra: Seq<(String, String)>) -> Seq<Seq<char>>
    decreases extra.len(),
{
    if extra.len() == 0 {
        if labels { cols.push("Labels"@) } else { cols }
    } else {
        let next = if has_flag(flags, extra[0].0@) { cols.push(extra[0].1@) } else { cols };
        extra_columns(next, labels, flags, extra.drop_first())
    }
}

/// Adds the extra columns that `flags` ask for (see `extra_columns`).
pub fn add_extra_cols(cols: &mut Vec<String>, labels: bool, flags: &Vec<String>, extra: &Vec<(String, String)>)
    ensures
        texts(final(cols)@) == extra_columns(texts(old(cols)@), labels, texts(flags@), extra@),
{
    let mut i: usize = 0;
    assert(extra@.skip(0) == extra@);
    while i < extra.len()
        invariant
            i <= extra@.len(),
            extra_columns(texts(old(cols)@), labels, texts(flags@), extra@)
                == extra_columns(texts(cols@), labels, texts(flags@), extra@.skip(i as int)),
        decreases extra@.len() - i,
    {
        assert(extra@.skip(i as int)[0] == extra@[i as int]);
        assert(extra@.skip(i as int).drop_first() == extra@.skip(i + 1));
        if contains_text(flags, extra[i].0.as_str()) {
            let ghost before = cols@;
            cols.push(extra[i].1.clone());
            assert(texts(cols@) =~= texts(before).push(extra@[i as int].1@));
        }
        i = i + 1;
    }
    if labels {
        let ghost before = cols@;
        cols.push(String::from_str("Labels"));
        assert(texts(cols@) =~= texts(before).push("Labels"@));
    }
}

/// Why the list settings cannot be made.
pub enum SettingsError {
    /// The sort key names no sortable column.
    UnknownSortKey(String),
}

/// The columns and sort of a list command.
pub struct ListSettings {
    pub cols: Vec<String>,
    pub sort: Option<SortFunc>,
}

/// The sort a lower-cased sort key selects: `age` sorts by age before rows
/// are built; another key names a column through `col_map`, or else through
/// the extra map (whose flag is then switched on); no other key is valid.
pub open spec fn sort_choice(key: Seq<char>, col_map: Seq<(String, String)>, extra: Seq<(String, String)>) -> Option<Option<Seq<char>>> {
    if key == "age"@ {
        Some(None)
    } else if mapped(col_map, key) is Some {
        Some(mapped(col_map, key))
    } else if mapped(extra, key) is Some {
        Some(mapped(extra, key))
    } else {
        None
    }
}

/// What `str::to_lowercase` turns a text into.
pub uninterp spec fn lower_of(s: Seq<char>) -> Seq<char>;

/// Relies on `str::to_lowercase`: the lower-case form of the text.
#[verifier::external_body]
fn lowercase(s: &str) -> (r: String)
    ensures
        r@ == lower_of(s@),
{
    s.to_lowercase()
}

/// The flags of extra columns in force: those asked for, then the sort key
/// where it names an extra column, then `namespace` where the command runs
/// across all namespaces and the extra map has that flag.
pub open spec fn flags_in_force(
    show: Seq<Seq<char>>,
    key: Option<Seq<char>>,
    col_map: Seq<(String, String)>,
    extra: Seq<(String, String)>,
    all_namespaces: bool,
) -> Seq<Seq<char>> {
    let with_key = match key {
        Some(k) => if k != "age"@ && mapped(col_map, k) is None && mapped(extra, k) is Some {
            show.push(k)
        } else {
            show
        },
        None => show,
    };
    if all_namespaces && mapped(extra, "namespace"@) is Some {
        with_key.push("namespace"@)
    } else {
        with_key
    }
}

/// Works out the columns and sort of a list command from its options: the
/// sort key (matched in lower case), the maps of sortable columns, the flags
/// of extra columns asked for, whether the command runs across all
/// namespaces, and whether labels are shown.
pub fn list_settings(
    base_cols: &Vec<String>,
    sort_key: Option<&str>,
    col_map: &Vec<(String, String)>,
    extra: Option<&Vec<(String, String)>>,
    show: &Vec<String>,
    all_namespaces: bool,
    labels: bool,
) -> (r: Result<ListSettings, SettingsError>)
    ensures
        r is Err <==> (sort_key matches Some(k) && sort_choice(
            lower_of(k@),
            col_map@,
            match extra { Some(e) => e@, None => Seq::empty() },
        ) is None),
        r matches Ok(st) ==> match sort_key {
            None => st.sort is None,
            Some(k) => match sort_choice(lower_of(k@), col_map@, match extra { Some(e) => e@, None => Seq::empty() }) {
                Some(None) => st.sort matches Some(SortFunc::Pre),
                Some(Some(c)) => st.sort matches Some(SortFunc::Post(name)) && name@ == c,
                None => false,
            },
        },
        extra is None ==> (r matches Ok(st) ==> texts(st.cols@) == texts(base_cols@)),
        extra matches Some(e) ==> (r matches Ok(st) ==> texts(st.cols@) == extra_columns(
            texts(base_cols@),
            labels,
            flags_in_force(texts(show@), match sort_key { Some(k) => Some(lower_of(k@)), None => None }, col_map@, e@, all_namespaces),
            e@,
        )),
{
    let mut flags: Vec<String> = Vec::new();
    let mut i: usize = 0;
    while i < show.len()
        invariant
            i <= show@.len(),
            texts(flags@) == texts(show@.take(i as int)),
        decreases show@.len() - i,
    {
        let ghost before = flags@;
        flags.push(show[i].clone());
        assert(show@.take(i + 1) == show@.take(i as int).push(show@[i as int]));
        assert(texts(show@.take(i + 1)) =~= texts(show@.take(i as int)).push(show@[i as int]@));
        assert(texts(flags@) =~= texts(before).push(show@[i as int]@));
        i = i + 1;
    }
    assert(show@.take(i as int) == show@);
    let empty: Vec<(String, String)> = Vec::new();
    let ecm: &Vec<(String, String)> = match extra {
        Some(e) => e,
        None => &empty,
    };
    let sort = match sort_key {
        None => None,
        Some(k) => {
            let key = lowercase(k);
            if text_eq(key.as_str(), "age") {
                Some(SortFunc::Pre)
            } else {
                match mapped_val(key.as_str(), col_map) {
                    Some(c) => Some(SortFunc::Post(c)),
                    None => match mapped_val(key.as_str(), ecm) {
                        Some(c) => {
                            let ghost before = flags@;
                            let ghost kv = key@;
                            flags.push(key);
                            assert(texts(flags@) =~= texts(before).push(kv));
                            Some(SortFunc::Post(c))
                        },
                        None => {
                            return Err(SettingsError::UnknownSortKey(key));
                        },
                    },
                }
            }
        },
    };
    let mut cols: Vec<String> = Vec::new();
    let mut j: usize = 0;
    while j < base_cols.len()
        invariant
            j <= base_cols@.len(),
            texts(cols@) == texts(base_cols@.take(j as int)),
        decreases base_cols@.len() - j,
    {
        let ghost before = cols@;
        cols.push(base_cols[j].clone());
        assert(base_cols@.take(j + 1) == base_cols@.take(j as int).push(base_cols@[j as int]));
        assert(texts(base_cols@.take(j + 1)) =~= texts(base_cols@.take(j as int)).push(base_cols@[j as int]@));
        assert(texts(cols@) =~= texts(before).push(base_cols@[j as int]@));
        j = j + 1;
    }
    assert(base_cols@.take(j as int) == base_cols@);
    if let Some(e) = extra {
        if all_namespaces && mapped_val("namespace", e).is_some() {
            let ghost before = flags@;
            flags.push(String::from_str("namespace"));
            assert(texts(flags@) =~= texts(before).push("namespace"@));
        }
        add_extra_cols(&mut cols, labels, &flags, e);
    }
    Ok(ListSettings { cols, sort })
}

/// How many ASCII digits `s` holds.
pub open spec fn digit_count(s: Seq<char>) -> nat
    decreases s.len(),
{
    if s.len() == 0 {
        0
    } else {
        digit_count(s.drop_last()) + if is_digit(s.last()) { 1nat } else { 0nat }
    }
}

/// The most digits a duration may hold. With at most this many digits in
/// all, every term together stays far below `u64::MAX` seconds (a year is
/// 31 557 600 seconds), so the total cannot overflow.
pub const MAX_DURATION_DIGITS: usize = 11;

/// Counts the ASCII digits of `s`.
pub fn count_digits(s: &str) -> (r: usize)
    ensures
        r == digit_count(s@),
{
    let n = s.unicode_len();
    let mut count: usize = 0;
    let mut i: usize = 0;
    while i < n
        invariant
            n == s@.len(),
            i <= n,
            count == digit_count(s@.take(i as int)),
            count <= i,
        decreases n - i,
    {
        let c = s.get_char(i);
        assert(s@.take(i + 1).drop_last() == s@.take(i as int));
        if '0' <= c && c <= '9' {
            count = count + 1;
        }
        i = i + 1;
    }
    assert(s@.take(n as int) == s@);
    count
}

/// Whether `humantime::parse_duration` accepts the text.
pub uninterp spec fn duration_valid(s: Seq<char>) -> bool;

/// The text of the error that `humantime::parse_duration` gives for `s`.
pub uninterp spec fn duration_error_text(s: Seq<char>) -> Seq<char>;

/// Relies on `humantime::parse_duration`: whether the text is a duration,
/// and if not, the `Display` of its error. Its total is built with
/// `Duration::new`, which panics where the seconds overflow; a text of at
/// most `MAX_DURATION_DIGITS` digits cannot reach that.
#[verifier::external_body]
fn check_duration(s: &str) -> (r: Result<(), String>)
    requires
        digit_count(s@) <= MAX_DURATION_DIGITS,
    ensures
        r is Ok <==> duration_valid(s@),
        r matches Err(e) ==> e@ == duration_error_text(s@),
{
    match humantime::parse_duration(s) {
        Ok(_) => Ok(()),
        Err(e) => Err(e.to_string()),
    }
}

/// The error for a duration with more than `MAX_DURATION_DIGITS` digits.
pub open spec fn too_many_digits_text() -> Seq<char> {
    "duration has too many digits"@
}

/// Checks that `s` is a duration such as `2h 30m`, of at most
/// `MAX_DURATION_DIGITS` digits; the error says why not.
pub fn valid_duration(s: String) -> (r: Result<(), String>)
    ensures
        r is Ok <==> (digit_count(s@) <= MAX_DURATION_DIGITS && duration_valid(s@)),
        digit_count(s@) > MAX_DURATION_DIGITS ==> (r matches Err(e) && e@ == too_many_digits_text()),
        digit_count(s@) <= MAX_DURATION_DIGITS ==> (r matches Err(e) ==> e@ == duration_error_text(s@)),
{
    if count_digits(s.as_str()) > MAX_DURATION_DIGITS {
        return Err(String::from_str("duration has too many digits"));
    }
    check_duration(s.as_str())
}

/// Whether `chrono::DateTime::parse_from_rfc3339` accepts the text.
pub uninterp spec fn rfc3339_valid(s: Seq<char>) -> bool;

/// The text of the error that `chrono::DateTime::parse_from_rfc3339` gives
/// for `s`.
pub uninterp spec fn rfc3339_error_text(s: Seq<char>) -> Seq<char>;

/// Relies on `chrono::DateTime::parse_from_rfc3339`: whether the text is an
/// RFC 3339 date, and if not, the `Display` of its error.
#[verifier::external_body]
fn check_rfc3339(s: &str) -> (r: Result<(), String>)
    ensures
        r is Ok <==> rfc3339_valid(s@),
        r matches Err(e) ==> e@ == rfc3339_error_text(s@),
{
    match chrono::DateTime::parse_from_rfc3339(s) {
        Ok(_) => Ok(()),
        Err(e) => Err(e.to_string()),
    }
}

/// Checks that `s` is an RFC 3339 date; the error is the parse error's text.
pub fn valid_date(s: String) -> (r: Result<(), String>)
    ensures
        r is Ok <==> rfc3339_valid(s@),
        r matches Err(e) ==> e@ == rfc3339_error_text(s@),
{
    check_rfc3339(s.as_str())
}

} // verus!
