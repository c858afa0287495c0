//! The uniform structured value that resources are given in.

use vstd::prelude::*;
use crate::text::{digits_value, is_digit, push_char};

verus! {

/// One node of a resource tree. Object entries keep the order they were given in.
pub enum Value {
    Null,
    Bool(bool),
    /// A negative integer.
    Int(i64),
    /// A non-negative integer.
    UInt(u64),
    /// A number that is not an integer, held as its textual form.
    Real(String),
    Text(String),
    Array(Vec<Value>),
    Object(Vec<(String, Value)>),
}

/// The value of the first entry whose key is `key`.
pub open spec fn entry_of(entries: Seq<(String, Value)>, key: Seq<char>) -> Option<Value>
    decreases entries.len(),
{
    if entries.len() == 0 {
        None
    } else if entries[0].0@ == key {
        Some(entries[0].1)
    } else {
        entry_of(entries.drop_first(), key)
    }
}

/// The member named `key` of an object; nothing for any other value.
pub open spec fn child(v: Value, key: Seq<char>) -> Option<Value> {
    match v {
        Value::Object(entries) => entry_of(entries@, key),
        _ => None,
    }
}

/// The array position that a path token names: decimal digits, without a
/// leading zero unless the token is `0`.
pub open spec fn array_index(tok: Seq<char>) -> Option<nat> {
    if tok.len() > 0 && (forall|i: int| 0 <= i < tok.len() ==> is_digit(#[trigger] tok[i])) && !(tok[0] == '0'
        && tok.len() != 1) {
        Some(digits_value(tok))
    } else {
        None
    }
}

/// One step down a path: the member of an object named `tok`, or the
/// element of an array at the position `tok` names.
pub open spec fn step(v: Value, tok: Seq<char>) -> Option<Value> {
    match v {
        Value::Object(entries) => entry_of(entries@, tok),
        Value::Array(items) => match array_index(tok) {
            Some(i) => if i < items@.len() {
                Some(items@[i as int])
            } else {
                None
            },
            None => None,
        },
        _ => None,
    }
}

/// `s` with every `~` followed by `code` replaced by `out`, scanning from
/// the left.
pub open spec fn unescape_with(s: Seq<char>, code: char, out: char) -> Seq<char>
    decreases s.len(),
{
    if s.len() < 2 {
        s
    } else if s[0] == '~' && s[1] == code {
        seq![out] + unescape_with(s.skip(2), code, out)
    } else {
        seq![s[0]] + unescape_with(s.drop_first(), code, out)
    }
}

/// The key a path token stands for: `~1` for `/`, then `~0` for `~`.
pub open spec fn unescape(tok: Seq<char>) -> Seq<char> {
    unescape_with(unescape_with(tok, '1', '/'), '0', '~')
}

/// Follows a sequence of path tokens downward from `v`.
pub open spec fn lookup(v: Value, keys: Seq<Seq<char>>) -> Option<Value>
    decreases keys.len(),
{
    if keys.len() == 0 {
        Some(v)
    } else {
        match step(v, unescape(keys[0])) {
            Some(c) => lookup(c, keys.drop_first()),
            None => None,
        }
    }
}

/// The pieces of `s` between `sep` separators; always at least one piece.
pub open spec fn split_by(s: Seq<char>, sep: char) -> Seq<Seq<char>>
    decreases s.len(),
{
    if s.len() == 0 {
        seq![Seq::empty()]
    } else {
        let prev = split_by(s.drop_last(), sep);
        if s.last() == sep {
            prev.push(Seq::empty())
        } else {
            prev.update(prev.len() - 1, prev.last().push(s.last()))
        }
    }
}

/// Splitting always gives at least one piece.
pub proof fn lemma_split_nonempty(s: Seq<char>, sep: char)
    ensures
        split_by(s, sep).len() >= 1,
    decreases s.len(),
{
    if s.len() > 0 {
        lemma_split_nonempty(s.drop_last(), sep);
    }
}

/// What a JSON pointer names in `v`: the empty path names `v` itself; a
/// path of the form `/t1/t2/...` names what the tokens reach in turn (see
/// `step` and `unescape`); any other path names nothing.
pub open spec fn resolve(v: Value, path: Seq<char>) -> Option<Value> {
    if path.len() == 0 {
        Some(v)
    } else if path[0] != '/' {
        None
    } else {
        lookup(v, split_by(path, '/').drop_first())
    }
}

/// The string at `path`, if that is a string.
pub open spec fn text_at(v: Value, path: Seq<char>) -> Option<Seq<char>> {
    match resolve(v, path) {
        Some(Value::Text(s)) => Some(s@),
        _ => None,
    }
}

/// The unsigned integer at `path`, if that is one.
pub open spec fn uint_at(v: Value, path: Seq<char>) -> Option<u64> {
    match resolve(v, path) {
        Some(Value::UInt(n)) => Some(n),
        _ => None,
    }
}

/// The views of a sequence of strings.
pub open spec fn texts(v: Seq<String>) -> Seq<Seq<char>> {
    v.map_values(|s: String| s@)
}

/// Splits text into the pieces between `sep` separators.
pub fn split_text(path: &str, sep: char) -> (r: Vec<String>)
    ensures
        texts(r@) == split_by(path@, sep),
{
    let n = path.unicode_len();
    let mut done: Vec<String> = Vec::new();
    let mut cur = String::new();
    let mut i: usize = 0;
    assert(texts(done@).push(cur@) =~= split_by(path@.take(0), sep));
    while i < n
        invariant
            n == path@.len(),
            i <= n,
            texts(done@).push(cur@) == split_by(path@.take(i as int), sep),
        decreases n - i,
    {
        let c = path.get_char(i);
        proof {
            lemma_split_nonempty(path@.take(i as int), sep);
            assert(path@.take(i + 1).drop_last() == path@.take(i as int));
            assert(path@.take(i + 1).last() == c);
        }
        if c == sep {
            done.push(cur);
            cur = String::new();
            assert(texts(done@).push(cur@) =~= split_by(path@.take(i + 1), sep));
        } else {
            push_char(&mut cur, c);
            assert(texts(done@).push(cur@) =~= split_by(path@.take(i + 1), sep));
        }
        i = i + 1;
    }
    assert(path@.take(n as int) == path@);
    let ghost before = done@;
    done.push(cur);
    assert(texts(done@) =~= texts(before).push(cur@));
    done
}

/// Replaces each `~` followed by `code` with `out` (see `unescape_with`).
fn replace_escape(s: &str, code: char, out: char) -> (r: String)
    ensures
        r@ == unescape_with(s@, code, out),
{
    let n = s.unicode_len();
    let mut r = String::new();
    let mut i: usize = 0;
    assert(s@.skip(0) == s@);
    while i < n
        invariant
            n == s@.len(),
            i <= n,
            r@ + unescape_with(s@.skip(i as int), code, out) == unescape_with(s@, code, out),
        decreases n - i,
    {
        let c = s.get_char(i);
        let ghost rest = s@.skip(i as int);
        assert(rest[0] == c);
        if c == '~' && i + 1 < n && s.get_char(i + 1) == code {
            assert(rest[1] == code);
            assert(rest.skip(2) == s@.skip(i + 2));
            push_char(&mut r, out);
            assert(r@ + unescape_with(s@.skip(i + 2), code, out) =~= unescape_with(s@, code, out));
            i = i + 2;
        } else {
            assert(rest.drop_first() == s@.skip(i + 1));
            push_char(&mut r, c);
            if i + 1 < n {
                assert(unescape_with(rest, code, out) == seq![c] + unescape_with(s@.skip(i + 1), code, out));
            } else {
                assert(rest =~= seq![c]);
                assert(s@.skip(i + 1).len() == 0);
                assert(unescape_with(s@.skip(i + 1), code, out) == s@.skip(i + 1));
            }
            assert(r@ + unescape_with(s@.skip(i + 1), code, out) =~= unescape_with(s@, code, out));
            i = i + 1;
        }
    }
    assert(s@.skip(i as int).len() == 0);
    assert(r@ =~= r@ + unescape_with(s@.skip(i as int), code, out));
    r
}

/// The key a path token stands for (see `unescape`).
pub fn unescape_token(tok: &str) -> (r: String)
    ensures
        r@ == unescape(tok@),
{
    let a = replace_escape(tok, '1', '/');
    replace_escape(a.as_str(), '0', '~')
}

/// The array position a path token names (see `array_index`), where it is
/// below `len`.
fn parse_index(tok: &str, len: usize) -> (r: Option<usize>)
    ensures
        r matches Some(i) ==> array_index(tok@) == Some(i as nat) && i < len,
        r is None ==> !(array_index(tok@) matches Some(i) && i < len),
{
    let n = tok.unicode_len();
    if n == 0 || len == 0 {
        return None;
    }
    if tok.get_char(0) == '0' && n != 1 {
        return None;
    }
    let mut acc: u128 = 0;
    let mut i: usize = 0;
    while i < n
        invariant
            n == tok@.len(),
            i <= n,
            n > 0,
            acc == digits_value(tok@.take(i as int)),
            acc < len,
            forall|k: int| 0 <= k < i ==> is_digit(#[trigger] tok@[k]),
        decreases n - i,
    {
        let c = tok.get_char(i);
        if !('0' <= c && c <= '9') {
            assert(!is_digit(tok@[i as int]));
            return None;
        }
        assert(tok@.take(i + 1).drop_last() == tok@.take(i as int));
        acc = acc * 10 + (c as u32 - '0' as u32) as u128;
        if acc >= len as u128 {
            proof {
                if forall|k: int| 0 <= k < tok@.len() ==> is_digit(#[trigger] tok@[k]) {
                    lemma_digits_grow(tok@, (i + 1) as int);
                }
            }
            return None;
        }
        i = i + 1;
    }
    assert(tok@.take(n as int) == tok@);
    Some(acc as usize)
}

/// The value of a string of digits is at least that of any prefix.
proof fn lemma_digits_grow(s: Seq<char>, k: int)
    requires
        0 <= k <= s.len(),
        forall|i: int| 0 <= i < s.len() ==> is_digit(#[trigger] s[i]),
    ensures
        digits_value(s) >= digits_value(s.take(k)),
    decreases s.len() - k,
{
    if k < s.len() {
        lemma_digits_grow(s, k + 1);
        assert(s.take(k + 1).drop_last() == s.take(k));
    } else {
        assert(s.take(k) == s);
    }
}

impl Value {
    /// The member named `key`, if `self` is an object that has one.
    pub fn get(&self, key: &String) -> (r: Option<&Value>)
        ensures
            r matches Some(c) ==> child(*self, key@) == Some(*c),
            r is None ==> child(*self, key@) is None,
    {
        match self {
            Value::Object(entries) => {
                let mut i: usize = 0;
                assert(child(*self, key@) == entry_of(entries@, key@));
                assert(entries@.skip(0) == entries@);
                while i < entries.len()
                    invariant
                        i <= entries@.len(),
                        entry_of(entries@, key@) == entry_of(entries@.skip(i as int), key@),
                        child(*self, key@) == entry_of(entries@, key@),
                    decreases entries@.len() - i,
                {
                    assert(entries@.skip(i as int).drop_first() == entries@.skip(i + 1));
                    assert(entries@.skip(i as int)[0] == entries@[i as int]);
                    if entries[i].0.eq(key) {
                        assert(entry_of(entries@.skip(i as int), key@) == Some(entries@[i as int].1));
                        return Some(&entries[i].1);
                    }
                    i = i + 1;
                }
                None
            },
            _ => None,
        }
    }

    /// One step down a path (see `step`).
    pub fn step(&self, tok: &String) -> (r: Option<&Value>)
        ensures
            r matches Some(c) ==> step(*self, tok@) == Some(*c),
            r is None ==> step(*self, tok@) is None,
    {
        match self {
            Value::Object(_) => self.get(tok),
            Value::Array(items) => match parse_index(tok.as_str(), items.len()) {
                Some(i) => Some(&items[i]),
                None => None,
            },
            _ => None,
        }
    }

    /// The value that `path` names (see `resolve`).
    pub fn pointer(&self, path: &str) -> (r: Option<&Value>)
        ensures
            r matches Some(c) ==> resolve(*self, path@) == Some(*c),
            r is None ==> resolve(*self, path@) is None,
    {
        let n = path.unicode_len();
        if n == 0 {
            return Some(self);
        }
        if path.get_char(0) != '/' {
            return None;
        }
        let keys = split_text(path, '/');
        let ghost ks = texts(keys@);
        assert(resolve(*self, path@) == lookup(*self, ks.drop_first()));
        let mut cur: &Value = self;
        let mut i: usize = 1;
        proof {
            lemma_split_nonempty(path@, '/');
        }
        while i < keys.len()
            invariant
                ks == texts(keys@),
                1 <= i <= keys@.len(),
                resolve(*self, path@) == lookup(*self, ks.drop_first()),
                lookup(*self, ks.drop_first()) == lookup(*cur, ks.skip(i as int)),
            decreases keys@.len() - i,
        {
            assert(ks.skip(i as int)[0] == keys@[i as int]@);
            assert(ks.skip(i as int).drop_first() == ks.skip(i + 1));
            let tok = unescape_token(keys[i].as_str());
            match cur.step(&tok) {
                Some(c) => {
                    cur = c;
                },
                None => {
                    assert(lookup(*cur, ks.skip(i as int)) is None);
                    return None;
                },
            }
            i = i + 1;
        }
        assert(ks.skip(i as int).len() == 0);
        Some(cur)
    }

    /// The string at `path`, if that is a string.
    pub fn str_at(&self, path: &str) -> (r: Option<&String>)
        ensures
            r matches Some(s) ==> text_at(*self, path@) == Some(s@),
            r is None ==> text_at(*self, path@) is None,
    {
        match self.pointer(path) {
            Some(Value::Text(s)) => Some(s),
            _ => None,
        }
    }

    /// The unsigned integer at `path`, if that is one.
    pub fn u64_at(&self, path: &str) -> (r: Option<u64>)
        ensures
            r == uint_at(*self, path@),
    {
        match self.pointer(path) {
            Some(Value::UInt(n)) => Some(*n),
            _ => None,
        }
    }
}

} // verus!
