//! A small JSON document model with a canonical compact encoding.
//!
//! Values are built by the library (trace payloads, evaluation contexts,
//! proofs) and encoded to bytes for hashing. The encoding writes members in
//! the order they are stored and escapes strings the way compact JSON
//! writers do.
use vstd::prelude::*;
use vstd::utf8::encode_utf8;

verus! {

broadcast use vstd::std_specs::vec::group_vec_axioms, vstd::seq::group_seq_axioms;

/// A JSON value. Numbers are integers.
#[derive(Debug)]
pub enum JsonValue {
    Null,
    Bool(bool),
    Int(i64),
    Str(String),
    Array(Vec<JsonValue>),
    Object(Vec<(String, JsonValue)>),
}

/// UTF-8 bytes of a text.
pub open spec fn utf8(s: Seq<char>) -> Seq<u8> {
    encode_utf8(s)
}

/// Lower-case hexadecimal digit for a nibble.
pub open spec fn hex_digit(n: int) -> u8 {
    if n < 10 {
        (48 + n) as u8
    } else {
        (87 + n) as u8
    }
}

/// How one byte of a string's UTF-8 form appears inside a JSON string literal.
pub open spec fn escape_byte(b: u8) -> Seq<u8> {
    if b == 0x22 {
        seq![0x5cu8, 0x22u8]
    } else if b == 0x5c {
        seq![0x5cu8, 0x5cu8]
    } else if b == 0x0a {
        seq![0x5cu8, 0x6eu8]
    } else if b == 0x0d {
        seq![0x5cu8, 0x72u8]
    } else if b == 0x09 {
        seq![0x5cu8, 0x74u8]
    } else if b == 0x08 {
        seq![0x5cu8, 0x62u8]
    } else if b == 0x0c {
        seq![0x5cu8, 0x66u8]
    } else if b < 0x20 {
        seq![0x5cu8, 0x75u8, 0x30u8, 0x30u8, hex_digit((b / 16) as int), hex_digit((b % 16) as int)]
    } else {
        seq![b]
    }
}

pub open spec fn escape(bs: Seq<u8>) -> Seq<u8>
    decreases bs.len(),
{
    if bs.len() == 0 {
        Seq::empty()
    } else {
        escape(bs.drop_last()) + escape_byte(bs.last())
    }
}

/// A JSON string literal holding `s`.
pub open spec fn quoted(s: Seq<char>) -> Seq<u8> {
    seq![0x22u8] + escape(utf8(s)) + seq![0x22u8]
}

/// Decimal digits of a natural number.
pub open spec fn digits(n: nat) -> Seq<u8>
    decreases n,
{
    if n < 10 {
        seq![(48 + n) as u8]
    } else {
        digits(n / 10).push((48 + n % 10) as u8)
    }
}

/// Decimal text of an integer, with a leading minus sign when negative.
pub open spec fn decimal(n: int) -> Seq<u8> {
    if n < 0 {
        seq![0x2du8] + digits((-n) as nat)
    } else {
        digits(n as nat)
    }
}

/// The canonical compact encoding of a value.
pub open spec fn canonical(v: JsonValue) -> Seq<u8>
    decreases v,
{
    match v {
        JsonValue::Null => seq![0x6eu8, 0x75u8, 0x6cu8, 0x6cu8],
        JsonValue::Bool(b) => if b {
            seq![0x74u8, 0x72u8, 0x75u8, 0x65u8]
        } else {
            seq![0x66u8, 0x61u8, 0x6cu8, 0x73u8, 0x65u8]
        },
        JsonValue::Int(n) => decimal(n as int),
        JsonValue::Str(s) => quoted(s@),
        JsonValue::Array(items) => seq![0x5bu8] + canonical_items(items@) + seq![0x5du8],
        JsonValue::Object(members) => seq![0x7bu8] + canonical_members(members@) + seq![0x7du8],
    }
}

/// Comma-separated encodings of a list of values.
pub open spec fn canonical_items(items: Seq<JsonValue>) -> Seq<u8>
    decreases items,
{
    if items.len() == 0 {
        Seq::empty()
    } else {
        let init = items.subrange(0, items.len() - 1);
        canonical_items(init) + (if init.len() == 0 {
            Seq::<u8>::empty()
        } else {
            seq![0x2cu8]
        }) + canonical(items[items.len() - 1])
    }
}

/// Comma-separated `"key":value` encodings of object members.
pub open spec fn canonical_members(members: Seq<(String, JsonValue)>) -> Seq<u8>
    decreases members,
{
    if members.len() == 0 {
        Seq::empty()
    } else {
        let init = members.subrange(0, members.len() - 1);
        let last = members[members.len() - 1];
        canonical_members(init) + (if init.len() == 0 {
            Seq::<u8>::empty()
        } else {
            seq![0x2cu8]
        }) + quoted(last.0@) + seq![0x3au8] + canonical(last.1)
    }
}

/// The value stored under the first member named `key`.
pub open spec fn member_lookup(members: Seq<(String, JsonValue)>, key: Seq<char>) -> Option<JsonValue>
    decreases members.len(),
{
    if members.len() == 0 {
        None
    } else if members[0].0@ == key {
        Some(members[0].1)
    } else {
        member_lookup(members.drop_first(), key)
    }
}

/// The member `key` of an object; nothing for other values.
pub open spec fn json_get(v: JsonValue, key: Seq<char>) -> Option<JsonValue> {
    match v {
        JsonValue::Object(members) => member_lookup(members@, key),
        _ => None,
    }
}

/// Appends bytes to a buffer.
pub fn push_bytes(out: &mut Vec<u8>, bs: &[u8])
    ensures
        final(out)@ == old(out)@ + bs@,
{
    let mut i: usize = 0;
    while i < bs.len()
        invariant
            0 <= i <= bs@.len(),
            out@ == old(out)@ + bs@.subrange(0, i as int),
        decreases bs@.len() - i,
    {
        out.push(bs[i]);
        i = i + 1;
        assert(out@ =~= old(out)@ + bs@.subrange(0, i as int));
    }
    assert(bs@.subrange(0, bs@.len() as int) =~= bs@);
}

/// Appends the UTF-8 bytes of a text to a buffer.
pub fn push_text(out: &mut Vec<u8>, s: &str)
    ensures
        final(out)@ == old(out)@ + utf8(s@),
{
    push_bytes(out, s.as_bytes());
}

/// Appends the decimal digits of `n`.
pub fn push_digits(out: &mut Vec<u8>, n: u64)
    ensures
        final(out)@ == old(out)@ + digits(n as nat),
    decreases n,
{
    if n >= 10 {
        push_digits(out, n / 10);
    }
    let d: u8 = (n % 10) as u8;
    out.push(48 + d);
    assert(out@ =~= old(out)@ + digits(n as nat));
}

/// Appends the decimal text of `n`.
pub fn push_decimal(out: &mut Vec<u8>, n: i64)
    ensures
        final(out)@ == old(out)@ + decimal(n as int),
{
    if n < 0 {
        out.push(0x2d);
        let m: u64 = (-(n as i128)) as u64;
        push_digits(out, m);
        assert(out@ =~= old(out)@ + decimal(n as int));
    } else {
        push_digits(out, n as u64);
    }
}

fn push_hex_digit(out: &mut Vec<u8>, n: u8)
    requires
        n < 16,
    ensures
        final(out)@ == old(out)@.push(hex_digit(n as int)),
{
    if n < 10 {
        out.push(48 + n);
    } else {
        out.push(87 + n);
    }
}

/// Appends one byte as it appears inside a JSON string literal.
fn push_escaped_byte(out: &mut Vec<u8>, b: u8)
    ensures
        final(out)@ == old(out)@ + escape_byte(b),
{
    if b == 0x22 || b == 0x5c {
        out.push(0x5c);
        out.push(b);
    } else if b == 0x0a {
        out.push(0x5c);
        out.push(0x6e);
    } else if b == 0x0d {
        out.push(0x5c);
        out.push(0x72);
    } else if b == 0x09 {
        out.push(0x5c);
        out.push(0x74);
    } else if b == 0x08 {
        out.push(0x5c);
        out.push(0x62);
    } else if b == 0x0c {
        out.push(0x5c);
        out.push(0x66);
    } else if b < 0x20 {
        out.push(0x5c);
        out.push(0x75);
        out.push(0x30);
        out.push(0x30);
        push_hex_digit(out, b / 16);
        push_hex_digit(out, b % 16);
    } else {
        out.push(b);
    }
    assert(out@ =~= old(out)@ + escape_byte(b));
}

/// Appends a JSON string literal holding `s`.
pub fn push_quoted(out: &mut Vec<u8>, s: &str)
    ensures
        final(out)@ == old(out)@ + quoted(s@),
{
    let bs = s.as_bytes();
    let ghost start = out@;
    out.push(0x22);
    let mut i: usize = 0;
    while i < bs.len()
        invariant
            0 <= i <= bs@.len(),
            bs@ == utf8(s@),
            out@ == start + seq![0x22u8] + escape(bs@.subrange(0, i as int)),
        decreases bs@.len() - i,
    {
        push_escaped_byte(out, bs[i]);
        assert(bs@.subrange(0, i + 1).drop_last() =~= bs@.subrange(0, i as int));
        i = i + 1;
        assert(out@ =~= start + seq![0x22u8] + escape(bs@.subrange(0, i as int)));
    }
    assert(bs@.subrange(0, bs@.len() as int) =~= bs@);
    out.push(0x22);
    assert(out@ =~= start + quoted(s@));
}

/// Appends the comma-separated `"key":value` encodings of object members.
pub fn push_members(out: &mut Vec<u8>, members: &Vec<(String, JsonValue)>)
    ensures
        final(out)@ == old(out)@ + canonical_members(members@),
    decreases members,
{
    let ghost start = out@;
    let mut i: usize = 0;
    while i < members.len()
        invariant
            0 <= i <= members@.len(),
            out@ == start + canonical_members(members@.subrange(0, i as int)),
        decreases members@.len() - i,
    {
        if i > 0 {
            out.push(0x2c);
        }
        push_quoted(out, members[i].0.as_str());
        out.push(0x3a);
        proof {
            assert(decreases_to!(*members => members@));
            assert(decreases_to!(members@ => members@[i as int]));
            assert(decreases_to!(members@[i as int] => members@[i as int].1));
        }
        members[i].1.encode_into(out);
        let ghost pre = members@.subrange(0, i as int);
        assert(members@.subrange(0, i + 1).subrange(0, i as int) =~= pre);
        assert(members@.subrange(0, i + 1)[i as int] == members@[i as int]);
        i = i + 1;
        assert(out@ =~= start + canonical_members(members@.subrange(0, i as int)));
    }
    assert(members@.subrange(0, members@.len() as int) =~= members@);
}

/// A copy of object members with the same encoding.
pub fn duplicate_members(members: &Vec<(String, JsonValue)>) -> (r: Vec<(String, JsonValue)>)
    ensures
        canonical_members(r@) == canonical_members(members@),
    decreases members,
{
    let mut out: Vec<(String, JsonValue)> = Vec::new();
    let mut i: usize = 0;
    while i < members.len()
        invariant
            0 <= i <= members@.len(),
            out@.len() == i,
            canonical_members(out@) == canonical_members(members@.subrange(0, i as int)),
        decreases members@.len() - i,
    {
        proof {
            assert(decreases_to!(*members => members@));
            assert(decreases_to!(members@ => members@[i as int]));
            assert(decreases_to!(members@[i as int] => members@[i as int].1));
        }
        let v = members[i].1.duplicate();
        let ghost before = out@;
        out.push((members[i].0.clone(), v));
        assert(out@.subrange(0, i as int) =~= before);
        assert(members@.subrange(0, i + 1).subrange(0, i as int) =~= members@.subrange(0, i as int));
        i = i + 1;
    }
    assert(members@.subrange(0, members@.len() as int) =~= members@);
    out
}

impl JsonValue {
    /// A copy of this value with the same encoding.
    pub fn duplicate(&self) -> (r: JsonValue)
        ensures
            canonical(r) == canonical(*self),
        decreases self,
    {
        match self {
            JsonValue::Null => JsonValue::Null,
            JsonValue::Bool(b) => JsonValue::Bool(*b),
            JsonValue::Int(n) => JsonValue::Int(*n),
            JsonValue::Str(s) => JsonValue::Str(s.clone()),
            JsonValue::Array(items) => {
                let mut out: Vec<JsonValue> = Vec::new();
                let mut i: usize = 0;
                while i < items.len()
                    invariant
                        0 <= i <= items@.len(),
                        *self == JsonValue::Array(*items),
                        out@.len() == i,
                        canonical_items(out@) == canonical_items(items@.subrange(0, i as int)),
                    decreases items@.len() - i,
                {
                    proof {
                        let ghost s = *self;
                        assert(decreases_to!(s => s->Array_0));
                        assert(decreases_to!(s->Array_0 => s->Array_0@));
                        assert(decreases_to!(s->Array_0@ => s->Array_0@[i as int]));
                    }
                    let v = items[i].duplicate();
                    let ghost before = out@;
                    out.push(v);
                    assert(out@.subrange(0, i as int) =~= before);
                    assert(items@.subrange(0, i + 1).subrange(0, i as int) =~= items@.subrange(0, i as int));
                    i = i + 1;
                }
                assert(items@.subrange(0, items@.len() as int) =~= items@);
                JsonValue::Array(out)
            },
            JsonValue::Object(members) => {
                proof {
                    let ghost s = *self;
                    assert(decreases_to!(s => s->Object_0));
                }
                JsonValue::Object(duplicate_members(members))
            },
        }
    }

    /// Appends the canonical encoding of this value.
    pub fn encode_into(&self, out: &mut Vec<u8>)
        ensures
            final(out)@ == old(out)@ + canonical(*self),
        decreases self,
    {
        let ghost start = out@;
        match self {
            JsonValue::Null => {
                out.push(0x6e);
                out.push(0x75);
                out.push(0x6c);
                out.push(0x6c);
            },
            JsonValue::Bool(b) => {
                if *b {
                    out.push(0x74);
                    out.push(0x72);
                    out.push(0x75);
                    out.push(0x65);
                } else {
                    out.push(0x66);
                    out.push(0x61);
                    out.push(0x6c);
                    out.push(0x73);
                    out.push(0x65);
                }
            },
            JsonValue::Int(n) => {
                push_decimal(out, *n);
            },
            JsonValue::Str(s) => {
                push_quoted(out, s.as_str());
            },
            JsonValue::Array(items) => {
                out.push(0x5b);
                let mut i: usize = 0;
                while i < items.len()
                    invariant
                        0 <= i <= items@.len(),
                        *self == JsonValue::Array(*items),
                        out@ == start + seq![0x5bu8] + canonical_items(items@.subrange(0, i as int)),
                    decreases items@.len() - i,
                {
                    let ghost before = out@;
                    if i > 0 {
                        out.push(0x2c);
                    }
                    let ghost mid = out@;
                    proof {
                        let ghost s = *self;
                        assert(decreases_to!(s => s->Array_0));
                        assert(decreases_to!(s->Array_0 => s->Array_0@));
                        assert(decreases_to!(s->Array_0@ => s->Array_0@[i as int]));
                    }
                    items[i].encode_into(out);
                    let ghost pre = items@.subrange(0, i as int);
                    assert(items@.subrange(0, i + 1).subrange(0, i as int) =~= pre);
                    assert(items@.subrange(0, i + 1)[i as int] == items@[i as int]);
                    i = i + 1;
                    assert(out@ =~= start + seq![0x5bu8] + canonical_items(items@.subrange(0, i as int)));
                }
                assert(items@.subrange(0, items@.len() as int) =~= items@);
                out.push(0x5d);
            },
            JsonValue::Object(members) => {
                out.push(0x7b);
                proof {
                    let ghost s = *self;
                    assert(decreases_to!(s => s->Object_0));
                }
                push_members(out, members);
                out.push(0x7d);
            },
        }
        assert(out@ =~= start + canonical(*self));
    }

    /// The canonical encoding of this value.
    pub fn encode(&self) -> (r: Vec<u8>)
        ensures
            r@ == canonical(*self),
    {
        let mut out: Vec<u8> = Vec::new();
        self.encode_into(&mut out);
        assert(out@ =~= canonical(*self));
        out
    }

    /// The member `key` of an object.
    pub fn get(&self, key: &str) -> (r: Option<&JsonValue>)
        ensures
            match r {
                Some(x) => json_get(*self, key@) == Some(*x),
                None => json_get(*self, key@) is None,
            },
    {
        match self {
            JsonValue::Object(members) => {
                let k = key.to_owned();
                let mut i: usize = 0;
                assert(members@.subrange(0, members@.len() as int) =~= members@);
                while i < members.len()
                    invariant
                        0 <= i <= members@.len(),
                        *self == JsonValue::Object(*members),
                        k@ == key@,
                        member_lookup(members@, key@) == member_lookup(members@.subrange(i as int, members@.len() as int), key@),
                    decreases members@.len() - i,
                {
                    let ghost rest = members@.subrange(i as int, members@.len() as int);
                    assert(rest.drop_first() =~= members@.subrange(i + 1, members@.len() as int));
                    assert(rest[0] == members@[i as int]);
                    assert(member_lookup(rest, key@) == if rest[0].0@ == key@ {
                        Some(rest[0].1)
                    } else {
                        member_lookup(rest.drop_first(), key@)
                    });
                    if members[i].0 == k {
                        return Some(&members[i].1);
                    }
                    i = i + 1;
                }
                None
            },
            _ => None,
        }
    }

    /// The text of a string value.
    pub fn as_str(&self) -> (r: Option<&String>)
        ensures
            match r {
                Some(s) => *self == JsonValue::Str(*s),
                None => !(*self is Str),
            },
    {
        match self {
            JsonValue::Str(s) => Some(s),
            _ => None,
        }
    }

    /// The elements of an array value.
    pub fn as_array(&self) -> (r: Option<&Vec<JsonValue>>)
        ensures
            match r {
                Some(items) => *self == JsonValue::Array(*items),
                None => !(*self is Array),
            },
    {
        match self {
            JsonValue::Array(items) => Some(items),
            _ => None,
        }
    }
}

} // verus!
