//! Structured records and their deterministic text: the layout of
//! `JSON.stringify(value, null, 2)`, with members in the order the caller gave.

use vstd::prelude::*;
use vstd::utf8::encode_utf8;
use crate::bytes::push_bytes;

verus! {

/// A value of a structured record.
#[derive(Debug, PartialEq, Eq)]
pub enum JsonValue {
    Null,
    Bool(bool),
    Number(i64),
    Str(String),
    Array(Vec<JsonValue>),
    Object(Vec<Member>),
}

/// A named member of an object; an object keeps its members in order.
#[derive(Debug, PartialEq, Eq)]
pub struct Member {
    pub key: String,
    pub value: JsonValue,
}

/// `n` spaces.
pub open spec fn spaces(n: nat) -> Seq<u8> {
    Seq::new(n, |i: int| 32u8)
}

/// The lowercase hexadecimal digit of `n < 16`.
pub open spec fn hex_digit(n: u8) -> u8 {
    if n < 10 {
        (48 + n) as u8
    } else {
        (87 + n) as u8
    }
}

/// How one byte of a string is written between quotes.
pub open spec fn escape_byte(c: u8) -> Seq<u8> {
    if c == 34 {
        seq![92u8, 34u8]
    } else if c == 92 {
        seq![92u8, 92u8]
    } else if c == 8 {
        seq![92u8, 98u8]
    } else if c == 12 {
        seq![92u8, 102u8]
    } else if c == 10 {
        seq![92u8, 110u8]
    } else if c == 13 {
        seq![92u8, 114u8]
    } else if c == 9 {
        seq![92u8, 116u8]
    } else if c < 32 {
        seq![92u8, 117u8, 48u8, 48u8, hex_digit(c / 16), hex_digit(c % 16)]
    } else {
        seq![c]
    }
}

/// The escaped form of the UTF-8 bytes of a string.
pub open spec fn escaped(b: Seq<u8>) -> Seq<u8>
    decreases b.len(),
{
    if b.len() == 0 {
        Seq::empty()
    } else {
        escaped(b.drop_last()) + escape_byte(b.last())
    }
}

/// A string in quotes.
pub open spec fn quoted(s: Seq<char>) -> Seq<u8> {
    seq![34u8] + escaped(encode_utf8(s)) + seq![34u8]
}

/// The decimal digits of `n`.
pub open spec fn digits(n: nat) -> Seq<u8>
    decreases n,
{
    if n < 10 {
        seq![(48 + n) as u8]
    } else {
        digits(n / 10) + seq![(48 + n % 10) as u8]
    }
}

/// The decimal text of an integer.
pub open spec fn number_text(n: int) -> Seq<u8> {
    if n < 0 {
        seq![45u8] + digits((-n) as nat)
    } else {
        digits(n as nat)
    }
}

/// `null`, `true` and `false`.
pub open spec fn null_text() -> Seq<u8> {
    seq![110u8, 117u8, 108u8, 108u8]
}

pub open spec fn true_text() -> Seq<u8> {
    seq![116u8, 114u8, 117u8, 101u8]
}

pub open spec fn false_text() -> Seq<u8> {
    seq![102u8, 97u8, 108u8, 115u8, 101u8]
}

/// The text of a value whose opening line is indented by `2 * d` spaces.
pub open spec fn render(v: JsonValue, d: nat) -> Seq<u8>
    decreases v,
{
    match v {
        JsonValue::Null => null_text(),
        JsonValue::Bool(b) => if b {
            true_text()
        } else {
            false_text()
        },
        JsonValue::Number(n) => number_text(n as int),
        JsonValue::Str(s) => quoted(s@),
        JsonValue::Array(items) => if items@.len() == 0 {
            seq![91u8, 93u8]
        } else {
            seq![91u8] + render_items(items@, d) + seq![10u8] + spaces(2 * d) + seq![93u8]
        },
        JsonValue::Object(members) => object_text(members@, d),
    }
}

/// The lines of the items of an array at depth `d`.
pub open spec fn render_items(items: Seq<JsonValue>, d: nat) -> Seq<u8>
    decreases items,
{
    if items.len() == 0 {
        Seq::empty()
    } else {
        let n = items.len() - 1;
        render_items(items.subrange(0, n), d) + (if n > 0 {
            seq![44u8]
        } else {
            Seq::empty()
        }) + seq![10u8] + spaces(2 * (d + 1)) + render(items[n], d + 1)
    }
}

/// The text of an object at depth `d`.
pub open spec fn object_text(members: Seq<Member>, d: nat) -> Seq<u8>
    decreases members, 1int,
{
    if members.len() == 0 {
        seq![123u8, 125u8]
    } else {
        seq![123u8] + render_members(members, d) + seq![10u8] + spaces(2 * d) + seq![125u8]
    }
}

/// The lines of the members of an object at depth `d`.
pub open spec fn render_members(members: Seq<Member>, d: nat) -> Seq<u8>
    decreases members, 0int,
{
    if members.len() == 0 {
        Seq::empty()
    } else {
        let n = members.len() - 1;
        render_members(members.subrange(0, n), d) + (if n > 0 {
            seq![44u8]
        } else {
            Seq::empty()
        }) + seq![10u8] + spaces(2 * (d + 1)) + quoted(members[n].key@) + seq![58u8, 32u8]
            + render(members[n].value, d + 1)
    }
}

fn write_digits(n: u64, out: &mut Vec<u8>)
    ensures
        final(out)@ == old(out)@ + digits(n as nat),
    decreases n,
{
    if n < 10 {
        out.push((48 + n) as u8);
    } else {
        write_digits(n / 10, out);
        out.push((48 + n % 10) as u8);
        assert(digits(n as nat) == digits((n / 10) as nat) + seq![(48 + n % 10) as u8]);
    }
}

fn write_number(n: i64, out: &mut Vec<u8>)
    ensures
        final(out)@ == old(out)@ + number_text(n as int),
{
    if n < 0 {
        out.push(45u8);
        let m: u64 = (-(n + 1)) as u64 + 1;
        write_digits(m, out);
        assert(out@ =~= old(out)@ + number_text(n as int));
    } else {
        write_digits(n as u64, out);
    }
}

fn write_quoted(s: &String, out: &mut Vec<u8>)
    ensures
        final(out)@ == old(out)@ + quoted(s@),
{
    let b = s.as_str().as_bytes();
    let ghost start = out@;
    out.push(34u8);
    let mut i: usize = 0;
    while i < b.len()
        invariant
            i <= b@.len(),
            b@ == encode_utf8(s@),
            out@ == start + seq![34u8] + escaped(b@.subrange(0, i as int)),
        decreases b@.len() - i,
    {
        let c = b[i];
        let ghost before = out@;
        if c == 34 {
            out.push(92u8);
            out.push(34u8);
        } else if c == 92 {
            out.push(92u8);
            out.push(92u8);
        } else if c == 8 {
            out.push(92u8);
            out.push(98u8);
        } else if c == 12 {
            out.push(92u8);
            out.push(102u8);
        } else if c == 10 {
            out.push(92u8);
            out.push(110u8);
        } else if c == 13 {
            out.push(92u8);
            out.push(114u8);
        } else if c == 9 {
            out.push(92u8);
            out.push(116u8);
        } else if c < 32 {
            out.push(92u8);
            out.push(117u8);
            out.push(48u8);
            out.push(48u8);
            let hi = c / 16;
            let lo = c % 16;
            out.push(if hi < 10 { 48 + hi } else { 87 + hi });
            out.push(if lo < 10 { 48 + lo } else { 87 + lo });
        } else {
            out.push(c);
        }
        assert(out@ =~= before + escape_byte(c));
        assert(b@.subrange(0, i + 1).drop_last() =~= b@.subrange(0, i as int));
        i = i + 1;
    }
    assert(b@.subrange(0, b@.len() as int) =~= b@);
    out.push(34u8);
    assert(out@ =~= start + quoted(s@));
}

proof fn lemma_spaces_step(d: nat)
    ensures
        spaces(2 * (d + 1)) == spaces(2 * d) + seq![32u8, 32u8],
{
    assert(spaces(2 * (d + 1)) =~= spaces(2 * d) + seq![32u8, 32u8]);
}

fn deeper(indent: &Vec<u8>, Ghost(d): Ghost<nat>) -> (r: Vec<u8>)
    requires
        indent@ == spaces(2 * d),
    ensures
        r@ == spaces(2 * (d + 1)),
{
    let mut r: Vec<u8> = Vec::new();
    push_bytes(&mut r, indent.as_slice());
    r.push(32u8);
    r.push(32u8);
    proof {
        lemma_spaces_step(d);
        assert(r@ =~= spaces(2 * (d + 1)));
    }
    r
}

fn write_value(v: &JsonValue, indent: &Vec<u8>, Ghost(d): Ghost<nat>, out: &mut Vec<u8>)
    requires
        indent@ == spaces(2 * d),
    ensures
        final(out)@ == old(out)@ + render(*v, d),
    decreases v,
{
    match v {
        JsonValue::Null => {
            out.push(110u8);
            out.push(117u8);
            out.push(108u8);
            out.push(108u8);
            assert(out@ =~= old(out)@ + render(*v, d));
        },
        JsonValue::Bool(b) => {
            if *b {
                out.push(116u8);
                out.push(114u8);
                out.push(117u8);
                out.push(101u8);
            } else {
                out.push(102u8);
                out.push(97u8);
                out.push(108u8);
                out.push(115u8);
                out.push(101u8);
            }
            assert(out@ =~= old(out)@ + render(*v, d));
        },
        JsonValue::Number(n) => {
            write_number(*n, out);
        },
        JsonValue::Str(s) => {
            write_quoted(s, out);
        },
        JsonValue::Array(items) => {
            let ghost start = out@;
            if items.len() == 0 {
                out.push(91u8);
                out.push(93u8);
                assert(out@ =~= start + render(*v, d));
            } else {
                let inner = deeper(indent, Ghost(d));
                out.push(91u8);
                let mut i: usize = 0;
                while i < items.len()
                    invariant
                        i <= items@.len(),
                        *v == JsonValue::Array(*items),
                        indent@ == spaces(2 * d),
                        inner@ == spaces(2 * (d + 1)),
                        out@ == start + seq![91u8] + render_items(items@.subrange(0, i as int), d),
                    decreases items@.len() - i,
                {
                    if i > 0 {
                        out.push(44u8);
                    }
                    out.push(10u8);
                    push_bytes(out, inner.as_slice());
                    proof {
                        let vs = items@;
                        assert(decreases_to!(*v => (*v)->Array_0));
                        assert(decreases_to!(*items => vs));
                        assert(decreases_to!(vs => vs[i as int]));
                    }
                    write_value(&items[i], &inner, Ghost(d + 1), out);
                    let ghost next = items@.subrange(0, i + 1);
                    assert(next.subrange(0, i as int) =~= items@.subrange(0, i as int));
                    assert(next[i as int] == items@[i as int]);
                    i = i + 1;
                    assert(out@ =~= start + seq![91u8] + render_items(next, d));
                }
                assert(items@.subrange(0, items@.len() as int) =~= items@);
                out.push(10u8);
                push_bytes(out, indent.as_slice());
                out.push(93u8);
                assert(out@ =~= start + render(*v, d));
            }
        },
        JsonValue::Object(members) => {
            write_object(members, indent, Ghost(d), out);
        },
    }
}

fn write_object(members: &Vec<Member>, indent: &Vec<u8>, Ghost(d): Ghost<nat>, out: &mut Vec<u8>)
    requires
        indent@ == spaces(2 * d),
    ensures
        final(out)@ == old(out)@ + object_text(members@, d),
    decreases members@, 1int,
{
    let ghost start = out@;
    if members.len() == 0 {
        out.push(123u8);
        out.push(125u8);
        assert(out@ =~= start + object_text(members@, d));
    } else {
        let inner = deeper(indent, Ghost(d));
        out.push(123u8);
        let mut i: usize = 0;
        while i < members.len()
            invariant
                i <= members@.len(),
                indent@ == spaces(2 * d),
                inner@ == spaces(2 * (d + 1)),
                out@ == start + seq![123u8] + render_members(members@.subrange(0, i as int), d),
            decreases members@.len() - i,
        {
            if i > 0 {
                out.push(44u8);
            }
            out.push(10u8);
            push_bytes(out, inner.as_slice());
            write_quoted(&members[i].key, out);
            out.push(58u8);
            out.push(32u8);
            write_value(&members[i].value, &inner, Ghost(d + 1), out);
            let ghost next = members@.subrange(0, i + 1);
            assert(next.subrange(0, i as int) =~= members@.subrange(0, i as int));
            assert(next[i as int] == members@[i as int]);
            i = i + 1;
            assert(out@ =~= start + seq![123u8] + render_members(next, d));
        }
        assert(members@.subrange(0, members@.len() as int) =~= members@);
        out.push(10u8);
        push_bytes(out, indent.as_slice());
        out.push(125u8);
        assert(out@ =~= start + object_text(members@, d));
    }
}

/// The text of a value, as `JSON.stringify(value, null, 2)` writes it.
pub fn to_pretty_text(v: &JsonValue) -> (r: Vec<u8>)
    ensures
        r@ == render(*v, 0),
{
    let mut out: Vec<u8> = Vec::new();
    let indent: Vec<u8> = Vec::new();
    assert(indent@ =~= spaces(0));
    write_value(v, &indent, Ghost(0), &mut out);
    assert(out@ =~= render(*v, 0));
    out
}

/// The key of the member that carries a record's signature.
pub open spec fn signature_key() -> Seq<char> {
    seq!['s', 'i', 'g', 'n', 'a', 't', 'u', 'r', 'e']
}

/// The members of `ms` whose key is not `key`, in order.
pub open spec fn omit_key(ms: Seq<Member>, key: Seq<char>) -> Seq<Member>
    decreases ms.len(),
{
    if ms.len() == 0 {
        Seq::empty()
    } else {
        omit_key(ms.drop_last(), key) + if ms.last().key@ == key {
            Seq::empty()
        } else {
            seq![ms.last()]
        }
    }
}

/// The position of the first member of `ms` whose key is `key`.
pub open spec fn find_key(ms: Seq<Member>, key: Seq<char>) -> Option<int>
    decreases ms.len(),
{
    if ms.len() == 0 {
        None
    } else {
        match find_key(ms.drop_last(), key) {
            Some(i) => Some(i),
            None => if ms.last().key@ == key {
                Some(ms.len() - 1)
            } else {
                None
            },
        }
    }
}

/// The bytes that a record's signature covers: the record without its `signature`
/// member, written as `JSON.stringify(record, null, 2)` writes it.
pub open spec fn canonical(ms: Seq<Member>) -> Seq<u8> {
    object_text(omit_key(ms, signature_key()), 0)
}

/// The `signature` string.
pub fn signature_key_string() -> (r: String)
    ensures
        r@ == signature_key(),
{
    let r = String::from_str("signature");
    proof {
        reveal_strlit("signature");
    }
    r
}

/// The position of the first member whose key is `key`, if any.
pub fn find_member(record: &Vec<Member>, key: &String) -> (r: Option<usize>)
    ensures
        match r {
            Some(i) => find_key(record@, key@) == Some(i as int),
            None => find_key(record@, key@) is None,
        },
        r matches Some(i) ==> i < record@.len() && record@[i as int].key@ == key@,
{
    let mut i: usize = 0;
    while i < record.len()
        invariant
            i <= record@.len(),
            find_key(record@.subrange(0, i as int), key@) is None,
        decreases record@.len() - i,
    {
        let ghost next = record@.subrange(0, i + 1);
        assert(next.drop_last() =~= record@.subrange(0, i as int));
        if record[i].key == *key {
            proof {
                lemma_find_key_prefix(record@, i as int + 1, key@);
            }
            return Some(i);
        }
        i = i + 1;
    }
    assert(record@.subrange(0, record@.len() as int) =~= record@);
    None
}

/// A match found in a prefix is the match in the whole.
proof fn lemma_find_key_prefix(ms: Seq<Member>, n: int, key: Seq<char>)
    requires
        0 <= n <= ms.len(),
        find_key(ms.subrange(0, n), key) is Some,
    ensures
        find_key(ms, key) == find_key(ms.subrange(0, n), key),
    decreases ms.len() - n,
{
    if n < ms.len() {
        assert(ms.subrange(0, n + 1).drop_last() =~= ms.subrange(0, n));
        lemma_find_key_prefix(ms, n + 1, key);
    } else {
        assert(ms.subrange(0, n) =~= ms);
    }
}

/// The bytes a record's signature covers: the record without its `signature` member,
/// as `JSON.stringify(record, null, 2)` writes it, members in the caller's order.
pub fn canonicalize(record: &Vec<Member>) -> (r: Vec<u8>)
    ensures
        r@ == canonical(record@),
{
    let key = signature_key_string();
    let ghost ms = record@;
    let ghost sk = signature_key();
    let indent: Vec<u8> = Vec::new();
    assert(indent@ =~= spaces(0));
    let inner: Vec<u8> = deeper(&indent, Ghost(0));
    let mut out: Vec<u8> = Vec::new();
    out.push(123u8);
    let mut written: usize = 0;
    let mut i: usize = 0;
    while i < record.len()
        invariant
            i <= ms.len(),
            ms == record@,
            key@ == sk,
            sk == signature_key(),
            inner@ == spaces(2),
            written == omit_key(ms.subrange(0, i as int), sk).len(),
            written <= i,
            out@ == seq![123u8] + render_members(omit_key(ms.subrange(0, i as int), sk), 0),
        decreases ms.len() - i,
    {
        let ghost prev = omit_key(ms.subrange(0, i as int), sk);
        let ghost next = ms.subrange(0, i + 1);
        assert(next.drop_last() =~= ms.subrange(0, i as int));
        if record[i].key == key {
            assert(omit_key(next, sk) =~= prev);
        } else {
            if written > 0 {
                out.push(44u8);
            }
            out.push(10u8);
            push_bytes(&mut out, inner.as_slice());
            write_quoted(&record[i].key, &mut out);
            out.push(58u8);
            out.push(32u8);
            write_value(&record[i].value, &inner, Ghost(1), &mut out);
            let ghost now = omit_key(next, sk);
            assert(now =~= prev.push(ms[i as int]));
            assert(now.subrange(0, now.len() - 1) =~= prev);
            assert(out@ =~= seq![123u8] + render_members(now, 0));
            written = written + 1;
        }
        i = i + 1;
    }
    assert(ms.subrange(0, ms.len() as int) =~= ms);
    if written > 0 {
        out.push(10u8);
    }
    out.push(125u8);
    assert(out@ =~= canonical(ms));
    out
}

/// A key given either as text or as a record that holds it in a named member.
#[derive(Debug, PartialEq, Eq)]
pub enum KeyLike {
    Text(String),
    Record(Vec<Member>),
}

/// The text that a key-like value gives for `field`: the text itself, or the first
/// member named `field` of the record where that member is a string.
pub open spec fn key_text(v: KeyLike, field: Seq<char>) -> Option<Seq<char>> {
    match v {
        KeyLike::Text(s) => Some(s@),
        KeyLike::Record(ms) => match find_key(ms@, field) {
            Some(i) => match ms@[i].value {
                JsonValue::Str(s) => Some(s@),
                _ => None,
            },
            None => None,
        },
    }
}

/// Resolves a key-like value to its text for `field` (such as `public` or `private`).
pub fn string_or_field(v: &KeyLike, field: &String) -> (r: Option<String>)
    ensures
        match r {
            Some(s) => key_text(*v, field@) == Some(s@),
            None => key_text(*v, field@) is None,
        },
{
    match v {
        KeyLike::Text(s) => Some(s.clone()),
        KeyLike::Record(ms) => match find_member(ms, field) {
            None => None,
            Some(i) => match &ms[i].value {
                JsonValue::Str(s) => Some(s.clone()),
                _ => None,
            },
        },
    }
}

} // verus!
