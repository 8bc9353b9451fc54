//! Escaping of text placed inside a JSON string literal.
use vstd::prelude::*;
use crate::numfmt::{byte_hex2, hex2};
use crate::text::{chars_of, concat2, concat3, substring};

verus! {

/// How one character is written inside a JSON string: `\` as `\\`, `"` as `\"`, the control
/// characters U+0000 to U+001F as `\n`, `\r`, `\t`, `\b`, `\f` or `\u00XX`, any other
/// character as itself.
pub open spec fn escape_char(c: char) -> Seq<char> {
    if c == '\\' {
        seq!['\\', '\\']
    } else if c == '"' {
        seq!['\\', '"']
    } else if c == '\n' {
        seq!['\\', 'n']
    } else if c == '\r' {
        seq!['\\', 'r']
    } else if c == '\t' {
        seq!['\\', 't']
    } else if c == '\u{8}' {
        seq!['\\', 'b']
    } else if c == '\u{c}' {
        seq!['\\', 'f']
    } else if (c as u32) < 0x20 {
        seq!['\\', 'u', '0', '0'] + hex2(c as u8)
    } else {
        seq![c]
    }
}

/// The escaped text: every character escaped in turn.
pub open spec fn escape_spec(s: Seq<char>) -> Seq<char>
    decreases s.len(),
{
    if s.len() == 0 {
        seq![]
    } else {
        escape_spec(s.drop_last()) + escape_char(s.last())
    }
}

/// A character written as itself.
pub open spec fn is_plain(c: char) -> bool {
    c != '\\' && c != '"' && (c as u32) >= 0x20
}

/// The escape of a character that is not written as itself.
fn escape_char_exec(c: char) -> (r: String)
    requires
        !is_plain(c),
    ensures
        r@ == escape_char(c),
{
    if c == '\\' {
        let r = String::from_str("\\\\");
        proof { reveal_strlit("\\\\"); }
        assert(r@ =~= escape_char(c));
        r
    } else if c == '"' {
        let r = String::from_str("\\\"");
        proof { reveal_strlit("\\\""); }
        assert(r@ =~= escape_char(c));
        r
    } else if c == '\n' {
        let r = String::from_str("\\n");
        proof { reveal_strlit("\\n"); }
        assert(r@ =~= escape_char(c));
        r
    } else if c == '\r' {
        let r = String::from_str("\\r");
        proof { reveal_strlit("\\r"); }
        assert(r@ =~= escape_char(c));
        r
    } else if c == '\t' {
        let r = String::from_str("\\t");
        proof { reveal_strlit("\\t"); }
        assert(r@ =~= escape_char(c));
        r
    } else if c == '\u{8}' {
        let r = String::from_str("\\b");
        proof { reveal_strlit("\\b"); }
        assert(r@ =~= escape_char(c));
        r
    } else if c == '\u{c}' {
        let r = String::from_str("\\f");
        proof { reveal_strlit("\\f"); }
        assert(r@ =~= escape_char(c));
        r
    } else {
        let h = byte_hex2(c as u8);
        let r = concat2("\\u00", h.as_str());
        proof { reveal_strlit("\\u00"); }
        assert(r@ =~= escape_char(c));
        r
    }
}

pub proof fn lemma_escape_concat(a: Seq<char>, b: Seq<char>)
    ensures
        escape_spec(a + b) == escape_spec(a) + escape_spec(b),
    decreases b.len(),
{
    if b.len() == 0 {
        assert(a + b =~= a);
    } else {
        lemma_escape_concat(a, b.drop_last());
        assert((a + b).drop_last() =~= a + b.drop_last());
        assert((a + b).last() == b.last());
    }
}

pub proof fn lemma_escape_plain(s: Seq<char>)
    requires
        forall|i: int| 0 <= i < s.len() ==> is_plain(#[trigger] s[i]),
    ensures
        escape_spec(s) == s,
    decreases s.len(),
{
    if s.len() > 0 {
        lemma_escape_plain(s.drop_last());
        assert(s.drop_last() + seq![s.last()] =~= s);
    }
}

/// Escapes text for a JSON string literal (see `escape_char`).
pub fn escape_json_text(s: &str) -> (r: String)
    ensures
        r@ == escape_spec(s@),
{
    let cs = chars_of(s);
    let n = cs.len();
    let mut acc = String::new();
    let mut start: usize = 0;
    let mut i: usize = 0;
    while i < n
        invariant
            n == cs@.len(),
            cs@ == s@,
            start <= i <= n,
            acc@ == escape_spec(s@.take(start as int)),
            forall|k: int| start <= k < i ==> is_plain(#[trigger] s@[k]),
        decreases n - i,
    {
        let c = cs[i];
        if c == '\\' || c == '"' || (c as u32) < 0x20 {
            let run = substring(s, start, i);
            let esc = escape_char_exec(c);
            proof {
                let plain = s@.subrange(start as int, i as int);
                assert forall|k: int| 0 <= k < plain.len() implies is_plain(#[trigger] plain[k]) by {
                    assert(plain[k] == s@[start + k]);
                }
                lemma_escape_plain(plain);
                assert(s@.take(i as int) =~= s@.take(start as int) + plain);
                lemma_escape_concat(s@.take(start as int), plain);
                assert(s@.take(i + 1).drop_last() =~= s@.take(i as int));
                assert(esc@ =~= escape_char(c));
            }
            acc = concat3(acc.as_str(), run.as_str(), esc.as_str());
            start = i + 1;
        }
        i = i + 1;
    }
    let run = substring(s, start, n);
    proof {
        let plain = s@.subrange(start as int, n as int);
        assert forall|k: int| 0 <= k < plain.len() implies is_plain(#[trigger] plain[k]) by {
            assert(plain[k] == s@[start + k]);
        }
        lemma_escape_plain(plain);
        assert(s@ =~= s@.take(start as int) + plain);
        lemma_escape_concat(s@.take(start as int), plain);
    }
    concat2(acc.as_str(), run.as_str())
}

} // verus!
