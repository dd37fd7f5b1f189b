//! Rendering of the version collection into its two persisted forms:
//! a JSON document and a line-oriented text listing. Both renderings
//! are pure functions of the collection, so persisting the same
//! collection twice produces byte-identical output.

use vstd::prelude::*;
use vstd::string::StrSliceExecFns;
use vstd::string::StringExecFns;
use crate::store::{Version, Versions};

verus! {

/// The hexadecimal digit character for `d` (lower case letters).
pub open spec fn hex_char(d: int) -> char {
    if d == 0 { '0' }
    else if d == 1 { '1' }
    else if d == 2 { '2' }
    else if d == 3 { '3' }
    else if d == 4 { '4' }
    else if d == 5 { '5' }
    else if d == 6 { '6' }
    else if d == 7 { '7' }
    else if d == 8 { '8' }
    else if d == 9 { '9' }
    else if d == 10 { 'a' }
    else if d == 11 { 'b' }
    else if d == 12 { 'c' }
    else if d == 13 { 'd' }
    else if d == 14 { 'e' }
    else { 'f' }
}

/// The decimal representation of `n`, most significant digit first,
/// with no leading zeros (`0` is written as one digit).
pub open spec fn dec_of(n: nat) -> Seq<char>
    decreases n,
{
    if n < 10 {
        seq![hex_char(n as int)]
    } else {
        dec_of(n / 10).push(hex_char((n % 10) as int))
    }
}

/// The escaped form of one character inside a JSON string literal:
/// quote and backslash get a backslash escape, control characters a
/// `\u00..` escape, everything else stands for itself.
pub open spec fn esc_char(c: char) -> Seq<char> {
    if c == '"' {
        seq!['\\', '"']
    } else if c == '\\' {
        seq!['\\', '\\']
    } else if (c as u32) < 0x20 {
        seq!['\\', 'u', '0', '0', hex_char((c as u32 / 16) as int), hex_char((c as u32 % 16) as int)]
    } else {
        seq![c]
    }
}

/// The escaped form of a whole string inside a JSON string literal.
pub open spec fn esc(s: Seq<char>) -> Seq<char>
    decreases s.len(),
{
    if s.len() == 0 {
        Seq::empty()
    } else {
        esc(s.drop_last()) + esc_char(s.last())
    }
}

/// The JSON object for one record: `{"version":N,"date":"D"}`.
pub open spec fn json_of_record(v: Version) -> Seq<char> {
    "{\"version\":"@ + dec_of(v.version as nat) + ",\"date\":\""@ + esc(v.date@) + "\"}"@
}

/// The comma-separated JSON objects for a sequence of records.
pub open spec fn json_of_records(s: Seq<Version>) -> Seq<char>
    decreases s.len(),
{
    if s.len() == 0 {
        Seq::empty()
    } else if s.len() == 1 {
        json_of_record(s[0])
    } else {
        json_of_records(s.drop_last()) + seq![','] + json_of_record(s.last())
    }
}

/// The persisted JSON document: `{"assetid":A,"versions":[...]}`.
pub open spec fn json_of(c: Versions) -> Seq<char> {
    "{\"assetid\":"@ + dec_of(c.assetid as nat) + ",\"versions\":["@ + json_of_records(c.versions@)
        + "]}"@
}

/// One line of the text listing: `Version: N, Date: D` and a newline.
pub open spec fn text_line(v: Version) -> Seq<char> {
    "Version: "@ + dec_of(v.version as nat) + ", Date: "@ + v.date@ + seq!['\n']
}

/// The record lines of the text listing, in collection order.
pub open spec fn text_lines(s: Seq<Version>) -> Seq<char>
    decreases s.len(),
{
    if s.len() == 0 {
        Seq::empty()
    } else {
        text_lines(s.drop_last()) + text_line(s.last())
    }
}

/// The persisted text document: a header line naming the asset,
/// then one line per record.
pub open spec fn text_of(c: Versions) -> Seq<char> {
    "Versions of: "@ + dec_of(c.assetid as nat) + seq!['\n'] + text_lines(c.versions@)
}

/// The one-character string for the hexadecimal digit `d`.
fn hex_str(d: u32) -> (r: &'static str)
    requires
        d < 16,
    ensures
        r@ == seq![hex_char(d as int)],
{
    proof {
        reveal_strlit("0");
        reveal_strlit("1");
        reveal_strlit("2");
        reveal_strlit("3");
        reveal_strlit("4");
        reveal_strlit("5");
        reveal_strlit("6");
        reveal_strlit("7");
        reveal_strlit("8");
        reveal_strlit("9");
        reveal_strlit("a");
        reveal_strlit("b");
        reveal_strlit("c");
        reveal_strlit("d");
        reveal_strlit("e");
        reveal_strlit("f");
    }
    let r = match d {
        0 => "0",
        1 => "1",
        2 => "2",
        3 => "3",
        4 => "4",
        5 => "5",
        6 => "6",
        7 => "7",
        8 => "8",
        9 => "9",
        10 => "a",
        11 => "b",
        12 => "c",
        13 => "d",
        14 => "e",
        _ => "f",
    };
    assert(r@ =~= seq![hex_char(d as int)]);
    r
}

/// The decimal representation of `n` as a fresh string.
pub fn u64_to_dec(n: u64) -> (s: String)
    ensures
        s@ == dec_of(n as nat),
    decreases n,
{
    if n < 10 {
        let r = hex_str(n as u32);
        r.to_owned()
    } else {
        let mut s = u64_to_dec(n / 10);
        s.append(hex_str((n % 10) as u32));
        assert(s@ =~= dec_of(n as nat));
        s
    }
}

/// Append the JSON-escaped form of `piece` to `out`.
fn append_escaped(out: &mut String, piece: &str)
    ensures
        final(out)@ == old(out)@ + esc(piece@),
{
    let len = piece.unicode_len();
    let mut i: usize = 0;
    while i < len
        invariant
            i <= len,
            len == piece@.len(),
            out@ == old(out)@ + esc(piece@.subrange(0, i as int)),
        decreases len - i,
    {
        let c = piece.get_char(i);
        proof {
            assert(piece@.subrange(0, i + 1).drop_last() =~= piece@.subrange(0, i as int));
            assert(piece@.subrange(0, i + 1).last() == c);
        }
        if c == '"' {
            out.append("\\\"");
            proof {
                reveal_strlit("\\\"");
                assert("\\\""@ =~= seq!['\\', '"']);
            }
        } else if c == '\\' {
            out.append("\\\\");
            proof {
                reveal_strlit("\\\\");
                assert("\\\\"@ =~= seq!['\\', '\\']);
            }
        } else if (c as u32) < 0x20 {
            let v = c as u32;
            out.append("\\u00");
            out.append(hex_str(v / 16));
            out.append(hex_str(v % 16));
            proof {
                reveal_strlit("\\u00");
                assert("\\u00"@ =~= seq!['\\', 'u', '0', '0']);
            }
        } else {
            let one = piece.substring_char(i, i + 1);
            out.append(one);
            assert(one@ =~= seq![c]);
        }
        assert(out@ =~= old(out)@ + esc(piece@.subrange(0, i + 1)));
        i += 1;
    }
    assert(piece@.subrange(0, len as int) =~= piece@);
}

/// Render the collection as the persisted JSON document.
pub fn render_json(c: &Versions) -> (s: String)
    ensures
        s@ == json_of(*c),
{
    let mut s = String::new();
    s.append("{\"assetid\":");
    let id = u64_to_dec(c.assetid);
    s.append(id.as_str());
    s.append(",\"versions\":[");
    let ghost head = "{\"assetid\":"@ + dec_of(c.assetid as nat) + ",\"versions\":["@;
    assert(s@ =~= head);
    let n = c.versions.len();
    let mut i: usize = 0;
    while i < n
        invariant
            i <= n,
            n == c.versions@.len(),
            s@ == head + json_of_records(c.versions@.subrange(0, i as int)),
        decreases n - i,
    {
        if i > 0 {
            s.append(",");
            proof {
                reveal_strlit(",");
                assert(","@ =~= seq![',']);
            }
        }
        let rec = &c.versions[i];
        s.append("{\"version\":");
        let vn = u64_to_dec(rec.version as u64);
        s.append(vn.as_str());
        s.append(",\"date\":\"");
        append_escaped(&mut s, rec.date.as_str());
        s.append("\"}");
        proof {
            let prefix = c.versions@.subrange(0, i as int);
            let ext = c.versions@.subrange(0, i + 1);
            assert(ext.drop_last() =~= prefix);
            assert(ext.last() == c.versions@[i as int]);
            assert(dec_of((rec.version as u64) as nat) == dec_of(rec.version as nat));
            if i == 0 {
                assert(ext.len() == 1);
                assert(ext[0] == c.versions@[0]);
                assert(json_of_records(ext) == json_of_record(c.versions@[0]));
            }
            assert(s@ =~= head + json_of_records(ext));
        }
        i += 1;
    }
    assert(c.versions@.subrange(0, n as int) =~= c.versions@);
    s.append("]}");
    assert(s@ =~= json_of(*c));
    s
}

/// Render the collection as the persisted text listing.
pub fn render_text(c: &Versions) -> (s: String)
    ensures
        s@ == text_of(*c),
{
    let mut s = String::new();
    s.append("Versions of: ");
    let id = u64_to_dec(c.assetid);
    s.append(id.as_str());
    s.append("\n");
    let ghost head = "Versions of: "@ + dec_of(c.assetid as nat) + seq!['\n'];
    proof {
        reveal_strlit("\n");
        assert("\n"@ =~= seq!['\n']);
    }
    assert(s@ =~= head);
    let n = c.versions.len();
    let mut i: usize = 0;
    while i < n
        invariant
            i <= n,
            n == c.versions@.len(),
            s@ == head + text_lines(c.versions@.subrange(0, i as int)),
        decreases n - i,
    {
        let rec = &c.versions[i];
        s.append("Version: ");
        let vn = u64_to_dec(rec.version as u64);
        s.append(vn.as_str());
        s.append(", Date: ");
        s.append(rec.date.as_str());
        s.append("\n");
        proof {
            reveal_strlit("\n");
            assert("\n"@ =~= seq!['\n']);
            let prefix = c.versions@.subrange(0, i as int);
            let ext = c.versions@.subrange(0, i + 1);
            assert(ext.drop_last() =~= prefix);
            assert(ext.last() == c.versions@[i as int]);
            assert(dec_of((rec.version as u64) as nat) == dec_of(rec.version as nat));
            assert(s@ =~= head + text_lines(ext));
        }
        i += 1;
    }
    assert(c.versions@.subrange(0, n as int) =~= c.versions@);
    assert(s@ =~= text_of(*c));
    s
}

/// Persisting is deterministic: two collections that hold the same
/// asset and the same records render to identical bytes, in both the
/// JSON and the text form. In particular, persisting the same
/// collection twice in a row writes byte-identical files.
pub proof fn lemma_persist_deterministic(c1: Versions, c2: Versions)
    requires
        c1.assetid == c2.assetid,
        c1.versions@ == c2.versions@,
    ensures
        json_of(c1) == json_of(c2),
        text_of(c1) == text_of(c2),
{
}

/// One successful probe's closing step: merge the record into the
/// collection and render both persisted documents from the updated
/// collection, as a single unit, so a caller can do all of it under the
/// same mutual exclusion that guards the insert and never persists a
/// half-mutated state.
pub fn merge_and_render(c: &mut Versions, version: u32, date: String) -> (out: (String, String))
    requires
        old(c).wf(),
    ensures
        final(c).wf(),
        final(c).assetid == old(c).assetid,
        !crate::store::has_version(old(c).versions@, version) ==> final(c).versions@.to_multiset()
            == old(c).versions@.to_multiset().insert(Version { version, date }),
        out.0@ == json_of(*final(c)),
        out.1@ == text_of(*final(c)),
{
    c.insert_record(Version { version, date });
    let json = render_json(c);
    let text = render_text(c);
    (json, text)
}

} // verus!
