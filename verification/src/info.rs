//! Text shown on the system information page.

use vstd::prelude::*;
use crate::text::{chars_of, decimal, push_char, push_decimal, push_text, string_of, text_eq, trim, trimmed};
use vstd::utf8::{decode_utf8, valid_utf8};

verus! {

/// Uptime as shown: days, hours and minutes (`"{d}d {h}h {m}m"`), the days
/// left out when there are none (`"{h}h {m}m"`).
pub open spec fn uptime_text(seconds: nat) -> Seq<char> {
    let days = seconds / 86400;
    let hours = (seconds % 86400) / 3600;
    let minutes = (seconds % 3600) / 60;
    let tail = decimal(hours) + seq!['h', ' '] + decimal(minutes) + seq!['m'];
    if days > 0 {
        decimal(days) + seq!['d', ' '] + tail
    } else {
        tail
    }
}

/// Formats an uptime given in seconds (see [`uptime_text`]).
pub fn format_uptime(seconds: u64) -> (r: String)
    ensures
        r@ == uptime_text(seconds as nat),
{
    let days = seconds / 86400;
    let hours = (seconds % 86400) / 3600;
    let minutes = (seconds % 3600) / 60;
    let mut s = String::new();
    if days > 0 {
        push_decimal(&mut s, days);
        push_char(&mut s, 'd');
        push_char(&mut s, ' ');
    }
    push_decimal(&mut s, hours);
    push_char(&mut s, 'h');
    push_char(&mut s, ' ');
    push_decimal(&mut s, minutes);
    push_char(&mut s, 'm');
    proof {
        let tail = decimal(hours as nat) + seq!['h', ' '] + decimal(minutes as nat) + seq!['m'];
        if days > 0 {
            assert(s@ =~= decimal(days as nat) + seq!['d', ' '] + tail);
        } else {
            assert(s@ =~= tail);
        }
    }
    s
}

broadcast use vstd::string::group_string_axioms;

/// What `String::from_utf8_lossy` gives for `bytes`: the decoded text, with
/// each invalid sequence replaced by U+FFFD.
pub uninterp spec fn lossy_text(bytes: Seq<u8>) -> Seq<char>;

/// Decodes command output with `String::from_utf8_lossy`. Stated: the result
/// is the named `lossy_text` of the bytes, and valid UTF-8 is decoded as it
/// is; how invalid sequences are replaced is not stated beyond the name.
#[verifier::external_body]
fn decode_lossy(bytes: &[u8]) -> (r: String)
    ensures
        r@ == lossy_text(bytes@),
        valid_utf8(bytes@) ==> r@ == decode_utf8(bytes@),
{
    String::from_utf8_lossy(bytes).into_owned()
}

/// The pieces of `s` between line feeds, in order (as `str::split('\n')`
/// gives them: a text without line feeds is one piece).
pub open spec fn split_lines(s: Seq<char>) -> Seq<Seq<char>>
    decreases s.len(),
{
    if s.len() == 0 {
        seq![Seq::empty()]
    } else {
        let r = split_lines(s.drop_last());
        if s.last() == '\n' {
            r.push(Seq::empty())
        } else {
            r.update(r.len() - 1, r.last().push(s.last()))
        }
    }
}

/// The trimmed lines that name a device: not empty and not the column title
/// `Name`.
pub open spec fn device_lines(lines: Seq<Seq<char>>) -> Seq<Seq<char>>
    decreases lines.len(),
{
    if lines.len() == 0 {
        Seq::empty()
    } else {
        let r = device_lines(lines.drop_last());
        let t = trimmed(lines.last());
        if t.len() > 0 && t != "Name"@ {
            r.push(t)
        } else {
            r
        }
    }
}

/// The lines joined with `sep` between neighbours.
pub open spec fn joined(lines: Seq<Seq<char>>, sep: Seq<char>) -> Seq<char>
    decreases lines.len(),
{
    if lines.len() == 0 {
        Seq::empty()
    } else if lines.len() == 1 {
        lines[0]
    } else {
        joined(lines.drop_last(), sep) + sep + lines.last()
    }
}

/// The adapters in a video-controller listing (a `Name` column, one adapter
/// per line), joined by `" | "`; `None` when it names none. Line ends of
/// either kind are handled, since trimming removes a carriage return.
pub open spec fn listed_adapters(output: Seq<u8>) -> Option<Seq<char>> {
    let names = device_lines(split_lines(lossy_text(output)));
    if names.len() > 0 {
        Some(joined(names, " | "@))
    } else {
        None
    }
}

/// The adapter named by a command's output: the trimmed text, if any.
pub open spec fn named_adapter(output: Seq<u8>) -> Option<Seq<char>> {
    let t = trimmed(lossy_text(output));
    if t.len() > 0 {
        Some(t)
    } else {
        None
    }
}

fn split_into_lines(cs: &Vec<char>) -> (r: Vec<Vec<char>>)
    ensures
        r@.map_values(|v: Vec<char>| v@) == split_lines(cs@),
{
    let mut out: Vec<Vec<char>> = Vec::new();
    let mut cur: Vec<char> = Vec::new();
    let mut i: usize = 0;
    assert(cs@.take(0) =~= Seq::<char>::empty());
    while i < cs.len()
        invariant
            i <= cs@.len(),
            out@.map_values(|v: Vec<char>| v@).push(cur@) == split_lines(cs@.take(i as int)),
        decreases cs@.len() - i,
    {
        let c = cs[i];
        let ghost prev = split_lines(cs@.take(i as int));
        assert(cs@.take(i + 1).drop_last() =~= cs@.take(i as int));
        if c == '\n' {
            let mut done: Vec<char> = Vec::new();
            std::mem::swap(&mut done, &mut cur);
            out.push(done);
            assert(out@.map_values(|v: Vec<char>| v@) =~= prev);
        } else {
            let ghost before = out@.map_values(|v: Vec<char>| v@);
            cur.push(c);
            assert(before.push(cur@) =~= prev.update(prev.len() - 1, prev.last().push(c)));
        }
        i = i + 1;
    }
    assert(cs@.take(i as int) =~= cs@);
    out.push(cur);
    out
}

/// The adapters in a video-controller listing (see [`listed_adapters`]).
pub fn adapters_from_listing(output: &[u8]) -> (r: Option<String>)
    ensures
        match r {
            Some(s) => listed_adapters(output@) == Some(s@),
            None => listed_adapters(output@) is None,
        },
{
    let text = decode_lossy(output);
    let cs = chars_of(text.as_str());
    let pieces = split_into_lines(&cs);
    let ghost pv = pieces@.map_values(|v: Vec<char>| v@);
    let mut names: Vec<String> = Vec::new();
    let mut i: usize = 0;
    assert(pv.take(0) =~= Seq::<Seq<char>>::empty());
    while i < pieces.len()
        invariant
            i <= pieces@.len(),
            pv == pieces@.map_values(|v: Vec<char>| v@),
            names@.map_values(|s: String| s@) == device_lines(pv.take(i as int)),
        decreases pieces@.len() - i,
    {
        let piece = string_of(&pieces[i]);
        let t = trim(piece.as_str());
        assert(pv.take(i + 1).drop_last() =~= pv.take(i as int));
        assert(pv.take(i + 1).last() == pieces@[i as int]@);
        if !t.as_str().is_empty() && !text_eq(t.as_str(), "Name") {
            let ghost before = names@.map_values(|s: String| s@);
            names.push(t);
            assert(names@.map_values(|s: String| s@) =~= before.push(t@));
        }
        i = i + 1;
    }
    assert(pv.take(i as int) =~= pv);
    if names.len() == 0 {
        return None;
    }
    let ghost nv = names@.map_values(|s: String| s@);
    let mut out = String::new();
    push_text(&mut out, names[0].as_str());
    let mut j: usize = 1;
    assert(nv.take(1) =~= seq![nv[0]]);
    while j < names.len()
        invariant
            1 <= j <= names@.len(),
            nv == names@.map_values(|s: String| s@),
            out@ == joined(nv.take(j as int), " | "@),
        decreases names@.len() - j,
    {
        push_text(&mut out, " | ");
        push_text(&mut out, names[j].as_str());
        assert(nv.take(j + 1).drop_last() =~= nv.take(j as int));
        assert(nv.take(j + 1).last() == names@[j as int]@);
        j = j + 1;
    }
    assert(nv.take(j as int) =~= nv);
    Some(out)
}

/// The adapter named by a command's output (see [`named_adapter`]).
pub fn adapter_from_output(output: &[u8]) -> (r: Option<String>)
    ensures
        match r {
            Some(s) => named_adapter(output@) == Some(s@),
            None => named_adapter(output@) is None,
        },
{
    let text = decode_lossy(output);
    let t = trim(text.as_str());
    if t.as_str().is_empty() {
        None
    } else {
        Some(t)
    }
}

/// Whether the slow part of the information refresh (disks, uptime, load) is
/// due: five seconds or more since it last ran, given in whole milliseconds.
pub fn slow_refresh_due(elapsed_millis: u64) -> (r: bool)
    ensures
        r == (elapsed_millis >= 5000),
{
    elapsed_millis >= 5000
}

/// The text shown when no graphics adapter is found.
pub fn no_adapter_text() -> (r: &'static str)
    ensures
        r@ == "未检测到独立显卡"@,
{
    "未检测到独立显卡"
}

} // verus!
