//! Renders values of JSON shape as a tree for people to read.

use vstd::prelude::*;
use vstd::utf8::encode_utf8;
use crate::text::{from_chars, slice_of, to_chars};

verus! {

/// A value of JSON shape. A number is kept as it is written, and the
/// members of an object in the order in which they are shown.
#[derive(Debug)]
pub enum JsonValue {
    Null,
    Bool(bool),
    Number(String),
    Text(String),
    Array(Vec<JsonValue>),
    Object(Vec<JsonMember>),
}

/// A member of an object.
#[derive(Debug)]
pub struct JsonMember {
    pub key: String,
    pub value: JsonValue,
}

/// The width of the box that is drawn round a titled object, in bytes.
pub const LINE_WIDTH: usize = 60;

/// `unit` written `n` times.
pub open spec fn repeated(unit: Seq<char>, n: nat) -> Seq<char>
    decreases n,
{
    if n == 0 {
        Seq::empty()
    } else {
        repeated(unit, (n - 1) as nat) + unit
    }
}

/// The indentation of a line at the given depth.
pub open spec fn indent(depth: usize) -> Seq<char> {
    repeated("│  "@, depth as nat)
}

/// One level deeper, as far as the number can count.
pub open spec fn deeper(depth: usize) -> usize {
    if depth < usize::MAX {
        (depth + 1) as usize
    } else {
        depth
    }
}

/// The mark before an entry: one for the last entry of its list, another
/// for the ones before.
pub open spec fn branch(last: bool) -> Seq<char> {
    if last {
        "└─"@
    } else {
        "├─"@
    }
}

/// Tells whether a value has parts of its own.
pub open spec fn is_nested(v: JsonValue) -> bool {
    v is Array || v is Object
}

/// A value as it is shown at the given depth: a plain value as it is,
/// without line break; an array or object as one line for each entry, with
/// the parts of an entry that has parts on the lines below it, one level
/// deeper.
pub open spec fn rendered(v: JsonValue, depth: usize) -> Seq<char>
    decreases v, 0nat,
{
    match v {
        JsonValue::Null => "null"@,
        JsonValue::Bool(b) => if b {
            "true"@
        } else {
            "false"@
        },
        JsonValue::Number(n) => n@,
        JsonValue::Text(s) => s@,
        JsonValue::Array(items) => rendered_items(items@, 0, depth),
        JsonValue::Object(members) => rendered_members(members@, 0, depth),
    }
}

/// The entries of an array from index `from` on.
pub open spec fn rendered_items(items: Seq<JsonValue>, from: int, depth: usize) -> Seq<char>
    decreases items, items.len() - from,
{
    if 0 <= from < items.len() {
        indent(depth) + branch(from == items.len() - 1) + " "@ + (if is_nested(items[from]) {
            "\n"@ + rendered(items[from], deeper(depth))
        } else {
            rendered(items[from], depth) + "\n"@
        }) + rendered_items(items, from + 1, depth)
    } else {
        Seq::empty()
    }
}

/// The members of an object from index `from` on.
pub open spec fn rendered_members(members: Seq<JsonMember>, from: int, depth: usize) -> Seq<char>
    decreases members, members.len() - from,
{
    if 0 <= from < members.len() {
        indent(depth) + branch(from == members.len() - 1) + " "@ + members[from].key@ + ": "@ + (
        if is_nested(members[from].value) {
            "\n"@ + rendered(members[from].value, deeper(depth))
        } else {
            rendered(members[from].value, depth) + "\n"@
        }) + rendered_members(members, from + 1, depth)
    } else {
        Seq::empty()
    }
}

/// The index of the last line break in `s`, or -1 if there is none.
pub open spec fn last_line_break(s: Seq<char>) -> int
    decreases s.len(),
{
    if s.len() == 0 {
        -1
    } else if s.last() == '\n' {
        s.len() - 1
    } else {
        last_line_break(s.drop_last())
    }
}

/// How many bytes the last line of `s` takes in UTF-8.
pub open spec fn last_line_bytes(s: Seq<char>) -> nat {
    encode_utf8(s.skip(last_line_break(s) + 1)).len()
}

/// The first line of the box round an object with the given title: the
/// title, and a rule that fills the line up to `LINE_WIDTH` bytes.
pub open spec fn box_header(title: Seq<char>) -> Seq<char> {
    let start = "╭─ "@ + title + " "@;
    let used = last_line_bytes(start);
    start + repeated(
        "─"@,
        if used < LINE_WIDTH {
            (LINE_WIDTH - used) as nat
        } else {
            0
        },
    ) + "\n"@
}

/// The members of a boxed object from index `from` on.
pub open spec fn boxed_members(members: Seq<JsonMember>, from: int) -> Seq<char>
    decreases members.len() - from,
{
    if 0 <= from < members.len() {
        (if from == members.len() - 1 {
            "╰─"@
        } else {
            "├─"@
        }) + " "@ + members[from].key@ + ": "@ + (if is_nested(members[from].value) {
            "\n"@ + rendered(members[from].value, 1)
        } else {
            rendered(members[from].value, 0) + "\n"@
        }) + boxed_members(members, from + 1)
    } else {
        Seq::empty()
    }
}

/// A value as `pretty_printer` shows it: an object whose only member is an
/// object is shown as a box with the key as its title; any other value is
/// shown as a tree.
pub open spec fn pretty(value: JsonValue) -> Seq<char> {
    match value {
        JsonValue::Object(outer) => if outer.len() == 1 {
            match outer[0].value {
                JsonValue::Object(inner) => box_header(outer[0].key@) + boxed_members(inner@, 0)
                    + "╰"@ + repeated("─"@, 59) + "\n"@,
                _ => rendered(value, 0),
            }
        } else {
            rendered(value, 0)
        },
        _ => rendered(value, 0),
    }
}

/// Appends `unit` to `output` `n` times.
pub fn push_repeated(output: &mut String, unit: &str, n: usize)
    ensures
        final(output)@ == old(output)@ + repeated(unit@, n as nat),
{
    let mut i: usize = 0;
    assert(output@ + repeated(unit@, 0) =~= output@);
    while i < n
        invariant
            i <= n,
            output@ == old(output)@ + repeated(unit@, i as nat),
        decreases n - i,
    {
        output.append(unit);
        assert(output@ =~= old(output)@ + repeated(unit@, (i + 1) as nat));
        i += 1;
    }
}

fn is_nested_value(v: &JsonValue) -> (r: bool)
    ensures
        r == is_nested(*v),
{
    match v {
        JsonValue::Array(_) => true,
        JsonValue::Object(_) => true,
        _ => false,
    }
}

fn next_depth(depth: usize) -> (r: usize)
    ensures
        r == deeper(depth),
{
    if depth < usize::MAX {
        depth + 1
    } else {
        depth
    }
}

fn push_branch(output: &mut String, last: bool)
    ensures
        final(output)@ == old(output)@ + branch(last),
{
    if last {
        output.append("└─");
    } else {
        output.append("├─");
    }
}

/// Appends a value as it is shown at the given depth.
pub fn format_value(value: &JsonValue, output: &mut String, depth: usize)
    ensures
        final(output)@ == old(output)@ + rendered(*value, depth),
    decreases value, 1nat,
{
    match value {
        JsonValue::Object(members) => {
            format_object(members, output, depth);
        },
        JsonValue::Array(items) => {
            format_array(items, output, depth);
        },
        JsonValue::Text(s) => {
            output.append(s.as_str());
        },
        JsonValue::Number(n) => {
            output.append(n.as_str());
        },
        JsonValue::Bool(b) => {
            if *b {
                output.append("true");
            } else {
                output.append("false");
            }
        },
        JsonValue::Null => {
            output.append("null");
        },
    }
}

/// Appends the members of an object, one line each.
pub fn format_object(members: &Vec<JsonMember>, output: &mut String, depth: usize)
    ensures
        final(output)@ == old(output)@ + rendered_members(members@, 0, depth),
    decreases members, 0nat,
{
    let len = members.len();
    let ghost goal = old(output)@ + rendered_members(members@, 0, depth);
    let mut idx: usize = 0;
    while idx < len
        invariant
            idx <= len == members.len(),
            goal == old(output)@ + rendered_members(members@, 0, depth),
            output@ + rendered_members(members@, idx as int, depth) == goal,
        decreases len - idx,
    {
        let ghost before = output@;
        let member = &members[idx];
        push_repeated(output, "│  ", depth);
        push_branch(output, idx == len - 1);
        output.append(" ");
        output.append(member.key.as_str());
        output.append(": ");
        if is_nested_value(&member.value) {
            output.append("\n");
            format_value(&member.value, output, next_depth(depth));
        } else {
            format_value(&member.value, output, depth);
            output.append("\n");
        }
        assert(output@ + rendered_members(members@, idx + 1, depth) =~= before + rendered_members(
            members@,
            idx as int,
            depth,
        ));
        idx += 1;
    }
    assert(output@ + rendered_members(members@, len as int, depth) =~= output@);
}

/// Appends the entries of an array, one line each.
pub fn format_array(items: &Vec<JsonValue>, output: &mut String, depth: usize)
    ensures
        final(output)@ == old(output)@ + rendered_items(items@, 0, depth),
    decreases items, 0nat,
{
    let len = items.len();
    let ghost goal = old(output)@ + rendered_items(items@, 0, depth);
    let mut idx: usize = 0;
    while idx < len
        invariant
            idx <= len == items.len(),
            goal == old(output)@ + rendered_items(items@, 0, depth),
            output@ + rendered_items(items@, idx as int, depth) == goal,
        decreases len - idx,
    {
        let ghost before = output@;
        let item = &items[idx];
        push_repeated(output, "│  ", depth);
        push_branch(output, idx == len - 1);
        output.append(" ");
        if is_nested_value(item) {
            output.append("\n");
            format_value(item, output, next_depth(depth));
        } else {
            format_value(item, output, depth);
            output.append("\n");
        }
        assert(output@ + rendered_items(items@, idx + 1, depth) =~= before + rendered_items(
            items@,
            idx as int,
            depth,
        ));
        idx += 1;
    }
    assert(output@ + rendered_items(items@, len as int, depth) =~= output@);
}

fn last_line_length(s: &str) -> (r: usize)
    ensures
        r == last_line_bytes(s@),
{
    let chars = to_chars(s);
    let mut start: usize = chars.len();
    assert(chars@.take(chars.len() as int) == chars@);
    while start > 0 && chars[start - 1] != '\n'
        invariant
            start <= chars.len(),
            last_line_break(chars@) == last_line_break(chars@.take(start as int)),
        decreases start,
    {
        proof {
            assert(chars@.take(start as int).drop_last() == chars@.take(start - 1));
        }
        start -= 1;
    }
    proof {
        assert(chars@.take(chars.len() as int) == chars@);
        if start > 0 {
            assert(chars@.take(start as int).last() == '\n');
        }
        assert(last_line_break(chars@) == start - 1);
    }
    let tail = from_chars(&slice_of(&chars, start, chars.len()));
    tail.as_str().as_bytes().len()
}

fn format_boxed(members: &Vec<JsonMember>, output: &mut String)
    ensures
        final(output)@ == old(output)@ + boxed_members(members@, 0),
{
    let len = members.len();
    let ghost goal = old(output)@ + boxed_members(members@, 0);
    let mut idx: usize = 0;
    while idx < len
        invariant
            idx <= len == members.len(),
            goal == old(output)@ + boxed_members(members@, 0),
            output@ + boxed_members(members@, idx as int) == goal,
        decreases len - idx,
    {
        let ghost before = output@;
        let member = &members[idx];
        if idx == len - 1 {
            output.append("╰─");
        } else {
            output.append("├─");
        }
        output.append(" ");
        output.append(member.key.as_str());
        output.append(": ");
        if is_nested_value(&member.value) {
            output.append("\n");
            format_value(&member.value, output, 1);
        } else {
            format_value(&member.value, output, 0);
            output.append("\n");
        }
        assert(output@ + boxed_members(members@, idx + 1) =~= before + boxed_members(
            members@,
            idx as int,
        ));
        idx += 1;
    }
    assert(output@ + boxed_members(members@, len as int) =~= output@);
}

/// Shows a value as a tree, or as a box if it is an object whose only
/// member is an object.
pub fn pretty_printer(value: JsonValue) -> (r: String)
    ensures
        r@ == pretty(value),
{
    let mut output = String::new();
    if let JsonValue::Object(outer) = &value {
        if outer.len() == 1 {
            if let JsonValue::Object(inner) = &outer[0].value {
                output.append("╭─ ");
                output.append(outer[0].key.as_str());
                output.append(" ");
                let used = last_line_length(output.as_str());
                if used < LINE_WIDTH {
                    push_repeated(&mut output, "─", LINE_WIDTH - used);
                } else {
                    assert(output@ + repeated("─"@, 0) =~= output@);
                }
                output.append("\n");
                assert(output@ =~= box_header(outer[0].key@));
                format_boxed(inner, &mut output);
                output.append("╰");
                push_repeated(&mut output, "─", 59);
                output.append("\n");
                assert(output@ =~= pretty(value));
                return output;
            }
        }
    }
    format_value(&value, &mut output, 0);
    assert(output@ =~= rendered(value, 0));
    output
}

} // verus!
