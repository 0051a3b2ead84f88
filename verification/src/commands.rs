//! What an external command left behind, and the text that is made of it.

use crate::ids::hex_char;
use crate::json::strings;
use crate::text::{decode_strict, split, split_chars, to_chars, to_string, views};
use vstd::prelude::*;
use vstd::utf8::{decode_utf8, valid_utf8};

verus! {

/// What a finished process left behind: whether it reported success, and
/// what it wrote to its standard output and standard error.
#[derive(Debug)]
pub struct CommandOutput {
    pub success: bool,
    pub stdout: Vec<u8>,
    pub stderr: Vec<u8>,
}

/// How a character stands in a JSON string: the quotation mark, the
/// backslash and the control characters are escaped, any other character
/// stands for itself.
pub open spec fn json_char(c: char) -> Seq<char> {
    if c == '"' {
        seq!['\\', '"']
    } else if c == '\\' {
        seq!['\\', '\\']
    } else if c == '\u{8}' {
        seq!['\\', 'b']
    } else if c == '\t' {
        seq!['\\', 't']
    } else if c == '\n' {
        seq!['\\', 'n']
    } else if c == '\u{c}' {
        seq!['\\', 'f']
    } else if c == '\r' {
        seq!['\\', 'r']
    } else if (c as u32) < 0x20 {
        seq!['\\', 'u', '0', '0', hex_char((c as u128) >> 4), hex_char((c as u128) & 0xf)]
    } else {
        seq![c]
    }
}

/// The characters of a text as they stand in a JSON string.
pub open spec fn json_chars(text: Seq<char>) -> Seq<char>
    decreases text.len(),
{
    if text.len() == 0 {
        Seq::empty()
    } else {
        json_chars(text.drop_last()) + json_char(text.last())
    }
}

/// A text as a JSON string, between quotation marks.
pub open spec fn json_string(text: Seq<char>) -> Seq<char> {
    seq!['"'] + json_chars(text) + seq!['"']
}

/// The texts as JSON strings with a comma between each two neighbours.
pub open spec fn json_items(lines: Seq<Seq<char>>) -> Seq<char>
    decreases lines.len(),
{
    if lines.len() == 0 {
        Seq::empty()
    } else if lines.len() == 1 {
        json_string(lines[0])
    } else {
        json_items(lines.drop_last()) + seq![','] + json_string(lines.last())
    }
}

/// The compact JSON text of an array of strings.
pub open spec fn json_array_text(lines: Seq<Seq<char>>) -> Seq<char> {
    seq!['['] + json_items(lines) + seq![']']
}

/// `serde_json::Value::to_string` on an array of strings: the compact JSON
/// text of the array whose items are `lines`, in their order. That is a
/// bracket, the items as JSON strings with commas between them and nothing
/// else, and a bracket; in a string, `"` and `\` have a backslash before
/// them, backspace, tab, line feed, form feed and carriage return are `\b`,
/// `\t`, `\n`, `\f` and `\r`, any other character below U+0020 is `\u00`
/// and its two hexadecimal digits in lower case, and every other character
/// stands as it is.
#[verifier::external_body]
fn write_json_array(lines: &Vec<String>) -> (text: String)
    ensures
        text@ == json_array_text(strings(lines@)),
{
    let items = lines.iter().map(|line| serde_json::Value::String(line.clone())).collect();
    serde_json::Value::Array(items).to_string()
}

/// What a process wrote to its standard output, as text: for a process that
/// succeeded and wrote valid UTF-8, the text that it wrote; otherwise what
/// went wrong.
pub open spec fn captured(success: bool, stdout: Seq<u8>) -> Result<Seq<char>, Seq<char>> {
    if !success {
        Err("Process failed."@)
    } else if !valid_utf8(stdout) {
        Err("Failed to read output."@)
    } else {
        Ok(decode_utf8(stdout))
    }
}

/// The text made of the output of a command: for a process that succeeded
/// and wrote valid UTF-8, the JSON array of the lines of its standard output,
/// the output being cut at each line feed.
pub open spec fn formatted(success: bool, stdout: Seq<u8>) -> Result<Seq<char>, Seq<char>> {
    match captured(success, stdout) {
        Ok(text) => Ok(json_array_text(split(text, "\n"@))),
        Err(cause) => Err(cause),
    }
}

/// The pieces of `text` between line feeds.
pub fn lines_of(text: &str) -> (lines: Vec<String>)
    ensures
        strings(lines@) == split(text@, "\n"@),
{
    let chars = to_chars(text);
    let line_feed = to_chars("\n");
    let pieces = split_chars(&chars, &line_feed);
    let mut lines: Vec<String> = Vec::new();
    let mut i: usize = 0;
    while i < pieces.len()
        invariant
            i <= pieces.len(),
            strings(lines@) == views(pieces@).take(i as int),
        decreases pieces.len() - i,
    {
        let line = to_string(&pieces[i], 0, pieces[i].len());
        let ghost before = lines@;
        lines.push(line);
        i = i + 1;
        proof {
            assert(line@ =~= pieces@[i - 1]@);
            assert(strings(lines@) =~= strings(before).push(line@));
            assert(views(pieces@).take(i as int) =~= views(pieces@).take(i - 1).push(
                pieces@[i - 1]@,
            ));
        }
    }
    assert(views(pieces@).take(pieces@.len() as int) =~= views(pieces@));
    lines
}

/// What a process wrote to its standard output, as text.
pub fn stdout_text(output: &CommandOutput) -> (text: Result<String, &'static str>)
    ensures
        match text {
            Ok(t) => captured(output.success, output.stdout@) == Ok::<Seq<char>, Seq<char>>(t@),
            Err(e) => captured(output.success, output.stdout@) == Err::<Seq<char>, Seq<char>>(e@),
        },
{
    if !output.success {
        return Err("Process failed.");
    }
    match decode_strict(output.stdout.as_slice()) {
        Some(output_text) => Ok(output_text),
        None => Err("Failed to read output."),
    }
}

/// The text made of the output of a command.
pub fn format_output(output: CommandOutput) -> (text: Result<String, &'static str>)
    ensures
        match text {
            Ok(t) => formatted(output.success, output.stdout@) == Ok::<Seq<char>, Seq<char>>(t@),
            Err(e) => formatted(output.success, output.stdout@) == Err::<Seq<char>, Seq<char>>(
                e@,
            ),
        },
{
    match stdout_text(&output) {
        Ok(output_text) => {
            let lines = lines_of(output_text.as_str());
            Ok(write_json_array(&lines))
        },
        Err(e) => Err(e),
    }
}

} // verus!
