//! Reading the text of a desktop-entry file.
//!
//! The file is a list of lines. The line `[Desktop Entry]` opens the group
//! that describes the application; the group ends at the next line that
//! begins with `[`. Inside the group a line `key = value` gives `key` its
//! value; blanks around the key and around the value do not count, and of
//! several lines with one key the first counts.

use vstd::prelude::*;
use vstd::string::StrSliceExecFns;
use crate::text::chars_of;

verus! {

/// Why the text of a file describes no entry.
#[derive(Clone, Copy, Debug, PartialEq, Eq, Structural)]
pub enum AcquisitionError {
    /// The application's group gives no name.
    NoName,
    /// The application's group gives no command.
    NoCommand,
}

/// What a desktop-entry file says of its application.
#[derive(Debug, PartialEq, Eq)]
pub struct DesktopFile {
    pub name: String,
    pub exec_command: String,
    /// The icon by name or by path, as the file gives it.
    pub icon: Option<String>,
}

/// A character that does not count at the ends of a key or a value.
pub open spec fn is_blank(c: char) -> bool {
    c == ' ' || c == '\t' || c == '\r'
}

/// The place at or behind `from` at which the line ends: that of the next
/// line feed, or the end of the text.
pub open spec fn line_end(text: Seq<char>, from: int) -> int
    decreases text.len() - from,
{
    if from < 0 || from >= text.len() {
        text.len() as int
    } else if text[from] == '\n' {
        from
    } else {
        line_end(text, from + 1)
    }
}

/// The first place in `from..to` that holds no blank; `to` where all are
/// blanks.
pub open spec fn skip_blanks(text: Seq<char>, from: int, to: int) -> int
    decreases to - from,
{
    if from >= to {
        to
    } else if is_blank(text[from]) {
        skip_blanks(text, from + 1, to)
    } else {
        from
    }
}

/// The place behind the last character in `from..to` that is no blank;
/// `from` where all are blanks.
pub open spec fn drop_blanks(text: Seq<char>, from: int, to: int) -> int
    decreases to - from,
{
    if to <= from {
        from
    } else if is_blank(text[to - 1]) {
        drop_blanks(text, from, to - 1)
    } else {
        to
    }
}

/// The characters of `from..to` without the blanks at both ends.
pub open spec fn trimmed(text: Seq<char>, from: int, to: int) -> Seq<char> {
    let start = skip_blanks(text, from, to);
    text.subrange(start, drop_blanks(text, start, to))
}

/// The place of the first `=` in `from..to`; `to` where there is none.
pub open spec fn equals_sign(text: Seq<char>, from: int, to: int) -> int
    decreases to - from,
{
    if from >= to {
        to
    } else if text[from] == '=' {
        from
    } else {
        equals_sign(text, from + 1, to)
    }
}

/// The value that the line `from..to` gives to `key`, if it gives it one.
pub open spec fn field(text: Seq<char>, from: int, to: int, key: Seq<char>) -> Option<Seq<char>> {
    let sign = equals_sign(text, from, to);
    if sign < to && trimmed(text, from, sign) == key {
        Some(trimmed(text, sign + 1, to))
    } else {
        None
    }
}

/// The line `from..to` opens the application's group.
pub open spec fn is_header(text: Seq<char>, from: int, to: int) -> bool {
    trimmed(text, from, to) == "[Desktop Entry]"@
}

/// The line `from..to` opens a group.
pub open spec fn opens_group(text: Seq<char>, from: int, to: int) -> bool {
    from < to && text[from] == '['
}

/// A line ends at or behind the place where it begins, and within the text.
proof fn lemma_line_end_bounds(text: Seq<char>, from: int)
    requires
        0 <= from <= text.len(),
    ensures
        from <= line_end(text, from) <= text.len(),
    decreases text.len() - from,
{
    if from < text.len() && text[from] != '\n' {
        lemma_line_end_bounds(text, from + 1);
    }
}

/// The value of `key` in the application's group, read from the line that
/// begins at `pos`; `in_group` says whether that line stands in the group.
pub open spec fn value_from(text: Seq<char>, pos: int, in_group: bool, key: Seq<char>) -> Option<
    Seq<char>,
>
    decreases text.len() - pos,
    via value_from_ends
{
    if pos < 0 || pos >= text.len() {
        None
    } else {
        let end = line_end(text, pos);
        if in_group && opens_group(text, pos, end) {
            None
        } else if in_group && field(text, pos, end, key) is Some {
            field(text, pos, end, key)
        } else if end >= text.len() {
            None
        } else {
            value_from(text, end + 1, in_group || is_header(text, pos, end), key)
        }
    }
}

#[via_fn]
proof fn value_from_ends(text: Seq<char>, pos: int, in_group: bool, key: Seq<char>) {
    if 0 <= pos < text.len() {
        lemma_line_end_bounds(text, pos);
    }
}

/// The value that the application's group of a file gives to `key`.
pub open spec fn value_of(text: Seq<char>, key: Seq<char>) -> Option<Seq<char>> {
    value_from(text, 0, false, key)
}

/// What the text of a file says of its application: its name, its command
/// and, if it names one, its icon.
pub open spec fn described(text: Seq<char>) -> Result<
    (Seq<char>, Seq<char>, Option<Seq<char>>),
    AcquisitionError,
> {
    match value_of(text, "Name"@) {
        None => Err(AcquisitionError::NoName),
        Some(name) => match value_of(text, "Exec"@) {
            None => Err(AcquisitionError::NoCommand),
            Some(command) => Ok((name, command, value_of(text, "Icon"@))),
        },
    }
}

/// What a file's description holds, as characters.
pub open spec fn file_view(file: DesktopFile) -> (Seq<char>, Seq<char>, Option<Seq<char>>) {
    (
        file.name@,
        file.exec_command@,
        match file.icon {
            Some(icon) => Some(icon@),
            None => None,
        },
    )
}

fn line_end_at(t: &Vec<char>, from: usize) -> (end: usize)
    requires
        from <= t.len(),
    ensures
        end == line_end(t@, from as int),
        from <= end <= t.len(),
{
    let mut end = from;
    while end < t.len() && t[end] != '\n'
        invariant
            from <= end <= t.len(),
            line_end(t@, from as int) == line_end(t@, end as int),
        decreases t.len() - end,
    {
        end = end + 1;
    }
    end
}

fn skip_blanks_at(t: &Vec<char>, from: usize, to: usize) -> (start: usize)
    requires
        from <= to <= t.len(),
    ensures
        start == skip_blanks(t@, from as int, to as int),
        from <= start <= to,
{
    let mut start = from;
    while start < to && (t[start] == ' ' || t[start] == '\t' || t[start] == '\r')
        invariant
            from <= start <= to <= t.len(),
            skip_blanks(t@, from as int, to as int) == skip_blanks(t@, start as int, to as int),
        decreases to - start,
    {
        start = start + 1;
    }
    start
}

fn drop_blanks_at(t: &Vec<char>, from: usize, to: usize) -> (end: usize)
    requires
        from <= to <= t.len(),
    ensures
        end == drop_blanks(t@, from as int, to as int),
        from <= end <= to,
{
    let mut end = to;
    while end > from && (t[end - 1] == ' ' || t[end - 1] == '\t' || t[end - 1] == '\r')
        invariant
            from <= end <= to <= t.len(),
            drop_blanks(t@, from as int, to as int) == drop_blanks(t@, from as int, end as int),
        decreases end - from,
    {
        end = end - 1;
    }
    end
}

/// The ends of `from..to` without the blanks.
fn trim_at(t: &Vec<char>, from: usize, to: usize) -> (ends: (usize, usize))
    requires
        from <= to <= t.len(),
    ensures
        from <= ends.0 <= ends.1 <= to,
        t@.subrange(ends.0 as int, ends.1 as int) == trimmed(t@, from as int, to as int),
{
    let start = skip_blanks_at(t, from, to);
    let end = drop_blanks_at(t, start, to);
    (start, end)
}

fn equals_sign_at(t: &Vec<char>, from: usize, to: usize) -> (sign: usize)
    requires
        from <= to <= t.len(),
    ensures
        sign == equals_sign(t@, from as int, to as int),
        from <= sign <= to,
{
    let mut sign = from;
    while sign < to && t[sign] != '='
        invariant
            from <= sign <= to <= t.len(),
            equals_sign(t@, from as int, to as int) == equals_sign(t@, sign as int, to as int),
        decreases to - sign,
    {
        sign = sign + 1;
    }
    sign
}

/// Whether `from..to` holds the characters of `word`.
fn holds_word(t: &Vec<char>, from: usize, to: usize, word: &Vec<char>) -> (r: bool)
    requires
        from <= to <= t.len(),
    ensures
        r == (t@.subrange(from as int, to as int) == word@),
{
    if to - from != word.len() {
        return false;
    }
    let mut i: usize = 0;
    while i < word.len()
        invariant
            from <= to <= t.len(),
            to - from == word.len(),
            i <= word.len(),
            forall|j: int| 0 <= j < i ==> t[from + j] == word[j],
        decreases word.len() - i,
    {
        if t[from + i] != word[i] {
            assert(t@.subrange(from as int, to as int)[i as int] != word@[i as int]);
            return false;
        }
        i = i + 1;
    }
    assert(t@.subrange(from as int, to as int) =~= word@);
    true
}

/// The ends of the value that the line `from..to` gives to `key`.
fn field_at(t: &Vec<char>, from: usize, to: usize, key: &Vec<char>) -> (r: Option<(usize, usize)>)
    requires
        from <= to <= t.len(),
    ensures
        match r {
            Some(ends) => {
                &&& ends.0 <= ends.1 <= t.len()
                &&& field(t@, from as int, to as int, key@) == Some(
                    t@.subrange(ends.0 as int, ends.1 as int),
                )
            },
            None => field(t@, from as int, to as int, key@) is None,
        },
{
    let sign = equals_sign_at(t, from, to);
    if sign >= to {
        return None;
    }
    let name = trim_at(t, from, sign);
    if holds_word(t, name.0, name.1, key) {
        Some(trim_at(t, sign + 1, to))
    } else {
        None
    }
}

/// The ends of the value that the application's group gives to `key`.
fn value_at(t: &Vec<char>, header: &Vec<char>, key: &Vec<char>) -> (r: Option<(usize, usize)>)
    requires
        header@ == "[Desktop Entry]"@,
    ensures
        match r {
            Some(ends) => {
                &&& ends.0 <= ends.1 <= t.len()
                &&& value_of(t@, key@) == Some(t@.subrange(ends.0 as int, ends.1 as int))
            },
            None => value_of(t@, key@) is None,
        },
{
    let n = t.len();
    let mut pos: usize = 0;
    let mut in_group = false;
    while pos < n
        invariant
            n == t.len(),
            pos <= n,
            header@ == "[Desktop Entry]"@,
            value_of(t@, key@) == value_from(t@, pos as int, in_group, key@),
        decreases n - pos,
    {
        let end = line_end_at(t, pos);
        if in_group {
            if pos < end && t[pos] == '[' {
                return None;
            }
            if let Some(ends) = field_at(t, pos, end, key) {
                return Some(ends);
            }
        } else {
            let line = trim_at(t, pos, end);
            in_group = holds_word(t, line.0, line.1, header);
        }
        if end == n {
            return None;
        }
        pos = end + 1;
    }
    None
}

/// The value that the application's group of `text` gives to `key`.
fn read_value(text: &str, t: &Vec<char>, header: &Vec<char>, key: &str) -> (r: Option<String>)
    requires
        t@ == text@,
        header@ == "[Desktop Entry]"@,
    ensures
        match r {
            Some(value) => value_of(text@, key@) == Some(value@),
            None => value_of(text@, key@) is None,
        },
{
    let key_chars = chars_of(key);
    match value_at(t, header, &key_chars) {
        Some(ends) => Some(text.substring_char(ends.0, ends.1).to_string()),
        None => None,
    }
}

/// Reads what the text of a desktop-entry file says of its application: the
/// values of `Name`, `Exec` and `Icon` in the group `[Desktop Entry]`. A
/// text without a name there, or without a command, describes no entry.
pub fn parse_desktop_file(text: &str) -> (r: Result<DesktopFile, AcquisitionError>)
    ensures
        match r {
            Ok(file) => described(text@) == Ok::<_, AcquisitionError>(file_view(file)),
            Err(e) => described(text@) == Err::<(Seq<char>, Seq<char>, Option<Seq<char>>), _>(e),
        },
{
    let t = chars_of(text);
    let header = chars_of("[Desktop Entry]");
    let name = match read_value(text, &t, &header, "Name") {
        Some(name) => name,
        None => {
            return Err(AcquisitionError::NoName);
        },
    };
    let exec_command = match read_value(text, &t, &header, "Exec") {
        Some(command) => command,
        None => {
            return Err(AcquisitionError::NoCommand);
        },
    };
    let icon = read_value(text, &t, &header, "Icon");
    Ok(DesktopFile { name, exec_command, icon })
}

} // verus!
