//! Payload validation: the traits that validator types implement, the
//! structured error, and its verified JSON serialization.
use vstd::prelude::*;

use crate::text::push_char;

verus! {

/// A structured validation failure: a message and the path of field names
/// that leads to the offending value.
pub struct ValidationError {
    pub message: String,
    pub path: Vec<String>,
}

/// Value-level constraints a payload type checks after parsing.
pub trait Validate {
    fn validate(&self) -> Result<(), ValidationError>;
}

/// Filling a payload type from JSON text or from an already-parsed value.
pub trait ValidateJson {
    fn parse_json(&mut self, raw: &str) -> Result<(), ValidationError>;

    fn assign_json(&mut self, parsed: &json::JsonValue) -> Result<(), ValidationError>;
}

/// Parses and then validates a payload. What each step accepts is the
/// implementing type's own business; this only sequences them.
pub fn validate_json<T: Validate + ValidateJson + Default>(raw: &str) -> (r: Result<
    T,
    ValidationError,
>) {
    let mut payload: T = T::default();
    match payload.parse_json(raw) {
        Err(e) => {
            return Err(e);
        },
        Ok(_) => {},
    }
    match payload.validate() {
        Err(e) => {
            return Err(e);
        },
        Ok(_) => {},
    }
    Ok(payload)
}

/// A hexadecimal digit, lower case.
pub open spec fn spec_hex_digit(n: nat) -> char {
    if n < 10 {
        ((n + 48) as u8) as char
    } else {
        ((n + 87) as u8) as char
    }
}

/// How one character is written inside a JSON string literal.
pub open spec fn spec_escape_char(c: char) -> Seq<char> {
    if c == '"' {
        seq!['\\', '"']
    } else if c == '\\' {
        seq!['\\', '\\']
    } else if c == '\n' {
        seq!['\\', 'n']
    } else if c == '\r' {
        seq!['\\', 'r']
    } else if c == '\t' {
        seq!['\\', 't']
    } else if (c as u32) < 32 {
        seq!['\\', 'u', '0', '0', spec_hex_digit((c as u32 / 16) as nat), spec_hex_digit(
            (c as u32 % 16) as nat,
        )]
    } else {
        seq![c]
    }
}

pub open spec fn spec_escape(s: Seq<char>) -> Seq<char>
    decreases s.len(),
{
    if s.len() == 0 {
        Seq::empty()
    } else {
        spec_escape(s.drop_last()) + spec_escape_char(s.last())
    }
}

/// A JSON string literal.
pub open spec fn spec_quoted(s: Seq<char>) -> Seq<char> {
    seq!['"'] + spec_escape(s) + seq!['"']
}

pub open spec fn spec_quoted_items(path: Seq<Seq<char>>) -> Seq<char>
    decreases path.len(),
{
    if path.len() == 0 {
        Seq::empty()
    } else if path.len() == 1 {
        spec_quoted(path[0])
    } else {
        spec_quoted_items(path.drop_last()) + seq![','] + spec_quoted(path.last())
    }
}

/// A JSON array of string literals.
pub open spec fn spec_path_json(path: Seq<Seq<char>>) -> Seq<char> {
    seq!['['] + spec_quoted_items(path) + seq![']']
}

/// The error as the JSON object `{type, message, path}`.
pub open spec fn spec_error_json(message: Seq<char>, path: Seq<Seq<char>>) -> Seq<char> {
    "{\"type\":\"ValidationError\",\"message\":"@ + spec_quoted(message) + ",\"path\":"@
        + spec_path_json(path) + "}"@
}

fn hex_digit(n: u32) -> (r: char)
    requires
        n < 16,
    ensures
        r == spec_hex_digit(n as nat),
{
    if n < 10 {
        ((n + 48) as u8) as char
    } else {
        ((n + 87) as u8) as char
    }
}

/// Appends `s` escaped for the inside of a JSON string literal.
fn escape_append(out: &mut String, s: &str)
    ensures
        final(out)@ == old(out)@ + spec_escape(s@),
{
    let len = s.unicode_len();
    let mut i: usize = 0;
    assert(out@ =~= out@ + spec_escape(s@.take(0)));
    while i < len
        invariant
            i <= len,
            len == s@.len(),
            out@ == old(out)@ + spec_escape(s@.take(i as int)),
        decreases len - i,
    {
        let c = s.get_char(i);
        let u = c as u32;
        if c == '"' {
            push_char(out, '\\');
            push_char(out, '"');
        } else if c == '\\' {
            push_char(out, '\\');
            push_char(out, '\\');
        } else if c == '\n' {
            push_char(out, '\\');
            push_char(out, 'n');
        } else if c == '\r' {
            push_char(out, '\\');
            push_char(out, 'r');
        } else if c == '\t' {
            push_char(out, '\\');
            push_char(out, 't');
        } else if u < 32 {
            push_char(out, '\\');
            push_char(out, 'u');
            push_char(out, '0');
            push_char(out, '0');
            push_char(out, hex_digit(u / 16));
            push_char(out, hex_digit(u % 16));
        } else {
            push_char(out, c);
        }
        i = i + 1;
        proof {
            assert(s@.take(i as int).drop_last() =~= s@.take(i - 1));
            assert(s@.take(i as int).last() == s@[i - 1]);
            assert(out@ =~= old(out)@ + spec_escape(s@.take(i as int)));
        }
    }
    assert(s@.take(len as int) =~= s@);
}

/// Appends `s` as a JSON string literal.
fn quoted_append(out: &mut String, s: &str)
    ensures
        final(out)@ == old(out)@ + spec_quoted(s@),
{
    push_char(out, '"');
    escape_append(out, s);
    push_char(out, '"');
    assert(final(out)@ =~= old(out)@ + spec_quoted(s@));
}

/// Appends the path as a JSON array of string literals.
fn path_append(out: &mut String, path: &Vec<String>)
    ensures
        final(out)@ == old(out)@ + spec_path_json(path@.map_values(|s: String| s@)),
{
    let ghost views = path@.map_values(|s: String| s@);
    push_char(out, '[');
    let mut i: usize = 0;
    while i < path.len()
        invariant
            i <= path@.len(),
            views == path@.map_values(|s: String| s@),
            out@ == old(out)@ + seq!['['] + spec_quoted_items(views.take(i as int)),
        decreases path@.len() - i,
    {
        if i > 0 {
            push_char(out, ',');
        }
        quoted_append(out, path[i].as_str());
        i = i + 1;
        proof {
            assert(views.take(i as int).drop_last() =~= views.take(i - 1));
            assert(views.take(i as int).last() == views[i - 1]);
            if i > 1 {
                assert(out@ =~= old(out)@ + seq!['['] + spec_quoted_items(views.take(i as int)));
            } else {
                assert(spec_quoted_items(views.take(1)) == spec_quoted(views.take(1)[0]));
                assert(out@ =~= old(out)@ + seq!['['] + spec_quoted_items(views.take(i as int)));
            }
        }
    }
    assert(views.take(path@.len() as int) =~= views);
    push_char(out, ']');
    assert(final(out)@ =~= old(out)@ + spec_path_json(views));
}

impl ValidationError {
    /// The error serialized as the JSON object `{type, message, path}`.
    pub fn into_json(self) -> (r: String)
        ensures
            r@ == spec_error_json(self.message@, self.path@.map_values(|s: String| s@)),
    {
        let mut out = String::from_str("{\"type\":\"ValidationError\",\"message\":");
        quoted_append(&mut out, self.message.as_str());
        out.append(",\"path\":");
        path_append(&mut out, &self.path);
        push_char(&mut out, '}');
        proof {
            reveal_strlit("}");
        }
        assert(out@ =~= spec_error_json(self.message@, self.path@.map_values(|s: String| s@)));
        out
    }
}

} // verus!
