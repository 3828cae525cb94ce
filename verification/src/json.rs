//! The on-disk format of the credentials file: a JSON object with the five
//! configuration fields as string members.
//!
//! The renderer produces the pretty-printed form
//! `{\n  "host": "...",\n  ...\n}` with the members in declaration order;
//! the parser accepts the members in any order, each exactly once, with
//! arbitrary whitespace between tokens.  String values support the JSON
//! escapes `\"`, `\\`, `\/`, `\b`, `\f`, `\n`, `\r`, `\t` and `\u00XX`;
//! code points above `U+00FF` are carried as themselves, never escaped.
use vstd::prelude::*;

use crate::config::{ConfigFields, DbConfig};
use crate::text::{chars_eq_str, chars_to_string, push_chars, str_to_chars};

verus! {

/// JSON whitespace.
pub open spec fn is_ws(c: char) -> bool {
    c == ' ' || c == '\n' || c == '\t' || c == '\r'
}

/// A character that a string member carries as itself, unescaped.
pub open spec fn is_plain(c: char) -> bool {
    c != '"' && c != '\\' && c as u32 >= 32
}

/// The lowercase hexadecimal digit for a value below 16.
pub open spec fn hex_digit_char(v: int) -> char {
    if v == 0 {
        '0'
    } else if v == 1 {
        '1'
    } else if v == 2 {
        '2'
    } else if v == 3 {
        '3'
    } else if v == 4 {
        '4'
    } else if v == 5 {
        '5'
    } else if v == 6 {
        '6'
    } else if v == 7 {
        '7'
    } else if v == 8 {
        '8'
    } else if v == 9 {
        '9'
    } else if v == 10 {
        'a'
    } else if v == 11 {
        'b'
    } else if v == 12 {
        'c'
    } else if v == 13 {
        'd'
    } else if v == 14 {
        'e'
    } else {
        'f'
    }
}

/// The value of a hexadecimal digit, either case, or -1.
pub open spec fn hex_val(c: char) -> int {
    let v = c as u32;
    if 48 <= v && v <= 57 {
        v - 48
    } else if 97 <= v && v <= 102 {
        v - 87
    } else if 65 <= v && v <= 70 {
        v - 55
    } else {
        -1
    }
}

/// How one character is written inside a JSON string member.
pub open spec fn esc_char(c: char) -> Seq<char> {
    if c == '"' {
        seq!['\\', '"']
    } else if c == '\\' {
        seq!['\\', '\\']
    } else if c == '\u{8}' {
        seq!['\\', 'b']
    } else if c == '\u{c}' {
        seq!['\\', 'f']
    } else if c == '\n' {
        seq!['\\', 'n']
    } else if c == '\r' {
        seq!['\\', 'r']
    } else if c == '\t' {
        seq!['\\', 't']
    } else if (c as u32) < 32 {
        seq!['\\', 'u', '0', '0', hex_digit_char((c as u32 / 16) as int), hex_digit_char(
            (c as u32 % 16) as int,
        )]
    } else {
        seq![c]
    }
}

/// How a whole value is written inside a JSON string member.
pub open spec fn spec_escape(s: Seq<char>) -> Seq<char>
    decreases s.len(),
{
    if s.len() == 0 {
        Seq::empty()
    } else {
        esc_char(s[0]) + spec_escape(s.drop_first())
    }
}

/// One rendered member: a newline, the two-space indent, and the quoted
/// key and escaped value.
pub open spec fn member_text(key: Seq<char>, val: Seq<char>) -> Seq<char> {
    "\n  \""@ + key + "\": \""@ + spec_escape(val) + "\""@
}

/// The rendered credentials file for the given field values.
pub open spec fn spec_render_config(c: ConfigFields) -> Seq<char> {
    "{"@ + member_text("host"@, c.host) + ","@ + member_text("port"@, c.port) + ","@
        + member_text("username"@, c.username) + ","@ + member_text("password"@, c.password) + ","@
        + member_text("database"@, c.database) + "\n}"@
}

/// The input with its leading whitespace removed.
pub open spec fn spec_skip_ws(s: Seq<char>) -> Seq<char>
    decreases s.len(),
{
    if s.len() > 0 && is_ws(s[0]) {
        spec_skip_ws(s.drop_first())
    } else {
        s
    }
}

/// Reads one escape sequence.  The input starts at its backslash; the
/// result is the character it denotes and the input that follows it.
pub open spec fn spec_unescape_at(s: Seq<char>) -> Option<(char, Seq<char>)> {
    if s.len() < 2 {
        None
    } else {
        let e = s[1];
        let after2 = s.subrange(2, s.len() as int);
        if e == '"' {
            Some(('"', after2))
        } else if e == '\\' {
            Some(('\\', after2))
        } else if e == '/' {
            Some(('/', after2))
        } else if e == 'b' {
            Some(('\u{8}', after2))
        } else if e == 'f' {
            Some(('\u{c}', after2))
        } else if e == 'n' {
            Some(('\n', after2))
        } else if e == 'r' {
            Some(('\r', after2))
        } else if e == 't' {
            Some(('\t', after2))
        } else if e == 'u' {
            if s.len() < 6 {
                None
            } else if s[2] == '0' && s[3] == '0' && hex_val(s[4]) >= 0 && hex_val(s[5]) >= 0 {
                Some(
                    (
                        ((hex_val(s[4]) * 16 + hex_val(s[5])) as u8) as char,
                        s.subrange(6, s.len() as int),
                    ),
                )
            } else {
                None
            }
        } else {
            None
        }
    }
}

/// Reads a string member's characters.  The input starts just after the
/// opening quote; the result is the decoded value and the input after the
/// closing quote.
pub open spec fn spec_scan_string(s: Seq<char>) -> Option<(Seq<char>, Seq<char>)>
    decreases s.len(),
{
    if s.len() == 0 {
        None
    } else if s[0] == '"' {
        Some((Seq::empty(), s.drop_first()))
    } else if s[0] == '\\' {
        match spec_unescape_at(s) {
            None => None,
            Some((c, rest)) => match spec_scan_string(rest) {
                None => None,
                Some((v, tail)) => Some((seq![c] + v, tail)),
            },
        }
    } else if (s[0] as u32) < 32 {
        None
    } else {
        match spec_scan_string(s.drop_first()) {
            None => None,
            Some((v, tail)) => Some((seq![s[0]] + v, tail)),
        }
    }
}

/// The fields seen so far while reading the members of the file.
pub struct PartialConfig {
    pub host: Option<Seq<char>>,
    pub port: Option<Seq<char>>,
    pub username: Option<Seq<char>>,
    pub password: Option<Seq<char>>,
    pub database: Option<Seq<char>>,
}

/// No field seen yet.
pub open spec fn empty_partial() -> PartialConfig {
    PartialConfig { host: None, port: None, username: None, password: None, database: None }
}

/// Records one member under its key; a key that is unknown, or that was
/// already seen, refuses the file.
pub open spec fn assign_field(p: PartialConfig, key: Seq<char>, val: Seq<char>) -> Option<
    PartialConfig,
> {
    if key == "host"@ {
        if p.host is Some {
            None
        } else {
            Some(PartialConfig { host: Some(val), ..p })
        }
    } else if key == "port"@ {
        if p.port is Some {
            None
        } else {
            Some(PartialConfig { port: Some(val), ..p })
        }
    } else if key == "username"@ {
        if p.username is Some {
            None
        } else {
            Some(PartialConfig { username: Some(val), ..p })
        }
    } else if key == "password"@ {
        if p.password is Some {
            None
        } else {
            Some(PartialConfig { password: Some(val), ..p })
        }
    } else if key == "database"@ {
        if p.database is Some {
            None
        } else {
            Some(PartialConfig { database: Some(val), ..p })
        }
    } else {
        None
    }
}

/// The finished configuration, once every field has been seen.
pub open spec fn complete(p: PartialConfig) -> Option<ConfigFields> {
    if p.host is Some && p.port is Some && p.username is Some && p.password is Some
        && p.database is Some {
        Some(
            ConfigFields {
                host: p.host->0,
                port: p.port->0,
                username: p.username->0,
                password: p.password->0,
                database: p.database->0,
            },
        )
    } else {
        None
    }
}

/// Reads one `"key": "value"` member, with whitespace around its tokens.
pub open spec fn spec_parse_member(s: Seq<char>) -> Option<((Seq<char>, Seq<char>), Seq<char>)> {
    let s1 = spec_skip_ws(s);
    if s1.len() == 0 || s1[0] != '"' {
        None
    } else {
        match spec_scan_string(s1.drop_first()) {
            None => None,
            Some((key, s2)) => {
                let s3 = spec_skip_ws(s2);
                if s3.len() == 0 || s3[0] != ':' {
                    None
                } else {
                    let s4 = spec_skip_ws(s3.drop_first());
                    if s4.len() == 0 || s4[0] != '"' {
                        None
                    } else {
                        match spec_scan_string(s4.drop_first()) {
                            None => None,
                            Some((val, s5)) => Some(((key, val), s5)),
                        }
                    }
                }
            },
        }
    }
}

/// Reads `n` members separated by commas, recording each.
pub open spec fn spec_parse_members(s: Seq<char>, p: PartialConfig, n: nat) -> Option<
    (PartialConfig, Seq<char>),
>
    decreases n,
{
    if n == 0 {
        Some((p, s))
    } else {
        match spec_parse_member(s) {
            None => None,
            Some(((key, val), rest)) => match assign_field(p, key, val) {
                None => None,
                Some(p2) => {
                    if n == 1 {
                        Some((p2, rest))
                    } else {
                        let t = spec_skip_ws(rest);
                        if t.len() == 0 || t[0] != ',' {
                            None
                        } else {
                            spec_parse_members(t.drop_first(), p2, (n - 1) as nat)
                        }
                    }
                },
            },
        }
    }
}

/// The meaning of a credentials file: the five fields, or nothing if the
/// text is not an object carrying exactly those members.
pub open spec fn spec_parse_config(s: Seq<char>) -> Option<ConfigFields> {
    let s1 = spec_skip_ws(s);
    if s1.len() == 0 || s1[0] != '{' {
        None
    } else {
        match spec_parse_members(s1.drop_first(), empty_partial(), 5) {
            None => None,
            Some((p, rest)) => {
                let t = spec_skip_ws(rest);
                if t.len() == 0 || t[0] != '}' {
                    None
                } else if spec_skip_ws(t.drop_first()).len() != 0 {
                    None
                } else {
                    complete(p)
                }
            },
        }
    }
}

/// The hexadecimal digit character for a value below 16.
fn hex_char(v: u8) -> (r: char)
    requires
        v < 16,
    ensures
        r == hex_digit_char(v as int),
{
    if v == 0 {
        '0'
    } else if v == 1 {
        '1'
    } else if v == 2 {
        '2'
    } else if v == 3 {
        '3'
    } else if v == 4 {
        '4'
    } else if v == 5 {
        '5'
    } else if v == 6 {
        '6'
    } else if v == 7 {
        '7'
    } else if v == 8 {
        '8'
    } else if v == 9 {
        '9'
    } else if v == 10 {
        'a'
    } else if v == 11 {
        'b'
    } else if v == 12 {
        'c'
    } else if v == 13 {
        'd'
    } else if v == 14 {
        'e'
    } else {
        'f'
    }
}

/// Appends the escaped form of one character.
fn push_escaped_char(dest: &mut Vec<char>, c: char)
    ensures
        final(dest)@ == old(dest)@ + esc_char(c),
{
    let code = c as u32;
    if c == '"' {
        dest.push('\\');
        dest.push('"');
    } else if c == '\\' {
        dest.push('\\');
        dest.push('\\');
    } else if code == 8 {
        dest.push('\\');
        dest.push('b');
    } else if code == 12 {
        dest.push('\\');
        dest.push('f');
    } else if c == '\n' {
        dest.push('\\');
        dest.push('n');
    } else if c == '\r' {
        dest.push('\\');
        dest.push('r');
    } else if c == '\t' {
        dest.push('\\');
        dest.push('t');
    } else if code < 32 {
        dest.push('\\');
        dest.push('u');
        dest.push('0');
        dest.push('0');
        dest.push(hex_char((code / 16) as u8));
        dest.push(hex_char((code % 16) as u8));
    } else {
        dest.push(c);
    }
    proof {
        assert(dest@ =~= old(dest)@ + esc_char(c));
    }
}

/// `spec_escape` distributes over concatenation.
pub proof fn lemma_escape_append(a: Seq<char>, b: Seq<char>)
    ensures
        spec_escape(a + b) == spec_escape(a) + spec_escape(b),
    decreases a.len(),
{
    if a.len() == 0 {
        assert(a + b =~= b);
        assert(spec_escape(a) + spec_escape(b) =~= spec_escape(b));
    } else {
        lemma_escape_append(a.drop_first(), b);
        assert((a + b).drop_first() =~= a.drop_first() + b);
        assert(esc_char(a[0]) + (spec_escape(a.drop_first()) + spec_escape(b)) =~= (esc_char(a[0])
            + spec_escape(a.drop_first())) + spec_escape(b));
    }
}

/// Appends the escaped form of a whole string value.
fn push_escaped(dest: &mut Vec<char>, s: &str)
    ensures
        final(dest)@ == old(dest)@ + spec_escape(s@),
{
    let n = s.unicode_len();
    let mut i: usize = 0;
    while i < n
        invariant
            i <= n,
            n == s@.len(),
            dest@ == old(dest)@ + spec_escape(s@.subrange(0, i as int)),
        decreases n - i,
    {
        let c = s.get_char(i);
        push_escaped_char(dest, c);
        proof {
            let pre = s@.subrange(0, i as int);
            assert(s@.subrange(0, i + 1) =~= pre + seq![c]);
            lemma_escape_append(pre, seq![c]);
            assert(seq![c].drop_first() =~= Seq::<char>::empty());
            assert(spec_escape(seq![c]) =~= esc_char(c) + spec_escape(Seq::<char>::empty()));
            assert(esc_char(c) + Seq::<char>::empty() =~= esc_char(c));
            assert(dest@ =~= old(dest)@ + spec_escape(s@.subrange(0, i + 1)));
        }
        i += 1;
    }
    proof {
        assert(s@.subrange(0, n as int) =~= s@);
    }
}

/// What is wrong with a credentials file that was refused.
#[derive(Clone, Copy, Debug, PartialEq, Eq, Structural)]
pub enum ConfigError {
    /// The text is not an object carrying exactly the five expected members.
    Malformed,
}

/// The input from position `i` on.
pub open spec fn tail_from(s: Seq<char>, i: int) -> Seq<char> {
    s.subrange(i, s.len() as int)
}

/// The field values recorded in the five optional slots.
pub open spec fn partial_of(
    host: Option<String>,
    port: Option<String>,
    username: Option<String>,
    password: Option<String>,
    database: Option<String>,
) -> PartialConfig {
    PartialConfig {
        host: match host {
            Some(h) => Some(h@),
            None => None,
        },
        port: match port {
            Some(h) => Some(h@),
            None => None,
        },
        username: match username {
            Some(h) => Some(h@),
            None => None,
        },
        password: match password {
            Some(h) => Some(h@),
            None => None,
        },
        database: match database {
            Some(h) => Some(h@),
            None => None,
        },
    }
}

/// Advances past whitespace.
fn skip_ws(s: &[char], i: usize) -> (r: usize)
    requires
        i <= s@.len(),
    ensures
        i <= r <= s@.len(),
        spec_skip_ws(tail_from(s@, i as int)) == tail_from(s@, r as int),
{
    let mut j = i;
    while j < s.len() && (s[j] == ' ' || s[j] == '\n' || s[j] == '\t' || s[j] == '\r')
        invariant
            i <= j <= s@.len(),
            spec_skip_ws(tail_from(s@, i as int)) == spec_skip_ws(tail_from(s@, j as int)),
        decreases s@.len() - j,
    {
        proof {
            let tj = tail_from(s@, j as int);
            assert(tj[0] == s@[j as int]);
            assert(tj.drop_first() =~= tail_from(s@, j + 1));
        }
        j += 1;
    }
    proof {
        let tj = tail_from(s@, j as int);
        if j < s@.len() {
            assert(tj[0] == s@[j as int]);
        }
        assert(spec_skip_ws(tj) == tj);
    }
    j
}

/// The value of a hexadecimal digit character, if it is one.
fn hex_val_of(c: char) -> (r: Option<u8>)
    ensures
        match r {
            Some(v) => v < 16 && hex_val(c) == v as int,
            None => hex_val(c) == -1,
        },
{
    let u = c as u32;
    if 48 <= u && u <= 57 {
        Some((u - 48) as u8)
    } else if 97 <= u && u <= 102 {
        Some((u - 87) as u8)
    } else if 65 <= u && u <= 70 {
        Some((u - 55) as u8)
    } else {
        None
    }
}

/// Reads one escape sequence starting at the backslash at position `j`.
fn unescape_at(s: &[char], j: usize) -> (r: Option<(char, usize)>)
    requires
        j < s@.len(),
        s@[j as int] == '\\',
    ensures
        match r {
            Some(p) => j + 2 <= p.1 <= s@.len() && spec_unescape_at(tail_from(s@, j as int))
                == Some((p.0, tail_from(s@, p.1 as int))),
            None => spec_unescape_at(tail_from(s@, j as int)) is None,
        },
{
    proof {
        let tj = tail_from(s@, j as int);
        assert(tj.len() == s@.len() - j);
        assert forall|k: int| 0 <= k < tj.len() implies tj[k] == s@[j + k] by {}
    }
    if s.len() - j < 2 {
        return None;
    }
    let e = s[j + 1];
    proof {
        assert(tail_from(s@, j as int).subrange(2, s@.len() - j) =~= tail_from(s@, j + 2));
    }
    if e == '"' {
        Some(('"', j + 2))
    } else if e == '\\' {
        Some(('\\', j + 2))
    } else if e == '/' {
        Some(('/', j + 2))
    } else if e == 'b' {
        Some(('\u{8}', j + 2))
    } else if e == 'f' {
        Some(('\u{c}', j + 2))
    } else if e == 'n' {
        Some(('\n', j + 2))
    } else if e == 'r' {
        Some(('\r', j + 2))
    } else if e == 't' {
        Some(('\t', j + 2))
    } else if e == 'u' {
        if s.len() - j < 6 {
            return None;
        }
        if s[j + 2] != '0' || s[j + 3] != '0' {
            return None;
        }
        let hi = match hex_val_of(s[j + 4]) {
            Some(v) => v,
            None => {
                return None;
            },
        };
        let lo = match hex_val_of(s[j + 5]) {
            Some(v) => v,
            None => {
                return None;
            },
        };
        let b: u8 = hi * 16 + lo;
        proof {
            assert(tail_from(s@, j as int).subrange(6, s@.len() - j) =~= tail_from(s@, j + 6));
        }
        Some((b as char, j + 6))
    } else {
        None
    }
}

/// Reads a string member's characters, starting just after the opening
/// quote at position `i - 1`.
fn scan_string(s: &[char], i: usize) -> (r: Option<(Vec<char>, usize)>)
    requires
        i <= s@.len(),
    ensures
        match r {
            Some(p) => i <= p.1 <= s@.len() && spec_scan_string(tail_from(s@, i as int)) == Some(
                (p.0@, tail_from(s@, p.1 as int)),
            ),
            None => spec_scan_string(tail_from(s@, i as int)) is None,
        },
{
    let mut acc: Vec<char> = Vec::new();
    let mut j = i;
    loop
        invariant
            i <= j <= s@.len(),
            (match spec_scan_string(tail_from(s@, j as int)) {
                None => spec_scan_string(tail_from(s@, i as int)) is None,
                Some((v, t)) => spec_scan_string(tail_from(s@, i as int)) == Some((acc@ + v, t)),
            }),
        decreases s@.len() - j,
    {
        if j >= s.len() {
            proof {
                assert(tail_from(s@, j as int) =~= Seq::<char>::empty());
            }
            return None;
        }
        let c = s[j];
        proof {
            let tj = tail_from(s@, j as int);
            assert(tj[0] == s@[j as int]);
            assert(tj.drop_first() =~= tail_from(s@, j + 1));
        }
        if c == '"' {
            proof {
                assert(acc@ + Seq::<char>::empty() =~= acc@);
            }
            return Some((acc, j + 1));
        } else if c == '\\' {
            match unescape_at(s, j) {
                None => {
                    return None;
                },
                Some((dc, j2)) => {
                    proof {
                        let tj = tail_from(s@, j as int);
                        let t2 = tail_from(s@, j2 as int);
                        match spec_scan_string(t2) {
                            None => {
                                assert(spec_scan_string(tj) is None);
                            },
                            Some((v, t)) => {
                                assert(spec_scan_string(tj) == Some((seq![dc] + v, t)));
                                assert(acc@ + (seq![dc] + v) =~= (acc@ + seq![dc]) + v);
                                assert(acc@.push(dc) =~= acc@ + seq![dc]);
                            },
                        }
                    }
                    acc.push(dc);
                    j = j2;
                },
            }
        } else if (c as u32) < 32 {
            return None;
        } else {
            proof {
                let tj = tail_from(s@, j as int);
                let t2 = tail_from(s@, j + 1);
                match spec_scan_string(t2) {
                    None => {
                        assert(spec_scan_string(tj) is None);
                    },
                    Some((v, t)) => {
                        assert(spec_scan_string(tj) == Some((seq![c] + v, t)));
                        assert(acc@ + (seq![c] + v) =~= (acc@ + seq![c]) + v);
                        assert(acc@.push(c) =~= acc@ + seq![c]);
                    },
                }
            }
            acc.push(c);
            j += 1;
        }
    }
}

/// Reads one `"key": "value"` member starting at position `i`.
fn parse_member(s: &[char], i: usize) -> (r: Option<(Vec<char>, Vec<char>, usize)>)
    requires
        i <= s@.len(),
    ensures
        match r {
            Some(p) => i <= p.2 <= s@.len() && spec_parse_member(tail_from(s@, i as int)) == Some(
                ((p.0@, p.1@), tail_from(s@, p.2 as int)),
            ),
            None => spec_parse_member(tail_from(s@, i as int)) is None,
        },
{
    let j1 = skip_ws(s, i);
    if j1 >= s.len() {
        return None;
    }
    if s[j1] != '"' {
        proof {
            assert(tail_from(s@, j1 as int)[0] == s@[j1 as int]);
        }
        return None;
    }
    proof {
        assert(tail_from(s@, j1 as int)[0] == s@[j1 as int]);
        assert(tail_from(s@, j1 as int).drop_first() =~= tail_from(s@, j1 + 1));
    }
    let (key, j2) = match scan_string(s, j1 + 1) {
        None => {
            return None;
        },
        Some(p) => p,
    };
    let j3 = skip_ws(s, j2);
    if j3 >= s.len() {
        return None;
    }
    if s[j3] != ':' {
        proof {
            assert(tail_from(s@, j3 as int)[0] == s@[j3 as int]);
        }
        return None;
    }
    proof {
        assert(tail_from(s@, j3 as int)[0] == s@[j3 as int]);
        assert(tail_from(s@, j3 as int).drop_first() =~= tail_from(s@, j3 + 1));
    }
    let j4 = skip_ws(s, j3 + 1);
    if j4 >= s.len() {
        return None;
    }
    if s[j4] != '"' {
        proof {
            assert(tail_from(s@, j4 as int)[0] == s@[j4 as int]);
        }
        return None;
    }
    proof {
        assert(tail_from(s@, j4 as int)[0] == s@[j4 as int]);
        assert(tail_from(s@, j4 as int).drop_first() =~= tail_from(s@, j4 + 1));
    }
    let (val, j5) = match scan_string(s, j4 + 1) {
        None => {
            return None;
        },
        Some(p) => p,
    };
    Some((key, val, j5))
}

/// A file whose members do not parse is refused, whatever else it holds.
proof fn lemma_config_members_none(s: Seq<char>, j1: int)
    requires
        0 <= j1 <= s.len(),
        spec_skip_ws(tail_from(s, 0)) == tail_from(s, j1),
        tail_from(s, j1).len() > 0,
        tail_from(s, j1)[0] == '{',
        spec_parse_members(tail_from(s, j1 + 1), empty_partial(), 5) is None,
    ensures
        spec_parse_config(s) is None,
{
    assert(tail_from(s, 0) =~= s);
    assert(tail_from(s, j1).drop_first() =~= tail_from(s, j1 + 1));
}

/// Once the five members are read, the file's meaning is decided by the
/// closing brace and the recorded fields alone.
proof fn lemma_config_close(s: Seq<char>, j1: int, p: PartialConfig, rest: Seq<char>)
    requires
        0 <= j1 <= s.len(),
        spec_skip_ws(tail_from(s, 0)) == tail_from(s, j1),
        tail_from(s, j1).len() > 0,
        tail_from(s, j1)[0] == '{',
        spec_parse_members(tail_from(s, j1 + 1), empty_partial(), 5) == Some((p, rest)),
    ensures
        spec_parse_config(s) == ({
            let t = spec_skip_ws(rest);
            if t.len() == 0 || t[0] != '}' {
                None
            } else if spec_skip_ws(t.drop_first()).len() != 0 {
                None
            } else {
                complete(p)
            }
        }),
{
    assert(tail_from(s, 0) =~= s);
    assert(tail_from(s, j1).drop_first() =~= tail_from(s, j1 + 1));
}

/// Reads a credentials file.
///
/// Returns the configuration it carries, or [`ConfigError::Malformed`]
/// exactly when the text does not parse as an object with the five
/// expected members, each exactly once.
pub fn parse_db_config(s: &str) -> (r: Result<DbConfig, ConfigError>)
    ensures
        match r {
            Ok(c) => spec_parse_config(s@) == Some(c@),
            Err(e) => spec_parse_config(s@) is None && e == ConfigError::Malformed,
        },
{
    let chars = str_to_chars(s);
    let cs = chars.as_slice();
    proof {
        assert(tail_from(cs@, 0) =~= s@);
    }
    let n = cs.len();
    let j1 = skip_ws(cs, 0);
    if j1 >= n {
        return Err(ConfigError::Malformed);
    }
    if cs[j1] != '{' {
        proof {
            assert(tail_from(cs@, j1 as int)[0] == cs@[j1 as int]);
        }
        return Err(ConfigError::Malformed);
    }
    proof {
        assert(tail_from(cs@, j1 as int)[0] == cs@[j1 as int]);
        assert(tail_from(cs@, j1 as int).drop_first() =~= tail_from(cs@, j1 + 1));
    }
    let ghost m0 = tail_from(cs@, j1 + 1);
    let mut j = j1 + 1;
    let mut host: Option<String> = None;
    let mut port: Option<String> = None;
    let mut username: Option<String> = None;
    let mut password: Option<String> = None;
    let mut database: Option<String> = None;
    let mut k: usize = 0;
    while k < 5
        invariant
            j <= cs@.len(),
            cs@ == s@,
            n == cs@.len(),
            j1 < n,
            k <= 5,
            m0 == tail_from(cs@, j1 + 1),
            spec_skip_ws(tail_from(cs@, 0)) == tail_from(cs@, j1 as int),
            tail_from(cs@, j1 as int).len() > 0 && tail_from(cs@, j1 as int)[0] == '{',
            spec_parse_members(m0, empty_partial(), 5) == spec_parse_members(
                tail_from(cs@, j as int),
                partial_of(host, port, username, password, database),
                (5 - k) as nat,
            ),
        decreases 5 - k,
    {
        let ghost p_old = partial_of(host, port, username, password, database);
        let ghost tj_old = tail_from(cs@, j as int);
        let (key, val, j2) = match parse_member(cs, j) {
            None => {
                proof {
                    assert(spec_parse_members(tj_old, p_old, (5 - k) as nat) is None);
                    lemma_config_members_none(s@, j1 as int);
                }
                return Err(ConfigError::Malformed);
            },
            Some(p) => p,
        };
        let value = chars_to_string(&val);
        if chars_eq_str(key.as_slice(), "host") {
            if host.is_some() {
                proof {
                    assert(assign_field(p_old, key@, val@) is None);
                    assert(spec_parse_members(tj_old, p_old, (5 - k) as nat) is None);
                    lemma_config_members_none(s@, j1 as int);
                }
                return Err(ConfigError::Malformed);
            }
            host = Some(value);
        } else if chars_eq_str(key.as_slice(), "port") {
            if port.is_some() {
                proof {
                    assert(assign_field(p_old, key@, val@) is None);
                    assert(spec_parse_members(tj_old, p_old, (5 - k) as nat) is None);
                    lemma_config_members_none(s@, j1 as int);
                }
                return Err(ConfigError::Malformed);
            }
            port = Some(value);
        } else if chars_eq_str(key.as_slice(), "username") {
            if username.is_some() {
                proof {
                    assert(assign_field(p_old, key@, val@) is None);
                    assert(spec_parse_members(tj_old, p_old, (5 - k) as nat) is None);
                    lemma_config_members_none(s@, j1 as int);
                }
                return Err(ConfigError::Malformed);
            }
            username = Some(value);
        } else if chars_eq_str(key.as_slice(), "password") {
            if password.is_some() {
                proof {
                    assert(assign_field(p_old, key@, val@) is None);
                    assert(spec_parse_members(tj_old, p_old, (5 - k) as nat) is None);
                    lemma_config_members_none(s@, j1 as int);
                }
                return Err(ConfigError::Malformed);
            }
            password = Some(value);
        } else if chars_eq_str(key.as_slice(), "database") {
            if database.is_some() {
                proof {
                    assert(assign_field(p_old, key@, val@) is None);
                    assert(spec_parse_members(tj_old, p_old, (5 - k) as nat) is None);
                    lemma_config_members_none(s@, j1 as int);
                }
                return Err(ConfigError::Malformed);
            }
            database = Some(value);
        } else {
            proof {
                assert(assign_field(p_old, key@, val@) is None);
                assert(spec_parse_members(tj_old, p_old, (5 - k) as nat) is None);
                lemma_config_members_none(s@, j1 as int);
            }
            return Err(ConfigError::Malformed);
        }
        let ghost p_new = partial_of(host, port, username, password, database);
        proof {
            assert(assign_field(p_old, key@, val@) == Some(p_new));
        }
        if k < 4 {
            let jt = skip_ws(cs, j2);
            if jt >= n {
                proof {
                    assert(tail_from(cs@, jt as int).len() == 0);
                    assert(spec_parse_members(tj_old, p_old, (5 - k) as nat) is None);
                    lemma_config_members_none(s@, j1 as int);
                }
                return Err(ConfigError::Malformed);
            }
            if cs[jt] != ',' {
                proof {
                    assert(tail_from(cs@, jt as int)[0] == cs@[jt as int]);
                    assert(spec_parse_members(tj_old, p_old, (5 - k) as nat) is None);
                    lemma_config_members_none(s@, j1 as int);
                }
                return Err(ConfigError::Malformed);
            }
            proof {
                assert(tail_from(cs@, jt as int)[0] == cs@[jt as int]);
                assert(tail_from(cs@, jt as int).drop_first() =~= tail_from(cs@, jt + 1));
            }
            j = jt + 1;
            proof {
                assert(spec_parse_members(tj_old, p_old, (5 - k) as nat) == spec_parse_members(
                    tail_from(cs@, j as int),
                    p_new,
                    (5 - (k + 1)) as nat,
                ));
            }
        } else {
            j = j2;
            proof {
                assert(spec_parse_members(tj_old, p_old, (5 - k) as nat) == Some(
                    (p_new, tail_from(cs@, j as int)),
                ));
                assert(spec_parse_members(tail_from(cs@, j as int), p_new, 0) == Some(
                    (p_new, tail_from(cs@, j as int)),
                ));
            }
        }
        k += 1;
    }
    let ghost p_fin = partial_of(host, port, username, password, database);
    let ghost rest_fin = tail_from(cs@, j as int);
    proof {
        assert(spec_parse_members(rest_fin, p_fin, 0) == Some((p_fin, rest_fin)));
        lemma_config_close(s@, j1 as int, p_fin, rest_fin);
    }
    let jc = skip_ws(cs, j);
    if jc >= n {
        proof {
            assert(tail_from(cs@, jc as int).len() == 0);
        }
        return Err(ConfigError::Malformed);
    }
    if cs[jc] != '}' {
        proof {
            assert(tail_from(cs@, jc as int)[0] == cs@[jc as int]);
        }
        return Err(ConfigError::Malformed);
    }
    proof {
        assert(tail_from(cs@, jc as int)[0] == cs@[jc as int]);
        assert(tail_from(cs@, jc as int).drop_first() =~= tail_from(cs@, jc + 1));
    }
    let je = skip_ws(cs, jc + 1);
    if je < n {
        proof {
            assert(tail_from(cs@, je as int).len() > 0);
        }
        return Err(ConfigError::Malformed);
    }
    proof {
        assert(tail_from(cs@, je as int) =~= Seq::<char>::empty());
    }
    match (host, port, username, password, database) {
        (Some(h), Some(p), Some(u), Some(w), Some(d)) => {
            let c = DbConfig { host: h, port: p, username: u, password: w, database: d };
            Ok(c)
        },
        _ => {
            // Unreachable: five distinct members were recorded.
            Err(ConfigError::Malformed)
        },
    }
}

/// Renders the credentials file for this configuration.
pub fn render_db_config(c: &DbConfig) -> (r: String)
    ensures
        r@ == spec_render_config(c@),
{
    let mut out: Vec<char> = Vec::new();
    push_chars(&mut out, "{\n  \"host\": \"");
    push_escaped(&mut out, c.host.as_str());
    push_chars(&mut out, "\",\n  \"port\": \"");
    push_escaped(&mut out, c.port.as_str());
    push_chars(&mut out, "\",\n  \"username\": \"");
    push_escaped(&mut out, c.username.as_str());
    push_chars(&mut out, "\",\n  \"password\": \"");
    push_escaped(&mut out, c.password.as_str());
    push_chars(&mut out, "\",\n  \"database\": \"");
    push_escaped(&mut out, c.database.as_str());
    push_chars(&mut out, "\"\n}");
    proof {
        reveal_strlit("{\n  \"host\": \"");
        reveal_strlit("\",\n  \"port\": \"");
        reveal_strlit("\",\n  \"username\": \"");
        reveal_strlit("\",\n  \"password\": \"");
        reveal_strlit("\",\n  \"database\": \"");
        reveal_strlit("\"\n}");
        reveal_strlit("{");
        reveal_strlit("\n  \"");
        reveal_strlit("\": \"");
        reveal_strlit("\"");
        reveal_strlit(",");
        reveal_strlit("\n}");
        reveal_strlit("host");
        reveal_strlit("port");
        reveal_strlit("username");
        reveal_strlit("password");
        reveal_strlit("database");
        assert(out@ =~= spec_render_config(c@));
    }
    chars_to_string(&out)
}

/// The two hexadecimal helpers invert each other on digit values.
proof fn lemma_hex_round(v: int)
    requires
        0 <= v < 16,
    ensures
        hex_val(hex_digit_char(v)) == v,
{
}

/// A value of plain characters is written as itself.
proof fn lemma_escape_plain(s: Seq<char>)
    requires
        forall|i: int| 0 <= i < s.len() ==> is_plain(#[trigger] s[i]),
    ensures
        spec_escape(s) == s,
    decreases s.len(),
{
    if s.len() == 0 {
        assert(spec_escape(s) =~= s);
    } else {
        assert(is_plain(s[0]));
        lemma_escape_plain(s.drop_first());
        assert(esc_char(s[0]) =~= seq![s[0]]);
        assert(seq![s[0]] + s.drop_first() =~= s);
    }
}

/// Scanning an escaped value followed by its closing quote yields the
/// value back, whatever follows the quote.
proof fn lemma_scan_escaped(v: Seq<char>, rest: Seq<char>)
    ensures
        spec_scan_string(spec_escape(v) + seq!['"'] + rest) == Some((v, rest)),
    decreases v.len(),
{
    let s = spec_escape(v) + seq!['"'] + rest;
    if v.len() == 0 {
        assert(spec_escape(v) =~= Seq::<char>::empty());
        assert(s =~= seq!['"'] + rest);
        assert(s[0] == '"');
        assert(s.drop_first() =~= rest);
        assert(Seq::<char>::empty() =~= v);
    } else {
        let c = v[0];
        let v2 = v.drop_first();
        lemma_scan_escaped(v2, rest);
        let s2 = spec_escape(v2) + seq!['"'] + rest;
        assert(spec_escape(v) == esc_char(c) + spec_escape(v2));
        assert(s =~= esc_char(c) + s2);
        assert(seq![c] + v2 =~= v);
        if is_plain(c) {
            assert(esc_char(c) =~= seq![c]);
            assert(s[0] == c);
            assert(s.drop_first() =~= s2);
        } else if c == '"' || c == '\\' || c == '\u{8}' || c == '\u{c}' || c == '\n' || c == '\r'
            || c == '\t' {
            assert(esc_char(c).len() == 2);
            assert(s[0] == '\\');
            assert(s[1] == esc_char(c)[1]);
            assert(s.len() >= 2);
            assert(s.subrange(2, s.len() as int) =~= s2);
            assert(spec_unescape_at(s) == Some((c, s2)));
        } else {
            let u = c as u32;
            assert(u < 32);
            let hi = (u / 16) as int;
            let lo = (u % 16) as int;
            lemma_hex_round(hi);
            lemma_hex_round(lo);
            assert(esc_char(c).len() == 6);
            assert(s[0] == '\\');
            assert(s[1] == 'u');
            assert(s[2] == '0');
            assert(s[3] == '0');
            assert(s[4] == hex_digit_char(hi));
            assert(s[5] == hex_digit_char(lo));
            assert(s.subrange(6, s.len() as int) =~= s2);
            assert(hex_val(s[4]) == hi);
            assert(hex_val(s[5]) == lo);
            assert(hex_val(s[4]) * 16 + hex_val(s[5]) == u);
            vstd::utf8::char_u32_cast(c, u);
            assert((((hex_val(s[4]) * 16 + hex_val(s[5])) as u8) as char) == c);
            assert(spec_unescape_at(s) == Some((c, s2)));
        }
    }
}

/// A rendered member, followed by anything, reads back as its key and
/// value.
proof fn lemma_parse_member_rendered(key: Seq<char>, val: Seq<char>, rest: Seq<char>)
    requires
        forall|i: int| 0 <= i < key.len() ==> is_plain(#[trigger] key[i]),
    ensures
        spec_parse_member(member_text(key, val) + rest) == Some(((key, val), rest)),
{
    reveal_strlit("\n  \"");
    reveal_strlit("\": \"");
    reveal_strlit("\"");
    let s = member_text(key, val) + rest;
    assert(s =~= "\n  \""@ + key + "\": \""@ + spec_escape(val) + "\""@ + rest);
    // The indent is whitespace; the opening quote stops the skip.
    assert(s[0] == '\n');
    let sa = s.drop_first();
    assert(sa[0] == ' ');
    let sb = sa.drop_first();
    assert(sb[0] == ' ');
    let sc = sb.drop_first();
    assert(sc[0] == '"');
    assert(spec_skip_ws(s) == spec_skip_ws(sa));
    assert(spec_skip_ws(sa) == spec_skip_ws(sb));
    assert(spec_skip_ws(sb) == spec_skip_ws(sc));
    assert(spec_skip_ws(sc) == sc);
    assert(spec_skip_ws(s) == sc);
    lemma_escape_plain(key);
    let r2 = seq![':', ' ', '"'] + spec_escape(val) + seq!['"'] + rest;
    assert(sc.drop_first() =~= spec_escape(key) + seq!['"'] + r2);
    lemma_scan_escaped(key, r2);
    assert(r2[0] == ':');
    assert(spec_skip_ws(r2) == r2);
    let r3 = r2.drop_first();
    assert(r3[0] == ' ');
    let r4 = r3.drop_first();
    assert(r4[0] == '"');
    assert(spec_skip_ws(r3) == spec_skip_ws(r4));
    assert(spec_skip_ws(r4) == r4);
    assert(r4.drop_first() =~= spec_escape(val) + seq!['"'] + rest);
    lemma_scan_escaped(val, rest);
}

/// Round trip: a rendered credentials file reads back as exactly the
/// configuration it was rendered from.
pub proof fn lemma_config_round_trip(c: ConfigFields)
    ensures
        spec_parse_config(spec_render_config(c)) == Some(c),
{
    reveal_strlit("{");
    reveal_strlit(",");
    reveal_strlit("\n}");
    reveal_strlit("host");
    reveal_strlit("port");
    reveal_strlit("username");
    reveal_strlit("password");
    reveal_strlit("database");
    let s = spec_render_config(c);
    let tail5 = "\n}"@;
    let m5 = member_text("database"@, c.database) + tail5;
    let m4 = member_text("password"@, c.password) + (","@ + m5);
    let m3 = member_text("username"@, c.username) + (","@ + m4);
    let m2 = member_text("port"@, c.port) + (","@ + m3);
    let m1 = member_text("host"@, c.host) + (","@ + m2);
    assert(s =~= "{"@ + m1);
    assert(s[0] == '{');
    assert(spec_skip_ws(s) == s);
    assert(s.drop_first() =~= m1);
    lemma_parse_member_rendered("host"@, c.host, ","@ + m2);
    lemma_parse_member_rendered("port"@, c.port, ","@ + m3);
    lemma_parse_member_rendered("username"@, c.username, ","@ + m4);
    lemma_parse_member_rendered("password"@, c.password, ","@ + m5);
    lemma_parse_member_rendered("database"@, c.database, tail5);
    assert((","@ + m2)[0] == ',');
    assert(spec_skip_ws(","@ + m2) == ","@ + m2);
    assert((","@ + m2).drop_first() =~= m2);
    assert((","@ + m3)[0] == ',');
    assert(spec_skip_ws(","@ + m3) == ","@ + m3);
    assert((","@ + m3).drop_first() =~= m3);
    assert((","@ + m4)[0] == ',');
    assert(spec_skip_ws(","@ + m4) == ","@ + m4);
    assert((","@ + m4).drop_first() =~= m4);
    assert((","@ + m5)[0] == ',');
    assert(spec_skip_ws(","@ + m5) == ","@ + m5);
    assert((","@ + m5).drop_first() =~= m5);
    // The five keys are distinct, so each assignment fills a fresh slot.
    let p0 = empty_partial();
    let p1 = assign_field(p0, "host"@, c.host)->0;
    let p2 = assign_field(p1, "port"@, c.port)->0;
    let p3 = assign_field(p2, "username"@, c.username)->0;
    let p4 = assign_field(p3, "password"@, c.password)->0;
    let p5 = assign_field(p4, "database"@, c.database)->0;
    assert("host"@.len() == 4 && "host"@[0] == 'h');
    assert("port"@.len() == 4 && "port"@[0] == 'p');
    assert("username"@.len() == 8 && "username"@[0] == 'u');
    assert("password"@.len() == 8 && "password"@[0] == 'p');
    assert("database"@.len() == 8 && "database"@[0] == 'd');
    assert("port"@ != "host"@);
    assert("username"@ != "host"@ && "username"@ != "port"@);
    assert("password"@ != "host"@ && "password"@ != "port"@ && "password"@ != "username"@);
    assert("database"@ != "host"@ && "database"@ != "port"@ && "database"@ != "username"@
        && "database"@ != "password"@);
    assert(assign_field(p0, "host"@, c.host) == Some(p1));
    assert(assign_field(p1, "port"@, c.port) == Some(p2));
    assert(assign_field(p2, "username"@, c.username) == Some(p3));
    assert(assign_field(p3, "password"@, c.password) == Some(p4));
    assert(assign_field(p4, "database"@, c.database) == Some(p5));
    assert(spec_parse_members(m5, p4, 1) == Some((p5, tail5)));
    assert(spec_parse_members(m4, p3, 2) == Some((p5, tail5)));
    assert(spec_parse_members(m3, p2, 3) == Some((p5, tail5)));
    assert(spec_parse_members(m2, p1, 4) == Some((p5, tail5)));
    assert(spec_parse_members(m1, p0, 5) == Some((p5, tail5)));
    // The closing brace ends the file.
    assert(tail5[0] == '\n');
    assert(tail5.drop_first()[0] == '}');
    assert(spec_skip_ws(tail5) == spec_skip_ws(tail5.drop_first()));
    assert(spec_skip_ws(tail5.drop_first()) == tail5.drop_first());
    assert(tail5.drop_first().drop_first() =~= Seq::<char>::empty());
    assert(spec_skip_ws(tail5.drop_first().drop_first()).len() == 0);
    assert(complete(p5) is Some);
    assert(complete(p5)->0 =~= c);
    assert(spec_parse_config(spec_render_config(c)) == complete(p5));
}

} // verus!
