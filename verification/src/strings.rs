//! Quoted string literals: parsing a quoted, escaped literal into the
//! character sequence it denotes, and rendering a character sequence back
//! as a quoted literal.
//!
//! The accepted escapes are the quote, backslash and slash, the named
//! control characters, and `\u` followed by four hexadecimal digits, with a
//! high/low surrogate pair denoting one supplementary character. A lone
//! surrogate, an unterminated literal, an unknown escape or a raw control
//! character makes the literal ill-formed.
use vstd::prelude::*;

verus! {

pub open spec fn is_hex_digit(c: char) -> bool {
    (48 <= c as u32 && c as u32 <= 57) || (97 <= c as u32 && c as u32 <= 102) || (65 <= c as u32
        && c as u32 <= 70)
}

pub open spec fn hex_val(c: char) -> int {
    if 48 <= c as u32 && c as u32 <= 57 {
        c as u32 - 48
    } else if 97 <= c as u32 && c as u32 <= 102 {
        c as u32 - 87
    } else {
        c as u32 - 55
    }
}

/// Four hexadecimal digits stand at `i`.
pub open spec fn hex4_ok(s: Seq<char>, i: int) -> bool {
    &&& i + 4 <= s.len()
    &&& is_hex_digit(s[i])
    &&& is_hex_digit(s[i + 1])
    &&& is_hex_digit(s[i + 2])
    &&& is_hex_digit(s[i + 3])
}

pub open spec fn hex4_val(s: Seq<char>, i: int) -> int {
    hex_val(s[i]) * 4096 + hex_val(s[i + 1]) * 256 + hex_val(s[i + 2]) * 16 + hex_val(s[i + 3])
}

/// The character denoted by a single-character escape, if the escape is
/// known.
pub open spec fn simple_escape(c: char) -> Option<char> {
    if c == '"' {
        Option::Some('"')
    } else if c == '\\' {
        Option::Some('\\')
    } else if c == '/' {
        Option::Some('/')
    } else if c == 'b' {
        Option::Some('\u{8}')
    } else if c == 'f' {
        Option::Some('\u{c}')
    } else if c == 'n' {
        Option::Some('\n')
    } else if c == 'r' {
        Option::Some('\r')
    } else if c == 't' {
        Option::Some('\t')
    } else {
        Option::None
    }
}

/// The character denoted by a `\u` escape whose backslash stands at `i`,
/// and the position after it: four hexadecimal digits, with a high
/// surrogate requiring an immediately following low-surrogate escape.
pub open spec fn scan_u_escape(s: Seq<char>, i: int) -> Option<(char, int)> {
    if !hex4_ok(s, i + 2) {
        Option::None
    } else if 0xDC00 <= hex4_val(s, i + 2) && hex4_val(s, i + 2) < 0xE000 {
        Option::None
    } else if hex4_val(s, i + 2) < 0xD800 || hex4_val(s, i + 2) >= 0xE000 {
        Option::Some((hex4_val(s, i + 2) as char, i + 6))
    } else if !(i + 12 <= s.len() && s[i + 6] == '\\' && s[i + 7] == 'u' && hex4_ok(s, i + 8)) {
        Option::None
    } else if !(0xDC00 <= hex4_val(s, i + 8) && hex4_val(s, i + 8) < 0xE000) {
        Option::None
    } else {
        let combined = 0x10000 + (hex4_val(s, i + 2) - 0xD800) * 1024 + (hex4_val(s, i + 8)
            - 0xDC00);
        Option::Some((combined as char, i + 12))
    }
}

/// The character denoted by the escape whose backslash stands at `i`, and
/// the position after it.
pub open spec fn scan_escape(s: Seq<char>, i: int) -> Option<(char, int)> {
    if i + 1 >= s.len() {
        Option::None
    } else if s[i + 1] == 'u' {
        scan_u_escape(s, i)
    } else {
        match simple_escape(s[i + 1]) {
            Option::Some(d) => Option::Some((d, i + 2)),
            Option::None => Option::None,
        }
    }
}

/// Scans the contents of a quoted literal from position `i` up to the
/// closing quote: the denoted characters and the position after the quote,
/// or absent when the text is ill-formed.
pub open spec fn scan_string(s: Seq<char>, i: int) -> Option<(Seq<char>, int)>
    decreases s.len() - i
        when 0 <= i <= s.len()
{
    if i >= s.len() {
        Option::None
    } else if s[i] == '"' {
        Option::Some((Seq::empty(), i + 1))
    } else if s[i] == '\\' {
        match scan_escape(s, i) {
            Option::Some(q) => if i < q.1 <= s.len() {
                match scan_string(s, q.1) {
                    Option::Some(p) => Option::Some((seq![q.0] + p.0, p.1)),
                    Option::None => Option::None,
                }
            } else {
                Option::None
            },
            Option::None => Option::None,
        }
    } else if (s[i] as u32) < 32 {
        Option::None
    } else {
        match scan_string(s, i + 1) {
            Option::Some(p) => Option::Some((seq![s[i]] + p.0, p.1)),
            Option::None => Option::None,
        }
    }
}

/// What parsing a quoted literal yields: the denoted characters when the
/// whole text is one well-formed quoted literal, absent otherwise.
pub open spec fn parse_string_token(s: Seq<char>) -> Option<Seq<char>> {
    if s.len() >= 1 && s[0] == '"' {
        match scan_string(s, 1) {
            Option::Some(p) => if p.1 == s.len() {
                Option::Some(p.0)
            } else {
                Option::None
            },
            Option::None => Option::None,
        }
    } else {
        Option::None
    }
}

fn is_hex_digit_exec(c: char) -> (r: bool)
    ensures
        r == is_hex_digit(c),
{
    (c as u32 >= 48 && c as u32 <= 57) || (c as u32 >= 97 && c as u32 <= 102) || (c as u32 >= 65
        && c as u32 <= 70)
}

fn hex_val_exec(c: char) -> (r: u32)
    requires
        is_hex_digit(c),
    ensures
        r as int == hex_val(c),
        r <= 15,
{
    let x = c as u32;
    if x >= 48 && x <= 57 {
        x - 48
    } else if x >= 97 && x <= 102 {
        x - 87
    } else {
        x - 55
    }
}

/// Reads four hexadecimal digits at `i`, if they stand there.
fn hex4_exec(s: &Vec<char>, i: usize) -> (r: Option<u32>)
    requires
        i <= s@.len(),
    ensures
        match r {
            Option::Some(x) => hex4_ok(s@, i as int) && x as int == hex4_val(s@, i as int) && x
                < 0x10000,
            Option::None => !hex4_ok(s@, i as int),
        },
{
    if s.len() - i < 4 {
        return Option::None;
    }
    let c0 = s[i];
    let c1 = s[i + 1];
    let c2 = s[i + 2];
    let c3 = s[i + 3];
    if !(is_hex_digit_exec(c0) && is_hex_digit_exec(c1) && is_hex_digit_exec(c2)
        && is_hex_digit_exec(c3)) {
        return Option::None;
    }
    let x = hex_val_exec(c0) * 4096 + hex_val_exec(c1) * 256 + hex_val_exec(c2) * 16 + hex_val_exec(
        c3,
    );
    Option::Some(x)
}

/// Reads a `\u` escape whose backslash stands at `i`, mirroring
/// `scan_u_escape`.
fn scan_u_escape_exec(s: &Vec<char>, i: usize) -> (r: Option<(char, usize)>)
    requires
        i + 2 <= s@.len(),
    ensures
        match r {
            Option::Some(q) => scan_u_escape(s@, i as int) == Option::Some((q.0, q.1 as int)) && i
                < q.1 <= s@.len(),
            Option::None => scan_u_escape(s@, i as int) is None,
        },
{
    broadcast use vstd::utf8::char_u32_cast;

    let n = s.len();
    let cp: u32 = match hex4_exec(s, i + 2) {
        Option::Some(x) => x,
        Option::None => {
            return Option::None;
        },
    };
    if 0xDC00 <= cp && cp < 0xE000 {
        return Option::None;
    }
    if cp < 0xD800 || cp >= 0xE000 {
        match crate::chars::char_from_u32(cp) {
            Option::Some(ch) => {
                proof {
                    assert(cp == ch as u32);
                    vstd::utf8::char_u32_cast(ch, cp);
                    assert((cp as char) == ch);
                    assert(hex4_val(s@, i as int + 2) as char == ch);
                }
                return Option::Some((ch, i + 6));
            },
            Option::None => {
                return vstd::pervasive::unreached();
            },
        }
    }
    if s.len() - i < 12 {
        return Option::None;
    }
    if !(s[i + 6] == '\\' && s[i + 7] == 'u') {
        return Option::None;
    }
    let lo: u32 = match hex4_exec(s, i + 8) {
        Option::Some(x) => x,
        Option::None => {
            return Option::None;
        },
    };
    if !(0xDC00 <= lo && lo < 0xE000) {
        return Option::None;
    }
    let combined: u32 = 0x10000 + (cp - 0xD800) * 1024 + (lo - 0xDC00);
    match crate::chars::char_from_u32(combined) {
        Option::Some(ch) => {
            proof {
                assert(combined == ch as u32);
                vstd::utf8::char_u32_cast(ch, combined);
                assert((combined as char) == ch);
            }
            Option::Some((ch, i + 12))
        },
        Option::None => vstd::pervasive::unreached(),
    }
}

/// Reads the escape whose backslash stands at `i`, mirroring
/// `scan_escape`.
fn scan_escape_exec(s: &Vec<char>, i: usize) -> (r: Option<(char, usize)>)
    requires
        i < s@.len(),
    ensures
        match r {
            Option::Some(q) => scan_escape(s@, i as int) == Option::Some((q.0, q.1 as int)) && i
                < q.1 <= s@.len(),
            Option::None => scan_escape(s@, i as int) is None,
        },
{
    let n = s.len();
    if i + 1 >= n {
        return Option::None;
    }
    let e = s[i + 1];
    if e == 'u' {
        return scan_u_escape_exec(s, i);
    }
    let d: char;
    if e == '"' {
        d = '"';
    } else if e == '\\' {
        d = '\\';
    } else if e == '/' {
        d = '/';
    } else if e == 'b' {
        d = '\u{8}';
    } else if e == 'f' {
        d = '\u{c}';
    } else if e == 'n' {
        d = '\n';
    } else if e == 'r' {
        d = '\r';
    } else if e == 't' {
        d = '\t';
    } else {
        return Option::None;
    }
    Option::Some((d, i + 2))
}

/// Scans the contents of a quoted literal from `i`, mirroring
/// `scan_string`.
fn scan_string_exec(s: &Vec<char>, i: usize) -> (r: Option<(Vec<char>, usize)>)
    requires
        i <= s@.len(),
    ensures
        match r {
            Option::Some(p) => scan_string(s@, i as int) == Option::Some((p.0@, p.1 as int)) && p.1
                <= s@.len(),
            Option::None => scan_string(s@, i as int) is None,
        },
    decreases s@.len() - i,
{
    if i >= s.len() {
        return Option::None;
    }
    let c = s[i];
    if c == '"' {
        return Option::Some((Vec::new(), i + 1));
    }
    if c == '\\' {
        let (ch, nxt) = match scan_escape_exec(s, i) {
            Option::Some(q) => q,
            Option::None => {
                return Option::None;
            },
        };
        match scan_string_exec(s, nxt) {
            Option::Some(p) => {
                let (mut rest, end) = p;
                let ghost r0 = rest@;
                rest.insert(0, ch);
                proof {
                    assert(rest@ =~= seq![ch] + r0);
                }
                Option::Some((rest, end))
            },
            Option::None => Option::None,
        }
    } else if (c as u32) < 32 {
        Option::None
    } else {
        match scan_string_exec(s, i + 1) {
            Option::Some(p) => {
                let (mut rest, end) = p;
                let ghost r0 = rest@;
                rest.insert(0, c);
                proof {
                    assert(rest@ =~= seq![c] + r0);
                }
                Option::Some((rest, end))
            },
            Option::None => Option::None,
        }
    }
}

/// Parses `s` as one whole quoted literal; yields the denoted characters
/// exactly when the text is well-formed.
pub fn parse_string_chars(s: &Vec<char>) -> (r: Option<Vec<char>>)
    ensures
        match r {
            Option::Some(v) => parse_string_token(s@) == Option::Some(v@),
            Option::None => parse_string_token(s@) is None,
        },
{
    if s.len() == 0 || s[0] != '"' {
        return Option::None;
    }
    match scan_string_exec(s, 1) {
        Option::Some(p) => {
            if p.1 == s.len() {
                Option::Some(p.0)
            } else {
                Option::None
            }
        },
        Option::None => Option::None,
    }
}

pub open spec fn hex_digit_char(d: int) -> char {
    if d < 10 {
        (48 + d) as u8 as char
    } else {
        (87 + d) as u8 as char
    }
}

/// What a character becomes inside a rendered quoted literal.
pub open spec fn escape_char(c: char) -> Seq<char> {
    if c == '"' {
        seq!['\\', '"']
    } else if c == '\\' {
        seq!['\\', '\\']
    } else if (c as u32) == 8 {
        seq!['\\', 'b']
    } else if (c as u32) == 9 {
        seq!['\\', 't']
    } else if (c as u32) == 10 {
        seq!['\\', 'n']
    } else if (c as u32) == 12 {
        seq!['\\', 'f']
    } else if (c as u32) == 13 {
        seq!['\\', 'r']
    } else if (c as u32) < 32 {
        seq!['\\', 'u', '0', '0', hex_digit_char(c as u32 as int / 16), hex_digit_char(
            c as u32 as int % 16,
        )]
    } else {
        seq![c]
    }
}

pub open spec fn escape_string(s: Seq<char>) -> Seq<char>
    decreases s,
{
    if s.len() == 0 {
        Seq::empty()
    } else {
        escape_string(s.drop_last()) + escape_char(s.last())
    }
}

/// A quoted literal that denotes exactly the characters of `s`.
pub open spec fn quoted(s: Seq<char>) -> Seq<char> {
    seq!['"'] + escape_string(s) + seq!['"']
}

/// Appends a quoted literal denoting `s` to `out`.
#[verifier::loop_isolation(false)]
pub fn append_quoted(out: &mut Vec<char>, s: &str)
    ensures
        final(out)@ == old(out)@ + quoted(s@),
{
    let cs = crate::chars::chars_of(s);
    out.push('"');
    let mut j: usize = 0;
    while j < cs.len()
        invariant
            j <= cs@.len(),
            out@ =~= old(out)@ + seq!['"'] + escape_string(s@.subrange(0, j as int)),
        decreases cs@.len() - j,
    {
        let c = cs[j];
        if c == '"' {
            out.push('\\');
            out.push('"');
        } else if c == '\\' {
            out.push('\\');
            out.push('\\');
        } else if (c as u32) == 8 {
            out.push('\\');
            out.push('b');
        } else if (c as u32) == 9 {
            out.push('\\');
            out.push('t');
        } else if (c as u32) == 10 {
            out.push('\\');
            out.push('n');
        } else if (c as u32) == 12 {
            out.push('\\');
            out.push('f');
        } else if (c as u32) == 13 {
            out.push('\\');
            out.push('r');
        } else if (c as u32) < 32 {
            out.push('\\');
            out.push('u');
            out.push('0');
            out.push('0');
            let hi = c as u32 / 16;
            let lo = c as u32 % 16;
            let hc: u8 = if hi < 10 {
                (48 + hi) as u8
            } else {
                (87 + hi) as u8
            };
            let lc: u8 = if lo < 10 {
                (48 + lo) as u8
            } else {
                (87 + lo) as u8
            };
            out.push(hc as char);
            out.push(lc as char);
        } else {
            out.push(c);
        }
        proof {
            let pre = s@.subrange(0, j as int);
            let nxt = s@.subrange(0, j as int + 1);
            assert(nxt.drop_last() =~= pre);
            assert(nxt.last() == s@[j as int]);
            assert(out@ =~= old(out)@ + seq!['"'] + escape_string(nxt));
        }
        j = j + 1;
    }
    proof {
        assert(s@.subrange(0, s@.len() as int) =~= s@);
    }
    out.push('"');
    proof {
        assert(out@ =~= old(out)@ + quoted(s@));
    }
}

} // verus!
