use vstd::prelude::*;
use vstd::string::StrSliceExecFns;
use crate::ext::chars_to_string;
use crate::msg::{Incoming, Outgoing};

verus! {

// ---------------------------------------------------------------------------
// The wire format, as mathematics.
//
// Frames carry JSON envelopes of the shape
//     {"type":"welcome","message":{"hello":"<text>"}}   (inbound)
//     {"type":"thanks","message":{"name":"<text>"}}     (outbound)
// The spec functions below define, over sequences of characters, how a text
// is escaped inside a JSON string literal and what the canonical envelopes
// around it look like.
// ---------------------------------------------------------------------------

/// The hexadecimal digit for a value below 16, lower case.
pub open spec fn hex_digit(d: int) -> char {
    if d == 0 {
        '0'
    } else if d == 1 {
        '1'
    } else if d == 2 {
        '2'
    } else if d == 3 {
        '3'
    } else if d == 4 {
        '4'
    } else if d == 5 {
        '5'
    } else if d == 6 {
        '6'
    } else if d == 7 {
        '7'
    } else if d == 8 {
        '8'
    } else if d == 9 {
        '9'
    } else if d == 10 {
        'a'
    } else if d == 11 {
        'b'
    } else if d == 12 {
        'c'
    } else if d == 13 {
        'd'
    } else if d == 14 {
        'e'
    } else {
        'f'
    }
}

/// How one character stands inside a JSON string literal: quote and backslash
/// are escaped, control characters take the `\u00XX` form, everything else
/// stands as itself.
pub open spec fn escape_char(c: char) -> Seq<char> {
    if c == '"' {
        seq!['\\', '"']
    } else if c == '\\' {
        seq!['\\', '\\']
    } else if (c as u32) < 0x20 {
        seq!['\\', 'u', '0', '0', hex_digit((c as u32) as int / 16), hex_digit(
            (c as u32) as int % 16,
        )]
    } else {
        seq![c]
    }
}

/// A whole text escaped for a JSON string literal, character by character.
pub open spec fn escape_string(s: Seq<char>) -> Seq<char>
    decreases s.len(),
{
    if s.len() == 0 {
        Seq::empty()
    } else {
        escape_char(s[0]) + escape_string(s.drop_first())
    }
}

/// The characters before the text inside the canonical welcome envelope.
pub open spec fn welcome_prefix() -> Seq<char> {
    seq!['{', '"', 't', 'y', 'p', 'e', '"', ':', '"', 'w', 'e', 'l', 'c', 'o', 'm', 'e', '"', ',',
        '"', 'm', 'e', 's', 's', 'a', 'g', 'e', '"', ':', '{', '"', 'h', 'e', 'l', 'l', 'o', '"',
        ':', '"']
}

/// The characters before the text inside the canonical thanks envelope.
pub open spec fn thanks_prefix() -> Seq<char> {
    seq!['{', '"', 't', 'y', 'p', 'e', '"', ':', '"', 't', 'h', 'a', 'n', 'k', 's', '"', ',', '"',
        'm', 'e', 's', 's', 'a', 'g', 'e', '"', ':', '{', '"', 'n', 'a', 'm', 'e', '"', ':', '"']
}

/// The characters after the text in either canonical envelope.
pub open spec fn object_suffix() -> Seq<char> {
    seq!['"', '}', '}']
}

/// The canonical welcome envelope around a text.
pub open spec fn welcome_json(hello: Seq<char>) -> Seq<char> {
    welcome_prefix() + escape_string(hello) + object_suffix()
}

/// The canonical thanks envelope around a text.
pub open spec fn thanks_json(name: Seq<char>) -> Seq<char> {
    thanks_prefix() + escape_string(name) + object_suffix()
}

// ---------------------------------------------------------------------------
// Escaping, executable.
// ---------------------------------------------------------------------------

/// Escaping distributes over concatenation.
proof fn lemma_escape_concat(a: Seq<char>, b: Seq<char>)
    ensures
        escape_string(a + b) == escape_string(a) + escape_string(b),
    decreases a.len(),
{
    if a.len() == 0 {
        assert(a + b =~= b);
        assert(escape_string(a) + escape_string(b) =~= escape_string(b));
    } else {
        assert((a + b).drop_first() =~= a.drop_first() + b);
        lemma_escape_concat(a.drop_first(), b);
        assert((a + b)[0] == a[0]);
        assert(escape_char(a[0]) + (escape_string(a.drop_first()) + escape_string(b)) =~= (
        escape_char(a[0]) + escape_string(a.drop_first())) + escape_string(b));
    }
}

/// Escaping one more character appends that character's escape.
proof fn lemma_escape_take_succ(s: Seq<char>, i: int)
    requires
        0 <= i < s.len(),
    ensures
        escape_string(s.take(i + 1)) == escape_string(s.take(i)) + escape_char(s[i]),
{
    assert(s.take(i + 1) =~= s.take(i) + seq![s[i]]);
    lemma_escape_concat(s.take(i), seq![s[i]]);
    assert(seq![s[i]].drop_first() =~= Seq::<char>::empty());
    assert(escape_string(Seq::<char>::empty()) =~= Seq::<char>::empty());
    assert(escape_string(seq![s[i]]) == escape_char(s[i]) + escape_string(seq![s[i]].drop_first()));
    assert(escape_string(seq![s[i]]) =~= escape_char(s[i]));
}

fn hex_digit_exec(d: u32) -> (c: char)
    requires
        d < 16,
    ensures
        c == hex_digit(d as int),
{
    if d == 0 {
        '0'
    } else if d == 1 {
        '1'
    } else if d == 2 {
        '2'
    } else if d == 3 {
        '3'
    } else if d == 4 {
        '4'
    } else if d == 5 {
        '5'
    } else if d == 6 {
        '6'
    } else if d == 7 {
        '7'
    } else if d == 8 {
        '8'
    } else if d == 9 {
        '9'
    } else if d == 10 {
        'a'
    } else if d == 11 {
        'b'
    } else if d == 12 {
        'c'
    } else if d == 13 {
        'd'
    } else if d == 14 {
        'e'
    } else {
        'f'
    }
}

fn push_escaped(out: &mut Vec<char>, c: char)
    ensures
        final(out)@ == old(out)@ + escape_char(c),
{
    if c == '"' {
        out.push('\\');
        out.push('"');
        assert(out@ =~= old(out)@ + escape_char(c));
    } else if c == '\\' {
        out.push('\\');
        out.push('\\');
        assert(out@ =~= old(out)@ + escape_char(c));
    } else {
        let v = c as u32;
        if v < 0x20 {
            out.push('\\');
            out.push('u');
            out.push('0');
            out.push('0');
            out.push(hex_digit_exec(v / 16));
            out.push(hex_digit_exec(v % 16));
            assert(out@ =~= old(out)@ + escape_char(c));
        } else {
            out.push(c);
            assert(out@ =~= old(out)@ + escape_char(c));
        }
    }
}

pub(crate) fn push_escaped_str(out: &mut Vec<char>, s: &Vec<char>)
    ensures
        final(out)@ == old(out)@ + escape_string(s@),
{
    let mut i: usize = 0;
    while i < s.len()
        invariant
            i <= s.len(),
            out@ == old(out)@ + escape_string(s@.take(i as int)),
        decreases s.len() - i,
    {
        push_escaped(out, s[i]);
        proof {
            lemma_escape_take_succ(s@, i as int);
            assert(old(out)@ + escape_string(s@.take(i as int)) + escape_char(s@[i as int]) =~= old(
                out,
            )@ + (escape_string(s@.take(i as int)) + escape_char(s@[i as int])));
        }
        i += 1;
    }
    proof {
        assert(s@.take(s@.len() as int) =~= s@);
    }
}

/// The characters of a string slice, in order.
pub fn str_chars(s: &str) -> (r: Vec<char>)
    ensures
        r@ == s@,
{
    let n = s.unicode_len();
    let mut v: Vec<char> = Vec::new();
    let mut i: usize = 0;
    while i < n
        invariant
            i <= n,
            n == s@.len(),
            v@ == s@.take(i as int),
        decreases n - i,
    {
        let c = s.get_char(i);
        v.push(c);
        proof {
            assert(s@.take(i + 1 as int) =~= s@.take(i as int).push(s@[i as int]));
        }
        i += 1;
    }
    proof {
        assert(s@.take(n as int) =~= s@);
    }
    v
}

// ---------------------------------------------------------------------------
// Encoding.
// ---------------------------------------------------------------------------

pub(crate) fn push_all(out: &mut Vec<char>, add: &Vec<char>)
    ensures
        final(out)@ == old(out)@ + add@,
{
    let mut j: usize = 0;
    while j < add.len()
        invariant
            j <= add.len(),
            out@ == old(out)@ + add@.take(j as int),
        decreases add.len() - j,
    {
        out.push(add[j]);
        proof {
            assert(old(out)@ + add@.take(j + 1 as int) =~= (old(out)@ + add@.take(j as int)).push(
                add@[j as int],
            ));
        }
        j += 1;
    }
    proof {
        assert(add@.take(add@.len() as int) =~= add@);
    }
}

fn push_prefix_thanks(out: &mut Vec<char>)
    ensures
        final(out)@ == old(out)@ + thanks_prefix(),
{
    let add: Vec<char> = vec!['{', '"', 't', 'y', 'p', 'e', '"', ':', '"', 't', 'h', 'a', 'n', 'k',
        's', '"', ',', '"', 'm', 'e', 's', 's', 'a', 'g', 'e', '"', ':', '{', '"', 'n', 'a', 'm',
        'e', '"', ':', '"'];
    proof {
        assert(add@ =~= thanks_prefix());
    }
    push_all(out, &add);
}

fn push_prefix_welcome(out: &mut Vec<char>)
    ensures
        final(out)@ == old(out)@ + welcome_prefix(),
{
    let add: Vec<char> = vec!['{', '"', 't', 'y', 'p', 'e', '"', ':', '"', 'w', 'e', 'l', 'c', 'o',
        'm', 'e', '"', ',', '"', 'm', 'e', 's', 's', 'a', 'g', 'e', '"', ':', '{', '"', 'h', 'e',
        'l', 'l', 'o', '"', ':', '"'];
    proof {
        assert(add@ =~= welcome_prefix());
    }
    push_all(out, &add);
}

/// Encode the outbound message as its canonical JSON envelope.
pub fn encode_outgoing(m: &Outgoing) -> (r: String)
    ensures
        r@ == thanks_json(m.text()),
{
    let mut out: Vec<char> = Vec::new();
    push_prefix_thanks(&mut out);
    match m {
        Outgoing::Thanks { name } => {
            let chars = str_chars(name.as_str());
            push_escaped_str(&mut out, &chars);
            out.push('"');
            out.push('}');
            out.push('}');
            proof {
                assert(out@ =~= thanks_prefix() + escape_string(m.text()) + object_suffix());
            }
            chars_to_string(out)
        },
    }
}

/// Encode the inbound message as its canonical JSON envelope.
pub fn encode_incoming(m: &Incoming) -> (r: String)
    ensures
        r@ == welcome_json(m.text()),
{
    let mut out: Vec<char> = Vec::new();
    push_prefix_welcome(&mut out);
    match m {
        Incoming::Welcome { hello } => {
            let chars = str_chars(hello.as_str());
            push_escaped_str(&mut out, &chars);
            out.push('"');
            out.push('}');
            out.push('}');
            proof {
                assert(out@ =~= welcome_prefix() + escape_string(m.text()) + object_suffix());
            }
            chars_to_string(out)
        },
    }
}

// ---------------------------------------------------------------------------
// Decoding: the grammar of the welcome envelope, as spec functions.
//
// Decoding is lenient, as the protocol asks: a frame that is not the welcome
// envelope is not an error, it simply decodes to nothing. The grammar allows
// JSON whitespace between tokens, the two members in either order, and the
// standard string escapes, including `\uXXXX` for any Unicode scalar value.
// ---------------------------------------------------------------------------

/// JSON whitespace.
pub open spec fn is_json_ws(c: char) -> bool {
    c == ' ' || c == '\t' || c == '\n' || c == '\r'
}

/// The first index at or after `i` that does not hold JSON whitespace.
pub open spec fn spec_skip_ws(s: Seq<char>, i: int) -> int
    decreases s.len() - i
        when 0 <= i <= s.len()
{
    if i < s.len() && is_json_ws(s[i]) {
        spec_skip_ws(s, i + 1)
    } else {
        i
    }
}

/// The value of a hexadecimal digit, if the character is one.
pub open spec fn hex_val(c: char) -> Option<int> {
    if 48 <= c as u32 && c as u32 <= 57 {
        Some(c as int - 48)
    } else if 97 <= c as u32 && c as u32 <= 102 {
        Some(c as int - 87)
    } else if 65 <= c as u32 && c as u32 <= 70 {
        Some(c as int - 55)
    } else {
        None
    }
}

/// The value of four hexadecimal digits at `i`.
pub open spec fn spec_hex4(s: Seq<char>, i: int) -> Option<int> {
    if 0 <= i && i + 4 <= s.len() {
        match (hex_val(s[i]), hex_val(s[i + 1]), hex_val(s[i + 2]), hex_val(s[i + 3])) {
            (Some(a), Some(b), Some(c), Some(d)) => Some(a * 4096 + b * 256 + c * 16 + d),
            _ => None,
        }
    } else {
        None
    }
}

/// A Unicode scalar value: a code point that is not a surrogate.
pub open spec fn is_scalar_value(v: int) -> bool {
    (0 <= v && v < 0xD800) || (0xE000 <= v && v < 0x110000)
}

/// What a single-character escape stands for, if the character is one.
pub open spec fn short_escape(c: char) -> Option<char> {
    if c == '"' {
        Some('"')
    } else if c == '\\' {
        Some('\\')
    } else if c == '/' {
        Some('/')
    } else if c == 'b' {
        Some('\u{0008}')
    } else if c == 'f' {
        Some('\u{000C}')
    } else if c == 'n' {
        Some('\n')
    } else if c == 'r' {
        Some('\r')
    } else if c == 't' {
        Some('\t')
    } else {
        None
    }
}

/// The body of a JSON string literal starting at `i` (after the opening
/// quote): the text it denotes and the index after the closing quote.
pub open spec fn spec_string_body(s: Seq<char>, i: int) -> Option<(Seq<char>, int)>
    decreases s.len() - i
        when 0 <= i <= s.len()
{
    if i >= s.len() {
        None
    } else if s[i] == '"' {
        Some((Seq::empty(), i + 1))
    } else if s[i] == '\\' {
        if i + 2 > s.len() {
            None
        } else if s[i + 1] == 'u' {
            if i + 6 > s.len() {
                None
            } else {
                match spec_hex4(s, i + 2) {
                    Some(v) => if is_scalar_value(v) {
                        match spec_string_body(s, i + 6) {
                            Some((rest, j)) => Some((seq![((v as u32) as char)] + rest, j)),
                            None => None,
                        }
                    } else {
                        None
                    },
                    None => None,
                }
            }
        } else {
            match short_escape(s[i + 1]) {
                Some(c) => match spec_string_body(s, i + 2) {
                    Some((rest, j)) => Some((seq![c] + rest, j)),
                    None => None,
                },
                None => None,
            }
        }
    } else if (s[i] as u32) < 0x20 {
        None
    } else {
        match spec_string_body(s, i + 1) {
            Some((rest, j)) => Some((seq![s[i]] + rest, j)),
            None => None,
        }
    }
}

/// A JSON string literal at `i`: the text and the index after it.
pub open spec fn spec_parse_string(s: Seq<char>, i: int) -> Option<(Seq<char>, int)> {
    if 0 <= i && i < s.len() && s[i] == '"' {
        spec_string_body(s, i + 1)
    } else {
        None
    }
}

/// The index after `i` if character `c` stands there.
pub open spec fn spec_expect(s: Seq<char>, i: int, c: char) -> Option<int> {
    if 0 <= i && i < s.len() && s[i] == c {
        Some(i + 1)
    } else {
        None
    }
}

/// An object member's key at `i` with its colon: the key and the index of the
/// member's value.
pub open spec fn spec_member_key(s: Seq<char>, i: int) -> Option<(Seq<char>, int)> {
    match spec_parse_string(s, i) {
        Some(kj) => {
            let j1 = spec_skip_ws(s, kj.1);
            match spec_expect(s, j1, ':') {
                Some(j2) => Some((kj.0, spec_skip_ws(s, j2))),
                None => None,
            }
        },
        None => None,
    }
}

pub open spec fn type_key() -> Seq<char> {
    seq!['t', 'y', 'p', 'e']
}

pub open spec fn message_key() -> Seq<char> {
    seq!['m', 'e', 's', 's', 'a', 'g', 'e']
}

pub open spec fn hello_key() -> Seq<char> {
    seq!['h', 'e', 'l', 'l', 'o']
}

pub open spec fn welcome_tag() -> Seq<char> {
    seq!['w', 'e', 'l', 'c', 'o', 'm', 'e']
}

/// The payload object `{"hello": <text>}` at `i`: the text and the index
/// after the object.
pub open spec fn spec_hello_object(s: Seq<char>, i: int) -> Option<(Seq<char>, int)> {
    match spec_expect(s, i, '{') {
        Some(j0) => {
            let j1 = spec_skip_ws(s, j0);
            match spec_member_key(s, j1) {
                Some(kj) => if kj.0 == hello_key() {
                    match spec_parse_string(s, kj.1) {
                        Some(vj) => {
                            let j4 = spec_skip_ws(s, vj.1);
                            match spec_expect(s, j4, '}') {
                                Some(j5) => Some((vj.0, j5)),
                                None => None,
                            }
                        },
                        None => None,
                    }
                } else {
                    None
                },
                None => None,
            }
        },
        None => None,
    }
}

/// The tag value `"welcome"` at `i`: the index after it.
pub open spec fn spec_tag_welcome(s: Seq<char>, i: int) -> Option<int> {
    match spec_parse_string(s, i) {
        Some(tj) => if tj.0 == welcome_tag() {
            Some(tj.1)
        } else {
            None
        },
        None => None,
    }
}

/// The envelope's closing brace at or after `i`, then whitespace to the end.
pub open spec fn spec_close_end(s: Seq<char>, i: int) -> bool {
    let j = spec_skip_ws(s, i);
    match spec_expect(s, j, '}') {
        Some(j1) => spec_skip_ws(s, j1) == s.len(),
        None => false,
    }
}

/// The whole welcome envelope: the text it carries, if the input is one.
/// The two members may stand in either order.
pub open spec fn spec_parse_welcome(s: Seq<char>) -> Option<Seq<char>> {
    let i0 = spec_skip_ws(s, 0);
    match spec_expect(s, i0, '{') {
        Some(i1) => {
            let i2 = spec_skip_ws(s, i1);
            match spec_member_key(s, i2) {
                Some(ki) => if ki.0 == type_key() {
                    match spec_tag_welcome(s, ki.1) {
                        Some(i4) => {
                            let i5 = spec_skip_ws(s, i4);
                            match spec_expect(s, i5, ',') {
                                Some(i6) => {
                                    let i7 = spec_skip_ws(s, i6);
                                    match spec_member_key(s, i7) {
                                        Some(ki2) => if ki2.0 == message_key() {
                                            match spec_hello_object(s, ki2.1) {
                                                Some(vi) => if spec_close_end(s, vi.1) {
                                                    Some(vi.0)
                                                } else {
                                                    None
                                                },
                                                None => None,
                                            }
                                        } else {
                                            None
                                        },
                                        None => None,
                                    }
                                },
                                None => None,
                            }
                        },
                        None => None,
                    }
                } else if ki.0 == message_key() {
                    match spec_hello_object(s, ki.1) {
                        Some(vi) => {
                            let i5 = spec_skip_ws(s, vi.1);
                            match spec_expect(s, i5, ',') {
                                Some(i6) => {
                                    let i7 = spec_skip_ws(s, i6);
                                    match spec_member_key(s, i7) {
                                        Some(ki2) => if ki2.0 == type_key() {
                                            match spec_tag_welcome(s, ki2.1) {
                                                Some(i9) => if spec_close_end(s, i9) {
                                                    Some(vi.0)
                                                } else {
                                                    None
                                                },
                                                None => None,
                                            }
                                        } else {
                                            None
                                        },
                                        None => None,
                                    }
                                },
                                None => None,
                            }
                        },
                        None => None,
                    }
                } else {
                    None
                },
                None => None,
            }
        },
        None => None,
    }
}

// ---------------------------------------------------------------------------
// Decoding, executable. Each function mirrors its spec function exactly.
// ---------------------------------------------------------------------------

fn skip_ws(s: &Vec<char>, i: usize) -> (r: usize)
    requires
        i <= s.len(),
    ensures
        r == spec_skip_ws(s@, i as int),
        i <= r <= s.len(),
    decreases s.len() - i,
{
    if i < s.len() {
        let c = s[i];
        if c == ' ' || c == '\t' || c == '\n' || c == '\r' {
            skip_ws(s, i + 1)
        } else {
            i
        }
    } else {
        i
    }
}

fn hex_val_exec(c: char) -> (r: Option<u32>)
    ensures
        r matches Some(v) ==> hex_val(c) == Some(v as int) && v < 16,
        r is None ==> hex_val(c) is None,
{
    let u = c as u32;
    if 48 <= u && u <= 57 {
        Some(u - 48)
    } else if 97 <= u && u <= 102 {
        Some(u - 87)
    } else if 65 <= u && u <= 70 {
        Some(u - 55)
    } else {
        None
    }
}

fn hex4(s: &Vec<char>, i: usize) -> (r: Option<u32>)
    requires
        i + 4 <= s.len(),
    ensures
        r matches Some(v) ==> spec_hex4(s@, i as int) == Some(v as int) && v < 0x10000,
        r is None ==> spec_hex4(s@, i as int) is None,
{
    match (hex_val_exec(s[i]), hex_val_exec(s[i + 1]), hex_val_exec(s[i + 2]), hex_val_exec(
        s[i + 3],
    )) {
        (Some(a), Some(b), Some(c), Some(d)) => Some(a * 4096 + b * 256 + c * 16 + d),
        _ => None,
    }
}

fn short_escape_exec(c: char) -> (r: Option<char>)
    ensures
        r == short_escape(c),
{
    if c == '"' {
        Some('"')
    } else if c == '\\' {
        Some('\\')
    } else if c == '/' {
        Some('/')
    } else if c == 'b' {
        Some('\u{0008}')
    } else if c == 'f' {
        Some('\u{000C}')
    } else if c == 'n' {
        Some('\n')
    } else if c == 'r' {
        Some('\r')
    } else if c == 't' {
        Some('\t')
    } else {
        None
    }
}

fn string_body(s: &Vec<char>, i: usize) -> (r: Option<(Vec<char>, usize)>)
    requires
        i <= s.len(),
    ensures
        match r {
            Some(p) => spec_string_body(s@, i as int) == Some((p.0@, p.1 as int)) && i < p.1
                <= s.len(),
            None => spec_string_body(s@, i as int) is None,
        },
    decreases s.len() - i,
{
    if i >= s.len() {
        return None;
    }
    let c = s[i];
    if c == '"' {
        let out: Vec<char> = Vec::new();
        assert(out@ =~= Seq::<char>::empty());
        Some((out, i + 1))
    } else if c == '\\' {
        if s.len() - i < 2 {
            return None;
        }
        let e = s[i + 1];
        if e == 'u' {
            if s.len() - i < 6 {
                return None;
            }
            match hex4(s, i + 2) {
                Some(v) => match crate::ext::char_from_u32(v) {
                    Some(ch) => match string_body(s, i + 6) {
                        Some((rest, j)) => {
                            let mut out = rest;
                            out.insert(0, ch);
                            proof {
                                assert(out@ =~= seq![ch] + out@.drop_first());
                            }
                            Some((out, j))
                        },
                        None => None,
                    },
                    None => None,
                },
                None => None,
            }
        } else {
            match short_escape_exec(e) {
                Some(ch) => match string_body(s, i + 2) {
                    Some((rest, j)) => {
                        let mut out = rest;
                        out.insert(0, ch);
                        proof {
                            assert(out@ =~= seq![ch] + out@.drop_first());
                        }
                        Some((out, j))
                    },
                    None => None,
                },
                None => None,
            }
        }
    } else if (c as u32) < 0x20 {
        None
    } else {
        match string_body(s, i + 1) {
            Some((rest, j)) => {
                let mut out = rest;
                out.insert(0, c);
                proof {
                    assert(out@ =~= seq![c] + out@.drop_first());
                }
                Some((out, j))
            },
            None => None,
        }
    }
}

fn parse_string(s: &Vec<char>, i: usize) -> (r: Option<(Vec<char>, usize)>)
    requires
        i <= s.len(),
    ensures
        match r {
            Some(p) => spec_parse_string(s@, i as int) == Some((p.0@, p.1 as int)) && i < p.1
                <= s.len(),
            None => spec_parse_string(s@, i as int) is None,
        },
{
    if i < s.len() {
        if s[i] == '"' {
            string_body(s, i + 1)
        } else {
            None
        }
    } else {
        None
    }
}

fn member_key(s: &Vec<char>, i: usize) -> (r: Option<(Vec<char>, usize)>)
    requires
        i <= s.len(),
    ensures
        match r {
            Some(p) => spec_member_key(s@, i as int) == Some((p.0@, p.1 as int)) && p.1 <= s.len(),
            None => spec_member_key(s@, i as int) is None,
        },
{
    match parse_string(s, i) {
        Some((k, j)) => {
            let j1 = skip_ws(s, j);
            if j1 < s.len() {
                if s[j1] == ':' {
                    let j2 = skip_ws(s, j1 + 1);
                    Some((k, j2))
                } else {
                    None
                }
            } else {
                None
            }
        },
        None => None,
    }
}

fn eq_chars(v: &Vec<char>, expected: &Vec<char>) -> (r: bool)
    ensures
        r == (v@ == expected@),
{
    if v.len() != expected.len() {
        return false;
    }
    let mut i: usize = 0;
    while i < v.len()
        invariant
            i <= v.len(),
            v@.len() == expected@.len(),
            forall|k: int| 0 <= k < i ==> v@[k] == expected@[k],
        decreases v.len() - i,
    {
        if v[i] != expected[i] {
            return false;
        }
        i += 1;
    }
    proof {
        assert(v@ =~= expected@);
    }
    true
}

fn hello_object(s: &Vec<char>, i: usize) -> (r: Option<(Vec<char>, usize)>)
    requires
        i <= s.len(),
    ensures
        match r {
            Some(p) => spec_hello_object(s@, i as int) == Some((p.0@, p.1 as int)) && p.1
                <= s.len(),
            None => spec_hello_object(s@, i as int) is None,
        },
{
    if !(i < s.len()) {
        return None;
    }
    if !(s[i] == '{') {
        return None;
    }
    let j1 = skip_ws(s, i + 1);
    match member_key(s, j1) {
        Some((k, j2)) => {
            let hk: Vec<char> = vec!['h', 'e', 'l', 'l', 'o'];
            proof {
                assert(hk@ =~= hello_key());
            }
            if !eq_chars(&k, &hk) {
                return None;
            }
            match parse_string(s, j2) {
                Some((v, j3)) => {
                    let j4 = skip_ws(s, j3);
                    if j4 < s.len() {
                        if s[j4] == '}' {
                            Some((v, j4 + 1))
                        } else {
                            None
                        }
                    } else {
                        None
                    }
                },
                None => None,
            }
        },
        None => None,
    }
}

fn tag_welcome(s: &Vec<char>, i: usize) -> (r: Option<usize>)
    requires
        i <= s.len(),
    ensures
        match r {
            Some(j) => spec_tag_welcome(s@, i as int) == Some(j as int) && j <= s.len(),
            None => spec_tag_welcome(s@, i as int) is None,
        },
{
    match parse_string(s, i) {
        Some((t, j)) => {
            let wt: Vec<char> = vec!['w', 'e', 'l', 'c', 'o', 'm', 'e'];
            proof {
                assert(wt@ =~= welcome_tag());
            }
            if eq_chars(&t, &wt) {
                Some(j)
            } else {
                None
            }
        },
        None => None,
    }
}

fn close_end(s: &Vec<char>, i: usize) -> (r: bool)
    requires
        i <= s.len(),
    ensures
        r == spec_close_end(s@, i as int),
{
    let j = skip_ws(s, i);
    if j < s.len() {
        if s[j] == '}' {
            let j1 = skip_ws(s, j + 1);
            j1 == s.len()
        } else {
            false
        }
    } else {
        false
    }
}

fn parse_welcome_chars(s: &Vec<char>) -> (r: Option<Vec<char>>)
    ensures
        match r {
            Some(v) => spec_parse_welcome(s@) == Some(v@),
            None => spec_parse_welcome(s@) is None,
        },
{
    let tk: Vec<char> = vec!['t', 'y', 'p', 'e'];
    let mk: Vec<char> = vec!['m', 'e', 's', 's', 'a', 'g', 'e'];
    proof {
        assert(tk@ =~= type_key());
        assert(mk@ =~= message_key());
    }
    let i0 = skip_ws(s, 0);
    if !(i0 < s.len()) {
        return None;
    }
    if !(s[i0] == '{') {
        return None;
    }
    let i2 = skip_ws(s, i0 + 1);
    match member_key(s, i2) {
        Some((k, i3)) => {
            if eq_chars(&k, &tk) {
                match tag_welcome(s, i3) {
                    Some(i4) => {
                        let i5 = skip_ws(s, i4);
                        if !(i5 < s.len()) {
                            return None;
                        }
                        if !(s[i5] == ',') {
                            return None;
                        }
                        let i7 = skip_ws(s, i5 + 1);
                        match member_key(s, i7) {
                            Some((k2, i8)) => {
                                if !eq_chars(&k2, &mk) {
                                    return None;
                                }
                                match hello_object(s, i8) {
                                    Some((v, i9)) => {
                                        if close_end(s, i9) {
                                            Some(v)
                                        } else {
                                            None
                                        }
                                    },
                                    None => None,
                                }
                            },
                            None => None,
                        }
                    },
                    None => None,
                }
            } else if eq_chars(&k, &mk) {
                match hello_object(s, i3) {
                    Some((v, i4)) => {
                        let i5 = skip_ws(s, i4);
                        if !(i5 < s.len()) {
                            return None;
                        }
                        if !(s[i5] == ',') {
                            return None;
                        }
                        let i7 = skip_ws(s, i5 + 1);
                        match member_key(s, i7) {
                            Some((k2, i8)) => {
                                if !eq_chars(&k2, &tk) {
                                    return None;
                                }
                                match tag_welcome(s, i8) {
                                    Some(i9) => {
                                        if close_end(s, i9) {
                                            Some(v)
                                        } else {
                                            None
                                        }
                                    },
                                    None => None,
                                }
                            },
                            None => None,
                        }
                    },
                    None => None,
                }
            } else {
                None
            }
        },
        None => None,
    }
}

/// Decode a text frame. The result is `Some` exactly when the text is the
/// welcome envelope, and then carries the envelope's unescaped text.
pub fn decode_incoming(text: &str) -> (r: Option<Incoming>)
    ensures
        match r {
            Some(m) => spec_parse_welcome(text@) == Some(m.text()),
            None => spec_parse_welcome(text@) is None,
        },
{
    let s = str_chars(text);
    match parse_welcome_chars(&s) {
        Some(v) => Some(Incoming::Welcome { hello: chars_to_string(v) }),
        None => None,
    }
}

// ---------------------------------------------------------------------------
// The codec round trip.
// ---------------------------------------------------------------------------

/// A character that stands as itself inside a JSON string literal.
pub open spec fn is_plain(c: char) -> bool {
    c != '"' && c != '\\' && (c as u32) >= 0x20
}

/// A text of plain characters is its own escape.
proof fn lemma_escape_plain(k: Seq<char>)
    requires
        forall|i: int| 0 <= i < k.len() ==> is_plain(k[i]),
    ensures
        escape_string(k) == k,
    decreases k.len(),
{
    if k.len() == 0 {
        assert(escape_string(k) =~= k);
    } else {
        assert forall|i: int| 0 <= i < k.drop_first().len() implies is_plain(
            k.drop_first()[i],
        ) by {
            assert(k.drop_first()[i] == k[i + 1]);
        }
        lemma_escape_plain(k.drop_first());
        assert(escape_char(k[0]) =~= seq![k[0]]);
        assert(seq![k[0]] + k.drop_first() =~= k);
    }
}

/// The hexadecimal digit characters decode back to their values.
proof fn lemma_hex_digit_val(d: int)
    requires
        0 <= d < 16,
    ensures
        hex_val(hex_digit(d)) == Some(d),
{
}

/// A string literal's body made of an escaped text, its closing quote and
/// anything after decodes back to exactly that text.
proof fn lemma_parse_escaped(s: Seq<char>, p: int, h: Seq<char>, tail: Seq<char>)
    requires
        0 <= p <= s.len(),
        s.subrange(p, s.len() as int) == escape_string(h) + seq!['"'] + tail,
    ensures
        spec_string_body(s, p) == Some((h, p + escape_string(h).len() + 1)),
    decreases h.len(),
{
    let rem = s.subrange(p, s.len() as int);
    let esc = escape_string(h);
    assert(rem == esc + seq!['"'] + tail);
    assert(rem.len() == esc.len() + 1 + tail.len());
    assert(rem.len() == s.len() - p);
    assert(p < s.len());
    assert forall|j: int| p <= j < s.len() implies #[trigger] s[j] == rem[j - p] by {
        assert(rem[j - p] == s[p + (j - p)]);
    }
    if h.len() == 0 {
        assert(esc =~= Seq::<char>::empty());
        assert(s[p] == rem[0]);
        assert(rem[0] == '"');
        assert(h =~= Seq::<char>::empty());
        assert(spec_string_body(s, p) == Some((Seq::<char>::empty(), p + 1)));
    } else {
        let c = h[0];
        let e = escape_char(c);
        let h1 = h.drop_first();
        let esc1 = escape_string(h1);
        assert(esc == e + esc1);
        assert(seq![c] + h1 =~= h);
        if is_plain(c) {
            assert(e =~= seq![c]);
            assert(s[p] == rem[0] && rem[0] == c);
            assert(s.subrange(p + 1, s.len() as int) =~= esc1 + seq!['"'] + tail);
            lemma_parse_escaped(s, p + 1, h1, tail);
            assert(spec_string_body(s, p) == Some((seq![c] + h1, p + 1 + esc1.len() + 1)));
        } else if c == '"' || c == '\\' {
            assert(e =~= seq!['\\', c]);
            assert(s[p] == rem[0] && rem[0] == '\\');
            assert(s[p + 1] == rem[1] && rem[1] == c);
            assert(p + 2 <= s.len());
            assert(short_escape(c) == Some(c));
            assert(s.subrange(p + 2, s.len() as int) =~= esc1 + seq!['"'] + tail);
            lemma_parse_escaped(s, p + 2, h1, tail);
            assert(spec_string_body(s, p) == Some((seq![c] + h1, p + 2 + esc1.len() + 1)));
        } else {
            let u = c as u32;
            assert(u < 0x20);
            let hi = u as int / 16;
            let lo = u as int % 16;
            assert(e =~= seq!['\\', 'u', '0', '0', hex_digit(hi), hex_digit(lo)]);
            assert(s[p] == rem[0] && rem[0] == '\\');
            assert(s[p + 1] == rem[1] && rem[1] == 'u');
            assert(p + 6 <= s.len());
            assert(s[p + 2] == rem[2] && rem[2] == '0');
            assert(s[p + 3] == rem[3] && rem[3] == '0');
            assert(s[p + 4] == rem[4] && rem[4] == hex_digit(hi));
            assert(s[p + 5] == rem[5] && rem[5] == hex_digit(lo));
            assert(0 <= hi < 16 && 0 <= lo < 16);
            lemma_hex_digit_val(0);
            lemma_hex_digit_val(hi);
            lemma_hex_digit_val(lo);
            assert(hex_val('0') == Some(0int));
            let v = 0 * 4096 + 0 * 256 + hi * 16 + lo;
            assert(spec_hex4(s, p + 2) == Some(v));
            assert(v == u as int);
            assert(is_scalar_value(v));
            vstd::utf8::char_u32_cast(c, u);
            assert(((v as u32) as char) == c);
            assert(s.subrange(p + 6, s.len() as int) =~= esc1 + seq!['"'] + tail);
            lemma_parse_escaped(s, p + 6, h1, tail);
            assert(spec_string_body(s, p) == Some((seq![c] + h1, p + 6 + esc1.len() + 1)));
        }
    }
}

/// The canonical welcome envelope decodes back to exactly the text it was
/// built from: the codec loses nothing, for any text.
#[verifier::rlimit(60)]
pub proof fn lemma_welcome_roundtrip(hello: Seq<char>)
    ensures
        spec_parse_welcome(welcome_json(hello)) == Some(hello),
{
    let pre = welcome_prefix();
    let esc = escape_string(hello);
    let suf = object_suffix();
    let s = welcome_json(hello);
    assert(pre.len() == 38);
    assert(suf.len() == 3);
    assert(s.len() == 41 + esc.len());
    assert(forall|i: int| 0 <= i < 38 ==> s[i] == pre[i]);
    let q = 38 + esc.len() as int;

    // the opening of the envelope
    assert(s[0] == '{');
    assert(spec_skip_ws(s, 0) == 0);
    assert(spec_expect(s, 0, '{') == Some(1int));
    assert(s[1] == '"');
    assert(spec_skip_ws(s, 1) == 1);

    // the member key "type"
    assert(forall|i: int| 0 <= i < 4 ==> is_plain(type_key()[i]));
    lemma_escape_plain(type_key());
    assert(s.subrange(2, s.len() as int) =~= escape_string(type_key()) + seq!['"'] + s.subrange(
        7,
        s.len() as int,
    ));
    lemma_parse_escaped(s, 2, type_key(), s.subrange(7, s.len() as int));
    assert(spec_string_body(s, 2) == Some((type_key(), 7int)));
    assert(spec_parse_string(s, 1) == Some((type_key(), 7int)));
    assert(s[7] == ':');
    assert(spec_skip_ws(s, 7) == 7);
    assert(spec_expect(s, 7, ':') == Some(8int));
    assert(s[8] == '"');
    assert(spec_skip_ws(s, 8) == 8);
    assert(spec_member_key(s, 1) == Some((type_key(), 8int)));

    // the tag "welcome"
    assert(forall|i: int| 0 <= i < 7 ==> is_plain(welcome_tag()[i]));
    lemma_escape_plain(welcome_tag());
    assert(s.subrange(9, s.len() as int) =~= escape_string(welcome_tag()) + seq!['"'] + s.subrange(
        17,
        s.len() as int,
    ));
    lemma_parse_escaped(s, 9, welcome_tag(), s.subrange(17, s.len() as int));
    assert(spec_parse_string(s, 8) == Some((welcome_tag(), 17int)));
    assert(spec_tag_welcome(s, 8) == Some(17int));
    assert(s[17] == ',');
    assert(spec_skip_ws(s, 17) == 17);
    assert(spec_expect(s, 17, ',') == Some(18int));
    assert(s[18] == '"');
    assert(spec_skip_ws(s, 18) == 18);

    // the member key "message"
    assert(forall|i: int| 0 <= i < 7 ==> is_plain(message_key()[i]));
    lemma_escape_plain(message_key());
    assert(s.subrange(19, s.len() as int) =~= escape_string(message_key()) + seq!['"']
        + s.subrange(27, s.len() as int));
    lemma_parse_escaped(s, 19, message_key(), s.subrange(27, s.len() as int));
    assert(spec_parse_string(s, 18) == Some((message_key(), 27int)));
    assert(s[27] == ':');
    assert(spec_skip_ws(s, 27) == 27);
    assert(spec_expect(s, 27, ':') == Some(28int));
    assert(s[28] == '{');
    assert(spec_skip_ws(s, 28) == 28);
    assert(spec_member_key(s, 18) == Some((message_key(), 28int)));

    // the payload object and its key "hello"
    assert(spec_expect(s, 28, '{') == Some(29int));
    assert(s[29] == '"');
    assert(spec_skip_ws(s, 29) == 29);
    assert(forall|i: int| 0 <= i < 5 ==> is_plain(hello_key()[i]));
    lemma_escape_plain(hello_key());
    assert(s.subrange(30, s.len() as int) =~= escape_string(hello_key()) + seq!['"'] + s.subrange(
        36,
        s.len() as int,
    ));
    lemma_parse_escaped(s, 30, hello_key(), s.subrange(36, s.len() as int));
    assert(spec_parse_string(s, 29) == Some((hello_key(), 36int)));
    assert(s[36] == ':');
    assert(spec_skip_ws(s, 36) == 36);
    assert(spec_expect(s, 36, ':') == Some(37int));
    assert(s[37] == '"');
    assert(spec_skip_ws(s, 37) == 37);
    assert(spec_member_key(s, 29) == Some((hello_key(), 37int)));

    // the carried text itself
    assert(s.subrange(38, s.len() as int) =~= esc + seq!['"'] + seq!['}', '}']);
    lemma_parse_escaped(s, 38, hello, seq!['}', '}']);
    assert(spec_string_body(s, 38) == Some((hello, q + 1)));
    assert(spec_parse_string(s, 37) == Some((hello, q + 1)));

    // the closing braces and the end of the input
    assert(s[q + 1] == '}');
    assert(s[q + 2] == '}');
    assert(spec_skip_ws(s, q + 1) == q + 1);
    assert(spec_expect(s, q + 1, '}') == Some(q + 2));
    assert(spec_hello_object(s, 28) == Some((hello, q + 2)));
    assert(spec_skip_ws(s, q + 2) == q + 2);
    assert(spec_expect(s, q + 2, '}') == Some(q + 3));
    assert(q + 3 == s.len());
    assert(spec_skip_ws(s, q + 3) == q + 3);
    assert(spec_close_end(s, q + 2));
    assert(spec_parse_welcome(s) == Some(hello));
}

} // verus!
