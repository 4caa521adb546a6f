//! The file named by a subscriber's audio responses: their `data` is a JSON
//! object such as `{"file_name": "greeting", "action": "...", "meta_data": "..."}`
//! whose `file_name` member names the file, without extension.
use vstd::prelude::*;
use vstd::string::*;
use crate::text::str_eq;

verus! {

/// JSON whitespace.
pub open spec fn is_ws(c: char) -> bool {
    c == ' ' || c == '\t' || c == '\n' || c == '\r'
}

/// Characters that end a bare value such as a number, `true` or `null`.
pub open spec fn is_delimiter(c: char) -> bool {
    is_ws(c) || c == ',' || c == '}' || c == ']' || c == '{' || c == '[' || c == '"' || c == ':'
}

/// The first position at or after `i` that does not hold whitespace.
pub open spec fn skip_ws(s: Seq<char>, i: int) -> int
    decreases s.len() - i,
{
    if 0 <= i < s.len() && is_ws(s[i]) {
        skip_ws(s, i + 1)
    } else {
        i
    }
}

/// The position just after the quote that closes a string whose text starts
/// at `i` (a backslash escapes the character after it); `None` when the text
/// runs out first.
pub open spec fn string_close(s: Seq<char>, i: int) -> Option<int>
    decreases s.len() - i,
{
    if i < 0 || i >= s.len() {
        None
    } else if s[i] == '"' {
        Some(i + 1)
    } else if s[i] == '\\' {
        if i + 1 >= s.len() {
            None
        } else {
            string_close(s, i + 2)
        }
    } else {
        string_close(s, i + 1)
    }
}

/// The first position at or after `i` that holds a delimiter, or the end.
pub open spec fn bare_end(s: Seq<char>, i: int) -> int
    decreases s.len() - i,
{
    if 0 <= i < s.len() && !is_delimiter(s[i]) {
        bare_end(s, i + 1)
    } else {
        i
    }
}

/// The position just after the bracket that closes the object or array whose
/// contents resume at `i`, `depth` brackets deep; strings inside are skipped
/// whole, so brackets in them do not count. `None` when the text runs out first.
pub open spec fn nested_close(s: Seq<char>, i: int, depth: nat) -> Option<int>
    decreases s.len() - i,
{
    if i < 0 || i >= s.len() {
        None
    } else if s[i] == '"' {
        match string_close(s, i + 1) {
            None => None,
            Some(e) => {
                proof { lemma_string_close_gt(s, i + 1); }
                nested_close(s, e, depth)
            },
        }
    } else if s[i] == '{' || s[i] == '[' {
        nested_close(s, i + 1, depth + 1)
    } else if s[i] == '}' || s[i] == ']' {
        if depth <= 1 {
            Some(i + 1)
        } else {
            nested_close(s, i + 1, (depth - 1) as nat)
        }
    } else {
        nested_close(s, i + 1, depth)
    }
}

/// The position just after the value that starts at `i`: a string, an object
/// or an array, or a non-empty bare value.
pub open spec fn value_end(s: Seq<char>, i: int) -> Option<int> {
    if 0 <= i < s.len() && s[i] == '"' {
        string_close(s, i + 1)
    } else if 0 <= i < s.len() && (s[i] == '{' || s[i] == '[') {
        nested_close(s, i + 1, 1)
    } else if bare_end(s, i) > i {
        Some(bare_end(s, i))
    } else {
        None
    }
}

/// The character that the escape `\c` stands for inside a string.
pub open spec fn unescape(c: char) -> Option<char> {
    if c == '"' || c == '\\' || c == '/' {
        Some(c)
    } else if c == 'b' {
        Some('\u{8}')
    } else if c == 'f' {
        Some('\u{c}')
    } else if c == 'n' {
        Some('\n')
    } else if c == 'r' {
        Some('\r')
    } else if c == 't' {
        Some('\t')
    } else {
        None
    }
}

/// The value of a hexadecimal digit.
pub open spec fn hex_digit(c: char) -> Option<int> {
    if '0' <= c && c <= '9' {
        Some(c as int - '0' as int)
    } else if 'a' <= c && c <= 'f' {
        Some(c as int - 'a' as int + 10)
    } else if 'A' <= c && c <= 'F' {
        Some(c as int - 'A' as int + 10)
    } else {
        None
    }
}

/// The number written by the four hexadecimal digits at `i`, all before `to`.
pub open spec fn hex4(s: Seq<char>, i: int, to: int) -> Option<int> {
    if 0 <= i && i + 4 <= to && to <= s.len() {
        match (hex_digit(s[i]), hex_digit(s[i + 1]), hex_digit(s[i + 2]), hex_digit(s[i + 3])) {
            (Some(a), Some(b), Some(c), Some(d)) => Some(a * 4096 + b * 256 + c * 16 + d),
            _ => None,
        }
    } else {
        None
    }
}

/// The scalar value of a character.
pub open spec fn code_of(c: char) -> int {
    c as int
}

/// The character whose scalar value is `n`.
pub open spec fn char_of(n: int) -> char {
    choose|c: char| #[trigger] code_of(c) == n
}

/// The character a `\u` escape starting with the backslash at `i` stands for,
/// and whether it took two escapes (a surrogate pair) rather than one; `None`
/// for a lone surrogate or digits that are not four hexadecimal ones.
pub open spec fn unicode_escape(s: Seq<char>, i: int, to: int) -> Option<(char, bool)> {
    match hex4(s, i + 2, to) {
        None => None,
        Some(h) => {
            if 0xD800 <= h && h <= 0xDBFF {
                if i + 8 <= to && s[i + 6] == '\\' && s[i + 7] == 'u' {
                    match hex4(s, i + 8, to) {
                        Some(l) => {
                            if 0xDC00 <= l && l <= 0xDFFF {
                                Some((char_of(0x10000 + (h - 0xD800) * 1024 + (l - 0xDC00)), true))
                            } else {
                                None
                            }
                        },
                        None => None,
                    }
                } else {
                    None
                }
            } else if 0xDC00 <= h && h <= 0xDFFF {
                None
            } else {
                Some((char_of(h), false))
            }
        },
    }
}

/// The text that the raw contents `s[i..to]` of a string stand for, each
/// escape replaced by its character; `None` for an unknown escape, a bad
/// `\u` escape or a backslash at the end.
pub open spec fn decode(s: Seq<char>, i: int, to: int) -> Option<Seq<char>>
    decreases to - i,
{
    if i >= to {
        Some(Seq::empty())
    } else if s[i] == '\\' {
        if i + 1 >= to {
            None
        } else if s[i + 1] == 'u' {
            match unicode_escape(s, i, to) {
                Some((c, pair)) => match decode(s, if pair { i + 12 } else { i + 6 }, to) {
                    Some(r) => Some(seq![c] + r),
                    None => None,
                },
                None => None,
            }
        } else {
            match (unescape(s[i + 1]), decode(s, i + 2, to)) {
                (Some(c), Some(r)) => Some(seq![c] + r),
                _ => None,
            }
        }
    } else {
        match decode(s, i + 1, to) {
            Some(r) => Some(seq![s[i]] + r),
            None => None,
        }
    }
}

pub proof fn lemma_skip_ws_ge(s: Seq<char>, i: int)
    ensures
        skip_ws(s, i) >= i,
        0 <= i ==> skip_ws(s, i) >= 0,
        0 <= i <= s.len() ==> skip_ws(s, i) <= s.len(),
    decreases s.len() - i,
{
    if 0 <= i < s.len() && is_ws(s[i]) {
        lemma_skip_ws_ge(s, i + 1);
    }
}

pub proof fn lemma_string_close_gt(s: Seq<char>, i: int)
    ensures
        string_close(s, i) matches Some(e) ==> i < e <= s.len() && s[e - 1] == '"',
    decreases s.len() - i,
{
    if 0 <= i < s.len() && s[i] != '"' {
        if s[i] == '\\' {
            if i + 1 < s.len() {
                lemma_string_close_gt(s, i + 2);
            }
        } else {
            lemma_string_close_gt(s, i + 1);
        }
    }
}

pub proof fn lemma_bare_end_ge(s: Seq<char>, i: int)
    ensures
        bare_end(s, i) >= i,
        0 <= i <= s.len() ==> bare_end(s, i) <= s.len(),
    decreases s.len() - i,
{
    if 0 <= i < s.len() && !is_delimiter(s[i]) {
        lemma_bare_end_ge(s, i + 1);
    }
}

pub proof fn lemma_nested_close_gt(s: Seq<char>, i: int, depth: nat)
    ensures
        nested_close(s, i, depth) matches Some(e) ==> i < e <= s.len(),
    decreases s.len() - i,
{
    if 0 <= i < s.len() {
        if s[i] == '"' {
            lemma_string_close_gt(s, i + 1);
            if let Some(e) = string_close(s, i + 1) {
                lemma_nested_close_gt(s, e, depth);
            }
        } else if s[i] == '{' || s[i] == '[' {
            lemma_nested_close_gt(s, i + 1, depth + 1);
        } else if s[i] == '}' || s[i] == ']' {
            if depth > 1 {
                lemma_nested_close_gt(s, i + 1, (depth - 1) as nat);
            }
        } else {
            lemma_nested_close_gt(s, i + 1, depth);
        }
    }
}

pub proof fn lemma_value_end_gt(s: Seq<char>, i: int)
    requires
        0 <= i,
    ensures
        value_end(s, i) matches Some(e) ==> i < e <= s.len(),
{
    lemma_string_close_gt(s, i + 1);
    lemma_nested_close_gt(s, i + 1, 1);
    lemma_bare_end_ge(s, i);
}

/// Reading the members of an object from position `i`, in order: the decoded
/// text of the first member whose decoded name is `key`, if its value is a
/// string; `None` if
/// that member's value is anything else or holds an escape that `decode` does
/// not know, if no such
/// member comes before the members end, or if the text stops being a member
/// list first.
pub open spec fn member_string(s: Seq<char>, i: int, key: Seq<char>) -> Option<Seq<char>>
    decreases s.len() - i,
{
    if !(0 <= i < s.len() && s[i] == '"') {
        None
    } else {
        match string_close(s, i + 1) {
            None => None,
            Some(ke) => {
                let c = skip_ws(s, ke);
                if !(0 <= c < s.len() && s[c] == ':') {
                    None
                } else {
                    let v = skip_ws(s, c + 1);
                    match value_end(s, v) {
                        None => None,
                        Some(ve) => {
                            if decode(s, i + 1, ke - 1) == Some(key) {
                                if s[v] == '"' {
                                    decode(s, v + 1, ve - 1)
                                } else {
                                    None
                                }
                            } else {
                                let n = skip_ws(s, ve);
                                if 0 <= n < s.len() && s[n] == ',' {
                                    proof {
                                        lemma_string_close_gt(s, i + 1);
                                        lemma_skip_ws_ge(s, ke);
                                        lemma_skip_ws_ge(s, c + 1);
                                        lemma_value_end_gt(s, v);
                                        lemma_skip_ws_ge(s, ve);
                                        lemma_skip_ws_ge(s, n + 1);
                                    }
                                    member_string(s, skip_ws(s, n + 1), key)
                                } else {
                                    None
                                }
                            }
                        },
                    }
                }
            },
        }
    }
}

/// The file name an audio response's data gives: the `file_name` member of
/// the JSON object (see `member_string`).
pub open spec fn file_name_of(data: Seq<char>) -> Option<Seq<char>> {
    let i = skip_ws(data, 0);
    if 0 <= i < data.len() && data[i] == '{' {
        member_string(data, skip_ws(data, i + 1), "file_name"@)
    } else {
        None
    }
}

/// The object that names a file by its `file_name` member alone.
pub open spec fn file_name_object(name: Seq<char>) -> Seq<char> {
    "{\"file_name\":\""@ + name + "\"}"@
}

/// Whether a name can stand in a string as it is, with no escape.
pub open spec fn needs_no_escape(name: Seq<char>) -> bool {
    forall|k: int| 0 <= k < name.len() ==> name[k] != '"' && name[k] != '\\'
}

proof fn lemma_string_close_run(s: Seq<char>, i: int, j: int)
    requires
        0 <= i <= j < s.len(),
        s[j] == '"',
        forall|k: int| i <= k < j ==> s[k] != '"' && s[k] != '\\',
    ensures
        string_close(s, i) == Some(j + 1),
    decreases j - i,
{
    if i < j {
        lemma_string_close_run(s, i + 1, j);
    }
}

proof fn lemma_decode_plain(s: Seq<char>, i: int, to: int)
    requires
        0 <= i <= to <= s.len(),
        forall|k: int| i <= k < to ==> s[k] != '\\',
    ensures
        decode(s, i, to) == Some(s.subrange(i, to)),
    decreases to - i,
{
    if i < to {
        lemma_decode_plain(s, i + 1, to);
        assert(seq![s[i]] + s.subrange(i + 1, to) =~= s.subrange(i, to));
    } else {
        assert(s.subrange(i, to) =~= Seq::<char>::empty());
    }
}

/// A file name written as the `file_name` member of an object, as a subscriber
/// sends it with its audio, is the name read back, for every name that needs
/// no escape.
pub proof fn lemma_file_name_round_trip(name: Seq<char>)
    requires
        needs_no_escape(name),
    ensures
        file_name_of(file_name_object(name)) == Some(name),
{
    reveal_strlit("{\"file_name\":\"");
    reveal_strlit("\"}");
    reveal_strlit("file_name");
    let s = file_name_object(name);
    let n = name.len() as int;
    assert(s.len() == n + 16);
    assert(s[0] == '{' && s[1] == '"' && s[11] == '"' && s[12] == ':' && s[13] == '"');
    assert(s[14 + n] == '"');
    assert(skip_ws(s, 0) == 0);
    assert(skip_ws(s, 1) == 1);
    lemma_string_close_run(s, 2, 11);
    lemma_decode_plain(s, 2, 11);
    assert(skip_ws(s, 12) == 12);
    assert(skip_ws(s, 13) == 13);
    assert forall|k: int| 14 <= k < 14 + n implies s[k] != '"' && s[k] != '\\' by {
        assert(s[k] == name[k - 14]);
    }
    lemma_string_close_run(s, 14, 14 + n);
    assert(s.subrange(2, 11) =~= "file_name"@);
    assert(s.subrange(14, 14 + n) =~= name);
    lemma_decode_plain(s, 14, 14 + n);
}

/// How a JSON writer puts one character into a string: a quote, a backslash
/// and the five control characters with short escapes are escaped; any other
/// character stands as it is.
pub open spec fn escape_char(c: char) -> Seq<char> {
    if c == '"' {
        seq!['\\', '"']
    } else if c == '\\' {
        seq!['\\', '\\']
    } else if c == '\u{8}' {
        seq!['\\', 'b']
    } else if c == '\u{c}' {
        seq!['\\', 'f']
    } else if c == '\n' {
        seq!['\\', 'n']
    } else if c == '\r' {
        seq!['\\', 'r']
    } else if c == '\t' {
        seq!['\\', 't']
    } else {
        seq![c]
    }
}

/// A text as a JSON writer puts it into a string, character by character.
pub open spec fn json_escape(t: Seq<char>) -> Seq<char>
    decreases t.len(),
{
    if t.len() == 0 {
        Seq::empty()
    } else {
        escape_char(t[0]) + json_escape(t.subrange(1, t.len() as int))
    }
}

proof fn lemma_escaped_run(s: Seq<char>, i: int, t: Seq<char>)
    requires
        0 <= i,
        i + json_escape(t).len() < s.len(),
        forall|k: int| 0 <= k < json_escape(t).len() ==> s[i + k] == #[trigger] json_escape(t)[k],
    ensures
        decode(s, i, i + json_escape(t).len()) == Some(t),
        string_close(s, i) == string_close(s, i + json_escape(t).len()),
    decreases t.len(),
{
    let e = json_escape(t);
    let to = i + e.len();
    if t.len() == 0 {
        assert(t =~= Seq::<char>::empty());
    } else {
        let c = t[0];
        let rest = t.subrange(1, t.len() as int);
        let h = escape_char(c);
        let er = json_escape(rest);
        assert(e == h + er);
        assert forall|k: int| 0 <= k < er.len() implies s[i + h.len() + k] == #[trigger] er[k] by {
            assert(e[h.len() + k] == er[k]);
            assert(s[i + (h.len() + k)] == e[h.len() + k]);
        }
        lemma_escaped_run(s, i + h.len(), rest);
        assert(s[i] == e[0] && e[0] == h[0]);
        if h.len() == 2 {
            assert(s[i + 1] == e[1] && e[1] == h[1]);
            assert(unescape(h[1]) == Some(c));
        } else {
            assert(h[0] == c);
        }
        assert(seq![c] + rest =~= t);
    }
}

/// Any file name at all, written into the object that names a file the way a
/// JSON writer escapes it, is the name read back.
pub proof fn lemma_escaped_file_name_round_trip(name: Seq<char>)
    ensures
        file_name_of(file_name_object(json_escape(name))) == Some(name),
{
    reveal_strlit("{\"file_name\":\"");
    reveal_strlit("\"}");
    reveal_strlit("file_name");
    let e = json_escape(name);
    let s = file_name_object(e);
    let n = e.len() as int;
    assert(s.len() == n + 16);
    assert(s[0] == '{' && s[1] == '"' && s[11] == '"' && s[12] == ':' && s[13] == '"');
    assert(s[14 + n] == '"');
    assert(skip_ws(s, 0) == 0);
    assert(skip_ws(s, 1) == 1);
    lemma_string_close_run(s, 2, 11);
    lemma_decode_plain(s, 2, 11);
    assert(s.subrange(2, 11) =~= "file_name"@);
    assert(skip_ws(s, 12) == 12);
    assert(skip_ws(s, 13) == 13);
    assert forall|k: int| 0 <= k < n implies s[14 + k] == #[trigger] e[k] by {
        assert(s[14 + k] == e[k]);
    }
    lemma_escaped_run(s, 14, name);
    assert(string_close(s, 14 + n) == Some(15 + n));
}

/// Whether `w` is a run of JSON whitespace: spaces, tabs, line feeds and
/// carriage returns.
pub open spec fn json_ws_run(w: Seq<char>) -> bool {
    forall|k: int| 0 <= k < w.len() ==> w[k] == ' ' || w[k] == '\t' || w[k] == '\n' || w[k] == '\r'
}

proof fn lemma_skip_ws_run(s: Seq<char>, i: int, j: int)
    requires
        0 <= i <= j < s.len(),
        forall|k: int| i <= k < j ==> s[k] == ' ' || s[k] == '\t' || s[k] == '\n' || s[k] == '\r',
        !is_ws(s[j]),
    ensures
        skip_ws(s, i) == j,
    decreases j - i,
{
    if i < j {
        lemma_skip_ws_run(s, i + 1, j);
    }
}

/// Whether position `i` to `j` of `s` is JSON whitespace.
spec fn ws_between(s: Seq<char>, i: int, j: int) -> bool {
    forall|k: int| i <= k < j ==> s[k] == ' ' || s[k] == '\t' || s[k] == '\n' || s[k] == '\r'
}

/// Reads an object laid out as `{`, key `file_name`, `:`, and a string holding
/// `name` with no escape, each token at the given position and whitespace
/// between them.
proof fn lemma_named_object(s: Seq<char>, a: int, k0: int, c: int, v: int, name: Seq<char>)
    requires
        0 <= a,
        a + 1 <= k0,
        k0 + 11 <= c,
        c + 1 <= v,
        v + name.len() + 1 < s.len(),
        ws_between(s, 0, a),
        ws_between(s, a + 1, k0),
        ws_between(s, k0 + 11, c),
        ws_between(s, c + 1, v),
        s[a] == '{',
        forall|k: int| 0 <= k < 11 ==> s[k0 + k] == #[trigger] "\"file_name\""@[k],
        s[c] == ':',
        s[v] == '"',
        forall|k: int| 0 <= k < name.len() ==> s[v + 1 + k] == #[trigger] name[k],
        s[v + 1 + name.len()] == '"',
        needs_no_escape(name),
    ensures
        file_name_of(s) == Some(name),
{
    reveal_strlit("\"file_name\"");
    reveal_strlit("file_name");
    let n = name.len() as int;
    lemma_skip_ws_run(s, 0, a);
    assert(s[k0] == "\"file_name\""@[0]);
    lemma_skip_ws_run(s, a + 1, k0);
    assert(s[k0 + 10] == "\"file_name\""@[10]);
    assert forall|k: int| k0 + 1 <= k < k0 + 10 implies s[k] != '"' && s[k] != '\\' by {
        assert(s[k0 + (k - k0)] == "\"file_name\""@[k - k0]);
    }
    lemma_string_close_run(s, k0 + 1, k0 + 10);
    lemma_decode_plain(s, k0 + 1, k0 + 10);
    assert forall|k: int| 0 <= k < 9 implies s.subrange(k0 + 1, k0 + 10)[k] == "file_name"@[k] by {
        assert(s[k0 + (k + 1)] == "\"file_name\""@[k + 1]);
    }
    assert(s.subrange(k0 + 1, k0 + 10) =~= "file_name"@);
    lemma_skip_ws_run(s, k0 + 11, c);
    lemma_skip_ws_run(s, c + 1, v);
    assert forall|k: int| v + 1 <= k < v + 1 + n implies s[k] != '"' && s[k] != '\\' by {
        assert(s[v + 1 + (k - v - 1)] == name[k - v - 1]);
    }
    lemma_string_close_run(s, v + 1, v + 1 + n);
    lemma_decode_plain(s, v + 1, v + 1 + n);
    assert forall|k: int| 0 <= k < n implies s.subrange(v + 1, v + 1 + n)[k] == name[k] by {
        assert(s[v + 1 + k] == name[k]);
    }
    assert(s.subrange(v + 1, v + 1 + n) =~= name);
}

/// Whitespace is free around every token of the object that names a file:
/// spread over lines and indented as in `{\n  "file_name": "greeting"\n}`, it
/// still names the same file, for every runs of spaces, tabs, line feeds and
/// carriage returns and every name that needs no escape.
pub proof fn lemma_file_name_with_whitespace(
    w0: Seq<char>,
    w1: Seq<char>,
    w2: Seq<char>,
    w3: Seq<char>,
    w4: Seq<char>,
    name: Seq<char>,
)
    requires
        json_ws_run(w0),
        json_ws_run(w1),
        json_ws_run(w2),
        json_ws_run(w3),
        json_ws_run(w4),
        needs_no_escape(name),
    ensures
        file_name_of(w0 + "{"@ + w1 + "\"file_name\""@ + w2 + ":"@ + w3 + "\""@ + name + "\""@ + w4 + "}"@)
            == Some(name),
{
    reveal_strlit("{");
    reveal_strlit("\"file_name\"");
    reveal_strlit(":");
    reveal_strlit("\"");
    reveal_strlit("}");
    let s1 = w0 + "{"@;
    let s2 = s1 + w1;
    let s3 = s2 + "\"file_name\""@;
    let s4 = s3 + w2;
    let s5 = s4 + ":"@;
    let s6 = s5 + w3;
    let s7 = s6 + "\""@;
    let s8 = s7 + name;
    let s9 = s8 + "\""@;
    let s10 = s9 + w4;
    let s = s10 + "}"@;
    let a = w0.len() as int;
    let k0 = a + 1 + w1.len();
    let c = k0 + 11 + w2.len();
    let v = c + 1 + w3.len();
    let n = name.len() as int;
    assert(s.len() == v + n + 3 + w4.len());
    assert forall|k: int| 0 <= k < s9.len() implies s[k] == s9[k] by {
        assert(s[k] == s10[k]);
    }
    assert forall|k: int| 0 <= k < s7.len() implies s[k] == s7[k] by {
        assert(s[k] == s9[k]);
        assert(s9[k] == s8[k]);
    }
    assert forall|k: int| 0 <= k < s5.len() implies s[k] == s5[k] by {
        assert(s[k] == s7[k]);
        assert(s7[k] == s6[k]);
    }
    assert forall|k: int| 0 <= k < s3.len() implies s[k] == s3[k] by {
        assert(s[k] == s5[k]);
        assert(s5[k] == s4[k]);
    }
    assert forall|k: int| 0 <= k < s1.len() implies s[k] == s1[k] by {
        assert(s[k] == s3[k]);
        assert(s3[k] == s2[k]);
    }
    assert(ws_between(s, 0, a)) by {
        assert forall|k: int| 0 <= k < a implies s[k] == ' ' || s[k] == '\t' || s[k] == '\n' || s[k] == '\r' by {
            assert(s[k] == s1[k]);
        }
    }
    assert(s[a] == s1[a]);
    assert(ws_between(s, a + 1, k0)) by {
        assert forall|k: int| a + 1 <= k < k0 implies s[k] == ' ' || s[k] == '\t' || s[k] == '\n' || s[k] == '\r' by {
            assert(s[k] == s3[k]);
            assert(s3[k] == s2[k]);
            assert(s2[k] == w1[k - a - 1]);
        }
    }
    assert forall|k: int| 0 <= k < 11 implies s[k0 + k] == #[trigger] "\"file_name\""@[k] by {
        assert(s[k0 + k] == s3[k0 + k]);
    }
    assert(ws_between(s, k0 + 11, c)) by {
        assert forall|k: int| k0 + 11 <= k < c implies s[k] == ' ' || s[k] == '\t' || s[k] == '\n' || s[k] == '\r' by {
            assert(s[k] == s5[k]);
            assert(s5[k] == s4[k]);
            assert(s4[k] == w2[k - k0 - 11]);
        }
    }
    assert(s[c] == s5[c]);
    assert(ws_between(s, c + 1, v)) by {
        assert forall|k: int| c + 1 <= k < v implies s[k] == ' ' || s[k] == '\t' || s[k] == '\n' || s[k] == '\r' by {
            assert(s[k] == s7[k]);
            assert(s7[k] == s6[k]);
            assert(s6[k] == w3[k - c - 1]);
        }
    }
    assert(s[v] == s7[v]);
    assert forall|k: int| 0 <= k < n implies s[v + 1 + k] == #[trigger] name[k] by {
        assert(s[v + 1 + k] == s9[v + 1 + k]);
        assert(s9[v + 1 + k] == s8[v + 1 + k]);
    }
    assert(s[v + 1 + n] == s9[v + 1 + n]);
    lemma_named_object(s, a, k0, c, v, name);
}

fn skip_ws_at(s: &str, n: usize, i: usize) -> (r: usize)
    requires
        n == s@.len(),
        i <= n,
    ensures
        r == skip_ws(s@, i as int),
        i <= r <= n,
{
    let mut j = i;
    while j < n && is_ws_char(s.get_char(j))
        invariant
            n == s@.len(),
            i <= j <= n,
            skip_ws(s@, j as int) == skip_ws(s@, i as int),
        decreases n - j,
    {
        j = j + 1;
    }
    proof { lemma_skip_ws_ge(s@, j as int); }
    j
}

fn is_ws_char(c: char) -> (r: bool)
    ensures
        r == is_ws(c),
{
    c == ' ' || c == '\t' || c == '\n' || c == '\r'
}

fn string_close_at(s: &str, n: usize, i: usize) -> (r: Option<usize>)
    requires
        n == s@.len(),
        i <= n,
    ensures
        r matches Some(e) ==> string_close(s@, i as int) == Some(e as int),
        r is None ==> string_close(s@, i as int) is None,
{
    let mut j = i;
    while j < n
        invariant
            n == s@.len(),
            i <= j,
            string_close(s@, j as int) == string_close(s@, i as int),
        decreases n - j,
    {
        let c = s.get_char(j);
        if c == '"' {
            return Some(j + 1);
        } else if c == '\\' {
            if j + 1 >= n {
                return None;
            }
            j = j + 2;
        } else {
            j = j + 1;
        }
    }
    None
}

fn bare_end_at(s: &str, n: usize, i: usize) -> (r: usize)
    requires
        n == s@.len(),
        i <= n,
    ensures
        r == bare_end(s@, i as int),
        i <= r <= n,
{
    let mut j = i;
    while j < n && !is_delimiter_char(s.get_char(j))
        invariant
            n == s@.len(),
            i <= j <= n,
            bare_end(s@, j as int) == bare_end(s@, i as int),
        decreases n - j,
    {
        j = j + 1;
    }
    j
}

fn is_delimiter_char(c: char) -> (r: bool)
    ensures
        r == is_delimiter(c),
{
    is_ws_char(c) || c == ',' || c == '}' || c == ']' || c == '{' || c == '[' || c == '"' || c == ':'
}

fn nested_close_at(s: &str, n: usize, i: usize) -> (r: Option<usize>)
    requires
        n == s@.len(),
        1 <= i <= n,
    ensures
        r matches Some(e) ==> nested_close(s@, i as int, 1) == Some(e as int),
        r is None ==> nested_close(s@, i as int, 1) is None,
{
    let mut j = i;
    let mut depth: usize = 1;
    while j < n
        invariant
            n == s@.len(),
            i <= j,
            1 <= depth <= j,
            nested_close(s@, j as int, depth as nat) == nested_close(s@, i as int, 1),
        decreases n - j,
    {
        let c = s.get_char(j);
        if c == '"' {
            match string_close_at(s, n, j + 1) {
                Some(e) => {
                    proof { lemma_string_close_gt(s@, j + 1); }
                    j = e;
                },
                None => return None,
            }
        } else if c == '{' || c == '[' {
            depth = depth + 1;
            j = j + 1;
        } else if c == '}' || c == ']' {
            if depth <= 1 {
                return Some(j + 1);
            }
            depth = depth - 1;
            j = j + 1;
        } else {
            j = j + 1;
        }
    }
    None
}

fn value_end_at(s: &str, n: usize, i: usize) -> (r: Option<usize>)
    requires
        n == s@.len(),
        i <= n,
    ensures
        r matches Some(e) ==> value_end(s@, i as int) == Some(e as int),
        r is None ==> value_end(s@, i as int) is None,
{
    if i < n && s.get_char(i) == '"' {
        string_close_at(s, n, i + 1)
    } else if i < n && (s.get_char(i) == '{' || s.get_char(i) == '[') {
        nested_close_at(s, n, i + 1)
    } else {
        let e = bare_end_at(s, n, i);
        if e > i {
            Some(e)
        } else {
            None
        }
    }
}

/// std's `char::from_u32`: the character whose scalar value is `code`;
/// `None` exactly for a surrogate or a value above U+10FFFF.
#[verifier::external_body]
fn char_from_code(code: u32) -> (r: Option<char>)
    ensures
        r is Some == (code < 0xD800 || (0xDFFF < code && code <= 0x10FFFF)),
        r matches Some(c) ==> code_of(c) == code as int,
{
    char::from_u32(code)
}

/// std's `String::push`: appends one character.
#[verifier::external_body]
fn push_char(s: &mut String, c: char)
    ensures
        final(s)@ == old(s)@.push(c),
{
    s.push(c)
}

/// The character an escape stands for (see `unescape`).
fn unescape_char(c: char) -> (r: Option<char>)
    ensures
        r == unescape(c),
{
    if c == '"' || c == '\\' || c == '/' {
        Some(c)
    } else if c == 'b' {
        Some('\u{8}')
    } else if c == 'f' {
        Some('\u{c}')
    } else if c == 'n' {
        Some('\n')
    } else if c == 'r' {
        Some('\r')
    } else if c == 't' {
        Some('\t')
    } else {
        None
    }
}

fn hex_digit_of(c: char) -> (r: Option<u32>)
    ensures
        r matches Some(v) ==> hex_digit(c) == Some(v as int) && v < 16,
        r is None ==> hex_digit(c) is None,
{
    if '0' <= c && c <= '9' {
        Some(c as u32 - '0' as u32)
    } else if 'a' <= c && c <= 'f' {
        Some(c as u32 - 'a' as u32 + 10)
    } else if 'A' <= c && c <= 'F' {
        Some(c as u32 - 'A' as u32 + 10)
    } else {
        None
    }
}

fn hex4_at(s: &str, i: usize, to: usize) -> (r: Option<u32>)
    requires
        to <= s@.len(),
    ensures
        r matches Some(v) ==> hex4(s@, i as int, to as int) == Some(v as int) && v < 0x10000,
        r is None ==> hex4(s@, i as int, to as int) is None,
{
    if i > to || to - i < 4 {
        return None;
    }
    let a = match hex_digit_of(s.get_char(i)) { Some(a) => a, None => return None };
    let b = match hex_digit_of(s.get_char(i + 1)) { Some(b) => b, None => return None };
    let c = match hex_digit_of(s.get_char(i + 2)) { Some(c) => c, None => return None };
    let d = match hex_digit_of(s.get_char(i + 3)) { Some(d) => d, None => return None };
    Some(a * 4096 + b * 256 + c * 16 + d)
}

/// The character of the scalar value `code`, known to be one.
fn char_at_code(code: u32) -> (c: char)
    requires
        code < 0xD800 || (0xDFFF < code && code <= 0x10FFFF),
    ensures
        c == char_of(code as int),
{
    match char_from_code(code) {
        Some(c) => {
            proof {
                assert(code_of(c) == code as int);
                let w = char_of(code as int);
                assert(code_of(w) == code as int);
            }
            c
        },
        None => '\0',
    }
}

/// The `\u` escape at `i` (see `unicode_escape`).
fn unicode_escape_at(s: &str, i: usize, to: usize) -> (r: Option<(char, bool)>)
    requires
        i < to <= s@.len(),
    ensures
        r == unicode_escape(s@, i as int, to as int),
{
    if to - i < 6 {
        return None;
    }
    let h = match hex4_at(s, i + 2, to) { Some(h) => h, None => return None };
    if 0xD800 <= h && h <= 0xDBFF {
        if to - i >= 8 && s.get_char(i + 6) == '\\' && s.get_char(i + 7) == 'u' {
            let l = match hex4_at(s, i + 8, to) { Some(l) => l, None => return None };
            if 0xDC00 <= l && l <= 0xDFFF {
                let code = 0x10000 + (h - 0xD800) * 1024 + (l - 0xDC00);
                Some((char_at_code(code), true))
            } else {
                None
            }
        } else {
            None
        }
    } else if 0xDC00 <= h && h <= 0xDFFF {
        None
    } else {
        Some((char_at_code(h), false))
    }
}

/// The decoded text of the raw string contents `s[from..to]` (see `decode`).
fn decode_at(s: &str, from: usize, to: usize) -> (r: Option<String>)
    requires
        from <= to <= s@.len(),
    ensures
        r matches Some(t) ==> decode(s@, from as int, to as int) == Some(t@),
        r is None ==> decode(s@, from as int, to as int) is None,
{
    let mut out = String::new();
    let mut j = from;
    while j < to
        invariant
            from <= j <= to <= s@.len(),
            decode(s@, from as int, to as int) == match decode(s@, j as int, to as int) {
                Some(r) => Some(out@ + r),
                None => None,
            },
        decreases to - j,
    {
        let c = s.get_char(j);
        let ghost old_out = out@;
        let ghost old_j = j;
        if c == '\\' {
            if to - j < 2 {
                return None;
            }
            if s.get_char(j + 1) == 'u' {
                let (d, pair) = match unicode_escape_at(s, j, to) { Some(e) => e, None => return None };
                push_char(&mut out, d);
                j = if pair { j + 12 } else { j + 6 };
                proof {
                    assert(j <= to) by {
                        if pair {
                            assert(hex4(s@, old_j + 8, to as int) is Some);
                        } else {
                            assert(hex4(s@, old_j + 2, to as int) is Some);
                        }
                    }
                }
            } else {
                let d = match unescape_char(s.get_char(j + 1)) { Some(d) => d, None => return None };
                push_char(&mut out, d);
                j = j + 2;
            }
        } else {
            push_char(&mut out, c);
            j = j + 1;
        }
        proof {
            assert forall|r: Seq<char>| old_out + (seq![out@.last()] + r) == out@ + r by {
                assert(old_out + (seq![out@.last()] + r) =~= out@ + r);
            }
        }
    }
    proof {
        assert(out@ + Seq::<char>::empty() =~= out@);
    }
    Some(out)
}

/// The text of the first member named `key` of the object whose members start
/// at `i` (see `member_string`).
fn member_string_at(s: &str, n: usize, from: usize, key: &str) -> (r: Option<String>)
    requires
        n == s@.len(),
        from <= n,
    ensures
        r matches Some(t) ==> member_string(s@, from as int, key@) == Some(t@),
        r is None ==> member_string(s@, from as int, key@) is None,
{
    let mut i = from;
    loop
        invariant
            n == s@.len(),
            i <= n,
            member_string(s@, i as int, key@) == member_string(s@, from as int, key@),
        decreases n - i,
    {
        if !(i < n && s.get_char(i) == '"') {
            return None;
        }
        let ke = match string_close_at(s, n, i + 1) {
            Some(ke) => ke,
            None => return None,
        };
        proof { lemma_string_close_gt(s@, i + 1); }
        let c = skip_ws_at(s, n, ke);
        if !(c < n && s.get_char(c) == ':') {
            return None;
        }
        let v = skip_ws_at(s, n, c + 1);
        let ve = match value_end_at(s, n, v) {
            Some(ve) => ve,
            None => return None,
        };
        proof {
            lemma_value_end_gt(s@, v as int);
            lemma_string_close_gt(s@, v + 1);
        }
        let named = match decode_at(s, i + 1, ke - 1) {
            Some(name) => str_eq(name.as_str(), key),
            None => false,
        };
        if named {
            if s.get_char(v) == '"' {
                return decode_at(s, v + 1, ve - 1);
            } else {
                return None;
            }
        }
        let nx = skip_ws_at(s, n, ve);
        if !(nx < n && s.get_char(nx) == ',') {
            return None;
        }
        i = skip_ws_at(s, n, nx + 1);
    }
}

/// The file name an audio response's data gives (see `file_name_of`).
pub fn file_name_from(data: &str) -> (r: Option<String>)
    ensures
        r matches Some(t) ==> file_name_of(data@) == Some(t@),
        r is None ==> file_name_of(data@) is None,
{
    let n = data.unicode_len();
    let i = skip_ws_at(data, n, 0);
    if !(i < n && data.get_char(i) == '{') {
        return None;
    }
    let j = skip_ws_at(data, n, i + 1);
    member_string_at(data, n, j, "file_name")
}

} // verus!
