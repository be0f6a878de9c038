//! What the prompt says: the marker, the shortened directory, the colour
//! codes around each character, and the layout of the whole.
//!
//! Who the user is, where the shell stands, what time it is and which colour
//! a character gets are found out by the program around the library.

use crate::text::{chars_of, same_text};
use vstd::prelude::*;

verus! {

/// The glyphs that the marker of an ordinary user is picked from.
pub open spec fn glyphs() -> Seq<Seq<char>> {
    seq![
        "😀"@,
        "😃"@,
        "😅"@,
        "🥲"@,
        "🤯"@,
        "😝"@,
        "😚"@,
        "🤥"@,
        "💩"@,
        "🤡"@,
        "🥱"@,
        "😔"@,
        "🥳"@,
        "🤪"@,
        "🥰"@,
        "😇"@,
    ]
}

/// The glyphs to pick from, in their order.
pub fn prompt_glyphs() -> (r: Vec<String>)
    ensures
        r.deep_view() == glyphs(),
{
    let mut list: Vec<String> = Vec::new();
    list.push("😀".to_owned());
    list.push("😃".to_owned());
    list.push("😅".to_owned());
    list.push("🥲".to_owned());
    list.push("🤯".to_owned());
    list.push("😝".to_owned());
    list.push("😚".to_owned());
    list.push("🤥".to_owned());
    list.push("💩".to_owned());
    list.push("🤡".to_owned());
    list.push("🥱".to_owned());
    list.push("😔".to_owned());
    list.push("🥳".to_owned());
    list.push("🤪".to_owned());
    list.push("🥰".to_owned());
    list.push("😇".to_owned());
    assert(list.deep_view() =~= glyphs());
    list
}

/// The marker at the end of the prompt: a rocket and `#` for root, for
/// anybody else the glyph and `$`.
pub open spec fn marker_text(username: Seq<char>, glyph: Seq<char>) -> Seq<char> {
    if username == "root"@ {
        "\u{1F680} #"@
    } else {
        glyph + " $"@
    }
}

/// Builds the marker for a user.
pub fn prompt_marker(username: &str, glyph: &str) -> (r: String)
    ensures
        r@ == marker_text(username@, glyph@),
{
    if same_text(username, "root") {
        "\u{1F680} #".to_owned()
    } else {
        let mut marker = glyph.to_owned();
        marker.append(" $");
        marker
    }
}

/// The user's name, `@`, and the host's name; a host without a name is
/// called `unknown_hostname`.
pub fn user_at_host(username: &str, hostname: Option<String>) -> (r: String)
    ensures
        r@ == username@ + "@"@ + match hostname {
            Some(name) => name@,
            None => "unknown_hostname"@,
        },
{
    let mut text = username.to_owned();
    text.append("@");
    match hostname {
        Some(name) => text.append(name.as_str()),
        None => text.append("unknown_hostname"),
    }
    text
}

/// `pattern` stands at the start of `s`.
pub open spec fn starts_with(s: Seq<char>, pattern: Seq<char>) -> bool {
    pattern.len() <= s.len() && s.take(pattern.len() as int) == pattern
}

/// `s` with every occurrence of `pattern` replaced by `with`. Occurrences are
/// found from the left and do not overlap. The empty pattern occurs before
/// every character and at the end.
pub open spec fn replaced(s: Seq<char>, pattern: Seq<char>, with: Seq<char>) -> Seq<char>
    decreases s.len(),
{
    if pattern.len() == 0 {
        if s.len() == 0 {
            with
        } else {
            with + seq![s[0]] + replaced(s.skip(1), pattern, with)
        }
    } else if s.len() == 0 {
        s
    } else if starts_with(s, pattern) {
        with + replaced(s.skip(pattern.len() as int), pattern, with)
    } else {
        seq![s[0]] + replaced(s.skip(1), pattern, with)
    }
}

/// Tells whether `pattern` stands in `chars` at index `at`.
fn matches_at(chars: &Vec<char>, at: usize, pattern: &Vec<char>) -> (r: bool)
    requires
        at <= chars.len(),
    ensures
        r == starts_with(chars@.skip(at as int), pattern@),
{
    if pattern.len() > chars.len() - at {
        return false;
    }
    let ghost rest = chars@.skip(at as int);
    let mut j: usize = 0;
    while j < pattern.len()
        invariant
            j <= pattern.len() <= chars.len() - at,
            rest == chars@.skip(at as int),
            rest.take(j as int) == pattern@.take(j as int),
        decreases pattern.len() - j,
    {
        if chars[at + j] != pattern[j] {
            assert(rest.take(pattern.len() as int)[j as int] != pattern@[j as int]);
            return false;
        }
        assert(rest.take(j + 1) =~= rest.take(j as int).push(rest[j as int]));
        assert(pattern@.take(j + 1) =~= pattern@.take(j as int).push(pattern@[j as int]));
        j += 1;
    }
    assert(pattern@.take(pattern.len() as int) =~= pattern@);
    true
}

/// Replaces every occurrence of `pattern` in `text` by `with`.
pub fn replace_all(text: &str, pattern: &str, with: &str) -> (r: String)
    ensures
        r@ == replaced(text@, pattern@, with@),
{
    let chars = chars_of(text);
    let wanted = chars_of(pattern);
    let mut out = String::new();
    let mut at: usize = 0;
    assert(chars@.skip(0) =~= chars@);
    assert(out@ + replaced(chars@, wanted@, with@) =~= replaced(chars@, wanted@, with@));
    while at < chars.len()
        invariant
            at <= chars.len(),
            chars@ == text@,
            wanted@ == pattern@,
            replaced(text@, pattern@, with@) == out@ + replaced(
                chars@.skip(at as int),
                pattern@,
                with@,
            ),
        decreases chars.len() - at,
    {
        let ghost rest = chars@.skip(at as int);
        let ghost before = out@;
        assert(rest[0] == chars@[at as int]);
        if wanted.len() == 0 {
            out.append(with);
            out.push(chars[at]);
            assert(rest.skip(1) =~= chars@.skip(at + 1));
            assert(out@ =~= before + (with@ + seq![rest[0]]));
            assert(before + (with@ + seq![rest[0]] + replaced(rest.skip(1), pattern@, with@))
                =~= out@ + replaced(rest.skip(1), pattern@, with@));
            at += 1;
        } else if matches_at(&chars, at, &wanted) {
            out.append(with);
            assert(rest.skip(wanted.len() as int) =~= chars@.skip(at + wanted.len()));
            assert(before + (with@ + replaced(rest.skip(wanted.len() as int), pattern@, with@))
                =~= out@ + replaced(rest.skip(wanted.len() as int), pattern@, with@));
            at += wanted.len();
        } else {
            out.push(chars[at]);
            assert(rest.skip(1) =~= chars@.skip(at + 1));
            assert(out@ =~= before + seq![rest[0]]);
            assert(before + (seq![rest[0]] + replaced(rest.skip(1), pattern@, with@)) =~= out@
                + replaced(rest.skip(1), pattern@, with@));
            at += 1;
        }
    }
    proof {
        assert(chars@.skip(at as int) =~= Seq::<char>::empty());
    }
    if wanted.len() == 0 {
        let ghost before = out@;
        out.append(with);
        assert(replaced(Seq::<char>::empty(), pattern@, with@) == with@);
    } else {
        assert(replaced(Seq::<char>::empty(), pattern@, with@) =~= Seq::<char>::empty());
        assert(out@ + Seq::<char>::empty() =~= out@);
    }
    out
}

/// The directory as the prompt shows it: with the home directory, where it
/// is known, written as `~`.
pub fn display_dir(current: &str, home: Option<String>) -> (r: String)
    ensures
        r@ == match home {
            Some(dir) => replaced(current@, dir@, "~"@),
            None => current@,
        },
{
    match home {
        Some(dir) => replace_all(current, dir.as_str(), "~"),
        None => current.to_owned(),
    }
}

/// The prompt: who and where, the directory and the time on one line, the
/// marker and a space on the next.
pub fn prompt_text(user: &str, dir: &str, time: &str, marker: &str) -> (r: String)
    ensures
        r@ == user@ + " "@ + dir@ + " ["@ + time@ + "]\n"@ + marker@ + " "@,
{
    let mut text = user.to_owned();
    text.append(" ");
    text.append(dir);
    text.append(" [");
    text.append(time);
    text.append("]\n");
    text.append(marker);
    text.append(" ");
    text
}

/// A colour, by its red, green and blue parts.
#[derive(Debug, Clone, Copy, PartialEq, Eq, Structural)]
pub struct Rgb {
    pub red: u8,
    pub green: u8,
    pub blue: u8,
}

/// The decimal digit for a number below ten.
pub open spec fn digit(d: int) -> char {
    if d == 0 {
        '0'
    } else if d == 1 {
        '1'
    } else if d == 2 {
        '2'
    } else if d == 3 {
        '3'
    } else if d == 4 {
        '4'
    } else if d == 5 {
        '5'
    } else if d == 6 {
        '6'
    } else if d == 7 {
        '7'
    } else if d == 8 {
        '8'
    } else {
        '9'
    }
}

/// A natural number in decimal, without leading zeros.
pub open spec fn decimal(n: nat) -> Seq<char>
    decreases n,
{
    if n < 10 {
        seq![digit(n as int)]
    } else {
        decimal(n / 10).push(digit((n % 10) as int))
    }
}

/// The digit for `d`.
fn digit_of(d: u8) -> (r: char)
    requires
        d < 10,
    ensures
        r == digit(d as int),
{
    if d == 0 {
        '0'
    } else if d == 1 {
        '1'
    } else if d == 2 {
        '2'
    } else if d == 3 {
        '3'
    } else if d == 4 {
        '4'
    } else if d == 5 {
        '5'
    } else if d == 6 {
        '6'
    } else if d == 7 {
        '7'
    } else if d == 8 {
        '8'
    } else {
        '9'
    }
}

/// Appends `n` in decimal to `out`.
fn push_decimal(out: &mut String, n: u8)
    ensures
        final(out)@ == old(out)@ + decimal(n as nat),
{
    let ghost before = out@;
    if n >= 100 {
        out.push(digit_of(n / 100));
        out.push(digit_of((n / 10) % 10));
        out.push(digit_of(n % 10));
        proof {
            let tens = (n / 10) as nat;
            assert(decimal(tens / 10) =~= seq![digit((n / 100) as int)]);
            assert(decimal(tens) =~= seq![digit((n / 100) as int), digit(((n / 10) % 10) as int)]);
            assert(out@ =~= before + decimal(n as nat));
        }
    } else if n >= 10 {
        out.push(digit_of(n / 10));
        out.push(digit_of(n % 10));
        proof {
            assert(decimal((n / 10) as nat) =~= seq![digit((n / 10) as int)]);
            assert(out@ =~= before + decimal(n as nat));
        }
    } else {
        out.push(digit_of(n));
        assert(out@ =~= before + decimal(n as nat));
    }
}

/// The escape sequence that sets the foreground to a 24-bit colour.
pub open spec fn colour_code(colour: Rgb) -> Seq<char> {
    "\x1b[38;2;"@ + decimal(colour.red as nat) + ";"@ + decimal(colour.green as nat) + ";"@
        + decimal(colour.blue as nat) + "m"@
}

/// A character in a colour: the colour's escape sequence, set between the
/// marks that tell a line editor that it takes no room, and the character.
pub open spec fn painted_char(c: char, colour: Rgb) -> Seq<char> {
    "\x01"@ + colour_code(colour) + "\x02"@ + seq![c]
}

/// Each of the first `n` characters of `text` in its colour.
pub open spec fn painted_prefix(text: Seq<char>, colours: Seq<Rgb>, n: nat) -> Seq<char>
    decreases n,
{
    if n == 0 {
        Seq::empty()
    } else {
        painted_prefix(text, colours, (n - 1) as nat) + painted_char(
            text[n - 1],
            colours[n - 1],
        )
    }
}

/// A text in colours: each character in its own, and at the end the
/// sequence that resets the colour. The empty text stays empty.
pub open spec fn painted(text: Seq<char>, colours: Seq<Rgb>) -> Seq<char> {
    if text.len() == 0 {
        text
    } else {
        painted_prefix(text, colours, text.len()) + "\x01\x1b[0m\x02"@
    }
}

/// Writes the escape sequence for a colour.
fn colour_escape(colour: Rgb) -> (r: String)
    ensures
        r@ == colour_code(colour),
{
    let mut code = "\x1b[38;2;".to_owned();
    push_decimal(&mut code, colour.red);
    code.append(";");
    push_decimal(&mut code, colour.green);
    code.append(";");
    push_decimal(&mut code, colour.blue);
    code.append("m");
    code
}

/// Appends a character in its colour to `out`.
fn push_painted(out: &mut String, c: char, colour: Rgb)
    ensures
        final(out)@ == old(out)@ + painted_char(c, colour),
{
    let ghost before = out@;
    let code = colour_escape(colour);
    out.append("\x01");
    out.append(code.as_str());
    out.append("\x02");
    out.push(c);
    assert(out@ =~= before + painted_char(c, colour));
}

/// Colours `text`, the character at each place with the colour at that
/// place. There must be as many colours as characters: else the answer is `None`.
pub fn paint(text: &str, colours: &Vec<Rgb>) -> (r: Option<String>)
    ensures
        r is Some <==> colours.len() == text@.len(),
        r matches Some(coloured) ==> coloured@ == painted(text@, colours@),
{
    let chars = chars_of(text);
    if chars.len() != colours.len() {
        return None;
    }
    let mut out = String::new();
    if chars.len() == 0 {
        return Some(out);
    }
    let mut i: usize = 0;
    while i < chars.len()
        invariant
            i <= chars.len() == colours.len(),
            chars@ == text@,
            out@ == painted_prefix(text@, colours@, i as nat),
        decreases chars.len() - i,
    {
        push_painted(&mut out, chars[i], colours[i]);
        i += 1;
    }
    out.append("\x01\x1b[0m\x02");
    Some(out)
}

} // verus!
