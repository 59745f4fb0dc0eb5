//! The native capability surface as far as it is plain data: which
//! capabilities exist, clipboard selections, request methods and the error
//! values that capabilities raise into scripts.
use vstd::prelude::*;

use crate::avmod::InternalApi;
use crate::text::{same_text, split, split_on, strings_view};

verus! {

/// The root of the capability API exposed to scripts.
pub struct AvdanAPI {}

impl AvdanAPI {
    /// The capabilities that scripts can import, in registration order.
    pub fn public_apis() -> (r: Vec<InternalApi>)
        ensures
            r@ == seq![InternalApi::Debug, InternalApi::Shell, InternalApi::Net],
    {
        let mut r: Vec<InternalApi> = Vec::new();
        r.push(InternalApi::Debug);
        r.push(InternalApi::Shell);
        r.push(InternalApi::Net);
        assert(r@ =~= seq![InternalApi::Debug, InternalApi::Shell, InternalApi::Net]);
        r
    }
}

/// The clipboard capability.
pub struct AvClipboard {}

/// The network capability.
pub struct AvNet {}

/// The `fetch` entry point of the network capability.
pub struct Fetch {}

/// The shell capability.
pub struct AvShell {}

/// The file capability.
pub struct AvFile {}

impl AvFile {
    pub fn new() -> (r: AvFile) {
        AvFile {  }
    }
}

/// An X selection that the clipboard capability reads and writes.
#[derive(Clone, Copy, PartialEq, Eq, Structural, Debug)]
pub enum ClipSource {
    PRIMARY,
    SECONDARY,
    CLIPBOARD,
}

pub open spec fn selection_name(s: ClipSource) -> Seq<char> {
    match s {
        ClipSource::PRIMARY => seq!['p', 'r', 'i', 'm', 'a', 'r', 'y'],
        ClipSource::SECONDARY => seq!['s', 'e', 'c', 'o', 'n', 'd', 'a', 'r', 'y'],
        ClipSource::CLIPBOARD => seq!['c', 'l', 'i', 'p', 'b', 'o', 'a', 'r', 'd'],
    }
}

/// The selection named `name`, if any.
pub open spec fn selection_named(name: Seq<char>) -> Option<ClipSource> {
    if name == selection_name(ClipSource::CLIPBOARD) {
        Some(ClipSource::CLIPBOARD)
    } else if name == selection_name(ClipSource::PRIMARY) {
        Some(ClipSource::PRIMARY)
    } else if name == selection_name(ClipSource::SECONDARY) {
        Some(ClipSource::SECONDARY)
    } else {
        None
    }
}

impl ClipSource {
    /// The selection's name, as the clipboard tool spells it.
    pub fn name(&self) -> (r: &'static str)
        ensures
            r@ == selection_name(*self),
    {
        proof {
            reveal_strlit("primary");
            reveal_strlit("secondary");
            reveal_strlit("clipboard");
        }
        let r = match self {
            ClipSource::PRIMARY => "primary",
            ClipSource::SECONDARY => "secondary",
            ClipSource::CLIPBOARD => "clipboard",
        };
        assert(r@ =~= selection_name(*self));
        r
    }

    /// The selection with this name.
    pub fn from(str: String) -> (r: Option<ClipSource>)
        ensures
            r == selection_named(str@),
    {
        let s = str.as_str();
        let clipboard = ClipSource::CLIPBOARD.name();
        let primary = ClipSource::PRIMARY.name();
        let secondary = ClipSource::SECONDARY.name();
        if same_text(s, clipboard) {
            Some(ClipSource::CLIPBOARD)
        } else if same_text(s, primary) {
            Some(ClipSource::PRIMARY)
        } else if same_text(s, secondary) {
            Some(ClipSource::SECONDARY)
        } else {
            None
        }
    }

    /// The selection that `Clipboard.source(name)` switches to: the named
    /// one, or the clipboard for any other name.
    pub fn from_selector(name: &str) -> (r: ClipSource)
        ensures
            r == match selection_named(name@) {
                Some(s) => s,
                None => ClipSource::CLIPBOARD,
            },
    {
        match ClipSource::from(String::from_str(name)) {
            Some(s) => s,
            None => ClipSource::CLIPBOARD,
        }
    }
}

/// A line without the `\r` of a `\r\n` ending.
pub open spec fn strip_cr(line: Seq<char>) -> Seq<char> {
    if line.len() > 0 && line.last() == '\r' {
        line.drop_last()
    } else {
        line
    }
}

/// The lines of a tool's output: split at `\n`, each without a trailing
/// `\r`, and no empty line after a final `\n`.
pub open spec fn output_lines(s: Seq<char>) -> Seq<Seq<char>> {
    let parts = split_on(s, '\n');
    let kept = if parts.last().len() == 0 {
        parts.drop_last()
    } else {
        parts
    };
    kept.map_values(|l: Seq<char>| strip_cr(l))
}

/// The lines after the first one equal to `marker`; none without it.
pub open spec fn lines_after(lines: Seq<Seq<char>>, marker: Seq<char>) -> Seq<Seq<char>>
    decreases lines.len(),
{
    if lines.len() == 0 {
        Seq::empty()
    } else if lines[0] == marker {
        lines.skip(1)
    } else {
        lines_after(lines.skip(1), marker)
    }
}

pub open spec fn multiple_marker() -> Seq<char> {
    seq!['M', 'U', 'L', 'T', 'I', 'P', 'L', 'E']
}

fn without_cr(line: &String) -> (r: String)
    ensures
        r@ == strip_cr(line@),
{
    let s = line.as_str();
    let n = s.unicode_len();
    if n > 0 && s.get_char(n - 1) == '\r' {
        String::from_str(s.substring_char(0, n - 1))
    } else {
        line.clone()
    }
}

impl AvClipboard {
    /// The formats that a selection offers, read from the output of a
    /// `TARGETS` query: the lines after the `MULTIPLE` line.
    pub fn formats_from_targets(output: &str) -> (r: Vec<String>)
        ensures
            strings_view(r@) == lines_after(output_lines(output@), multiple_marker()),
    {
        let parts = split(output, '\n');
        let ghost pv = strings_view(parts@);
        proof {
            crate::text::lemma_split_nonempty(output@, '\n');
        }
        let n = parts.len();
        let count = if parts[n - 1].as_str().unicode_len() == 0 {
            n - 1
        } else {
            n
        };
        assert(pv[n - 1] == parts@[n - 1]@);
        let ghost kept = if pv.last().len() == 0 {
            pv.drop_last()
        } else {
            pv
        };
        let ghost lines = output_lines(output@);
        assert(kept.len() == count);
        assert(lines.len() == count);
        proof {
            reveal_strlit("MULTIPLE");
        }
        let marker = String::from_str("MULTIPLE");
        assert(marker@ =~= multiple_marker());
        let mut i: usize = 0;
        let mut found = false;
        assert(lines.skip(0) =~= lines);
        while i < count && !found
            invariant
                found ==> i < count && lines[i as int] == multiple_marker(),
                count <= n,
                n == parts.len(),
                pv == strings_view(parts@),
                lines == output_lines(output@),
                lines.len() == count,
                kept.len() == count,
                forall|j: int| 0 <= j < count ==> #[trigger] lines[j] == strip_cr(parts@[j]@),
                marker@ == multiple_marker(),
                i <= count,
                lines_after(lines, multiple_marker()) == lines_after(lines.skip(i as int), multiple_marker()),
            decreases count - i + if found {
                0int
            } else {
                1int
            },
        {
            let line = without_cr(&parts[i]);
            if line == marker {
                found = true;
            } else {
                assert(lines.skip(i as int).skip(1) =~= lines.skip(i + 1));
                i = i + 1;
            }
        }
        let mut r: Vec<String> = Vec::new();
        if !found {
            assert(lines.skip(i as int) =~= Seq::<Seq<char>>::empty());
            return r;
        }
        assert(lines.skip(i as int)[0] == multiple_marker());
        let mut k: usize = i + 1;
        assert(lines.skip(i as int).skip(1) =~= lines.skip(i + 1));
        while k < count
            invariant
                i < count,
                count <= n,
                n == parts.len(),
                lines.len() == count,
                forall|j: int| 0 <= j < count ==> #[trigger] lines[j] == strip_cr(parts@[j]@),
                i + 1 <= k <= count,
                strings_view(r@) == lines.subrange(i + 1, k as int),
            decreases count - k,
        {
            let line = without_cr(&parts[k]);
            proof {
                assert(strings_view(r@.push(line)) =~= strings_view(r@).push(line@));
                assert(lines.subrange(i + 1, k + 1) =~= lines.subrange(i + 1, k as int).push(lines[k as int]));
            }
            r.push(line);
            k = k + 1;
        }
        assert(lines.subrange(i + 1, count as int) =~= lines.skip(i + 1));
        r
    }
}

/// An error value raised into a script: a short code and a description.
pub struct Error {
    message: String,
    code: String,
}

pub open spec fn error_text(code: Seq<char>, message: Seq<char>) -> Seq<char> {
    seq!['#'] + code + seq![' ', '-', ' '] + message
}

impl Error {
    pub closed spec fn code_view(&self) -> Seq<char> {
        self.code@
    }

    pub closed spec fn message_view(&self) -> Seq<char> {
        self.message@
    }

    pub fn new(code: String, message: String) -> (r: Error)
        ensures
            r.code_view() == code@,
            r.message_view() == message@,
    {
        Error { code, message }
    }

    pub fn str(code: &str, message: &str) -> (r: Error)
        ensures
            r.code_view() == code@,
            r.message_view() == message@,
    {
        Error { code: String::from_str(code), message: String::from_str(message) }
    }

    pub fn code(&self) -> (r: &String)
        ensures
            r@ == self.code_view(),
    {
        &self.code
    }

    /// The text of the raised error: `#<code> - <message>`.
    pub fn text(&self) -> (r: String)
        ensures
            r@ == error_text(self.code_view(), self.message_view()),
    {
        proof {
            reveal_strlit("#");
            reveal_strlit(" - ");
        }
        let mut r = String::from_str("#");
        r.append(self.code.as_str());
        r.append(" - ");
        r.append(self.message.as_str());
        assert(r@ =~= error_text(self.code_view(), self.message_view()));
        r
    }
}

/// A shell command line, as handed to the shell capability.
pub struct ShellObj {
    args: Vec<String>,
}

impl ShellObj {
    /// The command and its arguments, in order.
    pub closed spec fn args(&self) -> Seq<Seq<char>> {
        strings_view(self.args@)
    }

    pub fn new(args: Vec<String>) -> (r: ShellObj)
        ensures
            r.args() == strings_view(args@),
    {
        ShellObj { args }
    }

    /// Running commands is not supported yet: every command fails.
    pub fn execute(&self) -> (r: Result<(), ()>)
        ensures
            r is Err,
    {
        Err(())
    }
}

/// The request methods of `fetch`.
#[derive(Clone, Copy, PartialEq, Eq, Structural, Debug)]
pub enum Method {
    GET,
    HEAD,
    POST,
    PUT,
    DELETE,
    CONNECT,
    OPTIONS,
    TRACE,
    PATCH,
}

/// What `str::to_lowercase` makes of a text.
pub uninterp spec fn lowercase_of(s: Seq<char>) -> Seq<char>;

/// Relies on `str::to_lowercase`: the result depends on the characters alone.
#[verifier::external_body]
fn lowercase(s: &str) -> (r: String)
    ensures
        r@ == lowercase_of(s@),
{
    s.to_lowercase()
}

/// The method named by an already lower-cased name; `GET` for any name that
/// is not a method.
pub open spec fn method_named(name: Seq<char>) -> Method {
    if name == seq!['h', 'e', 'a', 'd'] {
        Method::HEAD
    } else if name == seq!['p', 'o', 's', 't'] {
        Method::POST
    } else if name == seq!['p', 'u', 't'] {
        Method::PUT
    } else if name == seq!['d', 'e', 'l', 'e', 't', 'e'] {
        Method::DELETE
    } else if name == seq!['c', 'o', 'n', 'n', 'e', 'c', 't'] {
        Method::CONNECT
    } else if name == seq!['o', 'p', 't', 'i', 'o', 'n', 's'] {
        Method::OPTIONS
    } else if name == seq!['t', 'r', 'a', 'c', 'e'] {
        Method::TRACE
    } else if name == seq!['p', 'a', 't', 'c', 'h'] {
        Method::PATCH
    } else {
        Method::GET
    }
}

impl Method {
    /// The method named by `name`, which is already in lower case.
    pub fn from_lowercase(name: &str) -> (r: Method)
        ensures
            r == method_named(name@),
    {
        proof {
            reveal_strlit("head");
            reveal_strlit("post");
            reveal_strlit("put");
            reveal_strlit("delete");
            reveal_strlit("connect");
            reveal_strlit("options");
            reveal_strlit("trace");
            reveal_strlit("patch");
            assert("head"@ =~= seq!['h', 'e', 'a', 'd']);
            assert("post"@ =~= seq!['p', 'o', 's', 't']);
            assert("put"@ =~= seq!['p', 'u', 't']);
            assert("delete"@ =~= seq!['d', 'e', 'l', 'e', 't', 'e']);
            assert("connect"@ =~= seq!['c', 'o', 'n', 'n', 'e', 'c', 't']);
            assert("options"@ =~= seq!['o', 'p', 't', 'i', 'o', 'n', 's']);
            assert("trace"@ =~= seq!['t', 'r', 'a', 'c', 'e']);
            assert("patch"@ =~= seq!['p', 'a', 't', 'c', 'h']);
        }
        if same_text(name, "head") {
            Method::HEAD
        } else if same_text(name, "post") {
            Method::POST
        } else if same_text(name, "put") {
            Method::PUT
        } else if same_text(name, "delete") {
            Method::DELETE
        } else if same_text(name, "connect") {
            Method::CONNECT
        } else if same_text(name, "options") {
            Method::OPTIONS
        } else if same_text(name, "trace") {
            Method::TRACE
        } else if same_text(name, "patch") {
            Method::PATCH
        } else {
            Method::GET
        }
    }

    /// The method named by `s` in any letter case; `GET` when `s` names none.
    pub fn from_name(s: &str) -> (r: Method)
        ensures
            r == method_named(lowercase_of(s@)),
    {
        let lower = lowercase(s);
        Method::from_lowercase(lower.as_str())
    }
}

} // verus!
