//! Small text rules used around the relay: quoting for the local speech
//! command, names of remote tools, image types, the built-in prompts and the
//! address of the transcription service.

use crate::text::{chars_of, has_suffix, matches_at, skip_white_space, skip_white_space_back, trim};
use vstd::prelude::*;
use vstd::string::{StrSliceExecFns, StringExecFns};

verus! {

/// `s` with every single quote doubled.
pub open spec fn quotes_doubled(s: Seq<char>) -> Seq<char>
    decreases s.len(),
{
    if s.len() == 0 {
        Seq::empty()
    } else if s.last() == '\'' {
        quotes_doubled(s.drop_last()) + seq!['\'', '\'']
    } else {
        quotes_doubled(s.drop_last()).push(s.last())
    }
}

/// Escapes a text for a single-quoted PowerShell string, in which a single
/// quote is written twice.
pub fn ps_escape_single_quoted(s: &str) -> (r: String)
    ensures
        r@ == quotes_doubled(s@),
{
    let chars = chars_of(s);
    let mut out = String::new();
    let mut i: usize = 0;
    assert(s@.take(0) =~= Seq::<char>::empty());
    while i < chars.len()
        invariant
            chars@ == s@,
            i <= chars@.len(),
            out@ == quotes_doubled(s@.take(i as int)),
        decreases chars@.len() - i,
    {
        proof {
            let next = s@.take(i + 1);
            assert(next.drop_last() =~= s@.take(i as int));
            assert(next.last() == s@[i as int]);
            reveal_strlit("''");
            assert("''"@ =~= seq!['\'', '\'']);
        }
        if chars[i] == '\'' {
            out.append("''");
        } else {
            let ghost before = out@;
            out.append(s.substring_char(i, i + 1));
            assert(s@.subrange(i as int, i + 1) =~= seq![s@[i as int]]);
            assert(out@ =~= before.push(s@[i as int]));
        }
        i += 1;
    }
    assert(s@.take(i as int) =~= s@);
    out
}

/// The character may stand in a function name: an ASCII letter or digit, a
/// hyphen or an underscore.
pub open spec fn is_name_char(c: char) -> bool {
    ||| 'a' <= c <= 'z'
    ||| 'A' <= c <= 'Z'
    ||| '0' <= c <= '9'
    ||| c == '-'
    ||| c == '_'
}

/// `s` with every character that may not stand in a function name replaced
/// by an underscore.
pub open spec fn sanitized(s: Seq<char>) -> Seq<char> {
    Seq::new(
        s.len(),
        |i: int|
            if is_name_char(s[i]) {
                s[i]
            } else {
                '_'
            },
    )
}

/// Makes a text usable as a function name.
pub fn sanitize_fn_name(s: &str) -> (r: String)
    ensures
        r@ == sanitized(s@),
{
    let chars = chars_of(s);
    let mut out = String::new();
    let mut i: usize = 0;
    assert(out@ =~= sanitized(s@).take(0));
    while i < chars.len()
        invariant
            chars@ == s@,
            i <= chars@.len(),
            out@ == sanitized(s@).take(i as int),
        decreases chars@.len() - i,
    {
        let c = chars[i];
        let ghost before = out@;
        let keep = ('a' <= c && c <= 'z') || ('A' <= c && c <= 'Z') || ('0' <= c && c <= '9') || c
            == '-' || c == '_';
        if keep {
            out.append(s.substring_char(i, i + 1));
            assert(s@.subrange(i as int, i + 1) =~= seq![s@[i as int]]);
        } else {
            proof {
                reveal_strlit("_");
                assert("_"@ =~= seq!['_']);
            }
            out.append("_");
        }
        i += 1;
        assert(out@ =~= sanitized(s@).take(i as int));
    }
    assert(sanitized(s@).take(i as int) =~= sanitized(s@));
    out
}

/// The prefix of the name of a remote tool.
pub open spec fn tool_prefix() -> Seq<char> {
    seq!['m', 'c', 'p', '_', '_']
}

/// Two underscores stand at index `i`.
pub open spec fn separator_at(s: Seq<char>, i: int) -> bool {
    0 <= i && i + 1 < s.len() && s[i] == '_' && s[i + 1] == '_'
}

/// `i` is the first index at which two underscores stand.
pub open spec fn first_separator(s: Seq<char>, i: int) -> bool {
    separator_at(s, i) && forall|j: int| 0 <= j < i ==> !separator_at(s, j)
}

/// Server id and tool name of a name of the form `mcp__{server}__{tool}`.
/// The server id ends at the first pair of underscores behind the prefix;
/// both parts must hold something.
pub open spec fn tool_call_parts(name: Seq<char>) -> Option<(Seq<char>, Seq<char>)> {
    if tool_prefix().is_prefix_of(name) {
        let rest = name.skip(5);
        if exists|i: int| first_separator(rest, i) {
            let i = choose|i: int| first_separator(rest, i);
            if 0 < i && i + 2 < rest.len() {
                Some((rest.take(i), rest.skip(i + 2)))
            } else {
                None
            }
        } else {
            None
        }
    } else {
        None
    }
}

/// Splits the name of a remote tool call into server id and tool name.
pub fn parse_mcp_fn_call_name(name: &str) -> (r: Option<(String, String)>)
    ensures
        match r {
            Some((server, tool)) => tool_call_parts(name@) == Some((server@, tool@)),
            None => tool_call_parts(name@) is None,
        },
{
    let chars = chars_of(name);
    let len = chars.len();
    let prefix: [char; 5] = ['m', 'c', 'p', '_', '_'];
    assert(prefix@ =~= tool_prefix());
    assert(chars@.subrange(0, len as int) =~= chars@);
    if !matches_at(chars.as_slice(), 0, len, prefix.as_slice()) {
        return None;
    }
    let ghost rest = name@.skip(5);
    let mut i: usize = 5;
    while len - i > 1
        invariant
            tool_prefix().is_prefix_of(name@),
            chars@ == name@,
            len == chars@.len(),
            5 <= i <= len,
            rest == name@.skip(5),
            forall|j: int| 0 <= j < i - 5 ==> !separator_at(rest, j),
        decreases len - i,
    {
        if chars[i] == '_' && chars[i + 1] == '_' {
            proof {
                let k = i - 5;
                assert(separator_at(rest, k));
                assert(first_separator(rest, k));
                let chosen = choose|c: int| first_separator(rest, c);
                if chosen < k {
                    assert(!separator_at(rest, chosen));
                }
                if k < chosen {
                    assert(!separator_at(rest, k));
                }
                assert(rest.take(k) =~= name@.subrange(5, i as int));
                assert(rest.skip(k + 2) =~= name@.subrange(i + 2, len as int));
            }
            if i > 5 && i + 2 < len {
                let server = name.substring_char(5, i).to_owned();
                let tool = name.substring_char(i + 2, len).to_owned();
                return Some((server, tool));
            }
            return None;
        }
        i += 1;
    }
    proof {
        if exists|c: int| first_separator(rest, c) {
            let c = choose|c: int| first_separator(rest, c);
            assert(separator_at(rest, c));
        }
    }
    None
}

/// The lower-case form of an ASCII capital; any other character as it is.
pub open spec fn ascii_lower(c: char) -> char {
    if 'A' <= c <= 'Z' {
        ((c as u8) + 32) as char
    } else {
        c
    }
}

/// `path` ends in `suffix` when ASCII capitals are read as lower case.
pub open spec fn ends_with_lowered(path: Seq<char>, suffix: Seq<char>) -> bool {
    &&& suffix.len() <= path.len()
    &&& forall|i: int|
        0 <= i < suffix.len() ==> ascii_lower(#[trigger] path[path.len() - suffix.len() + i])
            == suffix[i]
}

fn lower(c: char) -> (r: char)
    ensures
        r == ascii_lower(c),
{
    if 'A' <= c && c <= 'Z' {
        ((c as u8) + 32) as char
    } else {
        c
    }
}

/// Whether `path` ends in `suffix` when ASCII capitals are read as lower case.
pub fn path_ends_with(path: &[char], suffix: &str) -> (r: bool)
    ensures
        r == ends_with_lowered(path@, suffix@),
{
    let want = chars_of(suffix);
    let n = want.len();
    let len = path.len();
    if len < n {
        return false;
    }
    let mut i: usize = 0;
    while i < n
        invariant
            want@ == suffix@,
            n == want@.len(),
            len == path@.len(),
            n <= len,
            i <= n,
            forall|k: int| 0 <= k < i ==> ascii_lower(#[trigger] path@[len - n + k]) == want@[k],
        decreases n - i,
    {
        if lower(path[len - n + i]) != want[i] {
            return false;
        }
        i += 1;
    }
    true
}

/// The image type that the extension of a path names, capitals or not.
pub open spec fn image_mime(path: Seq<char>) -> Option<Seq<char>> {
    if ends_with_lowered(path, ".png"@) {
        Some("image/png"@)
    } else if ends_with_lowered(path, ".jpg"@) || ends_with_lowered(path, ".jpeg"@) {
        Some("image/jpeg"@)
    } else if ends_with_lowered(path, ".webp"@) {
        Some("image/webp"@)
    } else if ends_with_lowered(path, ".gif"@) {
        Some("image/gif"@)
    } else if ends_with_lowered(path, ".bmp"@) {
        Some("image/bmp"@)
    } else if ends_with_lowered(path, ".tif"@) || ends_with_lowered(path, ".tiff"@) {
        Some("image/tiff"@)
    } else {
        None
    }
}

/// Guesses the MIME type of an image from the extension of its path.
pub fn guess_mime_from_path_rs(path: &str) -> (r: Option<&'static str>)
    ensures
        match r {
            Some(mime) => image_mime(path@) == Some(mime@),
            None => image_mime(path@) is None,
        },
{
    let chars = chars_of(path);
    let p = chars.as_slice();
    if path_ends_with(p, ".png") {
        Some("image/png")
    } else if path_ends_with(p, ".jpg") || path_ends_with(p, ".jpeg") {
        Some("image/jpeg")
    } else if path_ends_with(p, ".webp") {
        Some("image/webp")
    } else if path_ends_with(p, ".gif") {
        Some("image/gif")
    } else if path_ends_with(p, ".bmp") {
        Some("image/bmp")
    } else if path_ends_with(p, ".tif") || path_ends_with(p, ".tiff") {
        Some("image/tiff")
    } else {
        None
    }
}

/// The built-in prompt for a slot: slots 1 to 9 have their own, every other
/// slot shares one.
pub open spec fn prompt_text(index: u8) -> Seq<char> {
    if index == 1 {
        "Summarize the following text in 3-5 bullet points."@
    } else if index == 2 {
        "Rewrite the following text to be clearer and more concise."@
    } else if index == 3 {
        "Translate the following text to English."@
    } else if index == 4 {
        "Explain the following text step-by-step for a beginner."@
    } else if index == 5 {
        "Extract key action items from the following text."@
    } else if index == 6 {
        "Generate a short email reply based on the following text."@
    } else if index == 7 {
        "List pros and cons of the following text."@
    } else if index == 8 {
        "Create a one-paragraph summary of the following text."@
    } else if index == 9 {
        "Convert the following text into a checklist."@
    } else {
        "Summarize the following text in a few bullet points."@
    }
}

/// The built-in prompt for a slot.
pub fn quick_prompt_template(index: u8) -> (r: &'static str)
    ensures
        r@ == prompt_text(index),
{
    match index {
        1 => "Summarize the following text in 3-5 bullet points.",
        2 => "Rewrite the following text to be clearer and more concise.",
        3 => "Translate the following text to English.",
        4 => "Explain the following text step-by-step for a beginner.",
        5 => "Extract key action items from the following text.",
        6 => "Generate a short email reply based on the following text.",
        7 => "List pros and cons of the following text.",
        8 => "Create a one-paragraph summary of the following text.",
        9 => "Convert the following text into a checklist.",
        _ => "Summarize the following text in a few bullet points.",
    }
}

/// `s` without the slashes at its end.
pub open spec fn without_trailing_slashes(s: Seq<char>) -> Seq<char>
    decreases s.len(),
{
    if s.len() > 0 && s.last() == '/' {
        without_trailing_slashes(s.drop_last())
    } else {
        s
    }
}

/// `without_trailing_slashes` keeps the first `k` characters where only
/// slashes follow them and the last of them is none.
pub proof fn lemma_without_trailing_slashes_is(s: Seq<char>, k: int)
    requires
        0 <= k <= s.len(),
        forall|i: int| k <= i < s.len() ==> s[i] == '/',
        k > 0 ==> s[k - 1] != '/',
    ensures
        without_trailing_slashes(s) == s.take(k),
    decreases s.len(),
{
    if k < s.len() {
        lemma_without_trailing_slashes_is(s.drop_last(), k);
        assert(s.drop_last().take(k) =~= s.take(k));
    } else {
        assert(s.take(k) =~= s);
    }
}

/// The address of the transcription endpoint under a base address: the base
/// without the white space around it and without a slash at its end,
/// followed by the path, of which `/v1` is left out where the base ends in it.
pub open spec fn transcriptions_url(base_url: Seq<char>) -> Seq<char> {
    let base = without_trailing_slashes(trim(base_url));
    if has_suffix(base, "/v1"@) {
        base + "/audio/transcriptions"@
    } else {
        base + "/v1/audio/transcriptions"@
    }
}

/// Builds the address of the transcription endpoint from a base address.
pub fn build_transcriptions_url(base_url: &str) -> (url: String)
    ensures
        url@ == transcriptions_url(base_url@),
{
    let chars = chars_of(base_url);
    let len = chars.len();
    let from = skip_white_space(chars.as_slice(), 0, len);
    let end = skip_white_space_back(chars.as_slice(), from, len);
    let ghost trimmed = base_url@.subrange(from as int, end as int);
    proof {
        assert(chars@.subrange(0, len as int) =~= chars@);
        assert(crate::text::trim_start(base_url@) =~= chars@.subrange(from as int, len as int));
        assert(trim(base_url@) =~= trimmed);
    }
    let mut to = end;
    while to > from && chars[to - 1] == '/'
        invariant
            from <= to <= end <= chars@.len(),
            forall|i: int| to <= i < end ==> chars@[i] == '/',
        decreases to,
    {
        to -= 1;
    }
    let ghost base = base_url@.subrange(from as int, to as int);
    proof {
        lemma_without_trailing_slashes_is(trimmed, to - from);
        assert(trimmed.take(to - from) =~= base);
        reveal_strlit("/v1");
    }
    let suffix = chars_of("/v1");
    let versioned = to - from >= 3 && matches_at(chars.as_slice(), to - 3, to, suffix.as_slice());
    proof {
        if to - from >= 3 {
            let tail = chars@.subrange(to - 3, to as int);
            assert(base.skip(base.len() - 3) =~= tail);
            assert(tail.subrange(0, 3) =~= tail);
        }
    }
    let mut url = base_url.substring_char(from, to).to_owned();
    if versioned {
        url.append("/audio/transcriptions");
    } else {
        url.append("/v1/audio/transcriptions");
    }
    url
}

} // verus!
