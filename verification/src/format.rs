//! The two formats, and the rule that reads one off a path.
//!
//! A path is text in which `/` separates segments. Its file name is its last
//! segment, not counting the separators and `.` segments that may end it. Its
//! extension is what follows the last `.` of the file name. Only the extensions
//! `json` and `toml`, spelled exactly so, select a format.

use crate::error::Error;
use vstd::prelude::*;

verus! {

/// A text format in which a record can be stored.
#[derive(Clone, Copy, Debug, PartialEq, Eq, Structural)]
pub enum Format {
    Json,
    Toml,
}

/// The longest suffix of `s` in which `c` does not occur: what follows the last
/// `c`, or all of `s` where there is none.
pub open spec fn after_last(s: Seq<char>, c: char) -> Seq<char>
    decreases s.len(),
{
    if s.len() == 0 || s.last() == c {
        Seq::empty()
    } else {
        after_last(s.drop_last(), c).push(s.last())
    }
}

/// `path` without the separators and `.` segments at its end, which add nothing
/// to what it names: `a/b.json/` and `a/b.json/.` both give `a/b.json`.
pub open spec fn trimmed(path: Seq<char>) -> Seq<char>
    decreases path.len(),
{
    if path.len() >= 1 && path.last() == '/' {
        trimmed(path.drop_last())
    } else if path.len() >= 2 && path.last() == '.' && path[path.len() - 2] == '/' {
        trimmed(path.drop_last())
    } else {
        path
    }
}

/// The file name of `path`: the last segment of what `trimmed` leaves.
pub open spec fn file_name(path: Seq<char>) -> Seq<char> {
    after_last(trimmed(path), '/')
}

/// The extension of `path`: what follows the last `.` of its file name, and
/// `None` where the file name holds no `.`. A name that ends in `.` has the empty
/// extension, and `.json` has the extension `json`.
pub open spec fn extension(path: Seq<char>) -> Option<Seq<char>> {
    let name = file_name(path);
    if name.contains('.') {
        Some(after_last(name, '.'))
    } else {
        None
    }
}

/// The format that the extension of `path` selects, if it selects one. The
/// comparison is exact: `JSON`, `jsn` and `json5` select nothing.
pub open spec fn format_of(path: Seq<char>) -> Option<Format> {
    match extension(path) {
        Some(ext) => if ext == "json"@ {
            Some(Format::Json)
        } else if ext == "toml"@ {
            Some(Format::Toml)
        } else {
            None
        },
        None => None,
    }
}

/// What inference answers for `path`: its format, or the one error that stands
/// for a missing and for an unsupported extension alike.
pub open spec fn inferred(path: Seq<char>) -> Result<Format, Error> {
    match format_of(path) {
        Some(format) => Ok(format),
        None => Err(Error::ExtensionDoesNotExist),
    }
}

/// Where `c` does not occur in `s` from `k` on, and stands just before `k`
/// unless `k` is 0, `after_last(s, c)` is `s` from `k` on.
proof fn lemma_after_last_is_tail(s: Seq<char>, c: char, k: int)
    requires
        0 <= k <= s.len(),
        forall|i: int| k <= i < s.len() ==> s[i] != c,
        k > 0 ==> s[k - 1] == c,
    ensures
        after_last(s, c) == s.subrange(k, s.len() as int),
        s.contains(c) <==> k > 0,
    decreases s.len(),
{
    if k == s.len() {
        assert(s.subrange(k, s.len() as int) =~= Seq::<char>::empty());
        if k > 0 {
            assert(s.last() == c);
        }
    } else {
        let front = s.drop_last();
        assert(s.last() == s[s.len() - 1]);
        assert forall|i: int| k <= i < front.len() implies front[i] != c by {
            assert(front[i] == s[i]);
        }
        lemma_after_last_is_tail(front, c, k);
        assert(front.subrange(k, front.len() as int).push(s.last()) =~= s.subrange(
            k,
            s.len() as int,
        ));
        if front.contains(c) {
            let j = choose|j: int| 0 <= j < front.len() && front[j] == c;
            assert(s[j] == c);
        }
        if s.contains(c) {
            let j = choose|j: int| 0 <= j < s.len() && s[j] == c;
            assert(front[j] == c);
        }
    }
}

/// What follows the last `c` of `s` is the end of `s`, holds no `c`, and has a
/// `c` just before it exactly where `s` holds one.
proof fn lemma_after_last_splits(s: Seq<char>, c: char)
    ensures
        after_last(s, c).len() <= s.len(),
        after_last(s, c) == s.subrange(s.len() - after_last(s, c).len(), s.len() as int),
        !after_last(s, c).contains(c),
        s.contains(c) <==> after_last(s, c).len() < s.len(),
        s.contains(c) ==> s[s.len() - after_last(s, c).len() - 1] == c,
    decreases s.len(),
{
    let tail = after_last(s, c);
    if s.len() == 0 {
        assert(tail =~= s.subrange(0, 0));
    } else if s.last() == c {
        assert(tail =~= s.subrange(s.len() as int, s.len() as int));
        assert(s[s.len() - 1] == c);
    } else {
        let front = s.drop_last();
        let front_tail = after_last(front, c);
        lemma_after_last_splits(front, c);
        assert(tail =~= s.subrange(s.len() - tail.len(), s.len() as int));
        if tail.contains(c) {
            let j = choose|j: int| 0 <= j < tail.len() && tail[j] == c;
            if j < front_tail.len() {
                assert(front_tail[j] == c);
            }
        }
        if s.contains(c) {
            let j = choose|j: int| 0 <= j < s.len() && s[j] == c;
            assert(front[j] == c);
        }
        if front.contains(c) {
            assert(s[front.len() - front_tail.len() - 1] == front[front.len() - front_tail.len()
                - 1]);
        }
    }
}

/// Characters other than `c` that are added at the end of `a` are added at the
/// end of what follows the last `c`.
proof fn lemma_after_last_append(a: Seq<char>, b: Seq<char>, c: char)
    requires
        !b.contains(c),
    ensures
        after_last(a + b, c) == after_last(a, c) + b,
    decreases b.len(),
{
    if b.len() == 0 {
        assert(a + b =~= a);
        assert(after_last(a, c) + b =~= after_last(a, c));
    } else {
        let s = a + b;
        assert(b[b.len() - 1] != c);
        assert(s.last() == b.last());
        assert(s.drop_last() =~= a + b.drop_last());
        assert forall|i: int| 0 <= i < b.drop_last().len() implies b.drop_last()[i] != c by {
            assert(b[i] != c);
        }
        lemma_after_last_append(a, b.drop_last(), c);
        assert((after_last(a, c) + b.drop_last()).push(b.last()) =~= after_last(a, c) + b);
    }
}

/// A path that ends in a `.` and then `ext` has the extension `ext`, whatever
/// stands before, provided that `ext` is not empty and holds neither a `.` nor
/// a separator.
pub proof fn lemma_extension_of_suffix(stem: Seq<char>, ext: Seq<char>)
    requires
        ext.len() > 0,
        !ext.contains('.'),
        !ext.contains('/'),
    ensures
        extension(stem + seq!['.'] + ext) == Some(ext),
{
    let path = stem + seq!['.'] + ext;
    let head = stem.push('.');
    assert(path =~= head + ext);
    assert(path.last() == ext[ext.len() - 1]);
    assert(ext[ext.len() - 1] != '.' && ext[ext.len() - 1] != '/');
    assert(trimmed(path) == path);
    lemma_after_last_append(head, ext, '/');
    assert(head.drop_last() =~= stem);
    let name_head = after_last(stem, '/').push('.');
    assert(after_last(head, '/') == name_head);
    let name = name_head + ext;
    assert(file_name(path) == name);
    assert(name[name_head.len() - 1] == '.');
    lemma_after_last_append(name_head, ext, '.');
    assert(after_last(name_head, '.') + ext =~= ext);
}

/// A path has an extension only where what `trimmed` leaves of it ends in a `.`
/// and then that extension, which holds neither a `.` nor a separator. The
/// result is what stands before that `.`.
pub proof fn lemma_extension_is_suffix(path: Seq<char>) -> (stem: Seq<char>)
    requires
        extension(path) is Some,
    ensures
        trimmed(path) == stem + seq!['.'] + extension(path)->0,
        !extension(path)->0.contains('.'),
        !extension(path)->0.contains('/'),
{
    let whole = trimmed(path);
    let name = file_name(path);
    let ext = extension(path)->0;
    lemma_after_last_splits(whole, '/');
    lemma_after_last_splits(name, '.');
    let dot = whole.len() - ext.len() - 1;
    let stem = whole.subrange(0, dot);
    assert(whole[dot] == name[name.len() - ext.len() - 1]);
    assert(whole =~= stem + seq!['.'] + ext);
    if ext.contains('/') {
        let j = choose|j: int| 0 <= j < ext.len() && ext[j] == '/';
        assert(name[name.len() - ext.len() + j] == '/');
    }
    stem
}

/// Every path that ends in `.json` is inferred as JSON.
pub proof fn lemma_json_path(stem: Seq<char>)
    ensures
        format_of(stem + ".json"@) == Some(Format::Json),
{
    reveal_strlit(".json");
    reveal_strlit("json");
    assert(".json"@ =~= seq!['.'] + "json"@);
    assert(stem + ".json"@ =~= stem + seq!['.'] + "json"@);
    lemma_extension_of_suffix(stem, "json"@);
}

/// Every path that ends in `.toml` is inferred as TOML.
pub proof fn lemma_toml_path(stem: Seq<char>)
    ensures
        format_of(stem + ".toml"@) == Some(Format::Toml),
{
    reveal_strlit(".toml");
    reveal_strlit("toml");
    reveal_strlit("json");
    assert(".toml"@ =~= seq!['.'] + "toml"@);
    assert(stem + ".toml"@ =~= stem + seq!['.'] + "toml"@);
    assert("toml"@[0] != "json"@[0]);
    lemma_extension_of_suffix(stem, "toml"@);
}

/// Inference reads only how a path ends: it answers JSON exactly where what
/// `trimmed` leaves of the path ends in `.json`, and TOML exactly where that
/// ends in `.toml`.
pub proof fn lemma_format_by_suffix(path: Seq<char>)
    ensures
        format_of(path) == Some(Format::Json) <==> ".json"@.is_suffix_of(trimmed(path)),
        format_of(path) == Some(Format::Toml) <==> ".toml"@.is_suffix_of(trimmed(path)),
{
    reveal_strlit(".json");
    reveal_strlit(".toml");
    reveal_strlit("json");
    reveal_strlit("toml");
    let whole = trimmed(path);
    if ".json"@.is_suffix_of(whole) {
        let stem = whole.subrange(0, whole.len() - 5);
        assert(whole =~= stem + ".json"@);
        assert(whole.last() == 'n');
        assert(trimmed(whole) == whole);
        lemma_json_path(stem);
    }
    if ".toml"@.is_suffix_of(whole) {
        let stem = whole.subrange(0, whole.len() - 5);
        assert(whole =~= stem + ".toml"@);
        assert(whole.last() == 'l');
        assert(trimmed(whole) == whole);
        lemma_toml_path(stem);
    }
    if format_of(path) is Some {
        let stem = lemma_extension_is_suffix(path);
        let ext = extension(path)->0;
        assert(whole.subrange(whole.len() - 5, whole.len() as int) =~= seq!['.'] + ext);
        assert(".json"@ =~= seq!['.'] + "json"@);
        assert(".toml"@ =~= seq!['.'] + "toml"@);
        assert("json"@[0] != "toml"@[0]);
        assert(".json"@[1] != ".toml"@[1]);
    }
}

/// The characters of `text`, one by one.
fn chars_of(text: &str) -> (chars: Vec<char>)
    ensures
        chars@ == text@,
{
    let mut chars: Vec<char> = Vec::new();
    for c in it: text.chars()
        invariant
            it.seq() == text@,
            chars@ == it.seq().take(it.index() as int),
    {
        chars.push(c);
    }
    chars
}

/// How many characters of `chars` are left when the separators and `.`
/// segments at its end are dropped.
fn trimmed_len(chars: &Vec<char>) -> (end: usize)
    ensures
        end <= chars.len(),
        chars@.take(end as int) == trimmed(chars@),
{
    let mut end: usize = chars.len();
    assert(chars@.take(end as int) =~= chars@);
    while end >= 1 && (chars[end - 1] == '/' || (end >= 2 && chars[end - 1] == '.' && chars[end
        - 2] == '/'))
        invariant
            end <= chars.len(),
            trimmed(chars@.take(end as int)) == trimmed(chars@),
        decreases end,
    {
        assert(chars@.take(end as int).drop_last() =~= chars@.take(end as int - 1));
        end = end - 1;
    }
    end
}

/// The start of the longest run of characters other than `c` that ends at `end`
/// and begins no earlier than `low`.
fn run_start(chars: &Vec<char>, low: usize, end: usize, c: char) -> (start: usize)
    requires
        low <= end <= chars.len(),
    ensures
        low <= start <= end,
        chars@.subrange(start as int, end as int) == after_last(
            chars@.subrange(low as int, end as int),
            c,
        ),
        chars@.subrange(low as int, end as int).contains(c) <==> start > low,
{
    let mut start: usize = end;
    while start > low && chars[start - 1] != c
        invariant
            low <= start <= end <= chars.len(),
            forall|i: int| start <= i < end ==> chars@[i] != c,
        decreases start,
    {
        start = start - 1;
    }
    proof {
        let part = chars@.subrange(low as int, end as int);
        lemma_after_last_is_tail(part, c, start - low);
        assert(part.subrange(start - low, part.len() as int) =~= chars@.subrange(
            start as int,
            end as int,
        ));
    }
    start
}

/// Whether the characters of `chars` from `start` to `end` spell `word`.
fn spells(chars: &Vec<char>, start: usize, end: usize, word: &str) -> (yes: bool)
    requires
        start <= end <= chars.len(),
    ensures
        yes == (chars@.subrange(start as int, end as int) == word@),
{
    let letters = chars_of(word);
    if letters.len() != end - start {
        return false;
    }
    let mut i: usize = 0;
    while i < letters.len()
        invariant
            start <= end <= chars.len(),
            letters@ == word@,
            letters.len() == end - start,
            i <= letters.len(),
            forall|k: int| 0 <= k < i ==> chars@[start + k] == letters@[k],
        decreases letters.len() - i,
    {
        if chars[start + i] != letters[i] {
            assert(chars@.subrange(start as int, end as int)[i as int] != letters@[i as int]);
            return false;
        }
        i = i + 1;
    }
    assert(chars@.subrange(start as int, end as int) =~= letters@);
    true
}

/// Infers the format from the extension of `path`, which is only read as text:
/// nothing is looked up on disk. A path without an extension and a path with
/// an extension other than `json` or `toml` are refused in the same way.
pub fn path_to_format(path: &str) -> (r: Result<Format, Error>)
    ensures
        r == inferred(path@),
        extension(path@) == Some("json"@) ==> r == Ok::<Format, Error>(Format::Json),
        extension(path@) == Some("toml"@) ==> r == Ok::<Format, Error>(Format::Toml),
        extension(path@) != Some("json"@) && extension(path@) != Some("toml"@) ==> r == Err::<
            Format,
            Error,
        >(Error::ExtensionDoesNotExist),
{
    proof {
        reveal_strlit("json");
        reveal_strlit("toml");
        assert("json"@[0] != "toml"@[0]);
    }
    let chars = chars_of(path);
    let end = trimmed_len(&chars);
    let name_start = run_start(&chars, 0, end, '/');
    let extension_start = run_start(&chars, name_start, end, '.');
    proof {
        assert(chars@.subrange(0, end as int) =~= chars@.take(end as int));
        assert(file_name(path@) == chars@.subrange(name_start as int, end as int));
    }
    if extension_start == name_start {
        Err(Error::ExtensionDoesNotExist)
    } else if spells(&chars, extension_start, end, "json") {
        Ok(Format::Json)
    } else if spells(&chars, extension_start, end, "toml") {
        Ok(Format::Toml)
    } else {
        Err(Error::ExtensionDoesNotExist)
    }
}

} // verus!
