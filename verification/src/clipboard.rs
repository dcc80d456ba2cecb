//! What terminals put on the clipboard and read from it.

use vstd::prelude::*;
use vstd::utf8::*;
use crate::text;

verus! {

/// Something that a terminal put on the clipboard. `image_type` is the image type that the MIME
/// type stands for, where the system knows it as one.
#[derive(Clone, Debug)]
pub struct OfferedContent {
    pub mime_type: String,
    pub data: Vec<u8>,
    pub image_type: Option<String>,
}

/// Something that a terminal gets from the clipboard.
#[derive(Clone, Debug)]
pub struct TerminalClipboardContent {
    pub mime_type: String,
    pub data: Vec<u8>,
}

/// An entry of the system's clipboard: text, an image, or files by their paths.
#[derive(Clone, Debug)]
pub enum ClipboardEntry {
    Text(String),
    Image { mime_type: String, bytes: Vec<u8> },
    Paths(Vec<String>),
}

/// An entry as a mathematical value.
pub enum Entry {
    Text(Seq<char>),
    Image(Seq<char>, Seq<u8>),
    Paths(Seq<Seq<char>>),
}

pub open spec fn entry(e: ClipboardEntry) -> Entry {
    match e {
        ClipboardEntry::Text(s) => Entry::Text(s@),
        ClipboardEntry::Image { mime_type, bytes } => Entry::Image(mime_type@, bytes@),
        ClipboardEntry::Paths(v) => Entry::Paths(v@.map_values(|p: String| p@)),
    }
}

pub open spec fn entries(v: Seq<ClipboardEntry>) -> Seq<Entry> {
    v.map_values(|e: ClipboardEntry| entry(e))
}

/// A content as a mathematical value: MIME type and data.
pub open spec fn contents(v: Seq<TerminalClipboardContent>) -> Seq<(Seq<char>, Seq<u8>)> {
    v.map_values(|c: TerminalClipboardContent| (c.mime_type@, c.data@))
}

/// `String::from_utf8` gives the text whose UTF-8 form the bytes are, where they are the form of
/// any.
#[verifier::external_body]
fn text_from_utf8(data: Vec<u8>) -> (r: Option<String>)
    ensures
        r is Some <==> valid_utf8(data@),
        r is Some ==> r->0@ == decode_utf8(data@),
{
    String::from_utf8(data).ok()
}

fn copy_bytes(data: &Vec<u8>) -> (r: Vec<u8>)
    ensures
        r@ == data@,
{
    let r: Vec<u8> = data.clone();
    assert(r@ =~= data@);
    r
}

/// The text of the data, where it is UTF-8.
pub open spec fn as_text(data: Seq<u8>) -> Option<Seq<char>> {
    if valid_utf8(data) {
        Some(decode_utf8(data))
    } else {
        None
    }
}

/// The entries that the contents make, before the fallback text is considered: plain text and
/// images, in order. Data that is not the text it claims to be is left out.
pub open spec fn direct_entries(v: Seq<OfferedContent>) -> Seq<Entry>
    decreases v.len(),
{
    if v.len() == 0 {
        seq![]
    } else {
        let head = direct_entries(v.drop_last());
        let c = v.last();
        if text::has_prefix(c.mime_type@, "text/plain"@) {
            match as_text(c.data@) {
                Some(t) => head.push(Entry::Text(t)),
                None => head,
            }
        } else if text::has_prefix(c.mime_type@, "text/"@) {
            head
        } else {
            match c.image_type {
                Some(m) => head.push(Entry::Image(m@, c.data@)),
                None => head,
            }
        }
    }
}

/// The first text of another kind than plain text.
pub open spec fn other_text(v: Seq<OfferedContent>) -> Option<Seq<char>>
    decreases v.len(),
{
    if v.len() == 0 {
        None
    } else {
        let head = other_text(v.drop_last());
        let c = v.last();
        if head is Some || text::has_prefix(c.mime_type@, "text/plain"@) || !text::has_prefix(
            c.mime_type@,
            "text/"@,
        ) {
            head
        } else {
            as_text(c.data@)
        }
    }
}

pub open spec fn has_text(v: Seq<Entry>) -> bool {
    exists|i: int| 0 <= i < v.len() && (#[trigger] v[i]) is Text
}

/// The clipboard entries that the contents make. A text of another kind stands in front where no
/// plain text is there.
pub open spec fn clipboard_entries(v: Seq<OfferedContent>) -> Seq<Entry> {
    let direct = direct_entries(v);
    match other_text(v) {
        Some(t) => if has_text(direct) {
            direct
        } else {
            seq![Entry::Text(t)] + direct
        },
        None => direct,
    }
}

/// The clipboard entries that the contents make, or `None` where they make none.
pub fn clipboard_item_from_contents(offered: &Vec<OfferedContent>) -> (r: Option<
    Vec<ClipboardEntry>,
>)
    ensures
        r is None <==> clipboard_entries(offered@).len() == 0,
        r is Some ==> entries(r->0@) == clipboard_entries(offered@),
{
    let mut out: Vec<ClipboardEntry> = Vec::new();
    let mut fallback: Option<String> = None;
    let mut i: usize = 0;
    assert(offered@.take(0) =~= seq![]);
    assert(entries(out@) =~= direct_entries(offered@.take(0)));
    while i < offered.len()
        invariant
            i <= offered@.len(),
            entries(out@) == direct_entries(offered@.take(i as int)),
            other_text(offered@.take(i as int)) == (match fallback {
                Some(t) => Some(t@),
                None => None,
            }),
        decreases offered@.len() - i,
    {
        let ghost now = offered@.take(i + 1);
        assert(now.drop_last() =~= offered@.take(i as int));
        let c: &OfferedContent = &offered[i];
        let ghost had = out@;
        if text::starts_with(c.mime_type.as_str(), "text/plain") {
            match text_from_utf8(copy_bytes(&c.data)) {
                Some(t) => {
                    let e: ClipboardEntry = ClipboardEntry::Text(t);
                    out.push(e);
                    assert(entries(out@) =~= entries(had).push(entry(e)));
                },
                None => {},
            }
        } else if text::starts_with(c.mime_type.as_str(), "text/") {
            if fallback.is_none() {
                fallback = text_from_utf8(copy_bytes(&c.data));
            }
        } else {
            match &c.image_type {
                Some(m) => {
                    let e: ClipboardEntry = ClipboardEntry::Image {
                        mime_type: m.clone(),
                        bytes: copy_bytes(&c.data),
                    };
                    out.push(e);
                    assert(entries(out@) =~= entries(had).push(entry(e)));
                },
                None => {},
            }
        }
        i = i + 1;
    }
    assert(offered@.take(i as int) =~= offered@);
    let mut plain: bool = false;
    let mut k: usize = 0;
    while k < out.len()
        invariant
            k <= out@.len(),
            plain == exists|j: int| 0 <= j < k && (#[trigger] entries(out@)[j]) is Text,
        decreases out@.len() - k,
    {
        match &out[k] {
            ClipboardEntry::Text(_) => {
                plain = true;
                assert(entries(out@)[k as int] is Text);
            },
            _ => {
                assert(!(entries(out@)[k as int] is Text));
            },
        }
        k = k + 1;
    }
    assert(plain == has_text(entries(out@)));
    match fallback {
        Some(t) => {
            if !plain {
                let ghost had = out@;
                let e: ClipboardEntry = ClipboardEntry::Text(t);
                out.insert(0, e);
                assert(entries(out@) =~= seq![entry(e)] + entries(had));
            }
        },
        None => {},
    }
    if out.len() == 0 {
        None
    } else {
        Some(out)
    }
}

/// The part of a MIME type in front of its parameters.
pub open spec fn base_type(s: Seq<char>) -> Seq<char>
    decreases s.len(),
{
    if s.len() == 0 || s[0] == ';' {
        seq![]
    } else {
        seq![s[0]] + base_type(s.skip(1))
    }
}

fn base_of(s: &str) -> (r: String)
    ensures
        r@ == base_type(s@),
{
    let v: Vec<char> = text::chars_of(s);
    let mut out: String = String::new();
    let mut i: usize = 0;
    assert(v@.skip(0) =~= v@);
    assert(base_type(s@) =~= out@ + base_type(v@.skip(0)));
    while i < v.len()
        invariant
            i <= v@.len(),
            base_type(s@) == out@ + base_type(v@.skip(i as int)),
        decreases v@.len() - i,
    {
        if v[i] == ';' {
            assert(base_type(v@.skip(i as int)) =~= seq![]);
            assert(base_type(s@) =~= out@);
            return out;
        }
        let ghost rest = v@.skip(i as int);
        assert(rest.skip(1) =~= v@.skip(i + 1));
        let ghost had = out@;
        out.push(v[i]);
        assert(had + (seq![rest[0]] + base_type(rest.skip(1))) =~= out@ + base_type(v@.skip(i + 1)));
        i = i + 1;
    }
    assert(base_type(s@) =~= out@);
    out
}

/// A request for this MIME type, or for a wider one, covers the type.
pub open spec fn covers(requested: Seq<char>, mime: Seq<char>) -> bool {
    ||| requested == "."@
    ||| requested == mime
    ||| base_type(requested) == base_type(mime)
    ||| requested == "*/*"@
    ||| (text::has_suffix(requested, "/*"@) && text::has_prefix(
        mime,
        requested.take(requested.len() - 2),
    ))
}

/// Some request covers the type. A terminal that requests nothing in particular takes every type.
pub open spec fn accepted(requested: Seq<String>, mime: Seq<char>) -> bool {
    requested.len() == 0 || exists|i: int|
        0 <= i < requested.len() && covers((#[trigger] requested[i])@, mime)
}

fn covers_type(requested: &str, mime: &str) -> (r: bool)
    ensures
        r == covers(requested@, mime@),
{
    proof {
        reveal_strlit("/*");
    }
    if text::text_eq(requested, ".") || text::text_eq(requested, mime) || text::text_eq(
        requested,
        "*/*",
    ) {
        return true;
    }
    let a: String = base_of(requested);
    let b: String = base_of(mime);
    if text::text_eq(a.as_str(), b.as_str()) {
        return true;
    }
    if text::ends_with(requested, "/*") {
        let n: usize = requested.unicode_len();
        let prefix: &str = requested.substring_char(0, n - 2);
        assert(prefix@ =~= requested@.take(requested@.len() - 2));
        return text::starts_with(mime, prefix);
    }
    false
}

/// Whether a terminal that requested these types takes the type.
pub fn accepts(requested: &Vec<String>, mime: &str) -> (r: bool)
    ensures
        r == accepted(requested@, mime@),
{
    if requested.len() == 0 {
        return true;
    }
    let mut i: usize = 0;
    while i < requested.len()
        invariant
            i <= requested@.len(),
            forall|j: int| 0 <= j < i ==> !covers((#[trigger] requested@[j])@, mime@),
        decreases requested@.len() - i,
    {
        if covers_type(requested[i].as_str(), mime) {
            return true;
        }
        i = i + 1;
    }
    false
}

/// The paths as a list of file addresses, one to a line.
pub open spec fn uri_list(paths: Seq<Seq<char>>) -> Seq<char>
    decreases paths.len(),
{
    if paths.len() == 0 {
        seq![]
    } else if paths.len() == 1 {
        "file://"@ + paths[0]
    } else {
        uri_list(paths.drop_last()) + "\r\n"@ + "file://"@ + paths.last()
    }
}

fn uri_list_of(paths: &Vec<String>) -> (r: String)
    ensures
        r@ == uri_list(paths@.map_values(|p: String| p@)),
{
    let ghost all = paths@.map_values(|p: String| p@);
    let mut out: String = String::new();
    let mut i: usize = 0;
    assert(out@ =~= uri_list(all.take(0)));
    while i < paths.len()
        invariant
            i <= paths@.len(),
            all == paths@.map_values(|p: String| p@),
            out@ == uri_list(all.take(i as int)),
        decreases paths@.len() - i,
    {
        let ghost now = all.take(i + 1);
        assert(now.drop_last() =~= all.take(i as int));
        assert(now.last() == paths@[i as int]@);
        if i > 0 {
            out.append("\r\n");
        }
        out.append("file://");
        out.append(paths[i].as_str());
        assert(out@ =~= uri_list(now));
        i = i + 1;
    }
    assert(all.take(i as int) =~= all);
    out
}

/// What an entry gives to a terminal that requested these types, if anything.
pub open spec fn given(e: Entry, requested: Seq<String>) -> Option<(Seq<char>, Seq<u8>)> {
    match e {
        Entry::Text(t) => if accepted(requested, "text/plain"@) {
            Some(("text/plain"@, encode_utf8(t)))
        } else {
            None
        },
        Entry::Image(mime, bytes) => if accepted(requested, mime) {
            Some((mime, bytes))
        } else {
            None
        },
        Entry::Paths(paths) => if accepted(requested, "text/uri-list"@) {
            Some(("text/uri-list"@, encode_utf8(uri_list(paths))))
        } else {
            None
        },
    }
}

/// What the entries give, in order.
pub open spec fn all_given(v: Seq<Entry>, requested: Seq<String>) -> Seq<(Seq<char>, Seq<u8>)>
    decreases v.len(),
{
    if v.len() == 0 {
        seq![]
    } else {
        let head = all_given(v.drop_last(), requested);
        match given(v.last(), requested) {
            Some(c) => head.push(c),
            None => head,
        }
    }
}

/// What a terminal that requested these types gets from the clipboard.
pub fn clipboard_contents_from_item(
    item: &Vec<ClipboardEntry>,
    requested_mime_types: &Vec<String>,
) -> (r: Vec<TerminalClipboardContent>)
    ensures
        contents(r@) == all_given(entries(item@), requested_mime_types@),
{
    let ghost all = entries(item@);
    let mut out: Vec<TerminalClipboardContent> = Vec::new();
    let mut i: usize = 0;
    assert(contents(out@) =~= all_given(all.take(0), requested_mime_types@));
    while i < item.len()
        invariant
            i <= item@.len(),
            all == entries(item@),
            contents(out@) == all_given(all.take(i as int), requested_mime_types@),
        decreases item@.len() - i,
    {
        let ghost now = all.take(i + 1);
        assert(now.drop_last() =~= all.take(i as int));
        assert(now.last() == entry(item@[i as int]));
        let ghost had = out@;
        match &item[i] {
            ClipboardEntry::Text(t) => {
                if accepts(requested_mime_types, "text/plain") {
                    out.push(
                        TerminalClipboardContent {
                            mime_type: "text/plain".to_owned(),
                            data: t.as_str().as_bytes_vec(),
                        },
                    );
                    assert(contents(out@) =~= contents(had).push(("text/plain"@, encode_utf8(t@))));
                }
            },
            ClipboardEntry::Image { mime_type, bytes } => {
                if accepts(requested_mime_types, mime_type.as_str()) {
                    out.push(
                        TerminalClipboardContent {
                            mime_type: mime_type.clone(),
                            data: copy_bytes(bytes),
                        },
                    );
                    assert(contents(out@) =~= contents(had).push((mime_type@, bytes@)));
                }
            },
            ClipboardEntry::Paths(paths) => {
                if accepts(requested_mime_types, "text/uri-list") {
                    let list: String = uri_list_of(paths);
                    out.push(
                        TerminalClipboardContent {
                            mime_type: "text/uri-list".to_owned(),
                            data: list.as_str().as_bytes_vec(),
                        },
                    );
                    assert(contents(out@) =~= contents(had).push(
                        ("text/uri-list"@, encode_utf8(list@)),
                    ));
                }
            },
        }
        i = i + 1;
    }
    assert(all.take(i as int) =~= all);
    out
}

/// What one terminal copies as plain text, another one that asks for plain text, or for nothing
/// in particular, gets back byte for byte.
pub proof fn copied_text_comes_back(offered: OfferedContent, requested: Seq<String>)
    requires
        text::has_prefix(offered.mime_type@, "text/plain"@),
        valid_utf8(offered.data@),
        accepted(requested, "text/plain"@),
    ensures
        all_given(clipboard_entries(seq![offered]), requested) == seq![
            ("text/plain"@, offered.data@),
        ],
{
    let v = seq![offered];
    let t = decode_utf8(offered.data@);
    assert(v.drop_last() =~= seq![]);
    assert(v.last() == offered);
    assert(direct_entries(v.drop_last()) =~= seq![]);
    assert(direct_entries(v) =~= seq![Entry::Text(t)]);
    assert(other_text(v.drop_last()) is None);
    assert(other_text(v) is None);
    let e = clipboard_entries(v);
    assert(e =~= seq![Entry::Text(t)]);
    assert(e.drop_last() =~= seq![]);
    assert(e.last() == Entry::Text(t));
    assert(all_given(e.drop_last(), requested) =~= seq![]);
    decode_utf8_encode_utf8(offered.data@);
    assert(all_given(e, requested) =~= seq![("text/plain"@, offered.data@)]);
}

/// An entry of the clipboard is told by its kind and by all that it holds.
pub proof fn entries_are_told_by_their_parts(e: ClipboardEntry, k: int)
    ensures
        e matches ClipboardEntry::Text(s) ==> entry(e) == Entry::Text(s@),
        e matches ClipboardEntry::Image { mime_type, bytes } ==> entry(e) == Entry::Image(
            mime_type@,
            bytes@,
        ),
        e matches ClipboardEntry::Paths(v) ==> (entry(e) matches Entry::Paths(w) && w.len()
            == v@.len() && (0 <= k < v@.len() ==> w[k] == v@[k]@)),
{
}

/// What is copied goes to the clipboard in order: plain text as text where it can be read, other text not
/// directly, and what is left as an image where it is one.
pub proof fn each_content_has_its_entry(v: Seq<OfferedContent>, c: OfferedContent)
    ensures
        direct_entries(seq![]).len() == 0,
        text::has_prefix(c.mime_type@, "text/plain"@) && valid_utf8(c.data@) ==> direct_entries(
            v.push(c),
        ) == direct_entries(v).push(Entry::Text(decode_utf8(c.data@))),
        text::has_prefix(c.mime_type@, "text/plain"@) && !valid_utf8(c.data@) ==> direct_entries(
            v.push(c),
        ) == direct_entries(v),
        !text::has_prefix(c.mime_type@, "text/plain"@) && text::has_prefix(c.mime_type@, "text/"@)
            ==> direct_entries(v.push(c)) == direct_entries(v),
        !text::has_prefix(c.mime_type@, "text/"@) && !text::has_prefix(
            c.mime_type@,
            "text/plain"@,
        ) && c.image_type is Some ==> direct_entries(v.push(c)) == direct_entries(v).push(
            Entry::Image(c.image_type->0@, c.data@),
        ),
        !text::has_prefix(c.mime_type@, "text/"@) && !text::has_prefix(
            c.mime_type@,
            "text/plain"@,
        ) && c.image_type is None ==> direct_entries(v.push(c)) == direct_entries(v),
{
    assert(v.push(c).drop_last() =~= v);
    assert(v.push(c).last() == c);
}

/// The text of a kind other than plain that stands in for plain text.
pub open spec fn is_other_text(c: OfferedContent) -> bool {
    text::has_prefix(c.mime_type@, "text/"@) && !text::has_prefix(c.mime_type@, "text/plain"@)
        && valid_utf8(c.data@)
}

/// The first text of a kind other than plain, where it can be read, stands in for plain text.
pub proof fn the_first_other_text_stands_in(v: Seq<OfferedContent>, i: int)
    requires
        0 <= i <= v.len(),
        forall|j: int| 0 <= j < i ==> !is_other_text(#[trigger] v[j]),
        i < v.len() ==> is_other_text(v[i]),
    ensures
        i == v.len() ==> other_text(v) is None,
        i < v.len() ==> other_text(v) == Some(decode_utf8(v[i].data@)),
    decreases v.len(),
{
    if v.len() > 0 {
        let head = v.drop_last();
        if i < v.len() {
            if i == v.len() - 1 {
                the_first_other_text_stands_in(head, head.len() as int);
            } else {
                the_first_other_text_stands_in(head, i);
            }
        } else {
            assert(!is_other_text(v[v.len() - 1]));
            the_first_other_text_stands_in(head, head.len() as int);
        }
    }
}

/// Text that stands in for plain text comes first, and only where there is no plain text.
pub proof fn plain_text_comes_before_other_text(v: Seq<OfferedContent>, k: int)
    ensures
        other_text(v) is None ==> clipboard_entries(v) == direct_entries(v),
        0 <= k < direct_entries(v).len() && direct_entries(v)[k] is Text ==> clipboard_entries(v)
            == direct_entries(v),
        other_text(v) is Some && (forall|j: int|
            0 <= j < direct_entries(v).len() ==> !((#[trigger] direct_entries(v)[j]) is Text)) ==> {
            &&& clipboard_entries(v).len() == direct_entries(v).len() + 1
            &&& clipboard_entries(v)[0] == Entry::Text(other_text(v)->0)
            &&& clipboard_entries(v).skip(1) == direct_entries(v)
        },
{
    let direct = direct_entries(v);
    if other_text(v) is Some && !has_text(direct) {
        assert(clipboard_entries(v).skip(1) =~= direct);
    }
}

/// The type without its parameters is what stands before the first semicolon.
pub proof fn parameters_stand_behind_a_semicolon(s: Seq<char>, i: int)
    requires
        0 <= i <= s.len(),
        forall|j: int| 0 <= j < i ==> #[trigger] s[j] != ';',
        i < s.len() ==> s[i] == ';',
    ensures
        base_type(s) == s.take(i),
    decreases s.len(),
{
    if s.len() > 0 && i > 0 {
        let rest = s.skip(1);
        assert(s[0] != ';');
        assert forall|j: int| 0 <= j < i - 1 implies #[trigger] rest[j] != ';' by {
            assert(rest[j] == s[j + 1]);
        }
        parameters_stand_behind_a_semicolon(rest, i - 1);
        assert(seq![s[0]] + rest.take(i - 1) =~= s.take(i));
    }
}

/// A request covers its own type, with other parameters too; a point or a pair of stars covers every type,
/// and a family with a star all of its own. A request for another type covers nothing.
pub proof fn requests_cover_types(requested: Seq<char>, mime: Seq<char>, family: Seq<char>)
    ensures
        covers("."@, mime),
        covers("*/*"@, mime),
        covers(mime, mime),
        base_type(requested) == base_type(mime) ==> covers(requested, mime),
        text::has_prefix(mime, family) ==> covers(family + "/*"@, mime),
        requested != "."@ && requested != "*/*"@ && base_type(requested) != base_type(mime)
            && !text::has_suffix(requested, "/*"@) ==> !covers(requested, mime),
        requested != "."@ && requested != "*/*"@ && base_type(requested) != base_type(mime)
            && requested == family + "/*"@ && !text::has_prefix(mime, family) ==> !covers(
            requested,
            mime,
        ),
{
    let star = "/*"@;
    reveal_strlit("/*");
    let wide = family + star;
    assert(wide.take(wide.len() - 2) =~= family);
    assert(wide.skip(wide.len() - 2) =~= star);
    assert(text::has_suffix(wide, star));
}

/// Without a request every type is taken; with requests those that one of them covers.
pub proof fn a_type_is_taken_where_a_request_covers_it(
    requested: Seq<String>,
    mime: Seq<char>,
    i: int,
)
    ensures
        requested.len() == 0 ==> accepted(requested, mime),
        0 <= i < requested.len() && covers(requested[i]@, mime) ==> accepted(requested, mime),
        requested.len() > 0 && (forall|j: int|
            0 <= j < requested.len() ==> !covers((#[trigger] requested[j])@, mime)) ==> !accepted(
            requested,
            mime,
        ),
{
}

/// Paths are handed over as file addresses, one to a line.
pub proof fn paths_are_listed_one_to_a_line(paths: Seq<Seq<char>>, path: Seq<char>)
    ensures
        uri_list(seq![]).len() == 0,
        uri_list(seq![path]) == "file://"@ + path,
        paths.len() > 0 ==> uri_list(paths.push(path)) == uri_list(paths) + "\r\n"@ + "file://"@
            + path,
{
    assert(paths.push(path).drop_last() =~= paths);
    assert(paths.push(path).last() == path);
}

/// Each entry is handed over under its own type, where that was asked for: text as plain text, an image as
/// it is, paths as a list of addresses.
pub proof fn entries_are_handed_over_by_type(
    t: Seq<char>,
    mime: Seq<char>,
    bytes: Seq<u8>,
    paths: Seq<Seq<char>>,
    requested: Seq<String>,
)
    ensures
        accepted(requested, "text/plain"@) ==> given(Entry::Text(t), requested) == Some(
            ("text/plain"@, encode_utf8(t)),
        ),
        !accepted(requested, "text/plain"@) ==> given(Entry::Text(t), requested) is None,
        accepted(requested, mime) ==> given(Entry::Image(mime, bytes), requested) == Some(
            (mime, bytes),
        ),
        !accepted(requested, mime) ==> given(Entry::Image(mime, bytes), requested) is None,
        accepted(requested, "text/uri-list"@) ==> given(Entry::Paths(paths), requested) == Some(
            ("text/uri-list"@, encode_utf8(uri_list(paths))),
        ),
        !accepted(requested, "text/uri-list"@) ==> given(Entry::Paths(paths), requested) is None,
{
}

/// All that was asked for is handed over, in the order of the clipboard.
pub proof fn everything_asked_for_is_handed_over(v: Seq<Entry>, e: Entry, requested: Seq<String>)
    ensures
        all_given(seq![], requested).len() == 0,
        given(e, requested) is None ==> all_given(v.push(e), requested) == all_given(v, requested),
        given(e, requested) is Some ==> all_given(v.push(e), requested) == all_given(
            v,
            requested,
        ).push(given(e, requested)->0),
{
    assert(v.push(e).drop_last() =~= v);
    assert(v.push(e).last() == e);
}

/// Bytes are text exactly where they can be read as such.
pub proof fn readable_bytes_are_text(data: Seq<u8>)
    ensures
        valid_utf8(data) ==> as_text(data) == Some(decode_utf8(data)),
        !valid_utf8(data) ==> as_text(data) is None,
{
}

/// What is handed over is told by its type and its bytes.
pub proof fn contents_are_told_by_their_parts(v: Seq<TerminalClipboardContent>, k: int)
    requires
        0 <= k < v.len(),
    ensures
        contents(v).len() == v.len(),
        contents(v)[k].0 == v[k].mime_type@,
        contents(v)[k].1 == v[k].data@,
{
}

} // verus!
