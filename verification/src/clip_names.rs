//! The file name of a clip: the clip name format filled in with the clip's
//! details, made safe as a file name.
use vstd::prelude::*;
use vstd::utf8::encode_utf8;
use crate::config::Config;
use crate::text::{
    chars_of, contains, has_char, occurs_at, replace_all, replace_chars, starts_with, string_of, to_string_of,
};

verus! {

/// Name for `char::is_alphanumeric` (Unicode letters and numbers).
pub uninterp spec fn unicode_alphanumeric(c: char) -> bool;

/// Calls `char::is_alphanumeric`. Its result is named
/// (`unicode_alphanumeric`); of ASCII characters the documentation gives
/// that exactly the letters and digits are alphanumeric.
#[verifier::external_body]
fn is_alphanumeric(c: char) -> (b: bool)
    ensures
        b == unicode_alphanumeric(c),
        (c as u32) < 128 ==> (b == (('a' <= c && c <= 'z') || ('A' <= c && c <= 'Z') || ('0' <= c
            && c <= '9'))),
{
    c.is_alphanumeric()
}

/// A character `sanitize_filename` never keeps: `/ ? < > \ : * | "`, or a
/// control character (U+0000 to U+001F, U+0080 to U+009F).
pub open spec fn unsafe_file_char(c: char) -> bool {
    c == '/' || c == '?' || c == '<' || c == '>' || c == '\\' || c == ':' || c == '*' || c == '|'
        || c == '"' || (c as u32) <= 0x1f || (0x80 <= (c as u32) && (c as u32) <= 0x9f)
}

/// `a` is `b` with some characters deleted.
pub open spec fn subseq_of(a: Seq<char>, b: Seq<char>) -> bool
    decreases b.len(),
{
    if a.len() == 0 {
        true
    } else if b.len() == 0 {
        false
    } else if a.last() == b.last() {
        subseq_of(a.drop_last(), b.drop_last())
    } else {
        subseq_of(a, b.drop_last())
    }
}

/// `s` is made of dots only (and is not empty).
pub open spec fn all_dots(s: Seq<char>) -> bool {
    s.len() > 0 && forall|i: int| 0 <= i < s.len() ==> s[i] == '.'
}

/// `s` is a name Windows reserves, ASCII case ignored: `con`, `prn`,
/// `aux`, `nul`, or `com` or `lpt` with one digit, alone or before a `.`.
pub open spec fn windows_reserved(s: Seq<char>) -> bool {
    let l = crate::text::lower_seq(s);
    ||| l.len() >= 3 && (l.take(3) == "con"@ || l.take(3) == "prn"@ || l.take(3) == "aux"@
        || l.take(3) == "nul"@) && (l.len() == 3 || l[3] == '.')
    ||| l.len() >= 4 && (l.take(3) == "com"@ || l.take(3) == "lpt"@) && '0' <= l[3] && l[3]
        <= '9' && (l.len() == 4 || l[4] == '.')
}

/// A name `sanitize_filename` keeps whole on every platform: no character
/// it never keeps, at most 255 bytes in UTF-8, not dots only, not a name
/// Windows reserves, and not ending in `.` or a space.
pub open spec fn kept_whole(s: Seq<char>) -> bool {
    &&& forall|i: int| 0 <= i < s.len() ==> !unsafe_file_char(#[trigger] s[i])
    &&& encode_utf8(s).len() <= 255
    &&& !all_dots(s)
    &&& !windows_reserved(s)
    &&& !(s.len() > 0 && (s.last() == '.' || s.last() == ' '))
}

/// A first character that no step of `sanitize_filename` removes on any
/// platform: an ASCII character that is printable, not a letter (a Windows
/// reserved name starts with one), not a dot or a space (reserved and
/// trailing runs are made of those) and not one it never keeps.
pub open spec fn first_always_kept(c: char) -> bool {
    &&& 0x20 < (c as u32) && (c as u32) < 0x7f
    &&& !('a' <= c && c <= 'z') && !('A' <= c && c <= 'Z')
    &&& c != '.'
    &&& !unsafe_file_char(c)
}

/// What `sanitize_file_name` gives of `name` on every platform: `r` is
/// `name` with some characters deleted, holds no character that is never
/// kept, is at most 255 bytes in UTF-8, equals `name` when no step touches
/// it, and keeps a first character that is always kept.
pub open spec fn sanitized_from(r: Seq<char>, name: Seq<char>) -> bool {
    &&& subseq_of(r, name)
    &&& forall|i: int| 0 <= i < r.len() ==> !unsafe_file_char(#[trigger] r[i])
    &&& encode_utf8(r).len() <= 255
    &&& kept_whole(name) ==> r == name
    &&& name.len() > 0 && first_always_kept(name[0]) ==> r.len() > 0 && r[0] == name[0]
}

/// Calls `sanitize_filename::sanitize`. What it removes depends on the
/// platform it was built for (Windows also drops reserved names and
/// trailing dots and spaces), so only what holds everywhere is stated
/// (`sanitized_from`): it only deletes characters (the result is the name
/// with some characters removed, or a prefix of that of at most 255 bytes),
/// the result holds no character that is never kept, a name that no step
/// touches on any platform (`kept_whole`) comes back unchanged, and a first
/// character that no step removes stays first. Which other characters go
/// is left unsaid.
#[verifier::external_body]
pub(crate) fn sanitize_file_name(name: &str) -> (r: String)
    ensures
        sanitized_from(r@, name@),
{
    sanitize_filename::sanitize(name)
}

/// Index of the last `.` in `s`.
pub open spec fn last_dot(s: Seq<char>) -> Option<int>
    decreases s.len(),
{
    if s.len() == 0 {
        None
    } else if s.last() == '.' {
        Some(s.len() - 1)
    } else {
        last_dot(s.drop_last())
    }
}

/// A path of one plain file name: not empty, not `.` or `..`, and without
/// `/`, `\` or `:` (so no separator or drive prefix on any platform).
pub open spec fn plain_file_name(s: Seq<char>) -> bool {
    &&& s.len() > 0
    &&& s != "."@ && s != ".."@
    &&& forall|i: int| 0 <= i < s.len() ==> s[i] != '/' && s[i] != '\\' && s[i] != ':'
}

/// A plain file name with its extension set to `ext` (a non-empty text): the
/// part after the last `.` is replaced when that `.` is not the first
/// character, else `.` and `ext` are added.
pub open spec fn with_extension(name: Seq<char>, ext: Seq<char>) -> Seq<char> {
    match last_dot(name) {
        Some(i) => if i > 0 {
            name.take(i) + "."@ + ext
        } else {
            name + "."@ + ext
        },
        None => name + "."@ + ext,
    }
}

/// Calls `std::path::Path::with_extension` on a name and gives the result as
/// text. As documented (`PathBuf::set_extension`, `Path::extension`), for a
/// path made of one plain file name the extension (the part after the last
/// `.`, unless that `.` begins the name) is replaced, or added when there is
/// none (`with_extension`). Of other paths nothing is stated.
#[verifier::external_body]
pub(crate) fn path_with_extension(name: &str, ext: &str) -> (r: String)
    requires
        ext@.len() > 0,
        forall|i: int| 0 <= i < ext@.len() ==> ext@[i] != '/' && ext@[i] != '\\',
    ensures
        plain_file_name(name@) ==> r@ == with_extension(name@, ext@),
{
    std::path::Path::new(name).with_extension(ext).to_string_lossy().into_owned()
}

/// The characters of a title that are letters or numbers, in order.
pub open spec fn alphanumeric_only(s: Seq<char>) -> Seq<char>
    decreases s.len(),
{
    if s.len() == 0 {
        s
    } else if unicode_alphanumeric(s.last()) {
        alphanumeric_only(s.drop_last()).push(s.last())
    } else {
        alphanumeric_only(s.drop_last())
    }
}

/// Exec `alphanumeric_only`.
pub fn clip_title(title: &str) -> (r: String)
    ensures
        r@ == alphanumeric_only(title@),
{
    let c = chars_of(title);
    let mut out: Vec<char> = Vec::new();
    let mut i: usize = 0;
    assert(c@.take(0) =~= Seq::<char>::empty());
    while i < c.len()
        invariant
            i <= c.len(),
            out@ == alphanumeric_only(c@.take(i as int)),
        decreases c.len() - i,
    {
        assert(c@.take(i as int + 1).drop_last() =~= c@.take(i as int));
        if is_alphanumeric(c[i]) {
            out.push(c[i]);
        }
        i = i + 1;
    }
    assert(c@.take(c.len() as int) =~= c@);
    string_of(out.as_slice())
}

/// The details a clip name is made of, as text.
#[derive(Debug)]
pub struct ClipNameParts {
    pub title: String,
    pub platform: String,
    pub room_id: String,
    pub live_id: String,
    pub note: String,
    /// Start of the first range, in seconds.
    pub x: String,
    /// End of the last range, in seconds.
    pub y: String,
    pub created_at: String,
    /// Length of all ranges together, in seconds.
    pub length: String,
}

/// A clip name format filled in, in this order: `{title}` (letters and
/// numbers only), `{platform}`, `{room_id}`, `{live_id}`, `{note}`, `{x}`,
/// `{y}`, `{created_at}`, `{length}`.
pub open spec fn filled_name_of(
    format: Seq<char>,
    title: Seq<char>,
    platform: Seq<char>,
    room_id: Seq<char>,
    live_id: Seq<char>,
    note: Seq<char>,
    x: Seq<char>,
    y: Seq<char>,
    created_at: Seq<char>,
    length: Seq<char>,
) -> Seq<char> {
    let a = replace_all(format, "{title}"@, alphanumeric_only(title));
    let b = replace_all(a, "{platform}"@, platform);
    let c = replace_all(b, "{room_id}"@, room_id);
    let d = replace_all(c, "{live_id}"@, live_id);
    let e = replace_all(d, "{note}"@, note);
    let f = replace_all(e, "{x}"@, x);
    let g = replace_all(f, "{y}"@, y);
    let h = replace_all(g, "{created_at}"@, created_at);
    replace_all(h, "{length}"@, length)
}

/// `filled_name_of` with the parts of `p`.
pub open spec fn filled_clip_name(format: Seq<char>, p: ClipNameParts) -> Seq<char> {
    filled_name_of(format, p.title@, p.platform@, p.room_id@, p.live_id@, p.note@, p.x@, p.y@, p.created_at@, p.length@)
}

/// Replacing a whole text that is the pattern gives the replacement.
proof fn lemma_replace_whole(p: Seq<char>, r: Seq<char>)
    requires
        p.len() > 0,
    ensures
        replace_all(p, p, r) == r,
{
    assert(p.take(p.len() as int) =~= p);
    assert(starts_with(p, p));
    let e = p.skip(p.len() as int);
    assert(e =~= Seq::<char>::empty());
    assert(replace_all(e, p, r) == e);
    assert(replace_all(p, p, r) == r + replace_all(e, p, r));
    assert(r + e =~= r);
}

/// A text without `{` holds no placeholder, so replacing one changes nothing.
proof fn lemma_replace_brace_free(s: Seq<char>, p: Seq<char>, r: Seq<char>)
    requires
        !has_char(s, '{'),
        p.len() > 0,
        p[0] == '{',
    ensures
        replace_all(s, p, r) == s,
{
    assert(!contains(s, p)) by {
        if contains(s, p) {
            let i = choose|i: int| occurs_at(s, p, i);
            assert(s.subrange(i, i + p.len())[0] == s[i]);
        }
    }
    crate::laws::lemma_replace_absent(s, p, r);
}

/// A placeholder text (one `{`, at the start) that does not start with
/// another placeholder is left alone by replacing that one.
proof fn lemma_replace_other_placeholder(s: Seq<char>, p: Seq<char>, r: Seq<char>)
    requires
        s.len() > 0,
        s[0] == '{',
        forall|i: int| 1 <= i < s.len() ==> s[i] != '{',
        p.len() > 0,
        p[0] == '{',
        !starts_with(s, p),
    ensures
        replace_all(s, p, r) == s,
{
    assert(!contains(s, p)) by {
        if contains(s, p) {
            let i = choose|i: int| occurs_at(s, p, i);
            assert(s.subrange(i, i + p.len())[0] == s[i]);
            assert(i == 0);
            assert(s.subrange(0, p.len() as int) =~= s.take(p.len() as int));
        }
    }
    crate::laws::lemma_replace_absent(s, p, r);
}

/// Keeping only letters and numbers adds no character.
proof fn lemma_alphanumeric_only_no(s: Seq<char>, c: char)
    requires
        !has_char(s, c),
    ensures
        !has_char(alphanumeric_only(s), c),
    decreases s.len(),
{
    if s.len() > 0 {
        assert(!has_char(s.drop_last(), c)) by {
            if has_char(s.drop_last(), c) {
                let i = choose|i: int| 0 <= i < s.drop_last().len() && s.drop_last()[i] == c;
                assert(s[i] == c);
            }
        }
        lemma_alphanumeric_only_no(s.drop_last(), c);
        assert(s.last() != c) by {
            assert(s[s.len() - 1] == s.last());
        }
        let a = alphanumeric_only(s.drop_last());
        if unicode_alphanumeric(s.last()) {
            assert(!has_char(a.push(s.last()), c)) by {
                if has_char(a.push(s.last()), c) {
                    let i = choose|i: int| 0 <= i < a.push(s.last()).len() && a.push(s.last())[i] == c;
                    if i < a.len() {
                        assert(a[i] == c);
                    }
                }
            }
        }
    }
}

/// Each placeholder of a clip name format is filled with its own detail: a
/// format made of one placeholder alone gives that detail (the title with
/// letters and numbers only), whatever the other details are, as long as
/// the details hold no `{` (which would start another placeholder).
pub proof fn lemma_clip_name_placeholders(
    title: Seq<char>,
    platform: Seq<char>,
    room_id: Seq<char>,
    live_id: Seq<char>,
    note: Seq<char>,
    x: Seq<char>,
    y: Seq<char>,
    created_at: Seq<char>,
    length: Seq<char>,
)
    requires
        !has_char(title, '{'),
        !has_char(platform, '{'),
        !has_char(room_id, '{'),
        !has_char(live_id, '{'),
        !has_char(note, '{'),
        !has_char(x, '{'),
        !has_char(y, '{'),
        !has_char(created_at, '{'),
        !has_char(length, '{'),
    ensures
        filled_name_of("{title}"@, title, platform, room_id, live_id, note, x, y, created_at, length) == alphanumeric_only(title),
        filled_name_of("{platform}"@, title, platform, room_id, live_id, note, x, y, created_at, length) == platform,
        filled_name_of("{room_id}"@, title, platform, room_id, live_id, note, x, y, created_at, length) == room_id,
        filled_name_of("{live_id}"@, title, platform, room_id, live_id, note, x, y, created_at, length) == live_id,
        filled_name_of("{note}"@, title, platform, room_id, live_id, note, x, y, created_at, length) == note,
        filled_name_of("{x}"@, title, platform, room_id, live_id, note, x, y, created_at, length) == x,
        filled_name_of("{y}"@, title, platform, room_id, live_id, note, x, y, created_at, length) == y,
        filled_name_of("{created_at}"@, title, platform, room_id, live_id, note, x, y, created_at, length) == created_at,
        filled_name_of("{length}"@, title, platform, room_id, live_id, note, x, y, created_at, length) == length,
{
    reveal_strlit("{title}");
    reveal_strlit("{platform}");
    reveal_strlit("{room_id}");
    reveal_strlit("{live_id}");
    reveal_strlit("{note}");
    reveal_strlit("{x}");
    reveal_strlit("{y}");
    reveal_strlit("{created_at}");
    reveal_strlit("{length}");
    lemma_alphanumeric_only_no(title, '{');
    // {title}
    {
        let s = "{title}"@;
        lemma_replace_whole(s, alphanumeric_only(title));
        lemma_replace_brace_free(alphanumeric_only(title), "{platform}"@, platform);
        lemma_replace_brace_free(alphanumeric_only(title), "{room_id}"@, room_id);
        lemma_replace_brace_free(alphanumeric_only(title), "{live_id}"@, live_id);
        lemma_replace_brace_free(alphanumeric_only(title), "{note}"@, note);
        lemma_replace_brace_free(alphanumeric_only(title), "{x}"@, x);
        lemma_replace_brace_free(alphanumeric_only(title), "{y}"@, y);
        lemma_replace_brace_free(alphanumeric_only(title), "{created_at}"@, created_at);
        lemma_replace_brace_free(alphanumeric_only(title), "{length}"@, length);
    }
    // {platform}
    {
        let s = "{platform}"@;
        assert(s.take("{title}"@.len() as int)[1] != "{title}"@[1]);
        lemma_replace_other_placeholder(s, "{title}"@, alphanumeric_only(title));
        lemma_replace_whole(s, platform);
        lemma_replace_brace_free(platform, "{room_id}"@, room_id);
        lemma_replace_brace_free(platform, "{live_id}"@, live_id);
        lemma_replace_brace_free(platform, "{note}"@, note);
        lemma_replace_brace_free(platform, "{x}"@, x);
        lemma_replace_brace_free(platform, "{y}"@, y);
        lemma_replace_brace_free(platform, "{created_at}"@, created_at);
        lemma_replace_brace_free(platform, "{length}"@, length);
    }
    // {room_id}
    {
        let s = "{room_id}"@;
        assert(s.take("{title}"@.len() as int)[1] != "{title}"@[1]);
        lemma_replace_other_placeholder(s, "{title}"@, alphanumeric_only(title));
        lemma_replace_other_placeholder(s, "{platform}"@, platform);
        lemma_replace_whole(s, room_id);
        lemma_replace_brace_free(room_id, "{live_id}"@, live_id);
        lemma_replace_brace_free(room_id, "{note}"@, note);
        lemma_replace_brace_free(room_id, "{x}"@, x);
        lemma_replace_brace_free(room_id, "{y}"@, y);
        lemma_replace_brace_free(room_id, "{created_at}"@, created_at);
        lemma_replace_brace_free(room_id, "{length}"@, length);
    }
    // {live_id}
    {
        let s = "{live_id}"@;
        assert(s.take("{title}"@.len() as int)[1] != "{title}"@[1]);
        lemma_replace_other_placeholder(s, "{title}"@, alphanumeric_only(title));
        lemma_replace_other_placeholder(s, "{platform}"@, platform);
        assert(s.take("{room_id}"@.len() as int)[1] != "{room_id}"@[1]);
        lemma_replace_other_placeholder(s, "{room_id}"@, room_id);
        lemma_replace_whole(s, live_id);
        lemma_replace_brace_free(live_id, "{note}"@, note);
        lemma_replace_brace_free(live_id, "{x}"@, x);
        lemma_replace_brace_free(live_id, "{y}"@, y);
        lemma_replace_brace_free(live_id, "{created_at}"@, created_at);
        lemma_replace_brace_free(live_id, "{length}"@, length);
    }
    // {note}
    {
        let s = "{note}"@;
        lemma_replace_other_placeholder(s, "{title}"@, alphanumeric_only(title));
        lemma_replace_other_placeholder(s, "{platform}"@, platform);
        lemma_replace_other_placeholder(s, "{room_id}"@, room_id);
        lemma_replace_other_placeholder(s, "{live_id}"@, live_id);
        lemma_replace_whole(s, note);
        lemma_replace_brace_free(note, "{x}"@, x);
        lemma_replace_brace_free(note, "{y}"@, y);
        lemma_replace_brace_free(note, "{created_at}"@, created_at);
        lemma_replace_brace_free(note, "{length}"@, length);
    }
    // {x}
    {
        let s = "{x}"@;
        lemma_replace_other_placeholder(s, "{title}"@, alphanumeric_only(title));
        lemma_replace_other_placeholder(s, "{platform}"@, platform);
        lemma_replace_other_placeholder(s, "{room_id}"@, room_id);
        lemma_replace_other_placeholder(s, "{live_id}"@, live_id);
        lemma_replace_other_placeholder(s, "{note}"@, note);
        lemma_replace_whole(s, x);
        lemma_replace_brace_free(x, "{y}"@, y);
        lemma_replace_brace_free(x, "{created_at}"@, created_at);
        lemma_replace_brace_free(x, "{length}"@, length);
    }
    // {y}
    {
        let s = "{y}"@;
        lemma_replace_other_placeholder(s, "{title}"@, alphanumeric_only(title));
        lemma_replace_other_placeholder(s, "{platform}"@, platform);
        lemma_replace_other_placeholder(s, "{room_id}"@, room_id);
        lemma_replace_other_placeholder(s, "{live_id}"@, live_id);
        lemma_replace_other_placeholder(s, "{note}"@, note);
        assert(s.take("{x}"@.len() as int)[1] != "{x}"@[1]);
        lemma_replace_other_placeholder(s, "{x}"@, x);
        lemma_replace_whole(s, y);
        lemma_replace_brace_free(y, "{created_at}"@, created_at);
        lemma_replace_brace_free(y, "{length}"@, length);
    }
    // {created_at}
    {
        let s = "{created_at}"@;
        assert(s.take("{title}"@.len() as int)[1] != "{title}"@[1]);
        lemma_replace_other_placeholder(s, "{title}"@, alphanumeric_only(title));
        assert(s.take("{platform}"@.len() as int)[1] != "{platform}"@[1]);
        lemma_replace_other_placeholder(s, "{platform}"@, platform);
        assert(s.take("{room_id}"@.len() as int)[1] != "{room_id}"@[1]);
        lemma_replace_other_placeholder(s, "{room_id}"@, room_id);
        assert(s.take("{live_id}"@.len() as int)[1] != "{live_id}"@[1]);
        lemma_replace_other_placeholder(s, "{live_id}"@, live_id);
        assert(s.take("{note}"@.len() as int)[1] != "{note}"@[1]);
        lemma_replace_other_placeholder(s, "{note}"@, note);
        assert(s.take("{x}"@.len() as int)[1] != "{x}"@[1]);
        lemma_replace_other_placeholder(s, "{x}"@, x);
        assert(s.take("{y}"@.len() as int)[1] != "{y}"@[1]);
        lemma_replace_other_placeholder(s, "{y}"@, y);
        lemma_replace_whole(s, created_at);
        lemma_replace_brace_free(created_at, "{length}"@, length);
    }
    // {length}
    {
        let s = "{length}"@;
        assert(s.take("{title}"@.len() as int)[1] != "{title}"@[1]);
        lemma_replace_other_placeholder(s, "{title}"@, alphanumeric_only(title));
        lemma_replace_other_placeholder(s, "{platform}"@, platform);
        lemma_replace_other_placeholder(s, "{room_id}"@, room_id);
        lemma_replace_other_placeholder(s, "{live_id}"@, live_id);
        assert(s.take("{note}"@.len() as int)[1] != "{note}"@[1]);
        lemma_replace_other_placeholder(s, "{note}"@, note);
        assert(s.take("{x}"@.len() as int)[1] != "{x}"@[1]);
        lemma_replace_other_placeholder(s, "{x}"@, x);
        assert(s.take("{y}"@.len() as int)[1] != "{y}"@[1]);
        lemma_replace_other_placeholder(s, "{y}"@, y);
        lemma_replace_other_placeholder(s, "{created_at}"@, created_at);
        lemma_replace_whole(s, length);
    }
}

/// Every occurrence of a non-empty literal replaced.
fn replace_lit(s: &str, p: &str, rep: &str) -> (r: String)
    requires
        p@.len() > 0,
    ensures
        r@ == replace_all(s@, p@, rep@),
{
    let sc = chars_of(s);
    let pc = chars_of(p);
    let rc = chars_of(rep);
    let out = replace_chars(sc.as_slice(), pc.as_slice(), rc.as_slice());
    string_of(out.as_slice())
}

/// Exec `filled_clip_name`.
pub fn fill_clip_name(format: &str, p: &ClipNameParts) -> (r: String)
    ensures
        r@ == filled_clip_name(format@, *p),
{
    proof {
        reveal_strlit("{title}");
        reveal_strlit("{platform}");
        reveal_strlit("{room_id}");
        reveal_strlit("{live_id}");
        reveal_strlit("{note}");
        reveal_strlit("{x}");
        reveal_strlit("{y}");
        reveal_strlit("{created_at}");
        reveal_strlit("{length}");
    }
    let title = clip_title(p.title.as_str());
    let a = replace_lit(format, "{title}", title.as_str());
    let b = replace_lit(a.as_str(), "{platform}", p.platform.as_str());
    let c = replace_lit(b.as_str(), "{room_id}", p.room_id.as_str());
    let d = replace_lit(c.as_str(), "{live_id}", p.live_id.as_str());
    let e = replace_lit(d.as_str(), "{note}", p.note.as_str());
    let f = replace_lit(e.as_str(), "{x}", p.x.as_str());
    let g = replace_lit(f.as_str(), "{y}", p.y.as_str());
    let h = replace_lit(g.as_str(), "{created_at}", p.created_at.as_str());
    replace_lit(h.as_str(), "{length}", p.length.as_str())
}

/// The file name of a clip: the format filled in (`filled_clip_name`), then
/// made safe as a file name (`sanitized_from`).
pub fn generate_clip_name(format: &str, p: &ClipNameParts) -> (r: String)
    ensures
        sanitized_from(r@, filled_clip_name(format@, *p)),
{
    let filled = fill_clip_name(format, p);
    sanitize_file_name(filled.as_str())
}


/// A folder that a file name is joined to with one separator: not empty,
/// not ending in `/`, and without `\\` or `:` (so no drive or verbatim
/// prefix on any platform).
pub open spec fn plain_folder(s: Seq<char>) -> bool {
    &&& s.len() > 0
    &&& s.last() != '/'
    &&& forall|i: int| 0 <= i < s.len() ==> s[i] != '\\' && s[i] != ':'
}

/// `path` is `dir` joined with `rel` as `Path::join` does it on any
/// platform, when `dir` is a plain folder and `rel` is relative everywhere
/// (`surely_relative`): the folder, a separator (`/`, or a backslash on
/// Windows) and `rel`. Of other paths nothing is said.
pub open spec fn joined_path(path: Seq<char>, dir: Seq<char>, rel: Seq<char>) -> bool {
    plain_folder(dir) && crate::config::surely_relative(rel) ==> path == dir.push('/') + rel || path
        == dir.push('\\') + rel
}

/// Calls `std::path::Path::join` and gives the result as text. As
/// documented (`PathBuf::push`), a relative path extends the folder: for a
/// plain folder (no drive or verbatim prefix, not ending in a separator)
/// and a path without a root or a prefix, the result is the folder, the
/// platform's separator and the path (`joined_path`). Which of the two
/// separators is left open, and of other paths nothing is stated.
#[verifier::external_body]
pub(crate) fn join_path(dir: &str, rel: &str) -> (r: String)
    ensures
        joined_path(r@, dir@, rel@),
{
    std::path::Path::new(dir).join(rel).to_string_lossy().into_owned()
}

/// A range of a clip, its ends in seconds as text (as `f64` writes them).
#[derive(Debug)]
pub struct ClipRange {
    pub start: String,
    pub end: String,
}

/// What a clip is made from: its title and note, the cover, the live it
/// comes from, its ranges, and how it is encoded.
#[derive(Debug)]
pub struct ClipRangeParams {
    pub title: String,
    pub note: String,
    pub cover: String,
    pub platform: String,
    pub room_id: String,
    pub live_id: String,
    pub ranges: Vec<ClipRange>,
    /// Encode danmu after clip.
    pub danmu: bool,
    pub local_offset: i64,
    /// Fix encoding after clip.
    pub fix_encoding: bool,
    /// Transition effect between multiple clipped ranges.
    pub transition: Option<String>,
}

/// `{x}` of a clip name: the start of the first range, `0` without ranges.
pub open spec fn first_start_text(ranges: Seq<ClipRange>) -> Seq<char> {
    if ranges.len() == 0 {
        "0"@
    } else {
        ranges[0].start@
    }
}

/// `{y}` of a clip name: the end of the last range, `0` without ranges.
pub open spec fn last_end_text(ranges: Seq<ClipRange>) -> Seq<char> {
    if ranges.len() == 0 {
        "0"@
    } else {
        ranges.last().end@
    }
}

/// The name parts of a clip: its details, `{x}` and `{y}` from its ranges,
/// the time it is made and its length (both as text).
pub fn clip_name_parts(params: &ClipRangeParams, created_at: &str, length: &str) -> (r: ClipNameParts)
    ensures
        r.title@ == params.title@,
        r.platform@ == params.platform@,
        r.room_id@ == params.room_id@,
        r.live_id@ == params.live_id@,
        r.note@ == params.note@,
        r.x@ == first_start_text(params.ranges@),
        r.y@ == last_end_text(params.ranges@),
        r.created_at@ == created_at@,
        r.length@ == length@,
{
    let n = params.ranges.len();
    let x = if n == 0 {
        to_string_of("0")
    } else {
        params.ranges[0].start.clone()
    };
    let y = if n == 0 {
        to_string_of("0")
    } else {
        params.ranges[n - 1].end.clone()
    };
    ClipNameParts {
        title: params.title.clone(),
        platform: params.platform.clone(),
        room_id: params.room_id.clone(),
        live_id: params.live_id.clone(),
        note: params.note.clone(),
        x,
        y,
        created_at: to_string_of(created_at),
        length: to_string_of(length),
    }
}

impl Config {
    /// The path of a clip: the clip name format filled in from the clip
    /// (`filled_name_of`; `created_at` is the local time it is made and
    /// `length` the ranges' total length, as text), made safe as a file
    /// name (`sanitized_from`) and joined to the output folder.
    pub fn generate_clip_name(&self, params: &ClipRangeParams, created_at: &str, length: &str) -> (r: String)
        ensures
            ({
                let filled = filled_name_of(
                    self.clip_name_format@,
                    params.title@,
                    params.platform@,
                    params.room_id@,
                    params.live_id@,
                    params.note@,
                    first_start_text(params.ranges@),
                    last_end_text(params.ranges@),
                    created_at@,
                    length@,
                );
                exists|name: Seq<char>|
                    #![trigger sanitized_from(name, filled)]
                    sanitized_from(name, filled) && (plain_folder(self.output@) && plain_file_name(name) ==> r@
                        == self.output@.push('/') + name || r@ == self.output@.push('\\') + name)
            }),
    {
        let parts = clip_name_parts(params, created_at, length);
        let name = generate_clip_name(self.clip_name_format.as_str(), &parts);
        let r = join_path(self.output.as_str(), name.as_str());
        assert(sanitized_from(name@, filled_clip_name(self.clip_name_format@, parts)));
        proof {
            if plain_file_name(name@) {
                assert(!has_char(name@, ':'));
                assert(name@[0] != '/' && name@[0] != '\\');
            }
        }
        r
    }
}
} // verus!
