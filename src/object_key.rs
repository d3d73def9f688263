//! Image identifiers and the derivation of an image's object key from its
//! owner's namespace, its id and the extension of its file name.
use vstd::arithmetic::power::pow;
use vstd::prelude::*;
use vstd::string::*;

use crate::text::{push_char, str_eq};

verus! {

/// The lower-case hexadecimal digits.
pub open spec fn hex_digits() -> Seq<char> {
    seq!['0', '1', '2', '3', '4', '5', '6', '7', '8', '9', 'a', 'b', 'c', 'd', 'e', 'f']
}

/// The `i`-th of the 32 hexadecimal digits of `id`, most significant first.
pub open spec fn nibble(id: u128, i: int) -> int {
    (id as int / pow(16, (31 - i) as nat)) % 16
}

/// The 32 lower-case hexadecimal digits of `id`, most significant first.
pub open spec fn hex_text(id: u128) -> Seq<char> {
    Seq::new(32, |i: int| hex_digits()[nibble(id, i)])
}

/// The hyphenated lower-case text of an image id: its 32 hexadecimal digits
/// in groups of 8, 4, 4, 4 and 12.
pub open spec fn uuid_text(id: u128) -> Seq<char> {
    let h = hex_text(id);
    h.subrange(0, 8) + seq!['-'] + h.subrange(8, 12) + seq!['-'] + h.subrange(12, 16) + seq!['-']
        + h.subrange(16, 20) + seq!['-'] + h.subrange(20, 32)
}

/// The image id that a text denotes, if it is a well-formed UUID.
pub uninterp spec fn uuid_parse(s: Seq<char>) -> Option<u128>;

/// Relies on `uuid::Uuid::from_u128` (big-endian bytes) and `Uuid`'s
/// `Display` (the hyphenated lower-case form of those bytes).
#[verifier::external_body]
pub(crate) fn uuid_to_text(id: u128) -> (r: String)
    ensures
        r@ == uuid_text(id),
{
    uuid::Uuid::from_u128(id).to_string()
}

/// Relies on `uuid::Uuid::parse_str`: accepts the textual forms of a UUID,
/// a function of the text alone.
#[verifier::external_body]
fn uuid_from_text(s: &str) -> (r: Option<u128>)
    ensures
        r == uuid_parse(s@),
{
    match uuid::Uuid::parse_str(s) {
        Ok(u) => Some(u.as_u128()),
        Err(_) => None,
    }
}

/// Relies on `uuid::Uuid::now_v7`: a fresh, time-ordered id. Nothing is
/// promised of its value.
#[verifier::external_body]
pub(crate) fn new_image_id() -> (r: u128) {
    uuid::Uuid::now_v7().as_u128()
}

/// Parses the textual id of an image; `None` if it is not a UUID.
pub fn parse_image_id(s: &str) -> (r: Option<u128>)
    ensures
        r == uuid_parse(s@),
{
    uuid_from_text(s)
}

/// The text of an image id, as it appears in object keys.
pub fn image_id_text(id: u128) -> (r: String)
    ensures
        r@ == uuid_text(id),
{
    uuid_to_text(id)
}

/// Index of the last occurrence of `c` in `s`, or -1.
pub open spec fn last_index_of(s: Seq<char>, c: char) -> int
    decreases s.len(),
{
    if s.len() == 0 {
        -1
    } else if s.last() == c {
        s.len() - 1
    } else {
        last_index_of(s.drop_last(), c)
    }
}

pub proof fn lemma_last_index_bounds(s: Seq<char>, c: char)
    ensures
        -1 <= last_index_of(s, c) < s.len(),
        last_index_of(s, c) >= 0 ==> s[last_index_of(s, c)] == c,
    decreases s.len(),
{
    if s.len() > 0 && s.last() != c {
        lemma_last_index_bounds(s.drop_last(), c);
    }
}

/// The final component of a `/`-separated path: trailing separators and `.`
/// components are ignored; none if the path is empty, a root, or ends in `..`.
pub open spec fn file_name_of(s: Seq<char>) -> Option<Seq<char>>
    decreases s.len(),
{
    if s.len() == 0 {
        None
    } else if s.last() == '/' {
        file_name_of(s.drop_last())
    } else if s.last() == '.' && (s.len() == 1 || s[s.len() - 2] == '/') {
        file_name_of(s.drop_last())
    } else {
        let seg = s.skip(last_index_of(s, '/') + 1);
        if seg == seq!['.', '.'] {
            None
        } else {
            Some(seg)
        }
    }
}

/// The part of a file name after its last `.`; none if it has no `.` or its
/// only `.` is the first character.
pub open spec fn extension_of_name(f: Seq<char>) -> Option<Seq<char>> {
    let k = last_index_of(f, '.');
    if k <= 0 {
        None
    } else {
        Some(f.skip(k + 1))
    }
}

/// The extension of the file name of a path.
pub open spec fn path_extension(s: Seq<char>) -> Option<Seq<char>> {
    match file_name_of(s) {
        Some(f) => extension_of_name(f),
        None => None,
    }
}

/// The extension used in object keys: the file name's, else `jpg`.
pub open spec fn key_extension(name: Seq<char>) -> Seq<char> {
    match path_extension(name) {
        Some(e) => e,
        None => seq!['j', 'p', 'g'],
    }
}

/// The object key of image `id` in namespace `base`, with key extension `ext`.
pub open spec fn object_key(base: Seq<char>, id: u128, ext: Seq<char>) -> Seq<char> {
    base + seq!['/'] + uuid_text(id) + seq!['.'] + ext
}

/// Last index `< end` at which `s` holds `c`.
fn last_index_before(s: &str, end: usize, c: char) -> (r: Option<usize>)
    requires
        end <= s@.len(),
    ensures
        r matches Some(k) ==> k as int == last_index_of(s@.take(end as int), c),
        r is None ==> last_index_of(s@.take(end as int), c) == -1,
{
    let mut i = end;
    while i > 0
        invariant
            i <= end <= s@.len(),
            last_index_of(s@.take(end as int), c) == last_index_of(s@.take(i as int), c),
        decreases i,
    {
        assert(s@.take(i as int).last() == s@[i - 1]);
        if s.get_char(i - 1) == c {
            return Some(i - 1);
        }
        assert(s@.take(i as int).drop_last() =~= s@.take(i - 1));
        i -= 1;
    }
    None
}

/// The extension of the file name of `path`, as `Path::extension` finds it.
pub fn file_extension(path: &str) -> (r: Option<&str>)
    ensures
        r matches Some(e) ==> path_extension(path@) == Some(e@),
        r is None ==> path_extension(path@) is None,
{
    let n = path.unicode_len();
    let mut end = n;
    assert(path@.take(n as int) =~= path@);
    while end > 0 && (path.get_char(end - 1) == '/' || (path.get_char(end - 1) == '.' && (end == 1
        || path.get_char(end - 2) == '/')))
        invariant
            end <= n == path@.len(),
            file_name_of(path@) == file_name_of(path@.take(end as int)),
        decreases end,
    {
        assert(path@.take(end as int).drop_last() =~= path@.take(end - 1));
        end -= 1;
    }
    let t = Ghost(path@.take(end as int));
    if end == 0 {
        return None;
    }
    proof {
        lemma_last_index_bounds(t@, '/');
    }
    let start = match last_index_before(path, end, '/') {
        Some(k) => k + 1,
        None => 0,
    };
    let seg = path.substring_char(start, end);
    assert(seg@ =~= t@.skip(last_index_of(t@, '/') + 1));
    proof {
        reveal_strlit("..");
    }
    assert(".."@ =~= seq!['.', '.']);
    if str_eq(seg, "..") {
        return None;
    }
    assert(file_name_of(path@) == Some(seg@));
    let m = seg.unicode_len();
    proof {
        lemma_last_index_bounds(seg@.take(m as int), '.');
    }
    match last_index_before(seg, m, '.') {
        Some(k) => {
            assert(seg@.take(m as int) =~= seg@);
            if k == 0 {
                None
            } else {
                let e = seg.substring_char(k + 1, m);
                assert(e@ =~= seg@.skip(k + 1));
                Some(e)
            }
        },
        None => {
            assert(seg@.take(m as int) =~= seg@);
            None
        },
    }
}

/// The key extension for a file named `name`: its extension, else `jpg`.
pub fn key_extension_text(name: &str) -> (r: String)
    ensures
        r@ == key_extension(name@),
{
    match file_extension(name) {
        Some(e) => String::from_str(e),
        None => {
            proof {
                reveal_strlit("jpg");
            }
            assert("jpg"@ =~= seq!['j', 'p', 'g']);
            String::from_str("jpg")
        },
    }
}

/// Object key `base/<id>.<extension>`.
pub fn object_path(base_path: &str, image_id: u128, extension: &str) -> (r: String)
    ensures
        r@ == object_key(base_path@, image_id, extension@),
{
    let mut key = String::from_str(base_path);
    push_char(&mut key, '/');
    let id_text = uuid_to_text(image_id);
    key.append(id_text.as_str());
    push_char(&mut key, '.');
    key.append(extension);
    assert(key@ =~= object_key(base_path@, image_id, extension@));
    key
}

/// Object key of an image first stored under `image_name`: `base/<id>.<ext>`,
/// where `ext` is the extension of `image_name` or `jpg` when it has none.
pub fn get_object_path(base_path: &str, image_id: u128, image_name: &str) -> (r: String)
    ensures
        r@ == object_key(base_path@, image_id, key_extension(image_name@)),
{
    let ext = key_extension_text(image_name);
    object_path(base_path, image_id, ext.as_str())
}

} // verus!
